//! Project names and the place of a project's result cache.

use crate::errors::NyxError;
use crate::ext::{file_name, file_name_of};
use crate::text::{chars_of, string_from_chars};
use vstd::prelude::*;
use vstd::string::StringExecFns;

verus! {

/// What `str::to_lowercase` gives for a text: its lower-casing by the rules
/// of Unicode.
pub uninterp spec fn unicode_lowercase(s: Seq<char>) -> Seq<char>;

/// What `char::is_alphanumeric` gives for a character: whether Unicode
/// counts it as a letter or a number.
pub uninterp spec fn unicode_alphanumeric(c: char) -> bool;

/// `str::to_lowercase`.
#[verifier::external_body]
fn to_lowercase(s: &str) -> (r: String)
    ensures
        r@ == unicode_lowercase(s@),
{
    s.to_lowercase()
}

/// `char::is_alphanumeric`.
#[verifier::external_body]
fn is_alphanumeric(c: char) -> (r: bool)
    ensures
        r == unicode_alphanumeric(c),
{
    c.is_alphanumeric()
}

/// A character of a name, or `_` in its place: letters and numbers stay,
/// everything else becomes `_`.
pub open spec fn kept_char(c: char, alphanumeric: bool) -> char {
    if alphanumeric {
        c
    } else {
        '_'
    }
}

/// The first `k` characters, each kept or replaced.
pub open spec fn kept(chars: Seq<char>, flags: Seq<bool>, k: int) -> Seq<char> {
    Seq::new(
        if 0 <= k <= chars.len() && k <= flags.len() {
            k as nat
        } else {
            0
        },
        |i: int| kept_char(chars[i], flags[i]),
    )
}

/// The text without `_` at its ends and with every run of `_` inside it
/// reduced to one. That nothing is left of `_` at the ends is intended: a
/// stored name neither begins nor ends with a character that stands for
/// something else.
pub open spec fn squeezed(s: Seq<char>) -> Seq<char>
    decreases s.len(),
{
    if s.len() == 0 {
        Seq::empty()
    } else {
        let r = squeezed(s.drop_last());
        if s.last() == '_' {
            r
        } else if r.len() > 0 && s.len() >= 2 && s[s.len() - 2] == '_' {
            r.push('_').push(s.last())
        } else {
            r.push(s.last())
        }
    }
}

/// The name under which a project is stored, from its lower-cased name and,
/// for each of its characters, whether it is a letter or a number.
pub open spec fn stored_name(lowered: Seq<char>, flags: Seq<bool>) -> Seq<char> {
    squeezed(kept(lowered, flags, lowered.len() as int))
}

pub open spec fn alphanumeric_flags(s: Seq<char>) -> Seq<bool> {
    Seq::new(s.len(), |i: int| unicode_alphanumeric(s[i]))
}

/// A text that neither begins nor ends with `_` and holds no two `_` in a
/// row.
pub open spec fn is_squeezed(r: Seq<char>) -> bool {
    &&& r.len() > 0 ==> r[0] != '_' && r.last() != '_'
    &&& forall|j: int| 0 <= j < r.len() - 1 ==> !(#[trigger] r[j] == '_' && r[j + 1] == '_')
}

/// What is left of a text is squeezed, and each of its characters other
/// than `_` is one of the text.
pub proof fn lemma_squeezed(s: Seq<char>)
    ensures
        is_squeezed(squeezed(s)),
        forall|j: int|
            0 <= j < squeezed(s).len() && #[trigger] squeezed(s)[j] != '_' ==> s.contains(
                squeezed(s)[j],
            ),
    decreases s.len(),
{
    if s.len() > 0 {
        let t = s.drop_last();
        lemma_squeezed(t);
        let r = squeezed(s);
        assert forall|j: int| 0 <= j < r.len() && #[trigger] r[j] != '_' implies s.contains(
            r[j],
        ) by {
            if j < squeezed(t).len() && r[j] == squeezed(t)[j] {
                let i = choose|i: int| 0 <= i < t.len() && t[i] == r[j];
                assert(s[i] == r[j]);
            } else {
                assert(s[s.len() - 1] == r[j]);
            }
        }
    }
}

/// A squeezed text is left as it is.
pub proof fn lemma_squeezed_stays(r: Seq<char>)
    requires
        is_squeezed(r),
    ensures
        squeezed(r) == r,
{
    lemma_squeezed_front(r, r.len() as int);
    assert(r.take(r.len() as int) =~= r);
}

proof fn lemma_squeezed_front(r: Seq<char>, k: int)
    requires
        is_squeezed(r),
        0 <= k <= r.len(),
    ensures
        squeezed(r.take(k)) == if k > 0 && r[k - 1] == '_' {
            r.take(k - 1)
        } else {
            r.take(k)
        },
    decreases k,
{
    if k > 0 {
        lemma_squeezed_front(r, k - 1);
        let s = r.take(k);
        assert(s.drop_last() =~= r.take(k - 1));
        if r[k - 1] != '_' {
            if k >= 2 && r[k - 2] == '_' {
                assert(r.take(k - 2).push('_').push(r[k - 1]) =~= s);
            } else {
                assert(r.take(k - 1).push(r[k - 1]) =~= s);
            }
        }
    } else {
        assert(r.take(0) =~= Seq::<char>::empty());
    }
}

/// A stored name is stored as itself, as long as each of its characters
/// other than `_` is still taken as a letter or a number.
pub proof fn lemma_stored_name_stays(lowered: Seq<char>, flags: Seq<bool>, again: Seq<bool>)
    requires
        lowered.len() == flags.len(),
        again.len() == stored_name(lowered, flags).len(),
        forall|j: int|
            0 <= j < again.len() && stored_name(lowered, flags)[j] != '_' ==> #[trigger] again[j],
    ensures
        stored_name(stored_name(lowered, flags), again) == stored_name(lowered, flags),
{
    let r = stored_name(lowered, flags);
    lemma_squeezed(kept(lowered, flags, lowered.len() as int));
    assert(kept(r, again, r.len() as int) =~= r);
    lemma_squeezed_stays(r);
}

/// Replaces what may not stand in a stored name by `_`, drops `_` at the
/// ends and reduces runs of `_` to one.
pub fn squeeze_name(lowered: &Vec<char>, flags: &Vec<bool>) -> (r: String)
    requires
        lowered@.len() == flags@.len(),
    ensures
        r@ == stored_name(lowered@, flags@),
        is_squeezed(r@),
{
    let n = lowered.len();
    let ghost all = kept(lowered@, flags@, n as int);
    let mut out: Vec<char> = Vec::new();
    let mut gap = false;
    let mut i: usize = 0;
    while i < n
        invariant
            i <= n,
            n == lowered@.len(),
            n == flags@.len(),
            all == kept(lowered@, flags@, n as int),
            out@ == squeezed(all.take(i as int)),
            gap == (i > 0 && all[i - 1] == '_'),
        decreases n - i,
    {
        let c = lowered[i];
        let k = if flags[i] {
            c
        } else {
            '_'
        };
        proof {
            let now = all.take(i + 1);
            assert(now.drop_last() =~= all.take(i as int));
        }
        if k != '_' {
            if gap && out.len() > 0 {
                out.push('_');
            }
            out.push(k);
        }
        gap = k == '_';
        i += 1;
    }
    assert(all.take(n as int) =~= all);
    proof {
        lemma_squeezed(all);
    }
    string_from_chars(out.as_slice())
}

/// The name under which a project is stored: its name in lower case, with
/// `_` for every character that is neither a letter nor a number, without
/// `_` at its ends and without runs of `_`.
pub fn sanitize_project_name(name: &str) -> (r: String)
    ensures
        r@ == stored_name(
            unicode_lowercase(name@),
            alphanumeric_flags(unicode_lowercase(name@)),
        ),
        is_squeezed(r@),
        forall|j: int| 0 <= j < r@.len() ==> #[trigger] r@[j] == '_' || unicode_alphanumeric(r@[j]),
{
    let lowered = to_lowercase(name);
    let chars = chars_of(lowered.as_str());
    let mut flags: Vec<bool> = Vec::new();
    let mut i: usize = 0;
    while i < chars.len()
        invariant
            i <= chars.len(),
            flags@.len() == i,
            forall|j: int| 0 <= j < i ==> flags@[j] == unicode_alphanumeric(chars@[j]),
        decreases chars.len() - i,
    {
        flags.push(is_alphanumeric(chars[i]));
        i += 1;
    }
    assert(flags@ =~= alphanumeric_flags(chars@));
    let r = squeeze_name(&chars, &flags);
    proof {
        let all = kept(chars@, flags@, chars@.len() as int);
        lemma_squeezed(all);
        assert forall|j: int| 0 <= j < r@.len() implies #[trigger] r@[j] == '_'
            || unicode_alphanumeric(r@[j]) by {
            if r@[j] != '_' {
                let i = choose|i: int| 0 <= i < all.len() && all[i] == r@[j];
                assert(flags@[i]);
            }
        }
    }
    r
}

/// The path of the cache of a project in a directory: the directory, a `/`
/// where it does not end in one, the stored name and `.sqlite`.
pub open spec fn cache_path(config_dir: Seq<char>, stored: Seq<char>) -> Seq<char> {
    if config_dir.len() == 0 || config_dir.last() == '/' {
        config_dir + stored + ".sqlite"@
    } else {
        config_dir + "/"@ + stored + ".sqlite"@
    }
}

/// The name of the project at a path, which is the file name of the path,
/// and the path of its cache in `config_dir`. It is an error when the path
/// has no file name: when it ends in `..`, or holds nothing but `/` and `.`.
pub fn get_project_info(project_path: &str, config_dir: &str) -> (r: Result<(String, String), NyxError>)
    ensures
        match r {
            Ok((name, db_path)) => {
                &&& file_name_of(project_path@).len() > 0
                &&& name@ == file_name_of(project_path@)
                &&& db_path@ == cache_path(
                    config_dir@,
                    stored_name(
                        unicode_lowercase(name@),
                        alphanumeric_flags(unicode_lowercase(name@)),
                    ),
                )
            },
            Err(e) => {
                &&& file_name_of(project_path@).len() == 0
                &&& e matches NyxError::Other(m)
                &&& m@ == "Unable to determine project name"@
            },
        },
{
    let name_chars = file_name(project_path);
    if name_chars.len() == 0 {
        return Err(NyxError::Other(String::from_str("Unable to determine project name")));
    }
    let name = string_from_chars(name_chars.as_slice());
    let stored = sanitize_project_name(name.as_str());
    let dir = chars_of(config_dir);
    let base = String::from_str(config_dir);
    let with_slash = if dir.len() == 0 || dir[dir.len() - 1] == '/' {
        base
    } else {
        base.concat("/")
    };
    let db_path = with_slash.concat(stored.as_str()).concat(".sqlite");
    Ok((name, db_path))
}

} // verus!
