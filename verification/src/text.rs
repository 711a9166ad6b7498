//! Text primitives: character sequences, ASCII case folding, trimming and
//! the prefix and suffix tests used when matching label rules.

use vstd::prelude::*;
use vstd::utf8::{decode_utf8, encode_utf8, valid_utf8};

verus! {

/// ASCII lower-casing of one character; every other character is unchanged.
pub open spec fn lower_char(c: char) -> char {
    if 'A' <= c && c <= 'Z' {
        ((c as u8) + 32) as char
    } else {
        c
    }
}

/// ASCII lower-casing of a text, character by character.
pub open spec fn lower_ascii(s: Seq<char>) -> Seq<char> {
    Seq::new(s.len(), |i: int| lower_char(s[i]))
}

/// The characters with the Unicode property `White_Space`.
pub open spec fn is_space(c: char) -> bool {
    let u = c as u32;
    ||| 0x09 <= u <= 0x0D
    ||| u == 0x20
    ||| u == 0x85
    ||| u == 0xA0
    ||| u == 0x1680
    ||| 0x2000 <= u <= 0x200A
    ||| u == 0x2028
    ||| u == 0x2029
    ||| u == 0x202F
    ||| u == 0x205F
    ||| u == 0x3000
}

/// The first index at or after `i` that holds no white space, or the length.
pub open spec fn skip_spaces(s: Seq<char>, i: int) -> int
    decreases s.len() - i,
{
    if 0 <= i < s.len() && is_space(s[i]) {
        skip_spaces(s, i + 1)
    } else {
        i
    }
}

/// The end of the text once trailing white space after `lo` is cut off.
pub open spec fn back_spaces(s: Seq<char>, j: int, lo: int) -> int
    decreases j,
{
    if 0 <= lo < j <= s.len() && is_space(s[j - 1]) {
        back_spaces(s, j - 1, lo)
    } else {
        j
    }
}

/// The text without leading and trailing white space.
pub open spec fn trimmed(s: Seq<char>) -> Seq<char> {
    let lo = skip_spaces(s, 0);
    let hi = back_spaces(s, s.len() as int, lo);
    s.subrange(lo, hi)
}

/// The first index at or after `i` that holds `(` or `<`, or the length.
pub open spec fn head_end(s: Seq<char>, i: int) -> int
    decreases s.len() - i,
{
    if 0 <= i < s.len() && s[i] != '(' && s[i] != '<' {
        head_end(s, i + 1)
    } else {
        i
    }
}

/// The head of a text: everything before the first `(` or `<`, trimmed and
/// lower-cased.
pub open spec fn normalized_head(s: Seq<char>) -> Seq<char> {
    lower_ascii(trimmed(s.take(head_end(s, 0))))
}

pub open spec fn starts_with(s: Seq<char>, p: Seq<char>) -> bool {
    p.len() <= s.len() && s.take(p.len() as int) == p
}

pub open spec fn ends_with(s: Seq<char>, p: Seq<char>) -> bool {
    p.len() <= s.len() && s.skip(s.len() - p.len()) == p
}

/// `std::str::from_utf8`: the text that the bytes encode, when they are
/// well-formed UTF-8, and nothing otherwise.
#[verifier::external_body]
pub(crate) fn utf8_text(bytes: &[u8]) -> (r: Option<String>)
    ensures
        r is Some <==> valid_utf8(bytes@),
        r matches Some(s) ==> s@ == decode_utf8(bytes@),
{
    match std::str::from_utf8(bytes) {
        Ok(s) => Some(s.to_string()),
        Err(_) => None,
    }
}

/// `String::from_iter` over the characters of a slice: the string that
/// holds exactly these characters.
#[verifier::external_body]
pub(crate) fn string_from_chars(v: &[char]) -> (r: String)
    ensures
        r@ == v@,
{
    String::from_iter(v.iter())
}

/// The characters of a string slice.
pub fn chars_of(s: &str) -> (v: Vec<char>)
    ensures
        v@ == s@,
{
    broadcast use vstd::string::group_string_axioms;

    let mut v: Vec<char> = Vec::new();
    let chars = s.chars();
    for c in it: chars
        invariant
            it.seq() == s@,
            v@ == it.seq().take(it.index()),
    {
        v.push(c);
    }
    v
}

/// Whether two string slices hold the same characters.
pub fn str_eq(a: &str, b: &str) -> (r: bool)
    ensures
        r == (a@ == b@),
{
    let x = a.as_bytes();
    let y = b.as_bytes();
    proof {
        vstd::utf8::encode_utf8_decode_utf8(a@);
        vstd::utf8::encode_utf8_decode_utf8(b@);
    }
    if x.len() != y.len() {
        return false;
    }
    let mut i: usize = 0;
    while i < x.len()
        invariant
            i <= x.len(),
            x.len() == y.len(),
            x@ == encode_utf8(a@),
            y@ == encode_utf8(b@),
            forall|k: int| 0 <= k < i ==> x@[k] == y@[k],
        decreases x.len() - i,
    {
        if x[i] != y[i] {
            return false;
        }
        i += 1;
    }
    assert(x@ =~= y@);
    true
}

pub fn to_lower_char(c: char) -> (r: char)
    ensures
        r == lower_char(c),
{
    if 'A' <= c && c <= 'Z' {
        let b: u8 = c as u8;
        let l: u8 = b + 32;
        l as char
    } else {
        c
    }
}

pub fn is_space_char(c: char) -> (r: bool)
    ensures
        r == is_space(c),
{
    let u: u32 = c as u32;
    (0x09 <= u && u <= 0x0D) || u == 0x20 || u == 0x85 || u == 0xA0 || u == 0x1680 || (0x2000 <= u
        && u <= 0x200A) || u == 0x2028 || u == 0x2029 || u == 0x202F || u == 0x205F || u == 0x3000
}

/// The normalized head of `text`, as characters.
pub fn head_chars(text: &str) -> (v: Vec<char>)
    ensures
        v@ == normalized_head(text@),
{
    let cs = chars_of(text);
    let n = cs.len();
    let mut end: usize = 0;
    while end < n && cs[end] != '(' && cs[end] != '<'
        invariant
            end <= n,
            n == cs@.len(),
            head_end(cs@, 0) == head_end(cs@, end as int),
        decreases n - end,
    {
        end += 1;
    }
    let ghost head = cs@.take(end as int);
    let mut lo: usize = 0;
    while lo < end && is_space_char(cs[lo])
        invariant
            lo <= end <= n,
            n == cs@.len(),
            head == cs@.take(end as int),
            skip_spaces(head, 0) == skip_spaces(head, lo as int),
        decreases end - lo,
    {
        lo += 1;
    }
    let mut hi: usize = end;
    while lo < hi && is_space_char(cs[hi - 1])
        invariant
            lo <= hi <= end <= n,
            n == cs@.len(),
            head == cs@.take(end as int),
            back_spaces(head, head.len() as int, lo as int) == back_spaces(
                head,
                hi as int,
                lo as int,
            ),
        decreases hi - lo,
    {
        hi -= 1;
    }
    let mut out: Vec<char> = Vec::new();
    let mut i: usize = lo;
    while i < hi
        invariant
            lo <= i <= hi <= end <= n,
            n == cs@.len(),
            head == cs@.take(end as int),
            out@ == lower_ascii(head.subrange(lo as int, i as int)),
        decreases hi - i,
    {
        out.push(to_lower_char(cs[i]));
        i += 1;
    }
    out
}

/// Whether `s` begins with `p`.
pub fn has_prefix(s: &Vec<char>, p: &Vec<char>) -> (r: bool)
    ensures
        r == starts_with(s@, p@),
{
    if p.len() > s.len() {
        return false;
    }
    let mut i: usize = 0;
    while i < p.len()
        invariant
            i <= p.len() <= s.len(),
            forall|k: int| 0 <= k < i ==> s@[k] == p@[k],
        decreases p.len() - i,
    {
        if s[i] != p[i] {
            return false;
        }
        i += 1;
    }
    assert(s@.take(p.len() as int) =~= p@);
    true
}

/// Whether `s` ends with `p`.
pub fn has_suffix(s: &Vec<char>, p: &Vec<char>) -> (r: bool)
    ensures
        r == ends_with(s@, p@),
{
    if p.len() > s.len() {
        return false;
    }
    let off = s.len() - p.len();
    let mut i: usize = 0;
    while i < p.len()
        invariant
            i <= p.len() <= s.len(),
            off == s.len() - p.len(),
            forall|k: int| 0 <= k < i ==> s@[off + k] == p@[k],
        decreases p.len() - i,
    {
        if s[off + i] != p[i] {
            return false;
        }
        i += 1;
    }
    assert(s@.skip(off as int) =~= p@);
    true
}

/// Whether two lists hold the same characters.
pub fn same_chars(a: &Vec<char>, b: &Vec<char>) -> (r: bool)
    ensures
        r == (a@ == b@),
{
    if a.len() != b.len() {
        return false;
    }
    let mut i: usize = 0;
    while i < a.len()
        invariant
            i <= a.len(),
            a.len() == b.len(),
            forall|k: int| 0 <= k < i ==> a@[k] == b@[k],
        decreases a.len() - i,
    {
        if a[i] != b[i] {
            return false;
        }
        i += 1;
    }
    assert(a@ =~= b@);
    true
}

/// Whether the characters are those of the text.
pub fn chars_are(v: &Vec<char>, text: &str) -> (r: bool)
    ensures
        r == (v@ == text@),
{
    let w = chars_of(text);
    same_chars(v, &w)
}

/// The ASCII lower-casing of `s`, as characters.
pub fn lower_chars(s: &str) -> (v: Vec<char>)
    ensures
        v@ == lower_ascii(s@),
{
    let cs = chars_of(s);
    let mut out: Vec<char> = Vec::new();
    let mut i: usize = 0;
    while i < cs.len()
        invariant
            i <= cs.len(),
            cs@ == s@,
            out@ == lower_ascii(cs@.take(i as int)),
        decreases cs.len() - i,
    {
        out.push(to_lower_char(cs[i]));
        i += 1;
    }
    out
}

/// Whether `a` comes before `b` when both are compared byte by byte from
/// index `i` on, a proper prefix coming first.
pub open spec fn bytes_before(a: Seq<u8>, b: Seq<u8>, i: int) -> bool
    decreases b.len() - i,
{
    if i < 0 || i >= b.len() {
        false
    } else if i >= a.len() {
        true
    } else if a[i] != b[i] {
        a[i] < b[i]
    } else {
        bytes_before(a, b, i + 1)
    }
}

/// The order of texts: that of their UTF-8 encodings, byte by byte.
pub open spec fn text_before(a: Seq<char>, b: Seq<char>) -> bool {
    bytes_before(encode_utf8(a), encode_utf8(b), 0)
}

pub proof fn lemma_bytes_total(a: Seq<u8>, b: Seq<u8>, i: int)
    requires
        0 <= i,
        i <= a.len(),
        i <= b.len(),
        a.take(i) == b.take(i),
    ensures
        a == b || bytes_before(a, b, i) || bytes_before(b, a, i),
        !(bytes_before(a, b, i) && bytes_before(b, a, i)),
        a == b ==> !bytes_before(a, b, i),
    decreases a.len() - i,
{
    if i >= a.len() || i >= b.len() {
        if i >= a.len() && i >= b.len() {
            assert(b.take(i) =~= b);
        }
    } else if a[i] == b[i] {
        assert(a.take(i + 1) =~= a.take(i).push(a[i]));
        assert(b.take(i + 1) =~= b.take(i).push(b[i]));
        lemma_bytes_total(a, b, i + 1);
    }
}

pub proof fn lemma_bytes_transitive(a: Seq<u8>, b: Seq<u8>, c: Seq<u8>, i: int)
    requires
        0 <= i,
        bytes_before(a, b, i),
        bytes_before(b, c, i),
    ensures
        bytes_before(a, c, i),
    decreases c.len() - i,
{
    if i < a.len() && i < b.len() && i < c.len() && a[i] == b[i] && b[i] == c[i] {
        lemma_bytes_transitive(a, b, c, i + 1);
    }
}


/// Of two different texts one comes before the other, and never both.
pub proof fn lemma_text_total(a: Seq<char>, b: Seq<char>)
    ensures
        a == b || text_before(a, b) || text_before(b, a),
        !(text_before(a, b) && text_before(b, a)),
        a == b ==> !text_before(a, b),
{
    vstd::utf8::encode_utf8_decode_utf8(a);
    vstd::utf8::encode_utf8_decode_utf8(b);
    let x = encode_utf8(a);
    let y = encode_utf8(b);
    assert(x.take(0) =~= y.take(0));
    lemma_bytes_total(x, y, 0);
}

/// The order of texts is transitive.
pub proof fn lemma_text_transitive(a: Seq<char>, b: Seq<char>, c: Seq<char>)
    requires
        text_before(a, b),
        text_before(b, c),
    ensures
        text_before(a, c),
{
    lemma_bytes_transitive(encode_utf8(a), encode_utf8(b), encode_utf8(c), 0);
}

/// How two texts stand to each other.
#[derive(Debug, Clone, Copy, PartialEq, Eq, Structural)]
pub enum Place {
    Before,
    Same,
    After,
}

/// Where `a` stands to `b` in the order of texts.
pub fn place_of_text(a: &str, b: &str) -> (r: Place)
    ensures
        r == Place::Before <==> text_before(a@, b@),
        r == Place::Same <==> a@ == b@,
        r == Place::After <==> text_before(b@, a@),
{
    let x = a.as_bytes();
    let y = b.as_bytes();
    proof {
        vstd::utf8::encode_utf8_decode_utf8(a@);
        vstd::utf8::encode_utf8_decode_utf8(b@);
        assert(x@.take(0) =~= y@.take(0));
        lemma_bytes_total(x@, y@, 0);
    }
    let mut i: usize = 0;
    while i < x.len() && i < y.len()
        invariant
            i <= x.len(),
            i <= y.len(),
            x@ == encode_utf8(a@),
            y@ == encode_utf8(b@),
            bytes_before(x@, y@, 0) == bytes_before(x@, y@, i as int),
            bytes_before(y@, x@, 0) == bytes_before(y@, x@, i as int),
        decreases x.len() - i,
    {
        if x[i] < y[i] {
            return Place::Before;
        }
        if x[i] > y[i] {
            return Place::After;
        }
        i += 1;
    }
    if i < y.len() {
        Place::Before
    } else if i < x.len() {
        Place::After
    } else {
        Place::Same
    }
}

pub open spec fn opt_text(s: Option<String>) -> Option<Seq<char>> {
    match s {
        Some(t) => Some(t@),
        None => None,
    }
}

pub open spec fn texts(v: Seq<String>) -> Seq<Seq<char>> {
    Seq::new(v.len(), |i: int| v[i]@)
}


/// The names are in order, each before the next.
pub open spec fn names_ordered(s: Seq<Seq<char>>) -> bool {
    forall|i: int, j: int| 0 <= i < j < s.len() ==> text_before(#[trigger] s[i], #[trigger] s[j])
}

/// The first index at or after `j` whose name does not come before `d`, or
/// the length.
pub open spec fn name_place(out: Seq<Seq<char>>, d: Seq<char>, j: int) -> int
    decreases out.len() - j,
{
    if 0 <= j < out.len() && text_before(out[j], d) {
        name_place(out, d, j + 1)
    } else {
        j
    }
}

/// The first `k` of `input` in order and without repetition, built by
/// putting each name that is not yet held into its place.
pub open spec fn sorted_upto(input: Seq<Seq<char>>, k: int) -> Seq<Seq<char>>
    decreases k,
{
    if k <= 0 || k > input.len() {
        Seq::empty()
    } else {
        let prev = sorted_upto(input, k - 1);
        let d = input[k - 1];
        let j = name_place(prev, d, 0);
        if 0 <= j < prev.len() && prev[j] == d {
            prev
        } else if 0 <= j <= prev.len() {
            prev.insert(j, d)
        } else {
            prev
        }
    }
}

/// The names of `input` in order and without repetition.
pub open spec fn sorted_names(input: Seq<Seq<char>>) -> Seq<Seq<char>> {
    sorted_upto(input, input.len() as int)
}

/// `out` holds the first `k` of `input`, in order, each once.
pub open spec fn is_sorted_set(input: Seq<Seq<char>>, k: int, out: Seq<Seq<char>>) -> bool {
    &&& names_ordered(out)
    &&& forall|j: int| 0 <= j < out.len() ==> input.take(k).contains(#[trigger] out[j])
    &&& forall|i: int| 0 <= i < k ==> out.contains(#[trigger] input[i])
}

proof fn lemma_sorted_insert(input: Seq<Seq<char>>, k: int, before: Seq<Seq<char>>, j: int)
    requires
        0 <= k < input.len(),
        is_sorted_set(input, k, before),
        0 <= j <= before.len(),
        forall|x: int| 0 <= x < j ==> text_before(#[trigger] before[x], input[k]),
        j < before.len() ==> text_before(input[k], before[j]),
    ensures
        is_sorted_set(input, k + 1, before.insert(j, input[k])),
{
    let d = input[k];
    let now = before.insert(j, d);
    assert forall|x: int, y: int| 0 <= x < y < now.len() implies text_before(
        #[trigger] now[x],
        #[trigger] now[y],
    ) by {
        if x == j && y - 1 > j {
            lemma_text_transitive(d, before[j], before[y - 1]);
        }
    }
    assert forall|x: int| 0 <= x < now.len() implies input.take(k + 1).contains(
        #[trigger] now[x],
    ) by {
        if x == j {
            assert(input.take(k + 1)[k] == d);
        } else {
            let y = if x < j {
                x
            } else {
                x - 1
            };
            let i = choose|i: int| 0 <= i < input.take(k).len() && input.take(k)[i] == before[y];
        }
    }
    assert forall|i: int| 0 <= i < k + 1 implies now.contains(#[trigger] input[i]) by {
        if i == k {
            assert(now[j] == d);
        } else {
            let y = choose|y: int| 0 <= y < before.len() && before[y] == input[i];
            let x = if y < j {
                y
            } else {
                y + 1
            };
            assert(now[x] == input[i]);
        }
    }
}

proof fn lemma_sorted_skip(input: Seq<Seq<char>>, k: int, out: Seq<Seq<char>>, j: int)
    requires
        0 <= k < input.len(),
        is_sorted_set(input, k, out),
        0 <= j < out.len(),
        out[j] == input[k],
    ensures
        is_sorted_set(input, k + 1, out),
{
}

/// The names in order and without repetition.
pub fn sort_dedup(names: &Vec<String>) -> (out: Vec<String>)
    ensures
        texts(out@) == sorted_names(texts(names@)),
        names_ordered(texts(out@)),
        forall|name: Seq<char>| texts(out@).contains(name) <==> texts(names@).contains(name),
{
    let ghost input = texts(names@);
    let mut out: Vec<String> = Vec::new();
    let mut k: usize = 0;
    while k < names.len()
        invariant
            k <= names.len(),
            input == texts(names@),
            is_sorted_set(input, k as int, texts(out@)),
            texts(out@) == sorted_upto(input, k as int),
        decreases names.len() - k,
    {
        let d = &names[k];
        let ghost before = texts(out@);
        let mut j: usize = 0;
        while j < out.len() && place_of_text(out[j].as_str(), d.as_str()) == Place::Before
            invariant
                j <= out.len(),
                before == texts(out@),
                forall|x: int| 0 <= x < j ==> text_before(#[trigger] before[x], d@),
                name_place(before, d@, 0) == name_place(before, d@, j as int),
            decreases out.len() - j,
        {
            j += 1;
        }
        let same = j < out.len() && place_of_text(out[j].as_str(), d.as_str()) == Place::Same;
        proof {
            if j < out.len() {
                lemma_text_total(before[j as int], d@);
            }
        }
        if same {
            proof {
                lemma_sorted_skip(input, k as int, before, j as int);
            }
        } else {
            out.insert(j, d.clone());
            proof {
                assert(texts(out@) =~= before.insert(j as int, d@));
                lemma_sorted_insert(input, k as int, before, j as int);
            }
        }
        k += 1;
    }
    out
}

} // verus!
