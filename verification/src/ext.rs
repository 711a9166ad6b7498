//! File extensions and the languages that they stand for.

use crate::text::{
    chars_are, chars_of, lower_ascii, lower_chars, opt_text, string_from_chars,
};
use vstd::prelude::*;

verus! {

/// The last index before `k` at which `s` holds `c`, or -1.
pub open spec fn last_index_of(s: Seq<char>, c: char, k: int) -> int
    decreases k,
{
    if k <= 0 || k > s.len() {
        -1
    } else if s[k - 1] == c {
        k - 1
    } else {
        last_index_of(s, c, k - 1)
    }
}

/// Where a path written with `/` ends once what does not count at its end
/// is left off: each `/` there, and each `.` that stands alone behind a `/`.
pub open spec fn path_end(path: Seq<char>, k: int) -> int
    decreases k,
{
    if 0 < k <= path.len() && (path[k - 1] == '/' || (path[k - 1] == '.' && k >= 2 && path[k - 2]
        == '/')) {
        path_end(path, k - 1)
    } else {
        k
    }
}

/// The file name of a path written with `/`: its last component, where `/`
/// at the end and components `.` do not count. A path whose last component
/// is `..`, and one that has no component but `.` or the root, has no file
/// name, which is the empty text here.
pub open spec fn file_name_of(path: Seq<char>) -> Seq<char> {
    let p = path.take(path_end(path, path.len() as int));
    let name = p.skip(last_index_of(p, '/', p.len() as int) + 1);
    if name == seq!['.'] || name == seq!['.', '.'] {
        Seq::empty()
    } else {
        name
    }
}

/// The extension of a path: what follows the last `.` of its file name,
/// unless the file name has no `.` or only begins with one.
pub open spec fn extension_of(path: Seq<char>) -> Option<Seq<char>> {
    let name = file_name_of(path);
    let dot = last_index_of(name, '.', name.len() as int);
    if dot <= 0 {
        None
    } else {
        Some(name.skip(dot + 1))
    }
}

/// The canonical extension of a language for a lower-cased extension.
pub open spec fn canonical_ext(e: Seq<char>) -> Option<Seq<char>> {
    if e == "rs"@ {
        Some("rs"@)
    } else if e == "c"@ {
        Some("c"@)
    } else if e == "cpp"@ || e == "c++"@ {
        Some("cpp"@)
    } else if e == "java"@ {
        Some("java"@)
    } else if e == "go"@ {
        Some("go"@)
    } else if e == "php"@ {
        Some("php"@)
    } else if e == "py"@ {
        Some("py"@)
    } else if e == "ts"@ || e == "tsx"@ {
        Some("ts"@)
    } else if e == "js"@ {
        Some("js"@)
    } else if e == "rb"@ {
        Some("rb"@)
    } else {
        None
    }
}

/// The canonical extension of the language of a path, whatever the case of
/// the letters of its extension.
pub open spec fn known_ext(path: Seq<char>) -> Option<Seq<char>> {
    match extension_of(path) {
        Some(e) => canonical_ext(lower_ascii(e)),
        None => None,
    }
}

/// The language of a canonical extension.
pub open spec fn slug_of(ext: Seq<char>) -> Option<Seq<char>> {
    if ext == "rs"@ {
        Some("rust"@)
    } else if ext == "c"@ {
        Some("c"@)
    } else if ext == "cpp"@ {
        Some("cpp"@)
    } else if ext == "java"@ {
        Some("java"@)
    } else if ext == "go"@ {
        Some("go"@)
    } else if ext == "php"@ {
        Some("php"@)
    } else if ext == "py"@ {
        Some("python"@)
    } else if ext == "ts"@ {
        Some("typescript"@)
    } else if ext == "js"@ {
        Some("javascript"@)
    } else if ext == "rb"@ {
        Some("ruby"@)
    } else {
        None
    }
}

/// The text of an optional string slice.
pub open spec fn opt_str(s: Option<&'static str>) -> Option<Seq<char>> {
    match s {
        Some(t) => Some(t@),
        None => None,
    }
}

fn last_index(s: &Vec<char>, from: usize, c: char) -> (r: Option<usize>)
    requires
        from <= s@.len(),
    ensures
        match r {
            Some(i) => {
                &&& from <= i < s.len()
                &&& last_index_of(s@.skip(from as int), c, s@.len() - from) == i - from
            },
            None => last_index_of(s@.skip(from as int), c, s@.len() - from) == -1,
        },
{
    let ghost t = s@.skip(from as int);
    let mut k: usize = s.len();
    while k > from && s[k - 1] != c
        invariant
            from <= k <= s@.len(),
            t == s@.skip(from as int),
            last_index_of(t, c, s@.len() - from) == last_index_of(t, c, k - from),
        decreases k,
    {
        k -= 1;
    }
    if k > from {
        Some(k - 1)
    } else {
        None
    }
}

/// The file name of a path, as characters; it is empty where the path has
/// no file name.
pub fn file_name(path: &str) -> (name: Vec<char>)
    ensures
        name@ == file_name_of(path@),
{
    let cs = chars_of(path);
    let mut end: usize = cs.len();
    while end > 0 && (cs[end - 1] == '/' || (cs[end - 1] == '.' && end >= 2 && cs[end - 2] == '/'))
        invariant
            end <= cs.len(),
            path_end(cs@, cs@.len() as int) == path_end(cs@, end as int),
        decreases end,
    {
        end -= 1;
    }
    let ghost p = cs@.take(end as int);
    let mut start: usize = end;
    while start > 0 && cs[start - 1] != '/'
        invariant
            start <= end <= cs.len(),
            p == cs@.take(end as int),
            last_index_of(p, '/', p.len() as int) == last_index_of(p, '/', start as int),
        decreases start,
    {
        start -= 1;
    }
    let mut name: Vec<char> = Vec::new();
    let mut i: usize = start;
    while i < end
        invariant
            start <= i <= end <= cs.len(),
            name@ == cs@.subrange(start as int, i as int),
        decreases end - i,
    {
        name.push(cs[i]);
        i += 1;
    }
    assert(name@ =~= p.skip(start as int));
    let dots = (name.len() == 1 && name[0] == '.') || (name.len() == 2 && name[0] == '.' && name[1]
        == '.');
    assert(dots == (name@ == seq!['.'] || name@ == seq!['.', '.'])) by {
        if dots {
            assert(name@ =~= seq!['.'] || name@ =~= seq!['.', '.']);
        }
    }
    if dots {
        Vec::new()
    } else {
        name
    }
}

/// The extension of a path, as it is written.
pub fn extension(path: &str) -> (r: Option<String>)
    ensures
        opt_text(r) == extension_of(path@),
{
    let name = file_name(path);
    assert(name@.skip(0) =~= name@);
    let dot = match last_index(&name, 0, '.') {
        Some(d) => d,
        None => {
            return None;
        },
    };
    if dot == 0 {
        return None;
    }
    let mut e: Vec<char> = Vec::new();
    let mut i: usize = dot + 1;
    let ghost ext = name@.skip(dot + 1);
    while i < name.len()
        invariant
            dot + 1 <= i <= name.len(),
            ext == name@.skip(dot + 1),
            e@ == ext.take(i - dot - 1),
        decreases name.len() - i,
    {
        e.push(name[i]);
        i += 1;
    }
    Some(string_from_chars(e.as_slice()))
}

/// The canonical extension of the language of a path, if its extension is
/// that of a supported language.
pub fn lowercase_ext(path: &str) -> (r: Option<&'static str>)
    ensures
        opt_str(r) == known_ext(path@),
{
    let e = match extension(path) {
        Some(ext) => lower_chars(ext.as_str()),
        None => {
            return None;
        },
    };
    if chars_are(&e, "rs") {
        Some("rs")
    } else if chars_are(&e, "c") {
        Some("c")
    } else if chars_are(&e, "cpp") || chars_are(&e, "c++") {
        Some("cpp")
    } else if chars_are(&e, "java") {
        Some("java")
    } else if chars_are(&e, "go") {
        Some("go")
    } else if chars_are(&e, "php") {
        Some("php")
    } else if chars_are(&e, "py") {
        Some("py")
    } else if chars_are(&e, "ts") || chars_are(&e, "tsx") {
        Some("ts")
    } else if chars_are(&e, "js") {
        Some("js")
    } else if chars_are(&e, "rb") {
        Some("rb")
    } else {
        None
    }
}

/// The language that a canonical extension stands for.
pub fn language_of(ext: &str) -> (r: Option<&'static str>)
    ensures
        opt_str(r) == slug_of(ext@),
{
    let e = chars_of(ext);
    if chars_are(&e, "rs") {
        Some("rust")
    } else if chars_are(&e, "c") {
        Some("c")
    } else if chars_are(&e, "cpp") {
        Some("cpp")
    } else if chars_are(&e, "java") {
        Some("java")
    } else if chars_are(&e, "go") {
        Some("go")
    } else if chars_are(&e, "php") {
        Some("php")
    } else if chars_are(&e, "py") {
        Some("python")
    } else if chars_are(&e, "ts") {
        Some("typescript")
    } else if chars_are(&e, "js") {
        Some("javascript")
    } else if chars_are(&e, "rb") {
        Some("ruby")
    } else {
        None
    }
}

} // verus!
