//! File extensions of Windows paths, read as `Path::extension` reads them.
use vstd::prelude::*;

use crate::text::{ascii_lower, chars_of, string_of_range, to_ascii_lower};

verus! {

/// A path separator on Windows.
pub open spec fn is_sep(c: char) -> bool {
    c == '\\' || c == '/'
}

/// The end of the last component: trailing separators and trailing `.`
/// components are not part of it.
pub open spec fn component_end(s: Seq<char>, end: int) -> int
    decreases end,
{
    if end > 0 && is_sep(s[end - 1]) {
        component_end(s, end - 1)
    } else if end >= 2 && s[end - 1] == '.' && is_sep(s[end - 2]) {
        component_end(s, end - 2)
    } else {
        end
    }
}

/// The start of the component that ends at `end`: just after the last
/// separator before it.
pub open spec fn component_start(s: Seq<char>, end: int) -> int
    decreases end,
{
    if end <= 0 {
        0
    } else if is_sep(s[end - 1]) {
        end
    } else {
        component_start(s, end - 1)
    }
}

/// The last component of a path.
pub open spec fn last_component(s: Seq<char>) -> Seq<char> {
    let end = component_end(s, s.len() as int);
    s.subrange(component_start(s, end), end)
}

/// Index of the last `.` in `n` before `end`, or -1.
pub open spec fn last_dot(n: Seq<char>, end: int) -> int
    decreases end,
{
    if end <= 0 {
        -1
    } else if n[end - 1] == '.' {
        end - 1
    } else {
        last_dot(n, end - 1)
    }
}

/// The extension of a path: what follows the last `.` of its last
/// component, where that `.` is not the component's first character; none
/// for `..` and for a component without such a dot.
pub open spec fn path_extension(s: Seq<char>) -> Option<Seq<char>> {
    let n = last_component(s);
    let d = last_dot(n, n.len() as int);
    if n == ".."@ || d <= 0 {
        None
    } else {
        Some(n.skip(d + 1))
    }
}

/// Finds the extension of a Windows path.
pub fn extension_of(path: &str) -> (r: Option<String>)
    ensures
        match r {
            Some(e) => path_extension(path@) == Some(e@),
            None => path_extension(path@) is None,
        },
{
    let s = chars_of(path);
    let mut end: usize = s.len();
    while end > 0 && ((s[end - 1] == '\\' || s[end - 1] == '/') || (end >= 2 && s[end - 1] == '.' && (s[end - 2] == '\\' || s[end - 2] == '/')))
        invariant
            end <= s@.len(),
            component_end(s@, s@.len() as int) == component_end(s@, end as int),
        decreases end,
    {
        if s[end - 1] == '\\' || s[end - 1] == '/' {
            end = end - 1;
        } else {
            end = end - 2;
        }
    }
    let mut start: usize = end;
    while start > 0 && !(s[start - 1] == '\\' || s[start - 1] == '/')
        invariant
            start <= end <= s@.len(),
            component_start(s@, end as int) == component_start(s@, start as int),
        decreases start,
    {
        start = start - 1;
    }
    let ghost n = s@.subrange(start as int, end as int);
    assert(n == last_component(path@));
    let mut d: usize = end;
    while d > start && s[d - 1] != '.'
        invariant
            start <= d <= end <= s@.len(),
            n == s@.subrange(start as int, end as int),
            last_dot(n, n.len() as int) == last_dot(n, d - start),
        decreases d,
    {
        assert(n[d - start - 1] == s@[d - 1]);
        d = d - 1;
    }
    let is_dotdot = end - start == 2 && s[start] == '.' && s[start + 1] == '.';
    proof {
        reveal_strlit("..");
        if d > start {
            assert(n[d - start - 1] == s@[d - 1]);
        }
        if is_dotdot {
            assert(n =~= ".."@);
        } else if end - start == 2 {
            assert(n[0] == s@[start as int] && n[1] == s@[start + 1]);
        }
    }
    if is_dotdot || d <= start + 1 {
        None
    } else {
        let r = string_of_range(&s, d, end);
        assert(r@ =~= n.skip(d - start));
        Some(r)
    }
}

/// A path whose extension, lowercased, is one of the image types the
/// interface previews.
pub open spec fn previewable(path: Seq<char>) -> bool {
    match path_extension(path) {
        Some(e) => {
            let l = e.map_values(|c: char| ascii_lower(c));
            l == "png"@ || l == "jpg"@ || l == "jpeg"@ || l == "webp"@ || l == "svg"@
        },
        None => false,
    }
}

/// The extension with ASCII letters lowercased.
pub fn lowercase_ascii(s: &str) -> (r: String)
    ensures
        r@ == s@.map_values(|c: char| ascii_lower(c)),
{
    let cs = chars_of(s);
    let mut r = String::new();
    let mut i: usize = 0;
    while i < cs.len()
        invariant
            i <= cs@.len(),
            cs@ == s@,
            r@ == cs@.take(i as int).map_values(|c: char| ascii_lower(c)),
        decreases cs.len() - i,
    {
        crate::text::push_char(&mut r, to_ascii_lower(cs[i]));
        assert(cs@.take(i + 1).map_values(|c: char| ascii_lower(c)) =~= cs@.take(i as int).map_values(|c: char| ascii_lower(c)).push(ascii_lower(cs@[i as int])));
        i = i + 1;
    }
    assert(cs@.take(cs@.len() as int) =~= cs@);
    r
}

/// Decides whether the interface can preview the file at `path`.
pub fn is_previewable_image(path: &str) -> (r: bool)
    ensures
        r == previewable(path@),
{
    match extension_of(path) {
        Some(e) => {
            let l = lowercase_ascii(e.as_str());
            crate::text::str_eq(l.as_str(), "png") || crate::text::str_eq(l.as_str(), "jpg") || crate::text::str_eq(
                l.as_str(),
                "jpeg",
            ) || crate::text::str_eq(l.as_str(), "webp") || crate::text::str_eq(l.as_str(), "svg")
        },
        None => false,
    }
}

/// The extension of a path, empty when it has none.
pub open spec fn extension_or_empty(path: Seq<char>) -> Seq<char> {
    match path_extension(path) {
        Some(e) => e,
        None => Seq::empty(),
    }
}

/// The extension of a path as text, empty when it has none.
pub fn extension_text(path: &str) -> (r: String)
    ensures
        r@ == extension_or_empty(path@),
{
    match extension_of(path) {
        Some(e) => e,
        None => String::new(),
    }
}

} // verus!
