//! Mapping request URLs to filesystem paths.
//!
//! A single leading separator is stripped from the URL and the rest is
//! joined onto the served root. A path whose segments could climb out of
//! the root (a `..` segment, or a remainder that still begins with `/`)
//! is refused outright, so every resolved path stays within the root.

use crate::strutil::push_char;
use vstd::prelude::*;

verus! {

/// There is a `..` path segment beginning at position `i`.
pub open spec fn dotdot_at(s: Seq<char>, i: int) -> bool {
    &&& 0 <= i
    &&& i + 2 <= s.len()
    &&& (i == 0 || s[i - 1] == '/')
    &&& (i + 2 == s.len() || s[i + 2] == '/')
    &&& s[i] == '.'
    &&& s[i + 1] == '.'
}

/// Whether any `/`-separated segment of `s` is exactly `..`.
pub open spec fn has_dotdot_segment(s: Seq<char>) -> bool {
    exists|i: int| dotdot_at(s, i)
}

/// Decide whether `s` holds a `..` segment.
pub fn has_dotdot(s: &str) -> (r: bool)
    ensures
        r == has_dotdot_segment(s@),
{
    let n = s.unicode_len();
    let mut i: usize = 0;
    while i < n
        invariant
            i <= n,
            n == s@.len(),
            forall|j: int| 0 <= j < i ==> !dotdot_at(s@, j),
        decreases n - i,
    {
        if n >= 2 && i <= n - 2 && s.get_char(i) == '.' && s.get_char(i + 1) == '.' && (i == 0
            || s.get_char(i - 1) == '/') && (i == n - 2 || s.get_char(i + 2) == '/') {
            proof {
                assert(dotdot_at(s@, i as int));
            }
            return true;
        }
        i = i + 1;
    }
    false
}

/// The URL with one leading `/` removed, if it has one.
pub open spec fn spec_strip_slash(u: Seq<char>) -> Seq<char> {
    if u.len() > 0 && u[0] == '/' {
        u.drop_first()
    } else {
        u
    }
}

/// The remainder with one trailing `/` removed, if it has one.
pub open spec fn spec_strip_trailing_slash(u: Seq<char>) -> Seq<char> {
    if u.len() > 0 && u[u.len() - 1] == '/' {
        u.drop_last()
    } else {
        u
    }
}

/// The filesystem path a URL resolves to: the root when nothing remains,
/// else root, a separator and the remainder. `None` when the remainder
/// could escape the root (a `..` segment or another leading `/`).
pub open spec fn spec_resolve(root: Seq<char>, url: Seq<char>) -> Option<Seq<char>> {
    let rel = spec_strip_trailing_slash(spec_strip_slash(url));
    if has_dotdot_segment(rel) || (rel.len() > 0 && rel[0] == '/') {
        None
    } else if rel.len() == 0 {
        Some(root)
    } else {
        Some(root + seq!['/'] + rel)
    }
}

/// Resolve a request URL against the served root, refusing paths that
/// could escape it.
pub fn resolve_request_path(root: &str, url: &str) -> (r: Option<String>)
    ensures
        r is Some <==> spec_resolve(root@, url@) is Some,
        r matches Some(p) ==> spec_resolve(root@, url@) == Some(p@),
{
    let ulen = url.unicode_len();
    let rel0: &str = if ulen > 0 && url.get_char(0) == '/' {
        let stripped = url.substring_char(1, ulen);
        proof {
            assert(stripped@ =~= url@.drop_first());
        }
        stripped
    } else {
        url
    };
    let rlen0 = rel0.unicode_len();
    let rel: &str = if rlen0 > 0 && rel0.get_char(rlen0 - 1) == '/' {
        let stripped = rel0.substring_char(0, rlen0 - 1);
        proof {
            assert(stripped@ =~= rel0@.drop_last());
        }
        stripped
    } else {
        rel0
    };
    let rlen = rel.unicode_len();
    if rlen > 0 && rel.get_char(0) == '/' {
        return None;
    }
    if has_dotdot(rel) {
        return None;
    }
    if rlen == 0 {
        Some(root.to_owned())
    } else {
        let mut out = root.to_owned();
        push_char(&mut out, '/');
        out.append(rel);
        proof {
            assert(out@ =~= root@ + seq!['/'] + rel@);
        }
        Some(out)
    }
}

/// The `Location` of the trailing-slash redirect: the URL plus `/`, owed
/// exactly when the target is a directory and the URL does not already
/// end in `/`.
pub open spec fn spec_redirect_location(url: Seq<char>, is_dir: bool) -> Option<Seq<char>> {
    if is_dir && !(url.len() > 0 && url[url.len() - 1] == '/') {
        Some(url + seq!['/'])
    } else {
        None
    }
}

/// Decide whether a directory request must first be redirected to its
/// trailing-slash form, and to where.
pub fn needs_redirect(url: &str, is_dir: bool) -> (r: Option<String>)
    ensures
        r is Some <==> spec_redirect_location(url@, is_dir) is Some,
        r matches Some(l) ==> spec_redirect_location(url@, is_dir) == Some(l@),
{
    if !is_dir {
        return None;
    }
    let n = url.unicode_len();
    if n > 0 && url.get_char(n - 1) == '/' {
        return None;
    }
    let mut loc = url.to_owned();
    push_char(&mut loc, '/');
    proof {
        assert(loc@ =~= url@ + seq!['/']);
    }
    Some(loc)
}

/// Whether `name` occurs among `entries`.
pub open spec fn contains_name(entries: Seq<Seq<char>>, name: Seq<char>) -> bool {
    exists|i: int| 0 <= i < entries.len() && entries[i] == name
}

/// The views of a list of strings.
pub open spec fn names_view(entries: Seq<String>) -> Seq<Seq<char>> {
    entries.map(|i: int, s: String| s@)
}

/// The index document to substitute for a directory: `index.html` first,
/// then `index.htm`, else none.
pub open spec fn spec_find_index(entries: Seq<Seq<char>>) -> Option<Seq<char>> {
    if contains_name(entries, "index.html"@) {
        Some("index.html"@)
    } else if contains_name(entries, "index.htm"@) {
        Some("index.htm"@)
    } else {
        None
    }
}

fn contains_str(entries: &Vec<String>, name: &str) -> (r: bool)
    ensures
        r == contains_name(names_view(entries@), name@),
{
    let n = entries.len();
    let mut i: usize = 0;
    while i < n
        invariant
            i <= n,
            n == entries@.len(),
            forall|j: int| 0 <= j < i ==> names_view(entries@)[j] != name@,
        decreases n - i,
    {
        if crate::strutil::str_eq(entries[i].as_str(), name) {
            proof {
                assert(names_view(entries@)[i as int] == name@);
            }
            return true;
        }
        i = i + 1;
    }
    false
}

/// Look for an index document among a directory's entry names,
/// `index.html` taking priority over `index.htm`.
pub fn find_index_file(entries: &Vec<String>) -> (r: Option<String>)
    ensures
        r is Some <==> spec_find_index(names_view(entries@)) is Some,
        r matches Some(s) ==> spec_find_index(names_view(entries@)) == Some(s@),
{
    if contains_str(entries, "index.html") {
        Some("index.html".to_owned())
    } else if contains_str(entries, "index.htm") {
        Some("index.htm".to_owned())
    } else {
        None
    }
}

/// Join a directory path and an entry name with a `/` separator.
pub fn join_path(dir: &str, name: &str) -> (r: String)
    ensures
        r@ == dir@ + seq!['/'] + name@,
{
    let mut out = dir.to_owned();
    push_char(&mut out, '/');
    out.append(name);
    proof {
        assert(out@ =~= dir@ + seq!['/'] + name@);
    }
    out
}

} // verus!
