//! Static files: where they live and the `Content-Type` they are served with.
use vstd::prelude::*;
use vstd::string::StringExecFns;
use crate::text::{chars_of, lemma_pieces_nonempty, pieces, same_chars, split_on, views};

verus! {

/// Directory that static files are served from.
pub const STATIC_DIR: &'static str = "static/";

/// The file behind a static route: `static/<name>`.
pub fn static_file_path(name: &str) -> (r: String)
    ensures
        r@ == STATIC_DIR@ + name@,
{
    let mut r = String::from_str(STATIC_DIR);
    r.append(name);
    r
}

/// The last path component that is neither empty nor `.`.
pub open spec fn last_named(parts: Seq<Seq<char>>) -> Option<Seq<char>>
    decreases parts.len(),
{
    if parts.len() == 0 {
        None
    } else if parts.last().len() == 0 || parts.last() == "."@ {
        last_named(parts.drop_last())
    } else {
        Some(parts.last())
    }
}

/// The file name of a `/`-separated path, as `Path::file_name` gives it:
/// none where the path ends in `..`.
pub open spec fn file_name_of(path: Seq<char>) -> Option<Seq<char>> {
    match last_named(pieces(path, '/')) {
        Some(n) => if n == ".."@ { None } else { Some(n) },
        None => None,
    }
}

/// The extension of a file name, as `Path::extension` gives it: the text after
/// the last `.`, unless that `.` is the first character and the only one.
pub open spec fn extension_of(name: Seq<char>) -> Option<Seq<char>> {
    let p = pieces(name, '.');
    if p.len() < 2 || (p.len() == 2 && p[0].len() == 0) {
        None
    } else {
        Some(p.last())
    }
}

pub open spec fn type_for_extension(e: Seq<char>) -> Seq<char> {
    if e == "css"@ {
        "text/css"@
    } else if e == "js"@ {
        "application/javascript"@
    } else if e == "png"@ {
        "image/png"@
    } else if e == "jpg"@ || e == "jpeg"@ {
        "image/jpeg"@
    } else if e == "gif"@ {
        "image/gif"@
    } else if e == "svg"@ {
        "image/svg+xml"@
    } else if e == "ico"@ {
        "image/x-icon"@
    } else if e == "woff"@ {
        "font/woff"@
    } else if e == "woff2"@ {
        "font/woff2"@
    } else if e == "ttf"@ {
        "font/ttf"@
    } else if e == "otf"@ {
        "font/otf"@
    } else {
        "application/octet-stream"@
    }
}

pub open spec fn content_type_of(path: Seq<char>) -> Seq<char> {
    match file_name_of(path) {
        Some(n) => match extension_of(n) {
            Some(e) => type_for_extension(e),
            None => "application/octet-stream"@,
        },
        None => "application/octet-stream"@,
    }
}

fn is(a: &Vec<char>, s: &str) -> (r: bool)
    ensures
        r == (a@ == s@),
{
    same_chars(a, &chars_of(s))
}

fn mime_for_extension(e: &Vec<char>) -> (r: &'static str)
    ensures
        r@ == type_for_extension(e@),
{
    if is(e, "css") {
        "text/css"
    } else if is(e, "js") {
        "application/javascript"
    } else if is(e, "png") {
        "image/png"
    } else if is(e, "jpg") || is(e, "jpeg") {
        "image/jpeg"
    } else if is(e, "gif") {
        "image/gif"
    } else if is(e, "svg") {
        "image/svg+xml"
    } else if is(e, "ico") {
        "image/x-icon"
    } else if is(e, "woff") {
        "font/woff"
    } else if is(e, "woff2") {
        "font/woff2"
    } else if is(e, "ttf") {
        "font/ttf"
    } else if is(e, "otf") {
        "font/otf"
    } else {
        "application/octet-stream"
    }
}

fn file_name(path: &str) -> (r: Option<Vec<char>>)
    ensures
        r is Some ==> file_name_of(path@) == Some(r->0@),
        r is None ==> file_name_of(path@) is None,
{
    let mut parts = split_on(&chars_of(path), '/');
    let ghost all = views(parts@);
    let mut n: usize = parts.len();
    assert(all.subrange(0, n as int) =~= all);
    while n > 0
        invariant
            n <= parts@.len(),
            all == views(parts@),
            all == pieces(path@, '/'),
            last_named(all) == last_named(all.subrange(0, n as int)),
        decreases n,
    {
        let ghost cur = all.subrange(0, n as int);
        assert(cur.drop_last() =~= all.subrange(0, n - 1));
        assert(cur.last() == parts@[n - 1]@);
        if parts[n - 1].len() == 0 || is(&parts[n - 1], ".") {
            n = n - 1;
        } else {
            let name = parts.swap_remove(n - 1);
            if is(&name, "..") {
                return None;
            }
            return Some(name);
        }
    }
    None
}

fn extension(name: &Vec<char>) -> (r: Option<Vec<char>>)
    ensures
        r is Some ==> extension_of(name@) == Some(r->0@),
        r is None ==> extension_of(name@) is None,
{
    let mut p = split_on(name, '.');
    proof {
        lemma_pieces_nonempty(name@, '.');
    }
    if p.len() < 2 || (p.len() == 2 && p[0].len() == 0) {
        assert(p@[0]@ == views(p@)[0]);
        return None;
    }
    let last = p.len() - 1;
    assert(p@[last as int]@ == views(p@)[last as int]);
    Some(p.swap_remove(last))
}

/// The `Content-Type` for a file path, by its extension.
pub fn content_type_for(path: &str) -> (r: &'static str)
    ensures
        r@ == content_type_of(path@),
{
    match file_name(path) {
        Some(n) => match extension(&n) {
            Some(e) => mime_for_extension(&e),
            None => "application/octet-stream",
        },
        None => "application/octet-stream",
    }
}

} // verus!
