//! The parts of a `/`-separated path, as `std::path::Path` names them.

use crate::text::{after_last, before_last, chars_of, last_index, last_index_bounds, opt_view, rfind, same, string_of};
use crate::text::{cat, cat3, text_after_last, text_before_last};
use vstd::prelude::*;

verus! {

/// The final component, where it is a name. Trailing slashes and `.` components
/// are passed over; `..` and the empty path have no name.
pub open spec fn file_name_of(path: Seq<char>) -> Option<Seq<char>>
    decreases path.len(),
    via file_name_shrinks
{
    let c = after_last(path, '/');
    if last_index(path, '/') >= 0 && (c == ""@ || c == "."@) {
        file_name_of(before_last(path, '/'))
    } else if c == ""@ || c == "."@ || c == ".."@ {
        None
    } else {
        Some(c)
    }
}

#[via_fn]
proof fn file_name_shrinks(path: Seq<char>) {
    last_index_bounds(path, '/');
}

/// What follows the last dot of the file name, unless the name starts with its
/// only dot.
pub open spec fn extension_of(path: Seq<char>) -> Option<Seq<char>> {
    match file_name_of(path) {
        Some(n) => if last_index(n, '.') > 0 {
            Some(n.skip(last_index(n, '.') + 1))
        } else {
            None
        },
        None => None,
    }
}

/// The file name without its extension.
pub open spec fn stem_of(path: Seq<char>) -> Option<Seq<char>> {
    match file_name_of(path) {
        Some(n) => if last_index(n, '.') > 0 {
            Some(n.take(last_index(n, '.')))
        } else {
            Some(n)
        },
        None => None,
    }
}

pub fn file_name(path: &str) -> (r: Option<String>)
    ensures
        opt_view(r) == file_name_of(path@),
    decreases path@.len(),
{
    proof {
        last_index_bounds(path@, '/');
    }
    let c = text_after_last(path, '/');
    let v = chars_of(path);
    let hidden = same(c.as_str(), "") || same(c.as_str(), ".");
    match rfind(&v, '/') {
        Some(_) => {
            if hidden {
                let parent = text_before_last(path, '/');
                return file_name(parent.as_str());
            }
        },
        None => {},
    }
    if hidden || same(c.as_str(), "..") {
        None
    } else {
        Some(c)
    }
}

pub fn extension(path: &str) -> (r: Option<String>)
    ensures
        opt_view(r) == extension_of(path@),
{
    match file_name(path) {
        Some(n) => {
            let v = chars_of(n.as_str());
            let len: usize = v.len();
            match rfind(&v, '.') {
                Some(i) => if i > 0 {
                    let e = string_of(&v, i + 1, len);
                    assert(e@ =~= n@.skip(i + 1));
                    Some(e)
                } else {
                    None
                },
                None => None,
            }
        },
        None => None,
    }
}

pub fn file_stem(path: &str) -> (r: Option<String>)
    ensures
        opt_view(r) == stem_of(path@),
{
    match file_name(path) {
        Some(n) => {
            let v = chars_of(n.as_str());
            match rfind(&v, '.') {
                Some(i) => if i > 0 {
                    let e = string_of(&v, 0, i);
                    assert(e@ =~= n@.take(i as int));
                    Some(e)
                } else {
                    Some(n)
                },
                None => Some(n),
            }
        },
        None => None,
    }
}

/// `b` below `a`, or `b` alone where it is absolute.
pub open spec fn join_path(a: Seq<char>, b: Seq<char>) -> Seq<char> {
    if b.len() > 0 && b[0] == '/' {
        b
    } else if a.len() == 0 || a.last() == '/' {
        a + b
    } else {
        a + "/"@ + b
    }
}

pub fn joined(a: &str, b: &str) -> (r: String)
    ensures
        r@ == join_path(a@, b@),
{
    let x = chars_of(a);
    let y = chars_of(b);
    if y.len() > 0 && y[0] == '/' {
        b.to_owned()
    } else if x.len() == 0 || x[x.len() - 1] == '/' {
        cat(a, b)
    } else {
        cat3(a, "/", b)
    }
}

} // verus!
