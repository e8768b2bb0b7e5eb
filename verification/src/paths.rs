//! Paths: which part of one is the name of the file.

use crate::text::{occurs_at, optional_str};
use std::path::Path;
use vstd::prelude::*;

verus! {

/// Every machine takes `path` apart in the same way. A backslash and a colon
/// separate or mark components on some machines only, and two slashes at the
/// start of a path name a server on some.
pub open spec fn is_portable(path: Seq<char>) -> bool {
    &&& !path.contains('\\')
    &&& !path.contains(':')
    &&& !(path.len() >= 2 && path[0] == '/' && path[1] == '/')
}

/// What follows the last slash of `path`.
pub open spec fn last_part(path: Seq<char>) -> Seq<char>
    decreases path.len(),
{
    if path.len() == 0 || path.last() == '/' {
        seq![]
    } else {
        last_part(path.drop_last()).push(path.last())
    }
}

/// The last component of `path`, if that is a name. Slashes separate components;
/// an empty one and a single dot do not count, and two dots are not a name.
pub open spec fn last_name(path: Seq<char>) -> Option<Seq<char>>
    decreases path.len(),
{
    let part = last_part(path);
    if path.len() == 0 || part == seq!['.', '.'] {
        None
    } else if part.len() == 0 || part == seq!['.'] {
        last_name(path.drop_last())
    } else {
        Some(part)
    }
}

/// `name` may be the name of the file at `path`. It is a part of the path, and
/// where every machine takes the path apart in the same way, the last component.
pub open spec fn may_be_name(path: Option<Seq<char>>, name: Option<Seq<char>>) -> bool {
    match path {
        Some(path) => {
            &&& is_portable(path) ==> name == last_name(path)
            &&& name matches Some(part) ==> exists|at: int| occurs_at(path, part, at)
        },
        None => name is None,
    }
}

/// `std::path::Path::file_name` gives the last component of a path, and nothing
/// where that is `..` or there is none. Slashes separate components on Unix and
/// on Windows alike; repeated ones, one at the end and the component `.` are
/// passed over. What else separates or marks components depends on the machine:
/// of a path that has such a character the name is only said to be a part.
#[verifier::external_body]
pub(crate) fn file_name(path: &str) -> (name: Option<&str>)
    ensures
        may_be_name(Some(path@), optional_str(name)),
{
    match Path::new(path).file_name() {
        Some(name) => name.to_str(),
        None => None,
    }
}

} // verus!
