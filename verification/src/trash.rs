//! Whether a path may go to the trash.

use crate::format::message_view;
use crate::text::concat;
use vstd::prelude::*;

verus! {

/// The message for a path at which nothing exists.
pub open spec fn does_not_exist(path: Seq<char>) -> Seq<char> {
    "File does not exist: "@ + path
}

/// The message for a path at which something other than a file exists.
pub open spec fn not_a_file(path: Seq<char>) -> Seq<char> {
    "Path is not a file: "@ + path
}

/// Whether a path may go to the trash: only where a regular file exists at
/// it. A path at which nothing exists is refused as such, before it is asked
/// what kind of thing it is.
pub open spec fn trash_decision(path: Seq<char>, exists: bool, is_file: bool) -> Result<
    (),
    Seq<char>,
> {
    if !exists {
        Err(does_not_exist(path))
    } else if !is_file {
        Err(not_a_file(path))
    } else {
        Ok(())
    }
}

/// Decides whether the file at `path` may be moved to the trash, from what
/// the file system says of the path: whether anything `exists` there, and
/// whether it `is_file`. Only an existing regular file may; for anything
/// else the answer is the message that refuses it, and nothing is to be
/// touched.
pub fn trash_file(path: &str, exists: bool, is_file: bool) -> (r: Result<(), String>)
    ensures
        message_view(r) == trash_decision(path@, exists, is_file),
{
    if !exists {
        return Err(concat("File does not exist: ", path));
    }
    if !is_file {
        return Err(concat("Path is not a file: ", path));
    }
    Ok(())
}

} // verus!
