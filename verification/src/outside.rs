//! What the crate takes from outside on trust.
//!
//! Each function here calls one function of another crate or of `std` that
//! computes from its arguments alone. Its body is not verified; its contract
//! gives the result a name, a function without a definition, so that the
//! contracts of the callers can say which call their result comes from. What
//! is believed of each name is what stands in the contract beside it.

use crate::archive::encodable;
use std::cmp::Ordering;
use std::path::Path;
use vstd::prelude::*;

verus! {

/// The answer of `natord::compare` for two texts: `-1` where `left` comes
/// first, `0` where neither does, `1` where `right` comes first.
pub uninterp spec fn natord_compare(left: Seq<char>, right: Seq<char>) -> int;

/// Calls `natord::compare`. The comparison reads nothing but its two
/// arguments, so its answer is a fixed function of their characters; the
/// contract names that function and says no more of it than that it takes one
/// of three values.
#[verifier::external_body]
pub(crate) fn natural_compare(left: &str, right: &str) -> (r: i8)
    ensures
        r == natord_compare(left@, right@),
        -1 <= r <= 1,
{
    match natord::compare(left, right) {
        Ordering::Less => -1,
        Ordering::Equal => 0,
        Ordering::Greater => 1,
    }
}

/// The extension that `std::path::Path::extension` finds in a path given as
/// text: what follows the last dot of the final component, if that component
/// has a dot that is not its first character. Components are told apart as
/// on the platform the crate is built for.
pub uninterp spec fn path_extension(path: Seq<char>) -> Option<Seq<char>>;

/// Calls `Path::extension` on `path`. The extension is read off the text of
/// the path alone, without touching the file system; the contract gives that
/// reading a name and claims nothing else of it.
#[verifier::external_body]
pub(crate) fn extension_of(path: &str) -> (ext: Option<String>)
    ensures
        match ext {
            Some(e) => path_extension(path@) == Some(e@),
            None => path_extension(path@) is None,
        },
{
    Path::new(path).extension().and_then(|e| e.to_str()).map(|e| e.to_string())
}

/// What `str::to_lowercase` makes of a text: its lowercase equivalent under
/// the Unicode rules.
pub uninterp spec fn lowercased(text: Seq<char>) -> Seq<char>;

/// Calls `str::to_lowercase`. The result depends on the characters of `text`
/// alone; the contract names it.
#[verifier::external_body]
pub(crate) fn lowercase_of(text: &str) -> (lower: String)
    ensures
        lower@ == lowercased(text@),
{
    text.to_lowercase()
}

/// The text that `base64`'s standard engine makes of `data`: the standard
/// alphabet, padded with `=`.
pub uninterp spec fn base64_standard(data: Seq<u8>) -> Seq<char>;

/// Calls `encode` of `base64::engine::general_purpose::STANDARD`. The text
/// depends on the bytes alone; the contract names it. Data whose text would
/// not fit in an allocation is left out, since `encode` panics there.
#[verifier::external_body]
pub(crate) fn base64_encode(data: &[u8]) -> (text: String)
    requires
        encodable(data@),
    ensures
        text@ == base64_standard(data@),
{
    base64::Engine::encode(&base64::engine::general_purpose::STANDARD, data)
}

/// The final component that `std::path::Path::file_name` finds in a path
/// given as text; none where the path ends in `..` or has no component.
/// Components are told apart as on the platform the crate is built for.
pub uninterp spec fn path_file_name(path: Seq<char>) -> Option<Seq<char>>;

/// Calls `Path::file_name` on `path`, which reads the text of the path
/// alone; the contract names what it finds.
#[verifier::external_body]
pub(crate) fn file_name_of(path: &str) -> (name: Option<String>)
    ensures
        match name {
            Some(n) => path_file_name(path@) == Some(n@),
            None => path_file_name(path@) is None,
        },
{
    Path::new(path).file_name().and_then(|n| n.to_str()).map(|n| n.to_string())
}

} // verus!
