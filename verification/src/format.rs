//! The format of an archive, read off the extension of its path.

use crate::outside::{extension_of, lowercase_of, lowercased, path_extension};
use crate::text::{concat, same_text};
use vstd::prelude::*;

verus! {

/// A container format that can be read.
#[derive(Clone, Copy, Debug, PartialEq, Eq, Structural)]
pub enum ArchiveFormat {
    /// ZIP, also under the extension `cbz`.
    Zip,
    /// RAR, also under the extension `cbr`.
    Rar,
}

/// The extension by which a path is dispatched: in lower case, and empty
/// where the path has none.
pub open spec fn dispatch_extension(path: Seq<char>) -> Seq<char> {
    lowercased(
        match path_extension(path) {
            Some(e) => e,
            None => Seq::empty(),
        },
    )
}

/// The message for an extension that names no readable format.
pub open spec fn unsupported_message(ext: Seq<char>) -> Seq<char> {
    "Unsupported archive format: ."@ + ext
}

/// The format that a lower-case extension names, or the message that
/// refuses it.
pub open spec fn format_of_extension(ext: Seq<char>) -> Result<ArchiveFormat, Seq<char>> {
    if ext == "zip"@ || ext == "cbz"@ {
        Ok(ArchiveFormat::Zip)
    } else if ext == "rar"@ || ext == "cbr"@ {
        Ok(ArchiveFormat::Rar)
    } else {
        Err(unsupported_message(ext))
    }
}

/// The format of the archive at `path`, or the message that refuses it.
pub open spec fn format_of_path(path: Seq<char>) -> Result<ArchiveFormat, Seq<char>> {
    format_of_extension(dispatch_extension(path))
}

/// A result with its message as characters.
pub open spec fn message_view<T>(r: Result<T, String>) -> Result<T, Seq<char>> {
    match r {
        Ok(t) => Ok(t),
        Err(m) => Err(m@),
    }
}

/// Maps a lower-case extension to its format: `zip` and `cbz` to ZIP, `rar`
/// and `cbr` to RAR. Every other extension, the empty one too, is refused
/// with a message that quotes it.
pub fn format_for_extension(ext: &str) -> (r: Result<ArchiveFormat, String>)
    ensures
        message_view(r) == format_of_extension(ext@),
{
    if same_text(ext, "zip") || same_text(ext, "cbz") {
        Ok(ArchiveFormat::Zip)
    } else if same_text(ext, "rar") || same_text(ext, "cbr") {
        Ok(ArchiveFormat::Rar)
    } else {
        Err(concat("Unsupported archive format: .", ext))
    }
}

/// Maps the path of an archive to its format by the extension of the path,
/// whatever the case of its letters.
pub fn archive_format(archive_path: &str) -> (r: Result<ArchiveFormat, String>)
    ensures
        message_view(r) == format_of_path(archive_path@),
{
    let ext = match extension_of(archive_path) {
        Some(ext) => ext,
        None => String::new(),
    };
    let lower = lowercase_of(ext.as_str());
    format_for_extension(lower.as_str())
}

/// An unsupported extension is refused with a message that starts with
/// `Unsupported`, a supported one is never refused.
pub proof fn lemma_unsupported_message(ext: Seq<char>)
    ensures
        format_of_extension(ext) matches Err(m) ==> crate::text::starts_with(m, "Unsupported"@),
        format_of_extension(ext) is Ok <==> ext == "zip"@ || ext == "cbz"@ || ext == "rar"@ || ext
            == "cbr"@,
{
    reveal_strlit("Unsupported archive format: .");
    reveal_strlit("Unsupported");
    let m = unsupported_message(ext);
    assert(m.subrange(0, 11) =~= "Unsupported"@);
}

} // verus!
