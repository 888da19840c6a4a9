//! What a file name says of its file: image, archive, PDF, and the MIME
//! type of an image. Only the end of the name counts, and the case of its
//! ASCII letters does not. Letters beyond ASCII are left as they are: none
//! of them turns into a letter of these extensions when a name is written in
//! lower case, so a name is of the same kind as its lower-case form.

use crate::text::{chars_of, ends_with, ends_with_folded, folded, lemma_fold_idempotent};
use vstd::prelude::*;

verus! {

/// `name` ends with `dot_ext`, a dot and an extension in small letters, once
/// its own ASCII capitals are made small.
pub open spec fn has_extension(name: Seq<char>, dot_ext: Seq<char>) -> bool {
    ends_with(folded(name), dot_ext)
}

/// `name` is that of an image: `.jpg`, `.jpeg`, `.png`, `.webp` or `.gif`.
pub open spec fn is_image_name(name: Seq<char>) -> bool {
    ||| has_extension(name, ".jpg"@)
    ||| has_extension(name, ".jpeg"@)
    ||| has_extension(name, ".png"@)
    ||| has_extension(name, ".webp"@)
    ||| has_extension(name, ".gif"@)
}

/// `name` is that of an archive: `.zip`, `.cbz`, `.rar` or `.cbr`.
pub open spec fn is_archive_name(name: Seq<char>) -> bool {
    ||| has_extension(name, ".zip"@)
    ||| has_extension(name, ".cbz"@)
    ||| has_extension(name, ".rar"@)
    ||| has_extension(name, ".cbr"@)
}

/// `name` is that of a PDF document.
pub open spec fn is_pdf_name(name: Seq<char>) -> bool {
    has_extension(name, ".pdf"@)
}

/// The MIME type under which an image of this name is served: PNG, WebP and
/// GIF by their extension, JPEG for every other name.
pub open spec fn mime_type_of(name: Seq<char>) -> Seq<char> {
    if has_extension(name, ".png"@) {
        "image/png"@
    } else if has_extension(name, ".webp"@) {
        "image/webp"@
    } else if has_extension(name, ".gif"@) {
        "image/gif"@
    } else {
        "image/jpeg"@
    }
}

/// Check if a filename has an image extension.
pub fn is_image_file(name: &str) -> (r: bool)
    ensures
        r == is_image_name(name@),
{
    let chars = chars_of(name);
    ends_with_folded(&chars, ".jpg") || ends_with_folded(&chars, ".jpeg") || ends_with_folded(
        &chars,
        ".png",
    ) || ends_with_folded(&chars, ".webp") || ends_with_folded(&chars, ".gif")
}

/// Check if a filename has an archive extension.
pub fn is_archive_file(name: &str) -> (r: bool)
    ensures
        r == is_archive_name(name@),
{
    let chars = chars_of(name);
    ends_with_folded(&chars, ".zip") || ends_with_folded(&chars, ".cbz") || ends_with_folded(
        &chars,
        ".rar",
    ) || ends_with_folded(&chars, ".cbr")
}

/// Check if a filename has the PDF extension.
pub fn is_pdf_file(name: &str) -> (r: bool)
    ensures
        r == is_pdf_name(name@),
{
    let chars = chars_of(name);
    ends_with_folded(&chars, ".pdf")
}

/// Guess MIME type from file extension.
pub fn mime_type_from_name(name: &str) -> (mime: &'static str)
    ensures
        mime@ == mime_type_of(name@),
{
    let chars = chars_of(name);
    if ends_with_folded(&chars, ".png") {
        "image/png"
    } else if ends_with_folded(&chars, ".webp") {
        "image/webp"
    } else if ends_with_folded(&chars, ".gif") {
        "image/gif"
    } else {
        "image/jpeg"
    }
}

/// Extension matching is case-insensitive: two names that differ only in the
/// case of ASCII letters are of the same kind and have the same MIME type.
pub proof fn lemma_kind_ignores_case(a: Seq<char>, b: Seq<char>)
    requires
        folded(a) == folded(b),
    ensures
        is_image_name(a) == is_image_name(b),
        is_archive_name(a) == is_archive_name(b),
        is_pdf_name(a) == is_pdf_name(b),
        mime_type_of(a) == mime_type_of(b),
{
}

/// Writing a name in small letters changes neither its kind nor its MIME
/// type.
pub proof fn lemma_kind_of_folded(name: Seq<char>)
    ensures
        is_image_name(folded(name)) == is_image_name(name),
        is_archive_name(folded(name)) == is_archive_name(name),
        is_pdf_name(folded(name)) == is_pdf_name(name),
        mime_type_of(folded(name)) == mime_type_of(name),
{
    lemma_fold_idempotent(name);
    lemma_kind_ignores_case(folded(name), name);
}

/// No name is both an image's and an archive's, nor an image's and a PDF's,
/// nor an archive's and a PDF's.
pub proof fn lemma_kinds_exclusive(name: Seq<char>)
    ensures
        !(is_image_name(name) && is_archive_name(name)),
        !(is_image_name(name) && is_pdf_name(name)),
        !(is_archive_name(name) && is_pdf_name(name)),
{
    reveal_strlit(".jpg");
    reveal_strlit(".jpeg");
    reveal_strlit(".png");
    reveal_strlit(".webp");
    reveal_strlit(".gif");
    reveal_strlit(".zip");
    reveal_strlit(".cbz");
    reveal_strlit(".rar");
    reveal_strlit(".cbr");
    reveal_strlit(".pdf");
    let f = folded(name);
    let n = f.len() as int;
    // the kind is decided by the last character but for `.gif` against `.pdf`
    // and `.zip` against `.webp`, which differ in the one before
    assert forall|e: Seq<char>| #[trigger] ends_with(f, e) && e.len() >= 2 implies f[n - 1] == e[e.len()
        - 1] && f[n - 2] == e[e.len() - 2] by {}
}

} // verus!
