//! What a request on an archive answers, given what was read from it.
//!
//! Reading is the caller's part: it lists the entries of the archive, or
//! fetches the bytes of one entry, and hands over what it got or the message
//! of what went wrong. The functions here decide the rest: which paths are
//! archives at all, which entries are shown and in what order, how an image
//! becomes a data URL, and under which name a nested archive is unpacked.

use crate::format::{archive_format, format_of_path, unsupported_message};
use crate::names::{
    is_archive_file, is_archive_name, is_image_file, is_image_name, mime_type_from_name,
    mime_type_of,
};
use crate::natural::{lemma_sorted_contains, natural_sort, sort_names, views};
use crate::outside::{base64_encode, base64_standard, file_name_of, path_file_name};
use crate::text::{concat, contains, contains_text, same_text, starts_with};
use vstd::prelude::*;

verus! {

/// One entry of an archive, as its listing gives it.
#[derive(Debug)]
pub struct ArchiveEntry {
    /// The entry's path inside the archive.
    pub name: String,
    /// Whether the entry is a file rather than a directory.
    pub is_file: bool,
}

/// An entry, with its name as characters.
pub struct EntryView {
    pub name: Seq<char>,
    pub is_file: bool,
}

impl View for ArchiveEntry {
    type V = EntryView;

    open spec fn view(&self) -> EntryView {
        EntryView { name: self.name@, is_file: self.is_file }
    }
}

/// Result of analyzing archive contents
#[derive(Debug)]
pub enum ArchiveContents {
    /// Archive contains images directly
    Images { names: Vec<String> },
    /// Archive contains nested archives
    NestedArchives { names: Vec<String> },
    /// Archive is empty or has no relevant content
    Empty,
}

/// The contents of an archive, with names as characters.
pub enum ContentsView {
    Images { names: Seq<Seq<char>> },
    NestedArchives { names: Seq<Seq<char>> },
    Empty,
}

impl View for ArchiveContents {
    type V = ContentsView;

    open spec fn view(&self) -> ContentsView {
        match self {
            ArchiveContents::Images { names } => ContentsView::Images { names: views(names@) },
            ArchiveContents::NestedArchives { names } => ContentsView::NestedArchives {
                names: views(names@),
            },
            ArchiveContents::Empty => ContentsView::Empty,
        }
    }
}

impl Clone for ArchiveContents {
    fn clone(&self) -> (copy: Self)
        ensures
            copy@ == self@,
    {
        match self {
            ArchiveContents::Images { names } => ArchiveContents::Images {
                names: clone_names(names),
            },
            ArchiveContents::NestedArchives { names } => ArchiveContents::NestedArchives {
                names: clone_names(names),
            },
            ArchiveContents::Empty => ArchiveContents::Empty,
        }
    }
}

/// A copy of `names`.
fn clone_names(names: &Vec<String>) -> (copy: Vec<String>)
    ensures
        views(copy@) == views(names@),
{
    let mut copy: Vec<String> = Vec::new();
    let n: usize = names.len();
    let mut i: usize = 0;
    while i < n
        invariant
            n == names.len(),
            i <= n,
            copy.len() == i,
            forall|k: int| 0 <= k < i ==> copy[k]@ == names[k]@,
        decreases n - i,
    {
        copy.push(names[i].clone());
        i += 1;
    }
    assert(views(copy@) =~= views(names@));
    copy
}

/// A nested archive that was found: the file to write, and its bytes.
#[derive(Debug)]
pub struct Extraction {
    /// The name of the file to create, without any directory.
    pub file_name: String,
    /// What the file holds.
    pub data: Vec<u8>,
}

/// What to do with the entry that a scan of an archive has reached.
#[derive(Clone, Copy, Debug, PartialEq, Eq, Structural)]
pub enum ScanStep {
    /// This is the entry looked for: read it and stop.
    Take,
    /// Another entry: pass over it and go on.
    Skip,
    /// The archive has no more entries: the one looked for is not in it.
    Missing,
}

/// The length of the base64 text for `len` bytes: four characters for every
/// three bytes or part of three.
pub open spec fn encoded_len(len: nat) -> nat {
    ((len + 2) / 3 * 4) as nat
}

/// Data short enough for its base64 text to fit in one allocation.
pub open spec fn encodable(data: Seq<u8>) -> bool {
    encoded_len(data.len()) <= isize::MAX
}

/// `name` lies in the folder that macOS adds to archives for its metadata.
pub open spec fn is_metadata_name(name: Seq<char>) -> bool {
    contains(name, "__MACOSX"@)
}

/// The entry is an image to show: a file with an image's name, outside the
/// metadata folder.
pub open spec fn shown_image(e: EntryView) -> bool {
    e.is_file && is_image_name(e.name) && !is_metadata_name(e.name)
}

/// The entry is a nested archive to show: a file with an archive's name and
/// not an image's, outside the metadata folder.
pub open spec fn shown_archive(e: EntryView) -> bool {
    e.is_file && !is_metadata_name(e.name) && !is_image_name(e.name) && is_archive_name(e.name)
}

/// Picks the name of an entry that is an image to show.
pub open spec fn image_pick() -> spec_fn(EntryView) -> Option<Seq<char>> {
    |e: EntryView|
        if shown_image(e) {
            Some(e.name)
        } else {
            None
        }
}

/// Picks the name of an entry that is a nested archive to show.
pub open spec fn nested_pick() -> spec_fn(EntryView) -> Option<Seq<char>> {
    |e: EntryView|
        if shown_archive(e) {
            Some(e.name)
        } else {
            None
        }
}

/// The names of the images among `entries`, in the order of the listing.
pub open spec fn image_names(entries: Seq<EntryView>) -> Seq<Seq<char>> {
    entries.filter_map(image_pick())
}

/// The names of the nested archives among `entries`, in the order of the
/// listing.
pub open spec fn nested_names(entries: Seq<EntryView>) -> Seq<Seq<char>> {
    entries.filter_map(nested_pick())
}

/// What an archive with these entries contains: its images if it has any,
/// else its nested archives if it has any, each in natural order.
pub open spec fn contents_of(entries: Seq<EntryView>) -> ContentsView {
    if image_names(entries).len() > 0 {
        ContentsView::Images { names: natural_sort(image_names(entries)) }
    } else if nested_names(entries).len() > 0 {
        ContentsView::NestedArchives { names: natural_sort(nested_names(entries)) }
    } else {
        ContentsView::Empty
    }
}

/// The data URL of an image: its MIME type by its name, and its bytes in
/// base64.
pub open spec fn data_url_of(entry_name: Seq<char>, data: Seq<u8>) -> Seq<char> {
    "data:"@ + mime_type_of(entry_name) + ";base64,"@ + base64_standard(data)
}

/// The name of the file into which a nested archive is unpacked: the final
/// component of its name in the archive, or `archive` where it has none.
pub open spec fn unpacked_name(nested_name: Seq<char>) -> Seq<char> {
    match path_file_name(nested_name) {
        Some(n) => n,
        None => "archive"@,
    }
}

/// The message for an image that the archive does not hold.
pub open spec fn entry_not_found(entry_name: Seq<char>) -> Seq<char> {
    "Entry not found: "@ + entry_name
}

/// The message for a nested archive that the archive does not hold.
pub open spec fn nested_not_found(nested_name: Seq<char>) -> Seq<char> {
    "Nested archive not found: "@ + nested_name
}

/// Splits a listing into the names of its images and of its nested
/// archives, each kept in the order of the listing.
fn shown_names(entries: &Vec<ArchiveEntry>) -> (r: (Vec<String>, Vec<String>))
    ensures
        views(r.0@) == image_names(views(entries@)),
        views(r.1@) == nested_names(views(entries@)),
{
    let ghost all = views(entries@);
    let mut images: Vec<String> = Vec::new();
    let mut nested: Vec<String> = Vec::new();
    let n: usize = entries.len();
    let mut i: usize = 0;
    while i < n
        invariant
            n == entries.len(),
            all == views(entries@),
            i <= n,
            views(images@) == all.take(i as int).filter_map(image_pick()),
            views(nested@) == all.take(i as int).filter_map(nested_pick()),
        decreases n - i,
    {
        let entry = &entries[i];
        let ghost e = all[i as int];
        let ghost images_before = views(images@);
        let ghost nested_before = views(nested@);
        proof {
            all.lemma_filter_map_take_succ(image_pick(), i as int);
            all.lemma_filter_map_take_succ(nested_pick(), i as int);
        }
        if entry.is_file && !contains_text(entry.name.as_str(), "__MACOSX") {
            if is_image_file(entry.name.as_str()) {
                images.push(entry.name.clone());
            } else if is_archive_file(entry.name.as_str()) {
                nested.push(entry.name.clone());
            }
        }
        i += 1;
    }
    assert(all.take(n as int) =~= all);
    (images, nested)
}

/// The images of a listing: the names of the files that are images and lie
/// outside the metadata folder, in natural order.
pub fn select_images(entries: &Vec<ArchiveEntry>) -> (names: Vec<String>)
    ensures
        views(names@) == natural_sort(image_names(views(entries@))),
{
    let (images, _) = shown_names(entries);
    sort_names(images)
}

/// The contents of a listing: its images if it has any, else its nested
/// archives if it has any, in natural order; else nothing.
pub fn classify_contents(entries: &Vec<ArchiveEntry>) -> (contents: ArchiveContents)
    ensures
        contents@ == contents_of(views(entries@)),
{
    let (images, nested) = shown_names(entries);
    if images.len() > 0 {
        ArchiveContents::Images { names: sort_names(images) }
    } else if nested.len() > 0 {
        ArchiveContents::NestedArchives { names: sort_names(nested) }
    } else {
        ArchiveContents::Empty
    }
}

/// List image entries in an archive, sorted by natural order.
///
/// `listing` is what reading the archive gave: its entries, or the message
/// of the failure. A path whose extension names no format is refused
/// whatever the listing; a failure to read is passed on as it is.
pub fn list_images(archive_path: &str, listing: Result<Vec<ArchiveEntry>, String>) -> (r: Result<
    Vec<String>,
    String,
>)
    ensures
        match format_of_path(archive_path@) {
            Err(unsupported) => r matches Err(m) && m@ == unsupported,
            Ok(_) => match listing {
                Err(failure) => r matches Err(m) && m == failure,
                Ok(entries) => r matches Ok(names) && views(names@) == natural_sort(
                    image_names(views(entries@)),
                ),
            },
        },
{
    match archive_format(archive_path) {
        Err(unsupported) => Err(unsupported),
        Ok(_) => match listing {
            Err(failure) => Err(failure),
            Ok(entries) => Ok(select_images(&entries)),
        },
    }
}

/// Analyze archive contents to determine if it contains images or nested archives.
///
/// `listing` is what reading the archive gave, as for `list_images`.
pub fn analyze_contents(archive_path: &str, listing: Result<Vec<ArchiveEntry>, String>) -> (r:
    Result<ArchiveContents, String>)
    ensures
        match format_of_path(archive_path@) {
            Err(unsupported) => r matches Err(m) && m@ == unsupported,
            Ok(_) => match listing {
                Err(failure) => r matches Err(m) && m == failure,
                Ok(entries) => r matches Ok(contents) && contents@ == contents_of(
                    views(entries@),
                ),
            },
        },
{
    match archive_format(archive_path) {
        Err(unsupported) => Err(unsupported),
        Ok(_) => match listing {
            Err(failure) => Err(failure),
            Ok(entries) => Ok(classify_contents(&entries)),
        },
    }
}

/// Decides what a scan for the entry `wanted` does at the entry it has
/// reached: `header_name` is that entry's name, or nothing at the end of the
/// archive. Names match only where they are the same text.
pub fn scan_step(header_name: Option<&str>, wanted: &str) -> (step: ScanStep)
    ensures
        step == match header_name {
            None => ScanStep::Missing,
            Some(name) => if name@ == wanted@ {
                ScanStep::Take
            } else {
                ScanStep::Skip
            },
        },
{
    match header_name {
        None => ScanStep::Missing,
        Some(name) => if same_text(name, wanted) {
            ScanStep::Take
        } else {
            ScanStep::Skip
        },
    }
}

/// Is `data` short enough for its base64 text to fit in one allocation?
pub fn can_encode(data: &[u8]) -> (r: bool)
    ensures
        r == encodable(data@),
{
    let len: usize = data.len();
    let groups: usize = if len % 3 == 0 {
        len / 3
    } else {
        len / 3 + 1
    };
    groups <= (isize::MAX as usize) / 4
}

/// The data URL of an image: `data:`, its MIME type by `entry_name`,
/// `;base64,` and the bytes in base64.
pub fn data_url(entry_name: &str, data: &[u8]) -> (url: String)
    requires
        encodable(data@),
    ensures
        url@ == data_url_of(entry_name@, data@),
{
    let encoded = base64_encode(data);
    let head = concat("data:", mime_type_from_name(entry_name));
    let upto = concat(head.as_str(), ";base64,");
    concat(upto.as_str(), encoded.as_str())
}

/// Extract a single image from an archive and return it as a Base64-encoded data URL.
///
/// `found` is what looking for the entry gave: its bytes, nothing where
/// the archive holds no such entry, or the message of a failure.
pub fn get_image_base64(
    archive_path: &str,
    entry_name: &str,
    found: Result<Option<Vec<u8>>, String>,
) -> (r: Result<String, String>)
    requires
        found matches Ok(Some(data)) ==> encodable(data@),
    ensures
        match format_of_path(archive_path@) {
            Err(unsupported) => r matches Err(m) && m@ == unsupported,
            Ok(_) => match found {
                Err(failure) => r matches Err(m) && m == failure,
                Ok(None) => r matches Err(m) && m@ == entry_not_found(entry_name@),
                Ok(Some(data)) => r matches Ok(url) && url@ == data_url_of(entry_name@, data@),
            },
        },
{
    match archive_format(archive_path) {
        Err(unsupported) => Err(unsupported),
        Ok(_) => match found {
            Err(failure) => Err(failure),
            Ok(None) => Err(concat("Entry not found: ", entry_name)),
            Ok(Some(data)) => Ok(data_url(entry_name, data.as_slice())),
        },
    }
}

/// Extract a nested archive from a parent archive: decides the file that
/// is to be written for it.
///
/// `found` is what looking for the entry `nested_name` in the parent gave,
/// as for `get_image_base64`. The file takes the final component of
/// `nested_name` as its name and the entry's bytes unchanged.
pub fn extract_nested_archive(
    parent_path: &str,
    nested_name: &str,
    found: Result<Option<Vec<u8>>, String>,
) -> (r: Result<Extraction, String>)
    ensures
        match format_of_path(parent_path@) {
            Err(unsupported) => r matches Err(m) && m@ == unsupported,
            Ok(_) => match found {
                Err(failure) => r matches Err(m) && m == failure,
                Ok(None) => r matches Err(m) && m@ == nested_not_found(nested_name@),
                Ok(Some(data)) => r matches Ok(file) && file.file_name@ == unpacked_name(
                    nested_name@,
                ) && file.data == data,
            },
        },
{
    match archive_format(parent_path) {
        Err(unsupported) => Err(unsupported),
        Ok(_) => match found {
            Err(failure) => Err(failure),
            Ok(None) => Err(concat("Nested archive not found: ", nested_name)),
            Ok(Some(data)) => {
                let file_name = match file_name_of(nested_name) {
                    Some(name) => name,
                    None => "archive".to_owned(),
                };
                Ok(Extraction { file_name, data })
            },
        },
    }
}

/// A name is listed among the images exactly where the archive has an entry
/// of that name that is an image to show.
pub proof fn lemma_listed_images(entries: Seq<EntryView>, name: Seq<char>)
    ensures
        natural_sort(image_names(entries)).contains(name) <==> exists|i: int|
            0 <= i < entries.len() && shown_image(#[trigger] entries[i]) && entries[i].name == name,
{
    lemma_sorted_contains::<String>(image_names(entries), name);
    lemma_image_names_contains(entries, name);
}

/// A name is among the picked image names exactly where an entry of that
/// name is an image to show.
proof fn lemma_image_names_contains(entries: Seq<EntryView>, name: Seq<char>)
    ensures
        image_names(entries).contains(name) <==> exists|i: int|
            0 <= i < entries.len() && shown_image(#[trigger] entries[i]) && entries[i].name == name,
    decreases entries.len(),
{
    if entries.len() > 0 {
        let front = entries.drop_last();
        let picked = image_names(front);
        lemma_image_names_contains(front, name);
        if exists|i: int| 0 <= i < entries.len() && shown_image(#[trigger] entries[i]) && entries[i].name == name {
            let i = choose|i: int| 0 <= i < entries.len() && shown_image(#[trigger] entries[i]) && entries[i].name == name;
            if i < front.len() {
                assert(front[i] == entries[i]);
                let k = choose|k: int| 0 <= k < picked.len() && picked[k] == name;
                assert(image_names(entries)[k] == name);
            } else {
                assert(image_names(entries)[picked.len() as int] == name);
            }
        }
    }
}

/// No message of a missing entry can be taken for that of an unsupported
/// format: the one starts with `Unsupported`, the others do not.
pub proof fn lemma_not_found_is_not_unsupported(name: Seq<char>, ext: Seq<char>)
    ensures
        starts_with(unsupported_message(ext), "Unsupported"@),
        !starts_with(entry_not_found(name), "Unsupported"@),
        !starts_with(nested_not_found(name), "Unsupported"@),
{
    reveal_strlit("Unsupported archive format: .");
    reveal_strlit("Unsupported");
    reveal_strlit("Entry not found: ");
    reveal_strlit("Nested archive not found: ");
    assert(unsupported_message(ext).subrange(0, 11) =~= "Unsupported"@);
    assert(entry_not_found(name).subrange(0, 11)[0] == 'E');
    assert(nested_not_found(name).subrange(0, 11)[0] == 'N');
}

} // verus!
