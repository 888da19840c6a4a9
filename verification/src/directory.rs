//! The listing of a directory: which of its entries are shown, what is said
//! of each, and in what order.
//!
//! The caller reads the directory and hands over one `FsEntry` for each
//! entry it could read; for a directory that `scans_subfolders` asks for, it
//! also reads the directory's own entries into `children`.

use crate::names::{is_archive_file, is_archive_name, is_pdf_file, is_pdf_name};
use crate::natural::{
    in_order, insertion_point, lemma_insertion_point_bounds, lemma_sorted_contains,
    lemma_sorted_in_order, name_after, orders_weakly, sorted, stable_sort, views, Ranked,
};
use crate::outside::natural_compare;
use crate::text::chars_of;
use vstd::prelude::*;

verus! {

/// One line of a directory listing.
#[derive(Debug)]
pub struct DirectoryEntry {
    pub name: String,
    pub path: String,
    pub is_dir: bool,
    pub is_archive: bool,
    pub is_pdf: bool,
    pub has_subfolders: bool,
}

/// A line of a listing, with its texts as characters.
pub struct DirectoryEntryView {
    pub name: Seq<char>,
    pub path: Seq<char>,
    pub is_dir: bool,
    pub is_archive: bool,
    pub is_pdf: bool,
    pub has_subfolders: bool,
}

impl View for DirectoryEntry {
    type V = DirectoryEntryView;

    open spec fn view(&self) -> DirectoryEntryView {
        DirectoryEntryView {
            name: self.name@,
            path: self.path@,
            is_dir: self.is_dir,
            is_archive: self.is_archive,
            is_pdf: self.is_pdf,
            has_subfolders: self.has_subfolders,
        }
    }
}

/// An entry of a subdirectory, as far as the listing needs it.
#[derive(Debug)]
pub struct FsChild {
    pub name: String,
    pub is_dir: bool,
}

/// A child, with its name as characters.
pub struct FsChildView {
    pub name: Seq<char>,
    pub is_dir: bool,
}

impl View for FsChild {
    type V = FsChildView;

    open spec fn view(&self) -> FsChildView {
        FsChildView { name: self.name@, is_dir: self.is_dir }
    }
}

/// An entry of the directory, as it was read.
#[derive(Debug)]
pub struct FsEntry {
    /// The entry's file name.
    pub name: String,
    /// The entry's full path.
    pub path: String,
    /// Whether the entry is a directory.
    pub is_dir: bool,
    /// For a directory that is scanned: its own entries. Empty otherwise.
    pub children: Vec<FsChild>,
}

/// An entry as read, with its texts as characters.
pub struct FsEntryView {
    pub name: Seq<char>,
    pub path: Seq<char>,
    pub is_dir: bool,
    pub children: Seq<FsChildView>,
}

impl View for FsEntry {
    type V = FsEntryView;

    open spec fn view(&self) -> FsEntryView {
        FsEntryView {
            name: self.name@,
            path: self.path@,
            is_dir: self.is_dir,
            children: views(self.children@),
        }
    }
}

impl Ranked for DirectoryEntry {
    /// A file stands after a directory; two directories, and two files, by
    /// the natural order of their names.
    open spec fn after(a: DirectoryEntryView, b: DirectoryEntryView) -> bool {
        if a.is_dir != b.is_dir {
            b.is_dir
        } else {
            name_after(a.name, b.name)
        }
    }

    fn comes_after(&self, other: &Self) -> (r: bool) {
        if self.is_dir != other.is_dir {
            other.is_dir
        } else {
            natural_compare(self.name.as_str(), other.name.as_str()) > 0
        }
    }
}

/// `name` is hidden: it starts with a dot.
pub open spec fn is_hidden(name: Seq<char>) -> bool {
    name.len() > 0 && name[0] == '.'
}

/// Among `children` there is a directory that is not hidden.
pub open spec fn has_visible_subfolder(children: Seq<FsChildView>) -> bool {
    exists|i: int| 0 <= i < children.len() && visible_folder(#[trigger] children[i])
}

/// The child is a directory that is not hidden.
pub open spec fn visible_folder(child: FsChildView) -> bool {
    child.is_dir && !is_hidden(child.name)
}

/// The line under which an entry is listed, if it is listed at all: hidden
/// entries are not, and of the others only directories, archives and PDFs.
pub open spec fn listed_as(e: FsEntryView) -> Option<DirectoryEntryView> {
    let is_archive = !e.is_dir && is_archive_name(e.name);
    let is_pdf = !e.is_dir && !is_archive && is_pdf_name(e.name);
    if is_hidden(e.name) || (!e.is_dir && !is_archive && !is_pdf) {
        None
    } else {
        Some(
            DirectoryEntryView {
                name: e.name,
                path: e.path,
                is_dir: e.is_dir,
                is_archive,
                is_pdf,
                has_subfolders: e.is_dir && has_visible_subfolder(e.children),
            },
        )
    }
}

/// Picks the line of an entry that is listed.
pub open spec fn listed_pick() -> spec_fn(FsEntryView) -> Option<DirectoryEntryView> {
    |e: FsEntryView| listed_as(e)
}

/// The lines of the entries that are listed, in the order they were read.
pub open spec fn listed(entries: Seq<FsEntryView>) -> Seq<DirectoryEntryView> {
    entries.filter_map(listed_pick())
}

/// The listing of a directory with these entries: the listed lines,
/// directories first, each group in the natural order of its names.
pub open spec fn listing_of(entries: Seq<FsEntryView>) -> Seq<DirectoryEntryView> {
    sorted::<DirectoryEntry>(listed(entries))
}

/// In `s`, no directory stands after a file.
pub open spec fn directories_first(s: Seq<DirectoryEntryView>) -> bool {
    forall|i: int, j: int| 0 <= i < j < s.len() && (#[trigger] s[j]).is_dir ==> (#[trigger] s[i]).is_dir
}

/// Is `name` hidden?
pub fn is_hidden_name(name: &str) -> (r: bool)
    ensures
        r == is_hidden(name@),
{
    let chars = chars_of(name);
    chars.len() > 0 && chars[0] == '.'
}

/// Are the entries of a directory with this name to be read, to see whether
/// it has subfolders? They are for every directory that is not hidden.
pub fn scans_subfolders(name: &str, is_dir: bool) -> (r: bool)
    ensures
        r == (is_dir && !is_hidden(name@)),
{
    is_dir && !is_hidden_name(name)
}

/// Does a directory with these entries have a subfolder to show, that is a
/// directory that is not hidden?
pub fn has_subdirectories(children: &Vec<FsChild>) -> (r: bool)
    ensures
        r == has_visible_subfolder(views(children@)),
{
    let n: usize = children.len();
    let mut i: usize = 0;
    while i < n
        invariant
            n == children.len(),
            i <= n,
            forall|k: int| 0 <= k < i ==> !visible_folder(#[trigger] views(children@)[k]),
        decreases n - i,
    {
        let child = &children[i];
        assert(views(children@)[i as int] == child@);
        if child.is_dir && !is_hidden_name(child.name.as_str()) {
            return true;
        }
        i += 1;
    }
    false
}

/// The line under which `entry` is listed, if it is listed.
pub fn list_entry(entry: &FsEntry) -> (line: Option<DirectoryEntry>)
    ensures
        match line {
            Some(l) => listed_as(entry@) == Some(l@),
            None => listed_as(entry@) is None,
        },
{
    if is_hidden_name(entry.name.as_str()) {
        return None;
    }
    let is_dir = entry.is_dir;
    let is_archive = !is_dir && is_archive_file(entry.name.as_str());
    let is_pdf = !is_dir && !is_archive && is_pdf_file(entry.name.as_str());
    if !is_dir && !is_archive && !is_pdf {
        return None;
    }
    let has_subfolders = if is_dir {
        has_subdirectories(&entry.children)
    } else {
        false
    };
    Some(
        DirectoryEntry {
            name: entry.name.clone(),
            path: entry.path.clone(),
            is_dir,
            is_archive,
            is_pdf,
            has_subfolders,
        },
    )
}

/// Orders the lines of a listing: directories first, each group in the
/// natural order of its names, ties in the order they came in.
pub fn sort_entries(lines: Vec<DirectoryEntry>) -> (out: Vec<DirectoryEntry>)
    ensures
        views(out@) == sorted::<DirectoryEntry>(views(lines@)),
        directories_first(views(out@)),
{
    proof {
        lemma_directories_first(views(lines@));
    }
    stable_sort(lines)
}

/// The listing of a directory whose entries were read as `entries`: the
/// directories, archives and PDFs that are not hidden, directories first,
/// each group in the natural order of its names.
pub fn read_directory(entries: &Vec<FsEntry>) -> (out: Vec<DirectoryEntry>)
    ensures
        views(out@) == listing_of(views(entries@)),
        directories_first(views(out@)),
{
    let ghost all = views(entries@);
    let mut lines: Vec<DirectoryEntry> = Vec::new();
    let n: usize = entries.len();
    let mut i: usize = 0;
    while i < n
        invariant
            n == entries.len(),
            all == views(entries@),
            i <= n,
            views(lines@) == all.take(i as int).filter_map(listed_pick()),
        decreases n - i,
    {
        let ghost before = views(lines@);
        proof {
            all.lemma_filter_map_take_succ(listed_pick(), i as int);
        }
        match list_entry(&entries[i]) {
            Some(line) => {
                let ghost l = line@;
                lines.push(line);
            },
            None => {
            },
        }
        i += 1;
    }
    assert(all.take(n as int) =~= all);
    sort_entries(lines)
}

/// Directories always sort before files: in a sorted listing no directory
/// stands after a file, whatever the natural order makes of the names.
pub proof fn lemma_directories_first(s: Seq<DirectoryEntryView>)
    ensures
        directories_first(sorted::<DirectoryEntry>(s)),
    decreases s.len(),
{
    if s.len() > 0 {
        let x = s[0];
        let rest = sorted::<DirectoryEntry>(s.drop_first());
        lemma_directories_first(s.drop_first());
        lemma_insertion_point_bounds::<DirectoryEntry>(x, rest);
        let p = insertion_point::<DirectoryEntry>(x, rest);
        let out = rest.insert(p, x);
        // a file is never placed before a directory, and a directory passes
        // no file on its way in
        assert forall|i: int, j: int| 0 <= i < j < out.len() && (#[trigger] out[j]).is_dir implies (
        #[trigger] out[i]).is_dir by {}
    }
}

/// The names of the lines of `s`.
pub open spec fn names_of(s: Seq<DirectoryEntryView>) -> Seq<Seq<char>> {
    Seq::new(s.len(), |i: int| s[i].name)
}

/// Where the natural order is a strict weak order on the names of `s`, the
/// sorted listing is in order: directories first, and the names of each
/// group in natural order.
pub proof fn lemma_listing_in_order(s: Seq<DirectoryEntryView>)
    requires
        orders_weakly::<String>(names_of(s)),
    ensures
        in_order::<DirectoryEntry>(sorted::<DirectoryEntry>(s)),
{
    assert forall|a: DirectoryEntryView| s.contains(a) implies names_of(s).contains(a.name) by {
        let m = choose|m: int| 0 <= m < s.len() && s[m] == a;
        assert(names_of(s)[m] == a.name);
    }
    assert(orders_weakly::<DirectoryEntry>(s)) by {
        assert forall|a: DirectoryEntryView, b: DirectoryEntryView|
            s.contains(a) && s.contains(b) && #[trigger] DirectoryEntry::after(a, b) implies
            !DirectoryEntry::after(b, a) by {
            if a.is_dir == b.is_dir {
                assert(String::after(a.name, b.name));
            }
        }
        assert forall|a: DirectoryEntryView, b: DirectoryEntryView, c: DirectoryEntryView|
            s.contains(a) && s.contains(b) && s.contains(c) && !#[trigger] DirectoryEntry::after(
                a,
                b,
            ) && !#[trigger] DirectoryEntry::after(b, c) implies !DirectoryEntry::after(a, c) by {
            if a.is_dir == b.is_dir && b.is_dir == c.is_dir {
                assert(!String::after(a.name, b.name) && !String::after(b.name, c.name));
            }
        }
    }
    lemma_sorted_in_order::<DirectoryEntry>(s);
}

/// Every line of a listing stands for an entry that is not hidden, and is
/// of exactly one kind: a directory, an archive or a PDF. Only a directory
/// is said to have subfolders.
pub proof fn lemma_listed_lines(entries: Seq<FsEntryView>, line: DirectoryEntryView)
    requires
        listing_of(entries).contains(line),
    ensures
        !is_hidden(line.name),
        line.is_dir || line.is_archive || line.is_pdf,
        !(line.is_dir && line.is_archive),
        !(line.is_dir && line.is_pdf),
        !(line.is_archive && line.is_pdf),
        line.is_archive ==> is_archive_name(line.name),
        line.is_pdf ==> is_pdf_name(line.name),
        line.has_subfolders ==> line.is_dir,
        exists|e: FsEntryView| #[trigger] entries.contains(e) && listed_as(e) == Some(line),
{
    lemma_sorted_contains::<DirectoryEntry>(listed(entries), line);
    entries.lemma_filter_map_contains(listed_pick(), line);
}

} // verus!
