use mekuri::directory::{
    has_subdirectories, is_hidden_name, list_entry, read_directory, scans_subfolders,
    sort_entries, DirectoryEntry, FsChild, FsEntry,
};

fn child(name: &str, is_dir: bool) -> FsChild {
    FsChild { name: name.to_string(), is_dir }
}

fn entry(name: &str, is_dir: bool, children: Vec<FsChild>) -> FsEntry {
    FsEntry { name: name.to_string(), path: format!("/lib/{name}"), is_dir, children }
}

fn line(name: &str, is_dir: bool) -> DirectoryEntry {
    DirectoryEntry {
        name: name.to_string(),
        path: format!("/lib/{name}"),
        is_dir,
        is_archive: !is_dir,
        is_pdf: false,
        has_subfolders: false,
    }
}

fn names(lines: &[DirectoryEntry]) -> Vec<&str> {
    lines.iter().map(|l| l.name.as_str()).collect()
}

#[test]
fn hidden_names_start_with_a_dot() {
    assert!(is_hidden_name(".git"));
    assert!(is_hidden_name("."));
    assert!(!is_hidden_name("a.git"));
    assert!(!is_hidden_name(""));
}

#[test]
fn subfolders_are_scanned_for_visible_directories() {
    assert!(scans_subfolders("books", true));
    assert!(!scans_subfolders(".cache", true));
    assert!(!scans_subfolders("books.zip", false));
}

#[test]
fn subdirectories_must_be_directories_and_visible() {
    assert!(!has_subdirectories(&Vec::new()));
    assert!(!has_subdirectories(&vec![child("a.zip", false), child(".git", true)]));
    assert!(has_subdirectories(&vec![child("a.zip", false), child(".git", true), child("x", true)]));
}

#[test]
fn entries_are_listed_by_kind() {
    let dir = list_entry(&entry("books", true, vec![child("old", true)])).unwrap();
    assert!(dir.is_dir && !dir.is_archive && !dir.is_pdf && dir.has_subfolders);
    assert_eq!(dir.name, "books");
    assert_eq!(dir.path, "/lib/books");

    let flat = list_entry(&entry("flat", true, vec![child("a.png", false)])).unwrap();
    assert!(flat.is_dir && !flat.has_subfolders);

    let archive = list_entry(&entry("a.CBZ", false, Vec::new())).unwrap();
    assert!(!archive.is_dir && archive.is_archive && !archive.is_pdf && !archive.has_subfolders);

    let pdf = list_entry(&entry("a.pdf", false, Vec::new())).unwrap();
    assert!(!pdf.is_dir && !pdf.is_archive && pdf.is_pdf);

    // a directory is a directory whatever its name
    let named = list_entry(&entry("a.zip", true, Vec::new())).unwrap();
    assert!(named.is_dir && !named.is_archive && !named.is_pdf);

    assert!(list_entry(&entry("a.png", false, Vec::new())).is_none());
    assert!(list_entry(&entry(".hidden.zip", false, Vec::new())).is_none());
    assert!(list_entry(&entry(".hidden", true, vec![child("x", true)])).is_none());
}

#[test]
fn directories_sort_before_files() {
    let sorted = sort_entries(vec![
        line("a.zip", false),
        line("z", true),
        line("b10.zip", false),
        line("b9.zip", false),
        line("m10", true),
        line("m9", true),
    ]);
    assert_eq!(names(&sorted), vec!["m9", "m10", "z", "a.zip", "b9.zip", "b10.zip"]);
    let first_file = sorted.iter().position(|l| !l.is_dir).unwrap();
    assert!(sorted[first_file..].iter().all(|l| !l.is_dir));
}

#[test]
fn directory_is_filtered_and_sorted() {
    let listing = read_directory(&vec![
        entry("vol10.cbz", false, Vec::new()),
        entry("notes.txt", false, Vec::new()),
        entry(".DS_Store", false, Vec::new()),
        entry("series", true, vec![child("season 1", true)]),
        entry("vol2.cbz", false, Vec::new()),
        entry("Manual.PDF", false, Vec::new()),
        entry("art", true, vec![child(".thumbs", true), child("1.png", false)]),
    ]);
    assert_eq!(names(&listing), vec!["art", "series", "Manual.PDF", "vol2.cbz", "vol10.cbz"]);
    assert!(!listing[0].has_subfolders);
    assert!(listing[1].has_subfolders);
    assert!(listing[2].is_pdf);
    assert!(listing[3].is_archive);
    assert_eq!(listing[4].path, "/lib/vol10.cbz");
}

#[test]
fn empty_directory_lists_nothing() {
    assert!(read_directory(&Vec::new()).is_empty());
}
