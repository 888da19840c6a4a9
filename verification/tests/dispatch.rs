use mekuri::archive::{get_image_base64, list_images, ArchiveEntry};
use mekuri::format::{archive_format, format_for_extension, ArchiveFormat};
use std::path::Path;

/// What listing a ZIP archive gives where no file is at `path`: the message
/// of the failure to open it.
fn zip_listing(path: &str) -> Result<Vec<ArchiveEntry>, String> {
    let missing = Path::new(path).metadata().expect_err("a file is at the path");
    Err(format!("Failed to open archive: {missing}"))
}

/// Lists a RAR archive on disk, as a caller of the library does.
fn rar_listing(path: &str) -> Result<Vec<ArchiveEntry>, String> {
    let archive = unrar::Archive::new(path)
        .open_for_listing()
        .map_err(|e| format!("Failed to open RAR archive: {e}"))?;
    let mut entries = Vec::new();
    for entry in archive.flatten() {
        entries.push(ArchiveEntry {
            name: entry.filename.to_string_lossy().to_string(),
            is_file: entry.is_file(),
        });
    }
    Ok(entries)
}

/// Reads the listing of the archive at `path` with the reader of its format.
fn read_listing(path: &str) -> Result<Vec<ArchiveEntry>, String> {
    match archive_format(path) {
        Ok(ArchiveFormat::Zip) => zip_listing(path),
        Ok(ArchiveFormat::Rar) => rar_listing(path),
        Err(_) => Ok(Vec::new()),
    }
}

/// What looking for an entry gives where no file is at `path`: the message
/// of the failure to open the archive with the reader of its format.
fn read_entry(path: &str) -> Result<Option<Vec<u8>>, String> {
    read_listing(path).map(|_| None)
}

#[test]
fn test_unsupported_archive_format() {
    let result = list_images("test.tar", read_listing("test.tar"));
    assert!(result.is_err());
    assert!(result.unwrap_err().contains("Unsupported"));
}

#[test]
fn test_nonexistent_archive() {
    let result = list_images("nonexistent.zip", read_listing("nonexistent.zip"));
    assert!(result.is_err());
}

#[test]
fn test_nonexistent_rar_archive() {
    let result = list_images("nonexistent.rar", read_listing("nonexistent.rar"));
    assert!(result.is_err());
}

#[test]
fn test_cbr_dispatches_to_rar() {
    let result = list_images("nonexistent.cbr", read_listing("nonexistent.cbr"));
    assert!(result.is_err());
    // Should not say "Unsupported": it should be a file-not-found error
    assert!(!result.unwrap_err().contains("Unsupported"));
}

#[test]
fn test_rar_get_image_nonexistent() {
    let result = get_image_base64(
        "nonexistent.rar",
        "image.jpg",
        read_entry("nonexistent.rar"),
    );
    assert!(result.is_err());
}

#[test]
fn unsupported_is_said_whatever_was_read() {
    let expected = Err("Unsupported archive format: .tar".to_string());
    assert_eq!(list_images("test.tar", Ok(Vec::new())), expected);
    assert_eq!(list_images("test.tar", Err("Failed to open archive".to_string())), expected);
    let listing = vec![ArchiveEntry { name: "a.png".to_string(), is_file: true }];
    assert_eq!(list_images("test.tar", Ok(listing)), expected);
}

#[test]
fn a_failure_to_read_is_passed_on() {
    let failure = "Failed to open archive: No such file or directory (os error 2)".to_string();
    assert_eq!(list_images("book.zip", Err(failure.clone())), Err(failure.clone()));
    assert_eq!(list_images("book.cbr", Err(failure.clone())), Err(failure));
}

#[test]
fn format_by_extension() {
    assert_eq!(format_for_extension("zip"), Ok(ArchiveFormat::Zip));
    assert_eq!(format_for_extension("cbz"), Ok(ArchiveFormat::Zip));
    assert_eq!(format_for_extension("rar"), Ok(ArchiveFormat::Rar));
    assert_eq!(format_for_extension("cbr"), Ok(ArchiveFormat::Rar));
    assert_eq!(
        format_for_extension("tar"),
        Err("Unsupported archive format: .tar".to_string())
    );
    assert_eq!(format_for_extension(""), Err("Unsupported archive format: .".to_string()));
    // the extension is expected in lower case
    assert_eq!(
        format_for_extension("ZIP"),
        Err("Unsupported archive format: .ZIP".to_string())
    );
    assert_eq!(
        format_for_extension("zipx"),
        Err("Unsupported archive format: .zipx".to_string())
    );
}

#[test]
fn format_by_path() {
    assert_eq!(archive_format("a.zip"), Ok(ArchiveFormat::Zip));
    assert_eq!(archive_format("/books/Vol 1.CBZ"), Ok(ArchiveFormat::Zip));
    assert_eq!(archive_format("dir.d/b.Rar"), Ok(ArchiveFormat::Rar));
    assert_eq!(archive_format("b.tar.cbr"), Ok(ArchiveFormat::Rar));
    assert_eq!(archive_format("noext"), Err("Unsupported archive format: .".to_string()));
    assert_eq!(archive_format(""), Err("Unsupported archive format: .".to_string()));
    assert_eq!(archive_format(".zip"), Err("Unsupported archive format: .".to_string()));
    assert_eq!(archive_format("a.zip/b"), Err("Unsupported archive format: .".to_string()));
    assert_eq!(archive_format("a.7Z"), Err("Unsupported archive format: .7z".to_string()));
    // the message quotes the extension in lower case, beyond ASCII too
    assert_eq!(
        archive_format("a.T\u{00c4}R"),
        Err("Unsupported archive format: .t\u{00e4}r".to_string())
    );
}
