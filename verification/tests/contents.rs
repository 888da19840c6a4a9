use base64::Engine;
use mekuri::archive::{
    analyze_contents, can_encode, classify_contents, data_url, extract_nested_archive, get_image_base64,
    scan_step, select_images, ArchiveContents, ArchiveEntry, ScanStep,
};

fn file(name: &str) -> ArchiveEntry {
    ArchiveEntry { name: name.to_string(), is_file: true }
}

fn folder(name: &str) -> ArchiveEntry {
    ArchiveEntry { name: name.to_string(), is_file: false }
}

#[test]
fn images_are_filtered_and_sorted() {
    let entries = vec![
        file("page03.jpg"),
        file("page01.jpg"),
        file("readme.txt"),
        file("page02.png"),
        file("__MACOSX/._page01.jpg"),
    ];
    assert_eq!(select_images(&entries), vec!["page01.jpg", "page02.png", "page03.jpg"]);
}

#[test]
fn images_that_are_not_files_are_left_out() {
    let entries = vec![folder("scans.jpg"), file("scans.jpg/1.JPG"), folder("b")];
    assert_eq!(select_images(&entries), vec!["scans.jpg/1.JPG"]);
}

#[test]
fn metadata_folder_is_left_out_wherever_it_stands() {
    let entries = vec![file("a/__MACOSX/1.png"), file("x__MACOSXy.png"), file("_MACOSX.png")];
    assert_eq!(select_images(&entries), vec!["_MACOSX.png"]);
}

#[test]
fn contents_prefer_images() {
    let entries = vec![file("b.zip"), file("2.png"), file("a.cbr"), file("1.gif")];
    match classify_contents(&entries) {
        ArchiveContents::Images { names } => assert_eq!(names, vec!["1.gif", "2.png"]),
        other => panic!("{other:?}"),
    }
}

#[test]
fn contents_fall_back_to_nested_archives() {
    let entries = vec![
        file("vol10.zip"),
        file("vol9.CBR"),
        folder("vol1.zip"),
        file("__MACOSX/vol0.zip"),
        file("cover.txt"),
    ];
    match classify_contents(&entries) {
        ArchiveContents::NestedArchives { names } => {
            assert_eq!(names, vec!["vol9.CBR", "vol10.zip"])
        }
        other => panic!("{other:?}"),
    }
}

#[test]
fn contents_of_nothing_relevant_are_empty() {
    assert!(matches!(classify_contents(&Vec::new()), ArchiveContents::Empty));
    let entries = vec![file("readme.txt"), folder("a.png"), file("__MACOSX/a.png")];
    assert!(matches!(classify_contents(&entries), ArchiveContents::Empty));
}

#[test]
fn analyze_refuses_and_passes_on() {
    let refused = analyze_contents("a.tar", Ok(vec![file("1.png")]));
    assert_eq!(refused.unwrap_err(), "Unsupported archive format: .tar");
    let failed = analyze_contents("a.rar", Err("Failed to open RAR archive: x".to_string()));
    assert_eq!(failed.unwrap_err(), "Failed to open RAR archive: x");
    let read = analyze_contents("a.rar", Ok(vec![file("1.png")])).unwrap();
    assert!(matches!(read, ArchiveContents::Images { names } if names == vec!["1.png"]));
}

#[test]
fn scan_takes_the_same_name_only() {
    assert_eq!(scan_step(Some("a/1.png"), "a/1.png"), ScanStep::Take);
    assert_eq!(scan_step(Some("a/1.PNG"), "a/1.png"), ScanStep::Skip);
    assert_eq!(scan_step(Some("a/1.png "), "a/1.png"), ScanStep::Skip);
    assert_eq!(scan_step(Some(""), "a/1.png"), ScanStep::Skip);
    assert_eq!(scan_step(Some(""), ""), ScanStep::Take);
    assert_eq!(scan_step(None, "a/1.png"), ScanStep::Missing);
}

#[test]
fn data_url_has_mime_type_and_base64() {
    assert_eq!(data_url("a.png", b"fake-png-data"), "data:image/png;base64,ZmFrZS1wbmctZGF0YQ==");
    assert_eq!(data_url("a.WEBP", b"ab"), "data:image/webp;base64,YWI=");
    assert_eq!(data_url("a.gif", b"abc"), "data:image/gif;base64,YWJj");
    assert_eq!(data_url("a.jpg", b""), "data:image/jpeg;base64,");
    assert_eq!(data_url("a", &[0xfb, 0xff]), "data:image/jpeg;base64,+/8=");
}

#[test]
fn base64_round_trips() {
    let data: Vec<u8> = (0..=255u8).chain([7, 7, 7]).collect();
    let url = data_url("x.gif", &data);
    let text = url.strip_prefix("data:image/gif;base64,").unwrap();
    assert_eq!(base64::engine::general_purpose::STANDARD.decode(text).unwrap(), data);
}

#[test]
fn image_of_an_archive() {
    let found = get_image_base64("a.cbz", "p/1.png", Ok(Some(b"abc".to_vec())));
    assert_eq!(found, Ok("data:image/png;base64,YWJj".to_string()));
    let missing = get_image_base64("a.cbr", "p/1.png", Ok(None));
    assert_eq!(missing, Err("Entry not found: p/1.png".to_string()));
    let failed = get_image_base64("a.cbr", "p/1.png", Err("Failed to read RAR header: x".to_string()));
    assert_eq!(failed, Err("Failed to read RAR header: x".to_string()));
    let refused = get_image_base64("a.7z", "p/1.png", Ok(Some(b"abc".to_vec())));
    assert_eq!(refused, Err("Unsupported archive format: .7z".to_string()));
}

#[test]
fn nested_archive_is_unpacked_under_its_file_name() {
    let file = extract_nested_archive("a.rar", "inner/vol 1.cbz", Ok(Some(vec![1, 2, 3]))).unwrap();
    assert_eq!(file.file_name, "vol 1.cbz");
    assert_eq!(file.data, vec![1, 2, 3]);
    let file = extract_nested_archive("a.zip", "vol2.zip", Ok(Some(Vec::new()))).unwrap();
    assert_eq!(file.file_name, "vol2.zip");
    assert!(file.data.is_empty());
}

#[test]
fn nested_archive_without_a_file_name_is_unpacked_as_archive() {
    let file = extract_nested_archive("a.rar", "inner/..", Ok(Some(vec![9]))).unwrap();
    assert_eq!(file.file_name, "archive");
    let file = extract_nested_archive("a.rar", "", Ok(Some(vec![9]))).unwrap();
    assert_eq!(file.file_name, "archive");
}

#[test]
fn nested_archive_refused_missing_or_failed() {
    let refused = extract_nested_archive("a.tgz", "b.zip", Ok(Some(vec![1])));
    assert_eq!(refused.unwrap_err(), "Unsupported archive format: .tgz");
    let missing = extract_nested_archive("a.rar", "b.zip", Ok(None));
    assert_eq!(missing.unwrap_err(), "Nested archive not found: b.zip");
    let failed = extract_nested_archive("a.rar", "b.zip", Err("Failed to read entry: x".to_string()));
    assert_eq!(failed.unwrap_err(), "Failed to read entry: x");
}

#[test]
fn data_that_fits_can_be_encoded() {
    assert!(can_encode(b""));
    assert!(can_encode(b"a"));
    assert!(can_encode(&vec![0u8; 100_000]));
}
