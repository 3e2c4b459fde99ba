use p7z::catalog::{Catalog, Entry, OpenType, Overwrite};
use p7z::listing::{parse_listing, ListingError};

const SEVEN_Z: &str = "7-Zip 23.01 (x64) : Copyright (c) 1999-2023 Igor Pavlov : 2023-06-20\n\nScanning the drive for archives:\n1 file, 1234 bytes (2 KiB)\n\nListing archive: test.7z\n\n--\nPath = test.7z\nType = 7z\nPhysical Size = 1234\nHeaders Size = 200\nMethod = LZMA2:12\nSolid = -\nBlocks = 1\n\n----------\nPath = folder\nSize = 0\nPacked Size = 0\nModified = 2024-01-01 10:00:00\nAttributes = D\nCRC = \nEncrypted = -\nMethod = \nBlock = \n\nPath = folder\\file.txt\nSize = 12\nPacked Size = 16\nModified = 2024-01-02 11:30:00\nAttributes = A\nCRC = 12345678\nEncrypted = +\nMethod = LZMA2:12 7zAES\nBlock = 0\n\n";

fn entry(path: &str, directory: bool, size: Option<u64>) -> Entry {
    Entry {
        path: path.to_string(),
        name: path.rsplit('/').next().unwrap().to_string(),
        directory,
        size,
        modified: String::new(),
        link: false,
        encrypted: false,
    }
}

fn catalog(entries: Vec<Entry>) -> Catalog {
    Catalog {
        path: "C:/a.zip".to_string(),
        entries,
        warning: false,
        format: "ZIP".to_string(),
        size: 10,
        open_type: None,
    }
}

#[test]
fn listing_reads_entries_and_format() {
    let (format, entries) = parse_listing(SEVEN_Z, "test").unwrap();
    assert_eq!(format, "7Z");
    assert_eq!(entries.len(), 2);
    assert_eq!(entries[0].path, "folder");
    assert_eq!(entries[0].name, "folder");
    assert!(entries[0].directory);
    assert_eq!(entries[0].size, Some(0));
    assert!(!entries[0].encrypted);
    assert_eq!(entries[1].path, "folder/file.txt");
    assert_eq!(entries[1].name, "file.txt");
    assert!(!entries[1].directory);
    assert_eq!(entries[1].size, Some(12));
    assert_eq!(entries[1].modified, "2024-01-02 11:30:00");
    assert!(entries[1].encrypted);
    assert!(!entries[1].link);
}

#[test]
fn listing_accepts_crlf_line_ends() {
    let text = SEVEN_Z.replace('\n', "\r\n");
    let (format, entries) = parse_listing(&text, "test").unwrap();
    assert_eq!(format, "7Z");
    assert_eq!(entries.len(), 2);
    assert_eq!(entries[1].modified, "2024-01-02 11:30:00");
}

#[test]
fn listing_without_separator_is_invalid() {
    assert_eq!(parse_listing("Type = zip\n", "x").unwrap_err(), ListingError::Invalid);
}

#[test]
fn listing_with_bad_size_fails() {
    let text = "Type = zip\n----------\nPath = a\nSize = 12x\n\n";
    assert_eq!(parse_listing(text, "x").unwrap_err(), ListingError::BadSize);
}

#[test]
fn listing_without_type_fails_after_entries() {
    let text = "Path = a.zip\n----------\nPath = a\nSize = 1\n\n";
    assert_eq!(parse_listing(text, "x").unwrap_err(), ListingError::FormatMissing);
    let bad = "Path = a.zip\n----------\nPath = a\nSize = -1\n\n";
    assert_eq!(parse_listing(bad, "x").unwrap_err(), ListingError::BadSize);
}

#[test]
fn listing_of_a_stream_names_its_content() {
    let text = "Path = notes.txt.xz\nType = xz\n----------\nSize = 300\nPacked Size = 120\n\n";
    let (format, entries) = parse_listing(text, "notes.txt").unwrap();
    assert_eq!(format, "XZ");
    assert_eq!(entries.len(), 1);
    assert_eq!(entries[0].path, "notes.txt");
    assert_eq!(entries[0].size, Some(300));
    let plain = "Type = zip\n----------\nSize = 300\n\n";
    assert_eq!(parse_listing(plain, "n").unwrap().1.len(), 0);
}

#[test]
fn listing_marks_links_and_trims_slashes() {
    let text = "Type = tar\n----------\nPath = dir\\sub\\\nFolder = +\n\nPath = l\nAttributes = A lrwxrwxrwx\n\nPath = h\nHard Link = x\n\nPath = e\nSize = \nPath = e2\n";
    let (_, entries) = parse_listing(text, "x").unwrap();
    assert_eq!(entries.len(), 4);
    assert_eq!(entries[3].path, "e2");
    assert_eq!(entries[0].path, "dir/sub");
    assert_eq!(entries[0].name, "sub");
    assert!(entries[0].directory);
    assert!(entries[1].link);
    assert!(entries[2].link);
    let (_, later) = parse_listing("Type = tar\n----------\nPath = e\nSize = \nPath = e2\n", "x").unwrap();
    assert_eq!(later[0].path, "e2");
    assert_eq!(later[0].size, None);
}

#[test]
fn from_listing_keeps_the_archive_facts() {
    let c = Catalog::from_listing("C:/t.7z".to_string(), 1234, None, true, SEVEN_Z, "t").unwrap();
    assert_eq!(c.format, "7Z");
    assert_eq!(c.size, 1234);
    assert!(c.warning);
    assert_eq!(c.entries.len(), 2);
    assert!(c.editable());
}

#[test]
fn children_of_top_folder_synthesize_folders() {
    let c = catalog(vec![
        entry("b/x.txt", false, Some(3)),
        entry("a.txt", false, Some(1)),
        entry("b/y/z.txt", false, Some(2)),
    ]);
    let rows = c.children("", "");
    let paths: Vec<&str> = rows.iter().map(|e| e.path.as_str()).collect();
    assert_eq!(paths, vec!["a.txt", "b"]);
    assert!(rows[1].directory);
    assert_eq!(rows[1].name, "b");
    assert_eq!(rows[1].size, None);
}

#[test]
fn listed_folder_replaces_synthesized_one() {
    let c = catalog(vec![entry("b/x.txt", false, Some(3)), entry("b", true, Some(0))]);
    let rows = c.children("", "");
    assert_eq!(rows.len(), 1);
    assert_eq!(rows[0].size, Some(0));
    let d = catalog(vec![entry("b", true, Some(0)), entry("b/x.txt", false, Some(3))]);
    assert_eq!(d.children("", "")[0].size, Some(0));
}

#[test]
fn children_of_subfolder_and_search() {
    let c = catalog(vec![
        entry("b/x.txt", false, Some(3)),
        entry("b/Y/z.TXT", false, Some(2)),
        entry("c.txt", false, Some(1)),
    ]);
    let rows = c.children("b", "");
    let paths: Vec<&str> = rows.iter().map(|e| e.path.as_str()).collect();
    assert_eq!(paths, vec!["b/Y", "b/x.txt"]);
    let found = c.children("b", "Z.t");
    let paths: Vec<&str> = found.iter().map(|e| e.path.as_str()).collect();
    assert_eq!(paths, vec!["b/Y/z.TXT"]);
    assert!(c.children("b", "nothing").is_empty());
}

#[test]
fn editable_formats() {
    let mut c = catalog(vec![]);
    assert!(c.editable());
    c.format = "GZIP".to_string();
    assert!(!c.editable());
    c.format = "7Z".to_string();
    c.open_type = Some(OpenType { value: "#".to_string(), parser: true });
    assert!(!c.editable());
    c.open_type = Some(OpenType { value: "7z".to_string(), parser: false });
    assert!(c.editable());
}

#[test]
fn overwrite_switches_and_labels() {
    assert_eq!(Overwrite::RenameIncoming.argument(), "-aou");
    assert_eq!(Overwrite::Skip.argument(), "-aos");
    assert_eq!(Overwrite::Replace.argument(), "-aoa");
    assert_eq!(Overwrite::RenameExisting.argument(), "-aot");
    assert_eq!(Overwrite::Replace.label_key(), "overwrite-replace");
    assert_eq!(Overwrite::all().len(), 4);
    assert_eq!(p7z::catalog::formats(), vec!["7z", "zip", "tar", "gzip", "bzip2", "xz", "wim"]);
}

#[test]
fn folders_of_an_archive() {
    let c = catalog(vec![entry("a/b/c.txt", false, Some(1)), entry("d", true, None), entry("e.txt", false, Some(2))]);
    assert!(c.has_folder(""));
    assert!(c.has_folder("a"));
    assert!(c.has_folder("a/b"));
    assert!(c.has_folder("d"));
    assert!(!c.has_folder("e.txt"));
    assert!(!c.has_folder("a/b/c"));
}

#[test]
fn comments_only_in_zip() {
    let mut c = catalog(vec![]);
    assert!(c.comment_editable());
    c.format = "7Z".to_string();
    assert!(!c.comment_editable());
}
