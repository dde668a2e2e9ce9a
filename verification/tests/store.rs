use fastgpt::files::{DirEntry, FileError, FileStore, PathProbe};

fn text_probe(content: &str) -> PathProbe {
    PathProbe::TextFile(content.to_string())
}

#[test]
fn adds_keep_attach_order() {
    let mut store = FileStore::new();
    assert!(store.add_file("a.txt", text_probe("A")).is_ok());
    assert!(store.add_file("b.txt", text_probe("B")).is_ok());
    assert!(store.add_file("c.txt", text_probe("C")).is_ok());
    let files = store.files();
    assert_eq!(files.len(), 3);
    assert_eq!(files[0].path, "a.txt");
    assert_eq!(files[1].path, "b.txt");
    assert_eq!(files[2].path, "c.txt");
}

#[test]
fn duplicate_path_fails_and_size_is_unchanged() {
    let mut store = FileStore::new();
    assert!(store.add_file("a.txt", text_probe("first")).is_ok());
    assert_eq!(store.add_file("a.txt", text_probe("second")), Err(FileError::Duplicate));
    assert_eq!(store.len(), 1);
    assert_eq!(store.files()[0].content, "first");
}

#[test]
fn missing_path_fails_with_not_found() {
    let mut store = FileStore::new();
    assert_eq!(store.add_file("gone.txt", PathProbe::Missing), Err(FileError::NotFound));
    assert_eq!(store.len(), 0);
}

#[test]
fn unreadable_file_fails_with_read_error() {
    let mut store = FileStore::new();
    assert_eq!(store.add_file("bin.dat", PathProbe::UnreadableFile), Err(FileError::ReadError));
    assert_eq!(store.len(), 0);
}

#[test]
fn remove_absent_path_fails_and_size_is_unchanged() {
    let mut store = FileStore::new();
    assert!(store.add_file("a.txt", text_probe("A")).is_ok());
    assert_eq!(store.remove_file("b.txt"), Err(FileError::NotFound));
    assert_eq!(store.len(), 1);
}

#[test]
fn remove_present_path_shrinks_by_one() {
    let mut store = FileStore::new();
    assert!(store.add_file("a.txt", text_probe("A")).is_ok());
    assert!(store.add_file("b.txt", text_probe("B")).is_ok());
    assert_eq!(store.remove_file("a.txt"), Ok(()));
    assert_eq!(store.len(), 1);
    assert_eq!(store.files()[0].path, "b.txt");
    assert_eq!(store.remove_file("a.txt"), Err(FileError::NotFound));
}

#[test]
fn clear_empties_the_store() {
    let mut store = FileStore::new();
    assert!(store.add_file("a.txt", text_probe("A")).is_ok());
    store.clear();
    assert_eq!(store.len(), 0);
}

fn dir_entry(path: &str, is_file: bool, content: Option<&str>) -> DirEntry {
    DirEntry { path: path.to_string(), is_file, content: content.map(|c| c.to_string()) }
}

#[test]
fn directory_with_markdown_and_image_adds_exactly_one() {
    let mut store = FileStore::new();
    let entries = vec![
        dir_entry("d/readme.md", true, Some("hi")),
        dir_entry("d/photo.png", true, Some("not text")),
    ];
    assert_eq!(store.add_directory(entries), Ok(1));
    assert_eq!(store.len(), 1);
    assert_eq!(store.files()[0].path, "d/readme.md");
}

#[test]
fn directory_with_only_images_fails() {
    let mut store = FileStore::new();
    let entries = vec![
        dir_entry("d/a.png", true, Some("x")),
        dir_entry("d/b.png", true, Some("y")),
    ];
    assert_eq!(store.add_directory(entries), Err(FileError::NoSupportedFiles));
    assert_eq!(store.len(), 0);
}

#[test]
fn directory_skips_subdirectories_unreadable_and_duplicates() {
    let mut store = FileStore::new();
    assert!(store.add_file("d/already.rs", text_probe("old")).is_ok());
    let entries = vec![
        dir_entry("d/sub.rs", false, Some("a directory, not a file")),
        dir_entry("d/broken.rs", true, None),
        dir_entry("d/already.rs", true, Some("new")),
        dir_entry("d/fresh.rs", true, Some("fn main() {}")),
        dir_entry("d/fresh.rs", true, Some("listed twice")),
    ];
    assert_eq!(store.add_directory(entries), Ok(1));
    assert_eq!(store.len(), 2);
    assert_eq!(store.files()[0].content, "old");
    assert_eq!(store.files()[1].path, "d/fresh.rs");
    assert_eq!(store.files()[1].content, "fn main() {}");
}

#[test]
fn extension_matching_ignores_ascii_case() {
    let mut store = FileStore::new();
    let entries = vec![
        dir_entry("d/NOTES.TXT", true, Some("upper")),
        dir_entry("d/Config.Toml", true, Some("mixed")),
    ];
    assert_eq!(store.add_directory(entries), Ok(2));
}

#[test]
fn files_without_usable_extension_are_skipped() {
    let mut store = FileStore::new();
    let entries = vec![
        dir_entry("d/noext", true, Some("x")),
        dir_entry("d/.hidden", true, Some("x")),
        dir_entry("d/trailingdot.", true, Some("x")),
    ];
    assert_eq!(store.add_directory(entries), Err(FileError::NoSupportedFiles));
}

#[test]
fn size_is_the_byte_length_not_the_character_count() {
    let mut store = FileStore::new();
    assert!(store.add_file("a.txt", text_probe("h\u{00e9}llo")).is_ok());
    assert_eq!(store.files()[0].size, 6);
    assert_eq!(store.total_bytes(), 6);
}

#[test]
fn total_bytes_sums_content_sizes() {
    let mut store = FileStore::new();
    assert!(store.add_file("a.txt", text_probe("abcd")).is_ok());
    assert!(store.add_file("b.txt", text_probe("xy")).is_ok());
    assert_eq!(store.total_bytes(), 6);
    assert_eq!(store.files()[0].size, 4);
    assert_eq!(store.files()[1].size, 2);
}
