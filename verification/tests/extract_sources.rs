use std::io::Write;

use modpack::errors::ErrKind;
use modpack::extract::{classify_source, copy_dir, extract, extract_zip, Source, SourceKind};
use modpack::models::FileEntry;

fn zip_bytes(entries: &[(&str, &[u8])]) -> Vec<u8> {
    let mut w = zip::ZipWriter::new(std::io::Cursor::new(Vec::new()));
    for (name, data) in entries {
        w.start_file(*name, zip::write::SimpleFileOptions::default()).unwrap();
        w.write_all(data).unwrap();
    }
    w.finish().unwrap().into_inner()
}

#[test]
fn test_classify_source_by_suffix() {
    assert_eq!(SourceKind::ZipFile, classify_source(b"bundle.zip"));
    assert_eq!(SourceKind::TarZstFile, classify_source(b"bundle.tzst"));
    assert_eq!(SourceKind::TarZstFile, classify_source(b"bundle.tar.zst"));
    assert_eq!(SourceKind::Unsupported, classify_source(b"bundle.tar.gz"));
    assert_eq!(SourceKind::Unsupported, classify_source(b"bundle"));
}

#[test]
fn test_zip_extraction_keeps_order_and_contents() {
    let bytes = zip_bytes(&[("b/two.json", b"{}"), ("one.txt", b"hello")]);
    let d = extract_zip(b"scratch".to_vec(), &bytes).unwrap();
    let files = d.files();
    assert_eq!(2, files.len());
    assert_eq!(b"b/two.json".to_vec(), files[0].path);
    assert_eq!(b"{}".to_vec(), files[0].data);
    assert_eq!(b"one.txt".to_vec(), files[1].path);
    assert_eq!(b"hello".to_vec(), files[1].data);
    assert_eq!(b"scratch".to_vec(), *d.path());
}

#[test]
fn test_zip_entry_escaping_parent_fails_extraction() {
    let bytes = zip_bytes(&[("ok.txt", b"fine"), ("../../evil", b"boom")]);
    let e = extract_zip(b"scratch".to_vec(), &bytes).unwrap_err();
    assert_eq!(ErrKind::InvalidPath, e.kind);
    assert_eq!(b"../../evil".to_vec(), e.path);
}

#[test]
fn test_zip_absolute_entry_name_fails_extraction() {
    let bytes = zip_bytes(&[("/abs/evil", b"boom")]);
    let e = extract_zip(b"scratch".to_vec(), &bytes).unwrap_err();
    assert_eq!(ErrKind::InvalidPath, e.kind);
}

#[test]
fn test_corrupt_zip_is_archive_format_error() {
    let e = extract_zip(b"scratch".to_vec(), b"this is no zip archive").unwrap_err();
    assert_eq!(ErrKind::ArchiveFormat, e.kind);
}

#[test]
fn test_misnamed_file_is_container_error_not_misdetection() {
    // dispatch is by suffix only: a zip named .tzst is a container error
    let bytes = zip_bytes(&[("a.txt", b"x")]);
    let e = extract(Source::File(b"mod.tzst".to_vec(), bytes), b"s".to_vec()).unwrap_err();
    assert_eq!(ErrKind::ArchiveFormat, e.kind);
}

#[test]
fn test_unsupported_source_kinds() {
    let e = extract(Source::File(b"mod.rar".to_vec(), vec![1, 2, 3]), b"s".to_vec()).unwrap_err();
    assert_eq!(ErrKind::UnsupportedInput, e.kind);
    let e2 = extract(Source::Missing, b"s".to_vec()).unwrap_err();
    assert_eq!(ErrKind::UnsupportedInput, e2.kind);
}

#[test]
fn test_dir_entries_are_validated() {
    let good = vec![
        FileEntry { path: b"a.json".to_vec(), data: b"{}".to_vec() },
        FileEntry { path: b"sub/b.txt".to_vec(), data: b"t".to_vec() },
    ];
    let d = copy_dir(b"s".to_vec(), good).unwrap();
    assert_eq!(2, d.files().len());

    let bad = vec![FileEntry { path: b"sub/../up".to_vec(), data: vec![] }];
    let e = copy_dir(b"s".to_vec(), bad).unwrap_err();
    assert_eq!(ErrKind::InvalidPath, e.kind);
    assert_eq!(b"sub/../up".to_vec(), e.path);
}

#[test]
fn test_reserved_bytes_in_entry_names_are_rejected() {
    // backslashes are refused outright: at the end of a zip name they flip
    // the member into a directory on read-back, elsewhere they are a
    // separator on some platforms
    let backslash = vec![FileEntry { path: b"a\\evil".to_vec(), data: vec![] }];
    let e = copy_dir(b"s".to_vec(), backslash).unwrap_err();
    assert_eq!(ErrKind::InvalidPath, e.kind);

    let nul = vec![FileEntry { path: b"a\x00b".to_vec(), data: vec![] }];
    let e2 = copy_dir(b"s".to_vec(), nul).unwrap_err();
    assert_eq!(ErrKind::InvalidPath, e2.kind);
}
