use modpack::archive::{archive, create_tar_zst_archive};
use modpack::errors::ErrKind;
use modpack::extract::{extract_tar_zst, extract_zip};
use modpack::laws::{tzst_round_trip, zip_round_trip};
use modpack::minify::minify;
use modpack::models::{FileEntry, ModData};
use modpack::{process, Format, Opt};

fn workspace(entries: Vec<FileEntry>) -> ModData {
    ModData::new(b"scratch".to_vec(), entries)
}

fn entry(path: &[u8], data: &[u8]) -> FileEntry {
    FileEntry { path: path.to_vec(), data: data.to_vec() }
}

fn opt_with(format: Format) -> Opt {
    Opt {
        no_json: false,
        no_images: false,
        no_tiles: false,
        format,
        path: b"/temp/mod-1.0.zip".to_vec(),
    }
}

#[test]
fn test_tzst_archiving_is_deterministic() {
    let make = || {
        workspace(vec![
            entry(b"a.txt", b"alpha"),
            entry(b"dir/b.bin", &[0, 1, 2, 3]),
        ])
    };
    let one = create_tar_zst_archive(&make()).unwrap();
    let two = create_tar_zst_archive(&make()).unwrap();
    assert_eq!(one, two);
    // a real zstd frame, not the tar stream handed back unchanged
    assert_eq!(&[0x28, 0xB5, 0x2F, 0xFD], &one[..4]);
}

#[test]
fn test_tzst_round_trip_preserves_members() {
    let d = workspace(vec![
        entry(b"x/y/z.json", b"{\"a\":1}"),
        entry(b"top.txt", b"data"),
    ]);
    let d2 = tzst_round_trip(&d, b"s2".to_vec()).unwrap();
    assert_eq!(2, d2.files().len());
    assert_eq!(b"x/y/z.json".to_vec(), d2.files()[0].path);
    assert_eq!(b"{\"a\":1}".to_vec(), d2.files()[0].data);
    assert_eq!(b"top.txt".to_vec(), d2.files()[1].path);
    assert_eq!(b"data".to_vec(), d2.files()[1].data);
}

#[test]
fn test_zip_round_trip_preserves_members() {
    let d = workspace(vec![entry(b"n/m.tmx", b"<map/>"), entry(b"r.png", b"raw")]);
    let d2 = zip_round_trip(&d, b"s2".to_vec()).unwrap();
    assert_eq!(2, d2.files().len());
    assert_eq!(b"n/m.tmx".to_vec(), d2.files()[0].path);
    assert_eq!(b"<map/>".to_vec(), d2.files()[0].data);
    assert_eq!(b"r.png".to_vec(), d2.files()[1].path);
    assert_eq!(b"raw".to_vec(), d2.files()[1].data);
}

#[test]
fn test_manual_round_trip_through_both_formats() {
    let d = workspace(vec![entry(b"keep/me.txt", b"payload")]);
    let tzst = create_tar_zst_archive(&d).unwrap();
    let back = extract_tar_zst(b"s".to_vec(), &tzst).unwrap();
    assert_eq!(b"keep/me.txt".to_vec(), back.files()[0].path);
    let opt = opt_with(Format::Zip);
    let (_, zbytes) = archive(&back, &opt).unwrap();
    let back2 = extract_zip(b"s".to_vec(), &zbytes).unwrap();
    assert_eq!(b"keep/me.txt".to_vec(), back2.files()[0].path);
    assert_eq!(b"payload".to_vec(), back2.files()[0].data);
}

#[test]
fn test_archive_names_output_beside_input() {
    let d = workspace(vec![entry(b"f.txt", b"x")]);
    let (path, _) = archive(&d, &opt_with(Format::Zstd)).unwrap();
    assert_eq!(b"/temp/mod-1.0.tzst".to_vec(), path);
    let (path2, _) = archive(&d, &opt_with(Format::Zip)).unwrap();
    assert_eq!(b"/temp/mod-1.0.zip".to_vec(), path2);
}

#[test]
fn test_all_toggles_off_is_no_op() {
    let d = workspace(vec![
        entry(b"a.json", b"{ keep: 1, }"),
        entry(b"b.png", b"not even a png"),
        entry(b"c.tmx", b"<bad"),
    ]);
    let mut opt = opt_with(Format::Zstd);
    opt.no_json = true;
    opt.no_images = true;
    opt.no_tiles = true;
    let d2 = minify(&d, &opt).unwrap();
    for (before, after) in d.files().iter().zip(d2.files().iter()) {
        assert_eq!(before.path, after.path);
        assert_eq!(before.data, after.data);
    }
}

#[test]
fn test_one_corrupt_png_fails_the_whole_run() {
    let d = workspace(vec![
        entry(b"ok1.json", b"{\"fine\":true}"),
        entry(b"broken.png", b"garbage bytes, not a png"),
        entry(b"ok2.json", b"{}"),
    ]);
    let opt = opt_with(Format::Zstd);
    let e = minify(&d, &opt).unwrap_err();
    assert_eq!(ErrKind::ImageCodec, e.kind);
    assert_eq!(b"broken.png".to_vec(), e.path);
    // the full run fails too, and produces no archive bytes
    assert!(process(&d, &opt).is_err());
}

#[test]
fn test_minify_rewrites_matching_files_in_place() {
    let d = workspace(vec![
        entry(b"cfg/a.json", b"{ a : 1 }"),
        entry(b"readme.txt", b"untouched"),
    ]);
    let opt = opt_with(Format::Zstd);
    let d2 = minify(&d, &opt).unwrap();
    assert_eq!(b"{\"a\":1}".to_vec(), d2.files()[0].data);
    assert_eq!(b"untouched".to_vec(), d2.files()[1].data);
    assert_eq!(b"cfg/a.json".to_vec(), d2.files()[0].path);
}

#[test]
fn test_process_produces_named_archive() {
    let d = workspace(vec![entry(b"cfg/a.json", b"{ a : 1 }")]);
    let opt = opt_with(Format::Zstd);
    let (path, bytes) = process(&d, &opt).unwrap();
    assert_eq!(b"/temp/mod-1.0.tzst".to_vec(), path);
    let back = extract_tar_zst(b"s".to_vec(), &bytes).unwrap();
    assert_eq!(b"{\"a\":1}".to_vec(), back.files()[0].data);
}

#[test]
fn test_duplicate_paths_fail_zip_archiving() {
    // the zip writer rejects a duplicate entry name; tzst accepts it
    let d = workspace(vec![entry(b"same.txt", b"one"), entry(b"same.txt", b"two")]);
    let e = archive(&d, &opt_with(Format::Zip)).unwrap_err();
    assert_eq!(ErrKind::ArchiveWrite, e.kind);
    assert_eq!(b"same.txt".to_vec(), e.path);
    assert!(archive(&d, &opt_with(Format::Zstd)).is_ok());
}

#[test]
fn test_oversized_name_fails_zip_archiving_only() {
    // zip's name-length field is 16 bits; tzst has no such limit
    let long_name = vec![b'n'; 70000];
    let d = workspace(vec![FileEntry { path: long_name.clone(), data: b"x".to_vec() }]);
    let e = archive(&d, &opt_with(Format::Zip)).unwrap_err();
    assert_eq!(ErrKind::ArchiveWrite, e.kind);
    assert_eq!(long_name, e.path);
    assert!(archive(&d, &opt_with(Format::Zstd)).is_ok());
}

#[test]
fn test_workspace_delete_always_succeeds() {
    let d = workspace(vec![entry(b"a.txt", b"x")]);
    assert!(d.delete().is_ok());
}
