use modpack::archive::{output_file_name, with_format_extension};
use modpack::Format;

fn name_of(input: &str) -> String {
    String::from_utf8(output_file_name(input.as_bytes())).unwrap()
}

#[test]
fn test_output_file_name() {
    let cases = &[
        ("file.out", "/"),
        ("file.out", "file"),
        ("file.out", "file.zip"),
        ("file.out", "file.tzst"),
        ("file.out", "file.tar.zst"),
        ("file-1.0.0.out", "file-1.0.0.zip"),
        ("file-1.0.0.out", "file-1.0.0.tzst"),
        ("file-1.0.0.out", "file-1.0.0.tar.zst"),
        ("/temp/file-1.0.0.out", "/temp/file-1.0.0.zip"),
        ("/temp/file-1.0.0.out", "/temp/file-1.0.0.tzst"),
        ("/temp/file-1.0.0.out", "/temp/file-1.0.0.tar.zst"),
    ];

    for (expect, input) in cases {
        assert_eq!(*expect, name_of(input));
    }
}

#[test]
fn test_format_extension_replaces_out() {
    let base = output_file_name(b"mod-2.1.zip");
    let tzst = with_format_extension(&base, Format::Zstd);
    let zip = with_format_extension(&base, Format::Zip);
    assert_eq!(b"mod-2.1.tzst".to_vec(), tzst);
    assert_eq!(b"mod-2.1.zip".to_vec(), zip);
}

#[test]
fn test_output_naming_keeps_parent_and_strips_one_suffix() {
    // one recognized suffix is stripped, never two
    assert_eq!("a.tzst.out", name_of("a.tzst.zip"));
    // unrecognized suffixes stay
    assert_eq!("notes.txt.out", name_of("notes.txt"));
    assert_eq!("/p/q/bundle.out", name_of("/p/q/bundle.tar.zst"));
}

#[test]
fn test_output_naming_ignores_trailing_slashes() {
    // a directory source written with a trailing slash names the directory
    assert_eq!("/mods/pack.out", name_of("/mods/pack/"));
    assert_eq!("dir.out", name_of("dir/"));
    assert_eq!("file.out", name_of("//"));
}
