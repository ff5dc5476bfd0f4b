use modpack::errors::ErrKind;
use modpack::minify::{classify, minify_json, minify_png, minify_xml, MinifyAction};
use modpack::textenc::{get_encoding, LegacyEncoding};
use modpack::{Format, Opt};

fn opt_default() -> Opt {
    Opt {
        no_json: false,
        no_images: false,
        no_tiles: false,
        format: Format::Zstd,
        path: b"mod.zip".to_vec(),
    }
}

#[test]
fn test_json_minify_compacts_and_tolerates_json5() {
    let out = minify_json(b"conf.json", b"{ a: 1, /* note */ \"b\": [1, 2, ], }").unwrap();
    assert_eq!("{\"a\":1,\"b\":[1,2]}", String::from_utf8(out).unwrap());
}

#[test]
fn test_json_minify_keeps_key_order_as_encountered() {
    let out = minify_json(b"conf.json", b"{ \"b\": 2, \"a\": 1 }").unwrap();
    assert_eq!("{\"b\":2,\"a\":1}", String::from_utf8(out).unwrap());
}

#[test]
fn test_json_minify_is_idempotent() {
    let once = minify_json(b"conf.json", b"{  \"k\" :  \"v\"  }").unwrap();
    let twice = minify_json(b"conf.json", &once).unwrap();
    assert_eq!(once, twice);
}

#[test]
fn test_json_minify_rejects_malformed() {
    let e = minify_json(b"conf.json", b"{ not json at all ::: }").unwrap_err();
    assert_eq!(ErrKind::MalformedJson, e);
}

#[test]
fn test_shift_jis_localized_json_is_rewritten_as_utf8() {
    // {"a":"<katakana KA>"} with the value in Shift-JIS (0x83 0x4A)
    let bytes: Vec<u8> = vec![
        b'{', b'"', b'a', b'"', b':', b'"', 0x83, 0x4A, b'"', b'}',
    ];
    assert!(String::from_utf8(bytes.clone()).is_err());
    let out = minify_json(b"i18n/ja.json", &bytes).unwrap();
    assert_eq!("{\"a\":\"\u{30AB}\"}", String::from_utf8(out).unwrap());
}

#[test]
fn test_unknown_locale_with_invalid_utf8_is_unsupported_encoding() {
    let bytes: Vec<u8> = vec![b'{', 0x83, b'}'];
    let e = minify_json(b"i18n/xx.json", &bytes).unwrap_err();
    assert_eq!(ErrKind::UnsupportedEncoding, e);
    // outside i18n the same bytes are rejected too
    let e2 = minify_json(b"data/ja.json", &bytes).unwrap_err();
    assert_eq!(ErrKind::UnsupportedEncoding, e2);
}

#[test]
fn test_encoding_table_is_closed() {
    assert_eq!(Some(LegacyEncoding::ShiftJis), get_encoding(b"i18n/ja.json"));
    assert_eq!(Some(LegacyEncoding::Utf8), get_encoding(b"i18n/zh.json"));
    assert_eq!(Some(LegacyEncoding::Utf8), get_encoding(b"i18n/ko.json"));
    assert_eq!(Some(LegacyEncoding::Windows1250), get_encoding(b"i18n/hu.json"));
    assert_eq!(Some(LegacyEncoding::Windows1251), get_encoding(b"i18n/ru.json"));
    assert_eq!(Some(LegacyEncoding::Windows1252), get_encoding(b"i18n/de.json"));
    assert_eq!(Some(LegacyEncoding::Windows1252), get_encoding(b"i18n/es.json"));
    assert_eq!(Some(LegacyEncoding::Windows1252), get_encoding(b"i18n/fr.json"));
    assert_eq!(Some(LegacyEncoding::Windows1252), get_encoding(b"i18n/it.json"));
    assert_eq!(Some(LegacyEncoding::Windows1252), get_encoding(b"i18n/pt.json"));
    assert_eq!(Some(LegacyEncoding::Windows1254), get_encoding(b"i18n/tr.json"));
    assert_eq!(None, get_encoding(b"i18n/xx.json"));
    assert_eq!(None, get_encoding(b"other/ja.json"));
    assert_eq!(None, get_encoding(b"i18n/ja.txt"));
    // a nested directory literally named i18n counts too
    assert_eq!(Some(LegacyEncoding::Windows1251), get_encoding(b"a/i18n/ru.json"));
}

// A minimal valid 1x1 grayscale PNG, deliberately stored uncompressed and
// carrying a tEXt chunk, so a lossless recompression must shrink it.
fn tiny_png() -> Vec<u8> {
    vec![
        0x89, 0x50, 0x4E, 0x47, 0x0D, 0x0A, 0x1A, 0x0A, 0x00, 0x00, 0x00, 0x0D, 0x49, 0x48, 0x44,
        0x52, 0x00, 0x00, 0x00, 0x01, 0x00, 0x00, 0x00, 0x01, 0x08, 0x00, 0x00, 0x00, 0x00, 0x3A,
        0x7E, 0x9B, 0x55, 0x00, 0x00, 0x00, 0x13, 0x74, 0x45, 0x58, 0x74, 0x43, 0x6F, 0x6D, 0x6D,
        0x65, 0x6E, 0x74, 0x00, 0x68, 0x65, 0x6C, 0x6C, 0x6F, 0x20, 0x77, 0x6F, 0x72, 0x6C, 0x64,
        0x6A, 0x7B, 0x8E, 0xFF, 0x00, 0x00, 0x00, 0x0D, 0x49, 0x44, 0x41, 0x54, 0x78, 0x01, 0x01,
        0x02, 0x00, 0xFD, 0xFF, 0x00, 0x10, 0x00, 0x12, 0x00, 0x11, 0x1F, 0x74, 0x29, 0x44, 0x00,
        0x00, 0x00, 0x00, 0x49, 0x45, 0x4E, 0x44, 0xAE, 0x42, 0x60, 0x82,
    ]
}

#[test]
fn test_png_minify_recompresses_losslessly() {
    let input = tiny_png();
    let out = minify_png(&input).unwrap();
    // still a PNG ...
    assert_eq!(&[0x89, 0x50, 0x4E, 0x47], &out[..4]);
    // ... and not the input handed back unchanged
    assert_ne!(input, out);
}

#[test]
fn test_corrupt_png_is_image_codec_error() {
    let e = minify_png(b"definitely not a png").unwrap_err();
    assert_eq!(ErrKind::ImageCodec, e);
}

#[test]
fn test_xml_minify_strips_insignificant_whitespace() {
    let out = minify_xml(b"<map>\n    <tile id=\"1\"/>\n</map>").unwrap();
    assert_eq!("<map><tile id=\"1\"/></map>", String::from_utf8(out).unwrap());
}

#[test]
fn test_xml_minify_is_idempotent() {
    let once = minify_xml(b"<map>\n    <tile id=\"1\"/>\n  text  \n</map>").unwrap();
    let twice = minify_xml(&once).unwrap();
    assert_eq!(once, twice);
}

#[test]
fn test_broken_xml_is_xml_syntax_error() {
    let e = minify_xml(b"<map><tile></map>").unwrap_err();
    assert_eq!(ErrKind::XmlSyntax, e);
}

#[test]
fn test_dispatch_table_honors_toggles() {
    let on = opt_default();
    assert_eq!(MinifyAction::MinJson, classify(b"a/b.json", &on));
    assert_eq!(MinifyAction::MinPng, classify(b"img.png", &on));
    assert_eq!(MinifyAction::MinXml, classify(b"m.tmx", &on));
    assert_eq!(MinifyAction::MinXml, classify(b"m.tsx", &on));
    assert_eq!(MinifyAction::Keep, classify(b"m.txt", &on));
    assert_eq!(MinifyAction::Keep, classify(b"json", &on));
    let mut off = opt_default();
    off.no_json = true;
    off.no_images = true;
    off.no_tiles = true;
    assert_eq!(MinifyAction::Keep, classify(b"a/b.json", &off));
    assert_eq!(MinifyAction::Keep, classify(b"img.png", &off));
    assert_eq!(MinifyAction::Keep, classify(b"m.tmx", &off));
}
