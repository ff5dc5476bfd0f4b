//! Text encodings: UTF-8 validation and the closed table of legacy encodings
//! for localized `i18n/*.json` files, selected by locale stem.
use vstd::prelude::*;
use vstd::string::StringSliceAdditionalSpecFns;
use vstd::utf8::{decode_utf8, valid_utf8};

use crate::relpath::{ext_matches, ext_of, parent_dir_is, parent_dir_name, stem_matches, stem_of};

verus! {

/// The closed set of legacy encodings a localized JSON file may use. New
/// locales require a code change, not configuration.
#[derive(Clone, Copy, Debug, PartialEq, Eq, Structural)]
pub enum LegacyEncoding {
    ShiftJis,
    Utf8,
    Windows1250,
    Windows1251,
    Windows1252,
    Windows1254,
}

/// The characters that encoding_rs produces when decoding `bytes` under
/// `enc`; a pure function of the encoding and the bytes.
pub uninterp spec fn decode_of(enc: LegacyEncoding, bytes: Seq<u8>) -> Seq<char>;

/// Relies on core::str::from_utf8: it returns `Ok` exactly on valid UTF-8
/// input, and the returned string view is the decoding of those bytes.
#[verifier::external_body]
pub fn utf8_from_bytes(v: &[u8]) -> (r: Option<&str>)
    ensures
        (r is Some) == valid_utf8(v@),
        r matches Some(s) ==> s@ == decode_utf8(v@) && s.spec_bytes() == v@,
{
    core::str::from_utf8(v).ok()
}

/// Whether `v` is valid UTF-8.
pub fn utf8_valid_check(v: &[u8]) -> (r: bool)
    ensures
        r == valid_utf8(v@),
{
    utf8_from_bytes(v).is_some()
}

/// Relies on encoding_rs::Encoding::decode: a pure function of the selected
/// encoding and the input bytes (with replacement characters for malformed
/// sequences; it does not fail).
#[verifier::external_body]
pub fn decode_legacy(enc: LegacyEncoding, bytes: &[u8]) -> (r: String)
    ensures
        r@ == decode_of(enc, bytes@),
{
    let encoding = match enc {
        LegacyEncoding::ShiftJis => encoding_rs::SHIFT_JIS,
        LegacyEncoding::Utf8 => encoding_rs::UTF_8,
        LegacyEncoding::Windows1250 => encoding_rs::WINDOWS_1250,
        LegacyEncoding::Windows1251 => encoding_rs::WINDOWS_1251,
        LegacyEncoding::Windows1252 => encoding_rs::WINDOWS_1252,
        LegacyEncoding::Windows1254 => encoding_rs::WINDOWS_1254,
    };
    let (text, _, _) = encoding.decode(bytes);
    text.into_owned()
}

pub open spec fn lit_i18n() -> Seq<u8> {
    seq![105u8, 49u8, 56u8, 110u8]
}

pub open spec fn lit_json() -> Seq<u8> {
    seq![106u8, 115u8, 111u8, 110u8]
}

/// The legacy encoding assigned to `p`, by locale stem, for files directly
/// inside a directory named `i18n` with extension `json`; `None` everywhere
/// else. This is a closed, non-extensible domain fact.
pub open spec fn encoding_for(p: Seq<u8>) -> Option<LegacyEncoding> {
    if parent_dir_name(p) == Some(lit_i18n()) && ext_of(p) == Some(lit_json()) {
        let stem = stem_of(p);
        if stem == seq![106u8, 97u8] {  // ja
            Some(LegacyEncoding::ShiftJis)
        } else if stem == seq![122u8, 104u8] || stem == seq![107u8, 111u8] {  // zh, ko
            Some(LegacyEncoding::Utf8)
        } else if stem == seq![104u8, 117u8] {  // hu
            Some(LegacyEncoding::Windows1250)
        } else if stem == seq![114u8, 117u8] {  // ru
            Some(LegacyEncoding::Windows1251)
        } else if stem == seq![100u8, 101u8] || stem == seq![101u8, 115u8] || stem == seq![
            102u8,
            114u8,
        ] || stem == seq![105u8, 116u8] || stem == seq![112u8, 116u8] {  // de, es, fr, it, pt
            Some(LegacyEncoding::Windows1252)
        } else if stem == seq![116u8, 114u8] {  // tr
            Some(LegacyEncoding::Windows1254)
        } else {
            None
        }
    } else {
        None
    }
}

/// Selects the legacy encoding for a localized JSON file, by the closed
/// locale table; `None` for any other file.
pub fn get_encoding(path: &[u8]) -> (r: Option<LegacyEncoding>)
    ensures
        r == encoding_for(path@),
{
    let i18n: [u8; 4] = [105, 49, 56, 110];
    let json: [u8; 4] = [106, 115, 111, 110];
    proof {
        assert(i18n@ =~= lit_i18n());
        assert(json@ =~= lit_json());
    }
    if !(parent_dir_is(path, i18n.as_slice()) && ext_matches(path, json.as_slice())) {
        return None;
    }
    let ja: [u8; 2] = [106, 97];
    let zh: [u8; 2] = [122, 104];
    let ko: [u8; 2] = [107, 111];
    let hu: [u8; 2] = [104, 117];
    let ru: [u8; 2] = [114, 117];
    let de: [u8; 2] = [100, 101];
    let es: [u8; 2] = [101, 115];
    let fr: [u8; 2] = [102, 114];
    let it: [u8; 2] = [105, 116];
    let pt: [u8; 2] = [112, 116];
    let tr: [u8; 2] = [116, 114];
    proof {
        assert(ja@ =~= seq![106u8, 97u8]);
        assert(zh@ =~= seq![122u8, 104u8]);
        assert(ko@ =~= seq![107u8, 111u8]);
        assert(hu@ =~= seq![104u8, 117u8]);
        assert(ru@ =~= seq![114u8, 117u8]);
        assert(de@ =~= seq![100u8, 101u8]);
        assert(es@ =~= seq![101u8, 115u8]);
        assert(fr@ =~= seq![102u8, 114u8]);
        assert(it@ =~= seq![105u8, 116u8]);
        assert(pt@ =~= seq![112u8, 116u8]);
        assert(tr@ =~= seq![116u8, 114u8]);
    }
    if stem_matches(path, ja.as_slice()) {
        Some(LegacyEncoding::ShiftJis)
    } else if stem_matches(path, zh.as_slice()) || stem_matches(path, ko.as_slice()) {
        Some(LegacyEncoding::Utf8)
    } else if stem_matches(path, hu.as_slice()) {
        Some(LegacyEncoding::Windows1250)
    } else if stem_matches(path, ru.as_slice()) {
        Some(LegacyEncoding::Windows1251)
    } else if stem_matches(path, de.as_slice()) || stem_matches(path, es.as_slice())
        || stem_matches(path, fr.as_slice()) || stem_matches(path, it.as_slice()) || stem_matches(
        path,
        pt.as_slice(),
    ) {
        Some(LegacyEncoding::Windows1252)
    } else if stem_matches(path, tr.as_slice()) {
        Some(LegacyEncoding::Windows1254)
    } else {
        None
    }
}

} // verus!
