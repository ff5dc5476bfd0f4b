//! Minification: per-file-type dispatch under the run's toggles, the three
//! transforms (JSON, PNG, Tiled XML), and the fail-fast pass over the
//! workspace.
use vstd::prelude::*;
use vstd::utf8::{decode_utf8, valid_utf8};

use crate::errors::{ErrKind, ModError};
use crate::models::{FileEntry, ModData};
use crate::relpath::{copy_range, ext_matches, ext_of};
use crate::textenc::{
    decode_legacy, decode_of, encoding_for, get_encoding, lit_json, utf8_from_bytes,
};
use crate::Opt;

verus! {

pub open spec fn lit_png() -> Seq<u8> {
    seq![112u8, 110u8, 103u8]
}

pub open spec fn lit_tmx() -> Seq<u8> {
    seq![116u8, 109u8, 120u8]
}

pub open spec fn lit_tsx() -> Seq<u8> {
    seq![116u8, 115u8, 120u8]
}

/// The transform a file receives: decided by extension (case-sensitive) and
/// the run's toggles; everything else passes through untouched.
#[derive(Clone, Copy, Debug, PartialEq, Eq, Structural)]
pub enum MinifyAction {
    MinJson,
    MinPng,
    MinXml,
    Keep,
}

/// The dispatch table: `json` under the JSON toggle, `png` under the images
/// toggle, `tmx`/`tsx` under the tiles toggle.
pub open spec fn action_for(p: Seq<u8>, opt: Opt) -> MinifyAction {
    if ext_of(p) == Some(lit_json()) && !opt.no_json {
        MinifyAction::MinJson
    } else if ext_of(p) == Some(lit_png()) && !opt.no_images {
        MinifyAction::MinPng
    } else if (ext_of(p) == Some(lit_tmx()) || ext_of(p) == Some(lit_tsx())) && !opt.no_tiles {
        MinifyAction::MinXml
    } else {
        MinifyAction::Keep
    }
}

/// Decides which transform `path` receives under `opt`.
pub fn classify(path: &[u8], opt: &Opt) -> (r: MinifyAction)
    ensures
        r == action_for(path@, *opt),
{
    let json: [u8; 4] = [106, 115, 111, 110];
    let png: [u8; 3] = [112, 110, 103];
    let tmx: [u8; 3] = [116, 109, 120];
    let tsx: [u8; 3] = [116, 115, 120];
    proof {
        assert(json@ =~= lit_json());
        assert(png@ =~= lit_png());
        assert(tmx@ =~= lit_tmx());
        assert(tsx@ =~= lit_tsx());
    }
    if ext_matches(path, json.as_slice()) && !opt.no_json {
        MinifyAction::MinJson
    } else if ext_matches(path, png.as_slice()) && !opt.no_images {
        MinifyAction::MinPng
    } else if (ext_matches(path, tmx.as_slice()) || ext_matches(path, tsx.as_slice()))
        && !opt.no_tiles {
        MinifyAction::MinXml
    } else {
        MinifyAction::Keep
    }
}

// ----------------------------------------------------- trusted JSON items

#[verifier::external_type_specification]
#[verifier::external_body]
pub struct ExJsonValue(serde_json::Value);

/// The JSON document that relaxed (JSON5) parsing yields for the given text,
/// or `None` when the text does not parse even under relaxed rules; a pure
/// function of the text.
pub uninterp spec fn json5_doc(text: Seq<char>) -> Option<serde_json::Value>;

/// The canonical compact serialization of a JSON document: no insignificant
/// whitespace, keys in the order the document holds them; a pure function of
/// the document.
pub uninterp spec fn compact_json(v: serde_json::Value) -> Seq<u8>;

/// Relies on json5::from_str::<serde_json::Value>: parsing is a pure
/// function of the input text and fails exactly on text that is not valid
/// JSON5. Caveat: json5 recurses without a depth guard, so pathologically
/// deep nesting can exhaust the stack (as in any direct use of the crate);
/// memory exhaustion is outside this contract.
#[verifier::external_body]
fn parse_json5(text: &str) -> (r: Option<serde_json::Value>)
    ensures
        r == json5_doc(text@),
{
    json5::from_str::<serde_json::Value>(text).ok()
}

/// Relies on serde_json::to_vec: serializing a Value to an in-memory buffer
/// does not fail (all its map keys are strings); the compact rendering is a
/// pure function of the document, is valid UTF-8, and parses back (JSON5
/// accepts all JSON) to the same document.
#[verifier::external_body]
fn to_compact_json(v: &serde_json::Value) -> (r: Vec<u8>)
    ensures
        r@ == compact_json(*v),
        valid_utf8(r@),
        json5_doc(decode_utf8(r@)) == Some(*v),
{
    serde_json::to_vec(v).unwrap_or_default()
}

/// The text recovered from a JSON file's raw bytes: UTF-8 when valid,
/// otherwise the file's legacy encoding from the closed locale table, and
/// nothing when neither applies.
pub open spec fn json_text_of(p: Seq<u8>, data: Seq<u8>) -> Option<Seq<char>> {
    if valid_utf8(data) {
        Some(decode_utf8(data))
    } else {
        match encoding_for(p) {
            Some(e) => Some(decode_of(e, data)),
            None => None,
        }
    }
}

/// Rewrites one JSON file: recover text (UTF-8 or legacy encoding), parse
/// permissively, re-serialize compactly. Fails with `UnsupportedEncoding`
/// exactly when the bytes are not UTF-8 and no legacy encoding is assigned,
/// and with `MalformedJson` exactly when the text does not parse.
pub fn minify_json(path: &[u8], data: &[u8]) -> (r: Result<Vec<u8>, ErrKind>)
    ensures
        (r == Result::<Vec<u8>, ErrKind>::Err(ErrKind::UnsupportedEncoding)) == (json_text_of(
            path@,
            data@,
        ) is None),
        json_text_of(path@, data@) matches Some(t) ==> ((r == Result::<Vec<u8>, ErrKind>::Err(
            ErrKind::MalformedJson,
        )) == (json5_doc(t) is None)),
        r matches Ok(v) ==> json_text_of(path@, data@) matches Some(t) && json5_doc(t) matches Some(
            doc,
        ) && v@ == compact_json(doc) && valid_utf8(v@) && json5_doc(decode_utf8(v@)) == Some(doc),
        r is Err ==> r == Result::<Vec<u8>, ErrKind>::Err(ErrKind::UnsupportedEncoding) || r
            == Result::<Vec<u8>, ErrKind>::Err(ErrKind::MalformedJson),
{
    let text: String = match utf8_from_bytes(data) {
        Some(s) => s.to_owned(),
        None => {
            match get_encoding(path) {
                Some(e) => decode_legacy(e, data),
                None => {
                    return Err(ErrKind::UnsupportedEncoding);
                },
            }
        },
    };
    let doc = match parse_json5(text.as_str()) {
        Some(d) => d,
        None => {
            return Err(ErrKind::MalformedJson);
        },
    };
    Ok(to_compact_json(&doc))
}

// ------------------------------------------------------ trusted PNG items

/// The losslessly recompressed PNG that oxipng produces for the given bytes
/// under this library's fixed options, or `None` when the input cannot be
/// decoded or re-encoded; a pure function of the bytes.
pub uninterp spec fn oxipng_out(data: Seq<u8>) -> Option<Seq<u8>>;

/// Relies on oxipng::optimize_from_memory with fixed options: the
/// max-compression preset, all non-essential metadata chunks stripped, and
/// libdeflater at maximum effort. A pure function of the input bytes,
/// failing exactly on input it cannot decode or re-encode.
#[verifier::external_body]
fn optimize_png(data: &[u8]) -> (r: Option<Vec<u8>>)
    ensures
        (r is Some) == (oxipng_out(data@) is Some),
        r matches Some(v) ==> Some(v@) == oxipng_out(data@),
{
    let mut opts = oxipng::Options::max_compression();
    opts.strip = oxipng::StripChunks::All;
    opts.deflater = oxipng::Deflater::Libdeflater { compression: 12 };
    oxipng::optimize_from_memory(data, &opts).ok()
}

/// Recompresses one PNG losslessly; `ImageCodec` exactly when the codec
/// rejects the input.
pub fn minify_png(data: &[u8]) -> (r: Result<Vec<u8>, ErrKind>)
    ensures
        (r is Err) == (oxipng_out(data@) is None),
        r matches Err(k) ==> k == ErrKind::ImageCodec,
        r matches Ok(v) ==> Some(v@) == oxipng_out(data@),
{
    match optimize_png(data) {
        Some(v) => Ok(v),
        None => Err(ErrKind::ImageCodec),
    }
}

// ------------------------------------------------------ trusted XML items

#[verifier::external_type_specification]
#[verifier::external_body]
#[verifier::reject_recursive_types(R)]
pub struct ExXmlReader<R>(quick_xml::Reader<R>);

#[verifier::external_type_specification]
#[verifier::external_body]
#[verifier::reject_recursive_types(W)]
pub struct ExXmlWriter<W>(quick_xml::Writer<W>);

/// The whitespace-trimming XML rewrite of the given bytes: what
/// re-serializing every event of the stream (text nodes trimmed of
/// insignificant surrounding whitespace, structure otherwise unchanged)
/// produces, or `None` when the input is not well-formed XML. quick_xml is
/// deterministic, so this is a pure function of the bytes.
pub uninterp spec fn xml_rewrite(data: Seq<u8>) -> Option<Seq<u8>>;

/// What remains of the rewrite for a reader: the bytes that pumping the
/// rest of its event stream will append, or `None` when the remaining
/// input is not well-formed.
pub uninterp spec fn xml_pending(rd: quick_xml::Reader<&[u8]>) -> Option<Seq<u8>>;

/// How many input bytes the reader has not yet consumed.
pub uninterp spec fn xml_rem(rd: quick_xml::Reader<&[u8]>) -> int;

/// The bytes written to an XML writer so far.
pub uninterp spec fn xml_out(w: quick_xml::Writer<Vec<u8>>) -> Seq<u8>;

/// Relies on quick_xml::Reader::from_reader and Config::trim_text(true): a
/// streaming reader over the input bytes that trims insignificant
/// whitespace around text nodes; pumping it to the end produces exactly
/// the rewrite of the input.
#[verifier::external_body]
fn xml_reader_new(data: &[u8]) -> (r: quick_xml::Reader<&[u8]>)
    ensures
        xml_pending(r) == xml_rewrite(data@),
        xml_rem(r) == data@.len(),
{
    let mut rd = quick_xml::Reader::from_reader(data);
    rd.config_mut().trim_text(true);
    rd
}

/// Relies on quick_xml::Writer::new over an in-memory buffer: nothing
/// written yet.
#[verifier::external_body]
fn xml_writer_new() -> (r: quick_xml::Writer<Vec<u8>>)
    ensures
        xml_out(r) == Seq::<u8>::empty(),
{
    quick_xml::Writer::new(Vec::new())
}

/// Relies on quick_xml::Reader::read_event and Writer::write_event: pumps
/// one event from the reader to the writer. `Ok(true)` after moving one
/// event (every event consumes input, and ill-formed input stays
/// ill-formed), `Ok(false)` at end of input (nothing of the rewrite
/// remains), `Err` exactly when the remaining input is not well-formed at
/// the reader's position. Writing to the in-memory buffer cannot fail.
#[verifier::external_body]
fn xml_pump(rd: &mut quick_xml::Reader<&[u8]>, w: &mut quick_xml::Writer<Vec<u8>>) -> (r: Result<
    bool,
    (),
>)
    ensures
        r is Err ==> xml_pending(*old(rd)) is None,
        r matches Ok(more) ==> (0 <= xml_rem(*final (rd)) <= xml_rem(*old(rd))),
        r matches Ok(more) ==> (more ==> xml_rem(*final (rd)) < xml_rem(*old(rd))),
        r matches Ok(more) ==> (xml_pending(*old(rd)) is None ==> xml_pending(*final (rd))
            is None),
        r matches Ok(more) ==> (!more ==> (xml_pending(*old(rd)) == Some(Seq::<u8>::empty())
            && xml_out(*final (w)) == xml_out(*old(w)) && xml_pending(*final (rd)) == xml_pending(
            *old(rd),
        ))),
        r matches Ok(more) ==> (more ==> (xml_pending(*old(rd)) matches Some(rest) ==> (
        xml_pending(*final (rd)) matches Some(rest2) && xml_out(*final (w)) + rest2 == xml_out(
            *old(w),
        ) + rest))),
{
    let ev = match rd.read_event() {
        Ok(quick_xml::events::Event::Eof) => return Ok(false),
        Ok(e) => e,
        Err(_) => return Err(()),
    };
    match w.write_event(ev) {
        Ok(()) => Ok(true),
        Err(_) => Err(()),
    }
}

/// Relies on quick_xml::Writer::into_inner: the bytes written so far.
#[verifier::external_body]
fn xml_writer_bytes(w: quick_xml::Writer<Vec<u8>>) -> (r: Vec<u8>)
    ensures
        r@ == xml_out(w),
{
    w.into_inner()
}

/// Rewrites one tmx/tsx file: stream-parses the events, trimming
/// insignificant whitespace in text nodes, and re-serializes them in
/// order. Succeeds exactly on well-formed input, returning the rewrite;
/// malformed input surfaces as `XmlSyntax`.
pub fn minify_xml(data: &[u8]) -> (r: Result<Vec<u8>, ErrKind>)
    ensures
        (r is Ok) == (xml_rewrite(data@) is Some),
        r matches Ok(v) ==> Some(v@) == xml_rewrite(data@),
        r matches Err(k) ==> k == ErrKind::XmlSyntax,
{
    let mut rd = xml_reader_new(data);
    let mut w = xml_writer_new();
    loop
        invariant
            xml_rem(rd) >= 0,
            xml_pending(rd) is Some ==> xml_rewrite(data@) is Some,
            xml_rewrite(data@) matches Some(out) ==> (xml_pending(rd) matches Some(rest)
                && xml_out(w) + rest == out),
        decreases xml_rem(rd),
    {
        match xml_pump(&mut rd, &mut w) {
            Err(_) => {
                return Err(ErrKind::XmlSyntax);
            },
            Ok(false) => {
                proof {
                    if xml_rewrite(data@) is Some {
                        assert(xml_out(w) + Seq::<u8>::empty() =~= xml_out(w));
                    }
                }
                let v = xml_writer_bytes(w);
                return Ok(v);
            },
            Ok(true) => {},
        }
    }
}

// --------------------------------------------------- the fail-fast pass

/// A successful transform of one file: what the new contents must be, given
/// the old contents and the action.
pub open spec fn entry_minify_ok(p: Seq<u8>, old_data: Seq<u8>, new_data: Seq<u8>, opt: Opt) -> bool {
    match action_for(p, opt) {
        MinifyAction::Keep => new_data == old_data,
        MinifyAction::MinJson => match json_text_of(p, old_data) {
            None => false,
            Some(t) => match json5_doc(t) {
                None => false,
                Some(doc) => new_data == compact_json(doc),
            },
        },
        MinifyAction::MinPng => Some(new_data) == oxipng_out(old_data),
        MinifyAction::MinXml => Some(new_data) == xml_rewrite(old_data),
    }
}

/// The bytes a successful transform leaves for a file: the unique value
/// that `entry_minify_ok` admits. For a file whose transform must fail the
/// value is immaterial (the input stands in).
pub open spec fn entry_minified_data(p: Seq<u8>, data: Seq<u8>, opt: Opt) -> Seq<u8> {
    match action_for(p, opt) {
        MinifyAction::Keep => data,
        MinifyAction::MinJson => match json_text_of(p, data) {
            Some(t) => match json5_doc(t) {
                Some(doc) => compact_json(doc),
                None => data,
            },
            None => data,
        },
        MinifyAction::MinPng => match oxipng_out(data) {
            Some(v) => v,
            None => data,
        },
        MinifyAction::MinXml => match xml_rewrite(data) {
            Some(v) => v,
            None => data,
        },
    }
}

/// `entry_minify_ok` pins the new contents to `entry_minified_data`.
pub proof fn lemma_minify_ok_is_functional(p: Seq<u8>, old_data: Seq<u8>, new_data: Seq<u8>, opt: Opt)
    requires
        entry_minify_ok(p, old_data, new_data, opt),
    ensures
        new_data == entry_minified_data(p, old_data, opt),
{
}

/// A failed transform of one file: which error kind it surfaces as.
pub open spec fn entry_minify_err(p: Seq<u8>, old_data: Seq<u8>, k: ErrKind, opt: Opt) -> bool {
    match action_for(p, opt) {
        MinifyAction::Keep => false,
        MinifyAction::MinJson => (k == ErrKind::UnsupportedEncoding && json_text_of(p, old_data)
            is None) || (k == ErrKind::MalformedJson && match json_text_of(p, old_data) {
            Some(t) => json5_doc(t) is None,
            None => false,
        }),
        MinifyAction::MinPng => k == ErrKind::ImageCodec && oxipng_out(old_data) is None,
        MinifyAction::MinXml => k == ErrKind::XmlSyntax && xml_rewrite(old_data) is None,
    }
}

/// A failure that is pinned by the file's bytes alone (malformed JSON, an
/// unknown legacy encoding, a corrupt PNG, ill-formed XML): such a file is
/// certain to fail its transform — and no other failure exists, so a batch
/// of files free of these is certain to succeed.
pub open spec fn entry_must_fail(p: Seq<u8>, old_data: Seq<u8>, opt: Opt) -> bool {
    match action_for(p, opt) {
        MinifyAction::Keep => false,
        MinifyAction::MinJson => match json_text_of(p, old_data) {
            None => true,
            Some(t) => json5_doc(t) is None,
        },
        MinifyAction::MinPng => oxipng_out(old_data) is None,
        MinifyAction::MinXml => xml_rewrite(old_data) is None,
    }
}

/// Transforms one file under the dispatch table.
pub fn minify_entry(path: &[u8], data: &[u8], opt: &Opt) -> (r: Result<Vec<u8>, ErrKind>)
    ensures
        r matches Ok(v) ==> entry_minify_ok(path@, data@, v@, *opt),
        r matches Err(k) ==> entry_minify_err(path@, data@, k, *opt),
        (r is Err) == entry_must_fail(path@, data@, *opt),
{
    match classify(path, opt) {
        MinifyAction::MinJson => minify_json(path, data),
        MinifyAction::MinPng => minify_png(data),
        MinifyAction::MinXml => minify_xml(data),
        MinifyAction::Keep => {
            let v = copy_range(data, 0, data.len());
            proof {
                assert(v@ =~= data@);
            }
            Ok(v)
        },
    }
}

/// How a successful minification pass relates the output workspace to the
/// input one: same root, same paths in the same order, and every file's
/// contents transformed per the dispatch table.
pub open spec fn minify_rel(a: ModData, b: ModData, opt: Opt) -> bool {
    &&& b.wf()
    &&& b.root_view() == a.root_view()
    &&& b.paths_view() == a.paths_view()
    &&& b.entry_seq().len() == a.entry_seq().len()
    &&& forall|i: int|
        0 <= i < a.entry_seq().len() ==> entry_minify_ok(
            a.entry_seq()[i].path@,
            a.entry_seq()[i].data@,
            b.entry_seq()[i].data@,
            opt,
        )
}

/// Rewrites every matching file of the workspace, in place by value.
/// Fail-fast: the first failing file aborts the pass, and the error names
/// that file; every file before it had succeeded. Failure is pinned by the
/// files' bytes alone, so a batch with a file certain to fail (one corrupt
/// PNG among many good files) fails, and a batch with none is owed success.
pub fn minify(data: &ModData, opt: &Opt) -> (r: Result<ModData, ModError>)
    requires
        data.wf(),
    ensures
        r matches Ok(d2) ==> minify_rel(*data, d2, *opt),
        (forall|i: int|
            0 <= i < data.entry_seq().len() ==> !entry_must_fail(
                data.entry_seq()[i].path@,
                data.entry_seq()[i].data@,
                *opt,
            )) ==> r is Ok,
        r matches Err(e) ==> exists|i: int|
            0 <= i < data.entry_seq().len() && entry_minify_err(
                data.entry_seq()[i].path@,
                data.entry_seq()[i].data@,
                e.kind,
                *opt,
            ) && e.path@ == data.entry_seq()[i].path@ && (forall|j: int|
                0 <= j < i ==> !entry_must_fail(
                    data.entry_seq()[j].path@,
                    data.entry_seq()[j].data@,
                    *opt,
                )),
        (exists|i: int|
            0 <= i < data.entry_seq().len() && entry_must_fail(
                data.entry_seq()[i].path@,
                data.entry_seq()[i].data@,
                *opt,
            )) ==> r is Err,
{
    let files = data.files();
    let n = files.len();
    let mut out: Vec<FileEntry> = Vec::new();
    let mut i: usize = 0;
    while i < n
        invariant
            data.wf(),
            n == data.entry_seq().len(),
            files@ == data.entry_seq(),
            i <= n,
            out@.len() == i as int,
            forall|j: int|
                0 <= j < i as int ==> out@[j].path@ == data.entry_seq()[j].path@
                    && entry_minify_ok(
                    data.entry_seq()[j].path@,
                    data.entry_seq()[j].data@,
                    out@[j].data@,
                    *opt,
                ),
            forall|j: int|
                0 <= j < i as int ==> !entry_must_fail(
                    data.entry_seq()[j].path@,
                    data.entry_seq()[j].data@,
                    *opt,
                ),
        decreases n - i,
    {
        let e = &files[i];
        let pcopy = copy_range(e.path.as_slice(), 0, e.path.len());
        match minify_entry(e.path.as_slice(), e.data.as_slice(), opt) {
            Ok(nd) => {
                proof {
                    assert(pcopy@ =~= data.entry_seq()[i as int].path@);
                }
                out.push(FileEntry { path: pcopy, data: nd });
            },
            Err(k) => {
                return Err(ModError::new(k, pcopy));
            },
        }
        i = i + 1;
    }
    let root = copy_range(data.path().as_slice(), 0, data.path().len());
    proof {
        assert(root@ =~= data.root_view());
    }
    let d2 = ModData::new(root, out);
    proof {
        assert(d2.paths_view() =~= data.paths_view());
    }
    Ok(d2)
}

/// With all three toggles disabled, minification is a no-op whatever the
/// file types present: every file's action is Keep, a successful pass
/// preserves every file's bytes, and no per-file failure is possible.
pub proof fn lemma_toggles_off_noop(p: Seq<u8>, old_data: Seq<u8>, new_data: Seq<u8>, opt: Opt)
    requires
        opt.no_json,
        opt.no_images,
        opt.no_tiles,
    ensures
        action_for(p, opt) == MinifyAction::Keep,
        entry_minify_ok(p, old_data, new_data, opt) == (new_data == old_data),
        forall|k: ErrKind| !entry_minify_err(p, old_data, k, opt),
        !entry_must_fail(p, old_data, opt),
{
}

/// The workspace-level corollary: with all three toggles disabled, any
/// result that `minify` accepts as a successful pass carries exactly the
/// input's files — same paths, same bytes, same order.
pub proof fn lemma_toggles_off_workspace(d: ModData, d2: ModData, opt: Opt)
    requires
        opt.no_json,
        opt.no_images,
        opt.no_tiles,
        d2.paths_view() == d.paths_view(),
        d2.entry_seq().len() == d.entry_seq().len(),
        forall|i: int|
            0 <= i < d.entry_seq().len() ==> entry_minify_ok(
                d.entry_seq()[i].path@,
                d.entry_seq()[i].data@,
                d2.entry_seq()[i].data@,
                opt,
            ),
    ensures
        d2.files_view() == d.files_view(),
{
    assert forall|i: int| 0 <= i < d.entry_seq().len() implies d2.files_view()[i]
        == d.files_view()[i] by {
        lemma_toggles_off_noop(
            d.entry_seq()[i].path@,
            d.entry_seq()[i].data@,
            d2.entry_seq()[i].data@,
            opt,
        );
        assert(d.paths_view()[i] == d.entry_seq()[i].path@);
        assert(d2.paths_view()[i] == d2.entry_seq()[i].path@);
    }
    assert(d2.files_view() =~= d.files_view());
}

/// JSON minification is idempotent: running the transform on the output of
/// a successful run returns that output byte-identically; a failing input
/// fails the same way twice. Stated over the two executable passes
/// themselves.
pub fn minify_json_twice(path: &[u8], data: &[u8]) -> (r: (
    Result<Vec<u8>, ErrKind>,
    Result<Vec<u8>, ErrKind>,
))
    ensures
        r.0 matches Ok(v) ==> r.1 matches Ok(w) && w@ == v@,
        r.0 matches Err(k) ==> r.1 == Result::<Vec<u8>, ErrKind>::Err(k),
{
    let first = minify_json(path, data);
    match &first {
        Ok(v) => {
            let second = minify_json(path, v.as_slice());
            (first, second)
        },
        Err(_) => {
            let second = minify_json(path, data);
            (first, second)
        },
    }
}

} // verus!
