//! Archiving: output naming and deterministic re-emission of the workspace
//! as one tar+zstd or zip archive, in file-list order.
use vstd::prelude::*;
use vstd::utf8::{decode_utf8, encode_utf8, valid_utf8};

use crate::errors::{ErrKind, ModError};
use crate::models::ModData;
use crate::models::entry_path_safe;
use crate::relpath::{
    after_last, bytes_ends_with, components_safe, copy_range, ends_with, find_after_last,
    lemma_after_last_props, lemma_after_last_unique, lemma_components_safe_no_trailing_slash,
    push_all, BACKSLASH, DOT, SLASH,
};
use crate::textenc::utf8_from_bytes;
use crate::zstdio::{zstd_compress, zstd_decode, zstd_frame};
use crate::{Format, Opt};

verus! {

pub const ZSTD_LEVEL: i32 = 19;

// ---------------------------------------------------------------- naming

pub open spec fn suf_zip() -> Seq<u8> {
    seq![46u8, 122u8, 105u8, 112u8]
}

pub open spec fn suf_tzst() -> Seq<u8> {
    seq![46u8, 116u8, 122u8, 115u8, 116u8]
}

pub open spec fn suf_tar_zst() -> Seq<u8> {
    seq![46u8, 116u8, 97u8, 114u8, 46u8, 122u8, 115u8, 116u8]
}

pub open spec fn suf_out() -> Seq<u8> {
    seq![46u8, 111u8, 117u8, 116u8]
}

pub open spec fn lit_file_out() -> Seq<u8> {
    seq![102u8, 105u8, 108u8, 101u8, 46u8, 111u8, 117u8, 116u8]
}

/// The file name with exactly one recognized archive suffix removed, if one
/// is present (checked in the fixed order `.zip`, `.tzst`, `.tar.zst`).
pub open spec fn strip_archive_suffix(name: Seq<u8>) -> Seq<u8> {
    if ends_with(name, suf_zip()) {
        name.take(name.len() - 4)
    } else if ends_with(name, suf_tzst()) {
        name.take(name.len() - 5)
    } else if ends_with(name, suf_tar_zst()) {
        name.take(name.len() - 8)
    } else {
        name
    }
}

/// The path with its trailing slashes removed, so that a directory source
/// written with a trailing slash names the directory itself.
pub open spec fn trim_slashes(s: Seq<u8>) -> Seq<u8>
    decreases s.len(),
{
    if s.len() > 0 && s.last() == SLASH {
        trim_slashes(s.drop_last())
    } else {
        s
    }
}

/// The `.out` base name for the produced archive: the input's file name
/// (trailing slashes ignored) minus one recognized archive suffix, plus
/// `.out`, beside the input (same parent prefix). An input without a file
/// name falls back to `file.out`.
pub open spec fn out_name(path: Seq<u8>) -> Seq<u8> {
    let t = trim_slashes(path);
    if t.len() == 0 {
        lit_file_out()
    } else {
        let d = after_last(t, SLASH);
        t.subrange(0, d) + strip_archive_suffix(t.subrange(d, t.len() as int)) + suf_out()
    }
}

/// Replacing the extension of `p`'s file name with `e` (appending `.e` when
/// there is none); a path without a file name is left unchanged.
pub open spec fn with_ext(p: Seq<u8>, e: Seq<u8>) -> Seq<u8> {
    let d = after_last(p, SLASH);
    let name = p.subrange(d, p.len() as int);
    if name.len() == 0 {
        p
    } else {
        let q = after_last(name, DOT);
        if q >= 2 {
            p.take(d + q) + e
        } else {
            p + seq![DOT] + e
        }
    }
}

/// The extension (without dot) that each output format uses.
pub open spec fn format_ext(f: Format) -> Seq<u8> {
    match f {
        Format::Zstd => seq![116u8, 122u8, 115u8, 116u8],
        Format::Zip => seq![122u8, 105u8, 112u8],
    }
}

/// The full output path: the `.out` base name with the format extension in
/// place of `out`.
pub open spec fn out_path_for(path: Seq<u8>, f: Format) -> Seq<u8> {
    with_ext(out_name(path), format_ext(f))
}

/// Computes the `.out` base name for the produced archive.
pub fn output_file_name(path: &[u8]) -> (r: Vec<u8>)
    ensures
        r@ == out_name(path@),
{
    let file_out: [u8; 8] = [102, 105, 108, 101, 46, 111, 117, 116];
    let dot_out: [u8; 4] = [46, 111, 117, 116];
    let zip_s: [u8; 4] = [46, 122, 105, 112];
    let tzst_s: [u8; 5] = [46, 116, 122, 115, 116];
    let tar_zst_s: [u8; 8] = [46, 116, 97, 114, 46, 122, 115, 116];
    proof {
        assert(file_out@ =~= lit_file_out());
        assert(dot_out@ =~= suf_out());
        assert(zip_s@ =~= suf_zip());
        assert(tzst_s@ =~= suf_tzst());
        assert(tar_zst_s@ =~= suf_tar_zst());
    }
    let mut tlen: usize = path.len();
    proof {
        assert(path@.take(path@.len() as int) =~= path@);
    }
    while tlen > 0 && path[tlen - 1] == SLASH
        invariant
            tlen <= path@.len(),
            trim_slashes(path@) == trim_slashes(path@.take(tlen as int)),
        decreases tlen,
    {
        proof {
            assert(path@.take(tlen as int).drop_last() =~= path@.take(tlen - 1));
        }
        tlen = tlen - 1;
    }
    proof {
        assert(trim_slashes(path@.take(tlen as int)) == path@.take(tlen as int));
    }
    let t = copy_range(path, 0, tlen);
    proof {
        assert(t@ =~= path@.take(tlen as int));
    }
    if tlen == 0 {
        let mut out: Vec<u8> = Vec::new();
        push_all(&mut out, file_out.as_slice());
        proof {
            assert(out@ =~= lit_file_out());
        }
        return out;
    }
    let d = find_after_last(t.as_slice(), SLASH);
    proof {
        lemma_after_last_props(t@, SLASH);
    }
    let name = copy_range(t.as_slice(), d, t.len());
    let keep: usize = if bytes_ends_with(name.as_slice(), zip_s.as_slice()) {
        name.len() - 4
    } else if bytes_ends_with(name.as_slice(), tzst_s.as_slice()) {
        name.len() - 5
    } else if bytes_ends_with(name.as_slice(), tar_zst_s.as_slice()) {
        name.len() - 8
    } else {
        name.len()
    };
    let stem = copy_range(name.as_slice(), 0, keep);
    let mut out = copy_range(t.as_slice(), 0, d);
    push_all(&mut out, stem.as_slice());
    push_all(&mut out, dot_out.as_slice());
    proof {
        assert(stem@ =~= strip_archive_suffix(name@));
        assert(out@ =~= t@.subrange(0, d as int) + strip_archive_suffix(name@) + suf_out());
    }
    out
}

/// Replaces the extension of `path`'s file name with the format extension.
pub fn with_format_extension(path: &[u8], f: Format) -> (r: Vec<u8>)
    ensures
        r@ == with_ext(path@, format_ext(f)),
{
    let ext: Vec<u8> = match f {
        Format::Zstd => {
            let a: [u8; 4] = [116, 122, 115, 116];
            proof {
                assert(a@ =~= format_ext(Format::Zstd));
            }
            copy_range(a.as_slice(), 0, 4)
        },
        Format::Zip => {
            let a: [u8; 3] = [122, 105, 112];
            proof {
                assert(a@ =~= format_ext(Format::Zip));
            }
            copy_range(a.as_slice(), 0, 3)
        },
    };
    proof {
        assert(ext@ == format_ext(f));
    }
    let d = find_after_last(path, SLASH);
    proof {
        lemma_after_last_props(path@, SLASH);
    }
    if d == path.len() {
        let r = copy_range(path, 0, path.len());
        proof {
            assert(r@ =~= path@);
        }
        return r;
    }
    let name = copy_range(path, d, path.len());
    let q = find_after_last(name.as_slice(), DOT);
    proof {
        lemma_after_last_props(name@, DOT);
    }
    if q >= 2 {
        let mut out = copy_range(path, 0, d + q);
        push_all(&mut out, ext.as_slice());
        proof {
            assert(path@.subrange(0, d + q as int) =~= path@.take(d + q as int));
        }
        out
    } else {
        let mut out = copy_range(path, 0, path.len());
        out.push(DOT);
        push_all(&mut out, ext.as_slice());
        proof {
            assert(path@.subrange(0, path@.len() as int) =~= path@);
            assert(out@ =~= path@ + seq![DOT] + format_ext(f));
        }
        out
    }
}

// ------------------------------------------------------- trusted tar items

/// An in-memory tar stream being built. Verus refuses to declare
/// tar::Builder directly (its generic is bounded by std::io::Write), so the
/// builder lives in an opaque struct instead.
#[verifier::external_body]
pub struct TarSink {
    inner: tar::Builder<Vec<u8>>,
}

/// The members (entry name as characters, contents) appended so far to a tar
/// stream being built.
pub uninterp spec fn tar_contents(b: TarSink) -> Seq<(Seq<char>, Seq<u8>)>;

/// The deterministic tar serialization of the given members: fixed, zeroed
/// header metadata makes the bytes a pure function of the members alone.
pub uninterp spec fn tar_encoding(members: Seq<(Seq<char>, Seq<u8>)>) -> Seq<u8>;

/// The entries that iterating a tar stream yields before it ends or first
/// errors: (name bytes, whether a regular file, contents), in stream order.
pub uninterp spec fn tar_entries(bytes: Seq<u8>) -> Seq<(Seq<u8>, bool, Seq<u8>)>;

/// Whether iterating the tar stream ends cleanly (terminator or end of
/// input) after the yielded entries, rather than with an error.
pub uninterp spec fn tar_clean(bytes: Seq<u8>) -> bool;

/// Relies on tar::Builder::new over an in-memory writer: a fresh stream with
/// no members.
#[verifier::external_body]
fn tar_new() -> (b: TarSink)
    ensures
        tar_contents(b) == Seq::<(Seq<char>, Seq<u8>)>::empty(),
{
    TarSink { inner: tar::Builder::new(Vec::new()) }
}

/// Relies on tar::Builder::append_data with an explicitly zeroed GNU header
/// (fixed mode, zero mtime/uid/gid): appends one regular-file member with
/// deterministic metadata. The name must be component-safe; that keeps it
/// clear of everything append_data rejects (NUL bytes, `..`, absolute or
/// empty components) and of everything its path copy would normalize away
/// (`.` components, repeated slashes), so appending to the in-memory buffer
/// succeeds and stores the name verbatim.
#[verifier::external_body]
fn tar_append(b: &mut TarSink, name: &str, data: &[u8]) -> (r: Result<(), ()>)
    requires
        components_safe(encode_utf8(name@)),
    ensures
        r is Ok,
        r is Ok ==> tar_contents(*final (b)) == tar_contents(*old(b)).push((name@, data@)),
{
    let mut h = tar::Header::new_gnu();
    h.set_size(data.len() as u64);
    h.set_mode(0o644);
    b.inner.append_data(&mut h, name, data).map_err(|_| ())
}

/// Relies on tar::Builder::into_inner: finishes the stream (writing the
/// trailing zero blocks to the in-memory buffer cannot fail). The bytes are
/// the deterministic encoding of the members and iterate back to exactly the
/// appended names and contents, as regular files, ending cleanly — every
/// member was appended through tar_append, whose precondition rules out the
/// names tar would reject or normalize.
#[verifier::external_body]
fn tar_finish(b: TarSink) -> (r: Result<Vec<u8>, ()>)
    ensures
        r is Ok,
        r matches Ok(v) ==> (v@ == tar_encoding(tar_contents(b)) && tar_entries(v@)
            == tar_contents(b).map(|i: int, p: (Seq<char>, Seq<u8>)| (encode_utf8(p.0), true, p.1))
            && tar_clean(v@)),
{
    b.inner.into_inner().map_err(|_| ())
}

// ------------------------------------------------------- trusted zip items

/// An in-memory zip archive being built. Verus refuses to declare
/// zip::ZipWriter directly (its generic is bounded by std::io traits), so
/// the writer lives in an opaque struct instead.
#[verifier::external_body]
pub struct ZipSink {
    inner: zip::ZipWriter<std::io::Cursor<Vec<u8>>>,
}

/// The members (entry name as characters, contents) written so far to a zip
/// archive being built.
pub uninterp spec fn zip_written(w: ZipSink) -> Seq<(Seq<char>, Seq<u8>)>;

/// The longest entry name the zip format can record (a 16-bit length field).
pub const ZIP_NAME_MAX: usize = 65535;

/// The largest entry this library writes without zip's large-file option:
/// u32::MAX minus headroom for deflate's worst-case expansion, so that
/// every size field stays representable.
pub const ZIP_DATA_MAX: usize = 0xFFEFFFFF;

/// Every listed file fits the zip writer's per-entry limits.
pub open spec fn zip_sizes_ok(d: ModData) -> bool {
    forall|i: int|
        0 <= i < d.entry_seq().len() ==> d.entry_seq()[i].path@.len() <= ZIP_NAME_MAX
            && d.entry_seq()[i].data@.len() <= ZIP_DATA_MAX
}

/// What zip reading yields for `bytes`: `None` when the central directory
/// cannot be read; otherwise every member in central-directory order as
/// (name bytes, whether it is a regular file, contents), with `None`
/// contents for a member whose data cannot be read back.
pub uninterp spec fn zip_parse(bytes: Seq<u8>) -> Option<Seq<(Seq<u8>, bool, Option<Seq<u8>>)>>;

/// Relies on zip::ZipWriter::new over an in-memory cursor: a fresh archive
/// with no members.
#[verifier::external_body]
fn zip_writer_new() -> (w: ZipSink)
    ensures
        zip_written(w) == Seq::<(Seq<char>, Seq<u8>)>::empty(),
{
    ZipSink { inner: zip::ZipWriter::new(std::io::Cursor::new(Vec::new())) }
}

/// Relies on zip::ZipWriter::start_file with default per-entry options and
/// std::io::Write::write_all: appends one member with the given name and
/// contents. The name must not end in a slash or backslash (zip readers
/// classify such members as directories), must fit the 16-bit name-length
/// field, and the contents must stay clear of u32::MAX even after deflate's
/// worst-case expansion (the large-file option is not used). Within those
/// bounds, and with every earlier member added through this function,
/// start_file fails only for a name already written; writing to the
/// in-memory cursor cannot fail.
#[verifier::external_body]
fn zip_add(w: &mut ZipSink, name: &str, data: &[u8]) -> (r: Result<(), ()>)
    requires
        encode_utf8(name@).len() == 0 || (encode_utf8(name@).last() != SLASH && encode_utf8(
            name@,
        ).last() != BACKSLASH),
        encode_utf8(name@).len() <= ZIP_NAME_MAX,
        data@.len() <= ZIP_DATA_MAX,
    ensures
        r is Ok ==> zip_written(*final (w)) == zip_written(*old(w)).push((name@, data@)),
        r is Err ==> exists|j: int|
            0 <= j < zip_written(*old(w)).len() && zip_written(*old(w))[j].0 == name@,
{
    if w.inner.start_file(name, zip::write::SimpleFileOptions::default()).is_err() {
        return Err(());
    }
    std::io::Write::write_all(&mut w.inner, data).map_err(|_| ())
}

/// Relies on zip::ZipWriter::finish and Cursor::into_inner (writing the
/// central directory to the in-memory cursor cannot fail, and every member
/// entered through zip_add, whose bounds keep all size and length fields
/// representable). The produced archive parses back to exactly the members
/// written, in order, each a regular file with readable contents —
/// zip_add's precondition excludes directory-like names. Nothing is
/// promised of the bytes themselves: zip headers carry
/// environment-dependent metadata, so zip output is not bit-reproducible.
#[verifier::external_body]
fn zip_finish(w: ZipSink) -> (r: Result<Vec<u8>, ()>)
    ensures
        r is Ok,
        r matches Ok(v) ==> zip_parse(v@) == Some(
            zip_written(w).map(
                |i: int, p: (Seq<char>, Seq<u8>)| (encode_utf8(p.0), true, Some(p.1)),
            ),
        ),
{
    match w.inner.finish() {
        Ok(c) => Ok(c.into_inner()),
        Err(_) => Err(()),
    }
}

// ------------------------------------------------------ verified archiving

/// The workspace's members as tar/zip writers see them: decoded entry names
/// plus contents, in file-list order.
pub open spec fn members_of(d: ModData) -> Seq<(Seq<char>, Seq<u8>)> {
    d.files_view().map(|i: int, p: (Seq<u8>, Seq<u8>)| (decode_utf8(p.0), p.1))
}

/// The bytes of the tzst archive for a workspace: a pure function of the
/// file list (names, contents, order) alone.
pub open spec fn tzst_bytes_of(d: ModData) -> Seq<u8> {
    zstd_frame(tar_encoding(members_of(d)), ZSTD_LEVEL as int)
}

/// Serializes every workspace file, in list order, into a deterministic
/// tar stream compressed with zstd at a fixed level with checksum framing.
/// Cannot fail: every name of a well-formed workspace is one the tar writer
/// accepts, and the in-memory encoder does not err.
pub fn create_tar_zst_archive(data: &ModData) -> (r: Result<Vec<u8>, ModError>)
    requires
        data.wf(),
    ensures
        r is Ok,
        r matches Ok(v) ==> v@ == tzst_bytes_of(*data),
        r matches Ok(v) ==> zstd_decode(v@) == Some(tar_encoding(members_of(*data))),
        r matches Ok(v) ==> tar_entries(tar_encoding(members_of(*data))) == data.files_view().map(
            |i: int, p: (Seq<u8>, Seq<u8>)| (p.0, true, p.1),
        ) && tar_clean(tar_encoding(members_of(*data))),
{
    broadcast use vstd::utf8::decode_utf8_encode_utf8;

    let files = data.files();
    let n = files.len();
    let mut b = tar_new();
    let mut i: usize = 0;
    proof {
        assert(members_of(*data).take(0) =~= Seq::<(Seq<char>, Seq<u8>)>::empty());
    }
    while i < n
        invariant
            data.wf(),
            n == data.entry_seq().len(),
            files@ == data.entry_seq(),
            i <= n,
            tar_contents(b) == members_of(*data).take(i as int),
        decreases n - i,
    {
        let e = &files[i];
        let name = match utf8_from_bytes(e.path.as_slice()) {
            Some(s) => s,
            None => {
                proof {
                    assert(false);
                }
                return Err(ModError::bare(ErrKind::ArchiveWrite));
            },
        };
        proof {
            assert(encode_utf8(name@) == e.path@);
        }
        if tar_append(&mut b, name, e.data.as_slice()).is_err() {
            proof {
                assert(false);
            }
            return Err(ModError::bare(ErrKind::ArchiveWrite));
        }
        proof {
            assert(members_of(*data)[i as int] == (decode_utf8(data.entry_seq()[i as int].path@),
            data.entry_seq()[i as int].data@));
            assert(members_of(*data).take(i + 1 as int) =~= members_of(*data).take(i as int).push(
                members_of(*data)[i as int],
            ));
        }
        i = i + 1;
    }
    proof {
        assert(members_of(*data).take(n as int) =~= members_of(*data));
    }
    let tar_bytes = match tar_finish(b) {
        Ok(v) => v,
        Err(_) => {
            proof {
                assert(false);
            }
            return Err(ModError::bare(ErrKind::ArchiveWrite));
        },
    };
    proof {
        assert(members_of(*data).map(
            |i: int, p: (Seq<char>, Seq<u8>)| (encode_utf8(p.0), true, p.1),
        ) =~= data.files_view().map(|i: int, p: (Seq<u8>, Seq<u8>)| (p.0, true, p.1)));
    }
    match zstd_compress(tar_bytes.as_slice(), ZSTD_LEVEL) {
        Ok(v) => Ok(v),
        Err(_) => {
            proof {
                assert(false);
            }
            Err(ModError::bare(ErrKind::ArchiveWrite))
        },
    }
}

/// Serializes every workspace file, in list order, into a zip archive with
/// default per-entry options. The member list of the result is pinned; the
/// raw bytes are not (zip metadata is environment-dependent). Succeeds
/// whenever the listed paths are distinct (the zip writer rejects
/// duplicate names) and every file fits zip's per-entry limits; an
/// oversized name or file fails with `ArchiveWrite` naming it.
pub fn create_zip_archive(data: &ModData) -> (r: Result<Vec<u8>, ModError>)
    requires
        data.wf(),
    ensures
        data.paths_distinct() && zip_sizes_ok(*data) ==> r is Ok,
        r matches Ok(v) ==> zip_parse(v@) == Some(
            data.files_view().map(|i: int, p: (Seq<u8>, Seq<u8>)| (p.0, true, Some(p.1))),
        ),
        r matches Err(e) ==> e.kind == ErrKind::ArchiveWrite,
{
    broadcast use vstd::utf8::decode_utf8_encode_utf8;

    let files = data.files();
    let n = files.len();
    let mut w = zip_writer_new();
    let mut i: usize = 0;
    proof {
        assert(members_of(*data).take(0) =~= Seq::<(Seq<char>, Seq<u8>)>::empty());
    }
    while i < n
        invariant
            data.wf(),
            n == data.entry_seq().len(),
            files@ == data.entry_seq(),
            i <= n,
            zip_written(w) == members_of(*data).take(i as int),
        decreases n - i,
    {
        let e = &files[i];
        let name = match utf8_from_bytes(e.path.as_slice()) {
            Some(s) => s,
            None => {
                proof {
                    assert(false);
                }
                return Err(ModError::bare(ErrKind::ArchiveWrite));
            },
        };
        proof {
            assert(encode_utf8(name@) == e.path@);
            lemma_components_safe_no_trailing_slash(e.path@);
            assert(e.path@[e.path@.len() - 1] != BACKSLASH);
        }
        if e.path.len() > ZIP_NAME_MAX || e.data.len() > ZIP_DATA_MAX {
            let p = copy_range(e.path.as_slice(), 0, e.path.len());
            return Err(ModError::new(ErrKind::ArchiveWrite, p));
        }
        let ghost prev = zip_written(w);
        if zip_add(&mut w, name, e.data.as_slice()).is_err() {
            proof {
                if data.paths_distinct() {
                    let j = choose|j: int|
                        0 <= j < prev.len() && prev[j].0 == name@;
                    assert(prev[j] == members_of(*data)[j]);
                    assert(prev[j].0 == decode_utf8(data.entry_seq()[j].path@));
                    assert(entry_path_safe(data.entry_seq()[j].path@));
                    vstd::utf8::decode_utf8_encode_utf8(data.entry_seq()[j].path@);
                    vstd::utf8::decode_utf8_encode_utf8(data.entry_seq()[i as int].path@);
                    assert(encode_utf8(decode_utf8(data.entry_seq()[j].path@)) == data.entry_seq()[
                        j
                    ].path@);
                    assert(data.entry_seq()[j].path@ == data.entry_seq()[i as int].path@);
                    assert(false);
                }
            }
            let p = copy_range(e.path.as_slice(), 0, e.path.len());
            return Err(ModError::new(ErrKind::ArchiveWrite, p));
        }
        proof {
            assert(members_of(*data)[i as int] == (decode_utf8(data.entry_seq()[i as int].path@),
            data.entry_seq()[i as int].data@));
            assert(members_of(*data).take(i + 1 as int) =~= members_of(*data).take(i as int).push(
                members_of(*data)[i as int],
            ));
        }
        i = i + 1;
    }
    proof {
        assert(members_of(*data).take(n as int) =~= members_of(*data));
    }
    match zip_finish(w) {
        Ok(v) => {
            proof {
                assert(members_of(*data).map(
                    |i: int, p: (Seq<char>, Seq<u8>)| (encode_utf8(p.0), true, Some(p.1)),
                ) =~= data.files_view().map(
                    |i: int, p: (Seq<u8>, Seq<u8>)| (p.0, true, Some(p.1)),
                ));
            }
            Ok(v)
        },
        Err(_) => {
            proof {
                assert(false);
            }
            Err(ModError::bare(ErrKind::ArchiveWrite))
        },
    }
}

/// Serializes the workspace into one archive in the selected format and
/// computes the output path from the input path: one recognized archive
/// suffix stripped, `.out` appended, format extension applied, parent
/// directory preserved. Returns the output path and the archive bytes.
/// Succeeds always for the tzst format, and for zip whenever the listed
/// paths are distinct and every file fits zip's per-entry limits.
pub fn archive(data: &ModData, opt: &Opt) -> (r: Result<(Vec<u8>, Vec<u8>), ModError>)
    requires
        data.wf(),
    ensures
        r matches Ok(pv) ==> pv.0@ == out_path_for(opt.path@, opt.format),
        r matches Ok(pv) ==> (opt.format == Format::Zstd ==> pv.1@ == tzst_bytes_of(*data)),
        r matches Ok(pv) ==> (opt.format == Format::Zip ==> zip_parse(pv.1@) == Some(
            data.files_view().map(|i: int, p: (Seq<u8>, Seq<u8>)| (p.0, true, Some(p.1))),
        )),
        r matches Err(e) ==> e.kind == ErrKind::ArchiveWrite,
        opt.format == Format::Zstd ==> r is Ok,
        opt.format == Format::Zip && data.paths_distinct() && zip_sizes_ok(*data) ==> r is Ok,
{
    let base = output_file_name(opt.path.as_slice());
    let out_path = with_format_extension(base.as_slice(), opt.format);
    let bytes = match opt.format {
        Format::Zstd => create_tar_zst_archive(data)?,
        Format::Zip => create_zip_archive(data)?,
    };
    Ok((out_path, bytes))
}

// ---------------------------------------------------------------- laws

/// Output naming, in general: for any input path split into a parent prefix
/// `dir` (empty or slash-terminated) and a slash-free file name made of a
/// non-empty `stem` plus one recognized archive suffix — or no recognized
/// suffix at all — exactly that suffix is stripped, `.out` is appended, and
/// the parent prefix is preserved.
pub proof fn lemma_output_naming(dir: Seq<u8>, stem: Seq<u8>, suffix: Seq<u8>)
    requires
        dir.len() == 0 || dir.last() == SLASH,
        stem.len() > 0,
        forall|j: int| 0 <= j < stem.len() ==> stem[j] != SLASH,
        suffix == suf_zip() || suffix == suf_tzst() || suffix == suf_tar_zst() || (suffix.len()
            == 0 && !ends_with(stem, suf_zip()) && !ends_with(stem, suf_tzst()) && !ends_with(
            stem,
            suf_tar_zst(),
        )),
    ensures
        out_name(dir + stem + suffix) == dir + stem + suf_out(),
{
    let p = dir + stem + suffix;
    let d = dir.len() as int;
    assert forall|j: int| d <= j < p.len() implies p[j] != SLASH by {
        if j < d + stem.len() {
            assert(p[j] == stem[j - d]);
        } else {
            assert(p[j] == suffix[j - d - stem.len()]);
        }
    }
    assert(p.last() != SLASH);
    assert(trim_slashes(p) == p);
    lemma_after_last_unique(p, SLASH, d);
    let name = p.subrange(d, p.len() as int);
    assert(name =~= stem + suffix);
    assert(p.subrange(0, d) =~= dir);
    if suffix == suf_zip() {
        assert(ends_with(name, suf_zip())) by {
            assert(name.subrange(name.len() - 4, name.len() as int) =~= suffix);
        }
        assert(name.take(name.len() - 4) =~= stem);
    } else if suffix == suf_tzst() {
        assert(!ends_with(name, suf_zip())) by {
            if ends_with(name, suf_zip()) {
                assert(name.subrange(name.len() - 4, name.len() as int)[3] == name[name.len() - 1]);
            }
        }
        assert(ends_with(name, suf_tzst())) by {
            assert(name.subrange(name.len() - 5, name.len() as int) =~= suffix);
        }
        assert(name.take(name.len() - 5) =~= stem);
    } else if suffix == suf_tar_zst() {
        assert(!ends_with(name, suf_zip())) by {
            if ends_with(name, suf_zip()) {
                assert(name.subrange(name.len() - 4, name.len() as int)[3] == name[name.len() - 1]);
            }
        }
        assert(!ends_with(name, suf_tzst())) by {
            if ends_with(name, suf_tzst()) {
                assert(name.subrange(name.len() - 5, name.len() as int)[0] == name[name.len() - 5]);
                assert(name[name.len() - 5] == suffix[3]);
            }
        }
        assert(ends_with(name, suf_tar_zst())) by {
            assert(name.subrange(name.len() - 8, name.len() as int) =~= suffix);
        }
        assert(name.take(name.len() - 8) =~= stem);
    } else {
        assert(name =~= stem);
        assert(strip_archive_suffix(name) == stem);
    }
    assert(out_name(p) =~= dir + stem + suf_out());
}

/// Naming never accumulates suffixes: the path produced for an output
/// archive (base name plus format extension) maps back to the very base
/// name that produced it, so re-archiving a produced archive reuses the
/// same name.
#[verifier::rlimit(50)]
pub proof fn lemma_no_suffix_accumulation(dir: Seq<u8>, stem: Seq<u8>, f: Format)
    requires
        dir.len() == 0 || dir.last() == SLASH,
        stem.len() > 0,
        forall|j: int| 0 <= j < stem.len() ==> stem[j] != SLASH,
    ensures
        out_name(with_ext(dir + stem + suf_out(), format_ext(f))) == dir + stem + suf_out(),
{
    let base = dir + stem + suf_out();
    let d = dir.len() as int;
    assert forall|j: int| d <= j < base.len() implies base[j] != SLASH by {
        if j < d + stem.len() {
            assert(base[j] == stem[j - d]);
        } else {
            assert(base[j] == suf_out()[j - d - stem.len()]);
        }
    }
    assert(base.last() != SLASH);
    lemma_after_last_unique(base, SLASH, d);
    let name = base.subrange(d, base.len() as int);
    assert(name =~= stem + suf_out());
    let q: int = stem.len() as int + 1;
    assert(name[q - 1] == DOT);
    assert forall|j: int| q <= j < name.len() implies name[j] != DOT by {
        assert(name[j] == suf_out()[j - stem.len()]);
    }
    lemma_after_last_unique(name, DOT, q);
    let produced = with_ext(base, format_ext(f));
    assert(produced =~= dir + stem + seq![DOT] + format_ext(f)) by {
        assert(base.take(d + q) =~= dir + stem + seq![DOT]);
    }
    match f {
        Format::Zstd => {
            assert(dir + stem + seq![DOT] + format_ext(f) =~= dir + stem + suf_tzst());
            lemma_output_naming(dir, stem, suf_tzst());
        },
        Format::Zip => {
            assert(dir + stem + seq![DOT] + format_ext(f) =~= dir + stem + suf_zip());
            lemma_output_naming(dir, stem, suf_zip());
        },
    }
}

/// Determinism of tzst archiving: two workspaces with identical file lists
/// (same names, same contents, same order) have identical archive bytes.
/// Zip archiving is exempt: its contract pins only the member list.
pub proof fn lemma_tzst_deterministic(a: ModData, b: ModData)
    requires
        a.files_view() == b.files_view(),
    ensures
        tzst_bytes_of(a) == tzst_bytes_of(b),
{
    assert(members_of(a) =~= members_of(b));
}

} // verus!
