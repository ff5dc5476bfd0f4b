//! Extraction: format sniffing by file extension, and the three source
//! strategies (zip archive, tar+zstd archive, plain directory walk), all
//! normalizing into the same in-memory workspace under one output contract.
//! Archive entry names are untrusted input: any name that is not valid UTF-8
//! or that could escape the extraction root fails the whole extraction.
use vstd::prelude::*;

use crate::archive::{suf_tar_zst, suf_tzst, suf_zip, tar_clean, tar_entries, zip_parse};
use crate::errors::{ErrKind, ModError};
use crate::models::{entry_name_safe, entry_path_safe, FileEntry, ModData};
use crate::relpath::{bytes_ends_with, copy_range, ends_with, file_name_of, file_name_vec};
use crate::zstdio::{zstd_decode, zstd_decompress};

verus! {

/// How a source file is dispatched, purely by its file name's suffix; no
/// content sniffing is performed.
#[derive(Clone, Copy, Debug, PartialEq, Eq, Structural)]
pub enum SourceKind {
    ZipFile,
    TarZstFile,
    Unsupported,
}

pub open spec fn source_kind(name: Seq<u8>) -> SourceKind {
    if ends_with(name, suf_zip()) {
        SourceKind::ZipFile
    } else if ends_with(name, suf_tzst()) || ends_with(name, suf_tar_zst()) {
        SourceKind::TarZstFile
    } else {
        SourceKind::Unsupported
    }
}

/// Dispatches a source file name by its suffix.
pub fn classify_source(name: &[u8]) -> (r: SourceKind)
    ensures
        r == source_kind(name@),
{
    let zip_s: [u8; 4] = [46, 122, 105, 112];
    let tzst_s: [u8; 5] = [46, 116, 122, 115, 116];
    let tar_zst_s: [u8; 8] = [46, 116, 97, 114, 46, 122, 115, 116];
    proof {
        assert(zip_s@ =~= suf_zip());
        assert(tzst_s@ =~= suf_tzst());
        assert(tar_zst_s@ =~= suf_tar_zst());
    }
    if bytes_ends_with(name, zip_s.as_slice()) {
        SourceKind::ZipFile
    } else if bytes_ends_with(name, tzst_s.as_slice()) || bytes_ends_with(
        name,
        tar_zst_s.as_slice(),
    ) {
        SourceKind::TarZstFile
    } else {
        SourceKind::Unsupported
    }
}

/// The regular-file members of a parsed archive, in source order: (name
/// bytes, contents); directories and special entries are skipped silently.
pub open spec fn file_members(es: Seq<(Seq<u8>, bool, Seq<u8>)>) -> Seq<(Seq<u8>, Seq<u8>)>
    decreases es.len(),
{
    if es.len() == 0 {
        Seq::empty()
    } else {
        let rest = file_members(es.drop_last());
        let last = es.last();
        if last.1 {
            rest.push((last.0, last.2))
        } else {
            rest
        }
    }
}

/// Every regular-file member's name is safe to extract under the root.
pub open spec fn all_file_names_safe(es: Seq<(Seq<u8>, bool, Seq<u8>)>) -> bool {
    forall|j: int| 0 <= j < es.len() && es[j].1 ==> entry_path_safe(es[j].0)
}

/// Every member of a parsed zip archive has readable contents.
pub open spec fn entries_readable(es: Seq<(Seq<u8>, bool, Option<Seq<u8>>)>) -> bool {
    forall|j: int| 0 <= j < es.len() ==> es[j].2 is Some
}

/// A parsed zip member list with the readability layer removed; meaningful
/// under `entries_readable`.
pub open spec fn strip_entries(es: Seq<(Seq<u8>, bool, Option<Seq<u8>>)>) -> Seq<
    (Seq<u8>, bool, Seq<u8>),
> {
    es.map(|i: int, t: (Seq<u8>, bool, Option<Seq<u8>>)| (t.0, t.1, t.2.unwrap()))
}

/// Relies on zip::ZipArchive::new over an in-memory cursor, len, by_index,
/// ZipFile::name_raw, ZipFile::is_file and read_to_end: random access to the
/// index-th member of the archive. Whenever the archive parses (central
/// directory and every member readable), the call is exact: the member at
/// the index, or `None` past the end; an archive never has more members
/// than bytes.
#[verifier::external_body]
fn zip_entry_at(bytes: &[u8], index: usize) -> (r: Result<Option<(Vec<u8>, bool, Vec<u8>)>, ()>)
    ensures
        r matches Ok(oe) ==> zip_parse(bytes@) is Some,
        r is Err ==> (zip_parse(bytes@) matches Some(es) ==> index < es.len() && es[
            index as int
        ].2 is None),
        r matches Ok(oe) ==> (zip_parse(bytes@) matches Some(es) ==> es.len() <= bytes@.len() && (
        index < es.len() ==> (es[index as int].2 matches Some(d) && oe matches Some(t) && t.0@
            == es[index as int].0 && t.1 == es[index as int].1 && t.2@ == d)) && (index >= es.len()
            ==> oe is None)),
{
    let cur = std::io::Cursor::new(bytes.to_vec());
    let mut za = zip::ZipArchive::new(cur).map_err(|_| ())?;
    if index >= za.len() {
        return Ok(None);
    }
    let mut f = za.by_index(index).map_err(|_| ())?;
    let name = f.name_raw().to_vec();
    let is_file = f.is_file();
    let mut data = Vec::new();
    std::io::Read::read_to_end(&mut f, &mut data).map_err(|_| ())?;
    Ok(Some((name, is_file, data)))
}

/// Relies on tar::Archive::new over in-memory bytes, entries().nth,
/// Entry::path_bytes, header().entry_type().is_file and read_to_end: the
/// index-th entry of the stream. The call is exact against the read model:
/// the iterator yields a prefix of good entries and then either ends
/// cleanly or errors once (after an error it yields nothing more), so a
/// call below the prefix returns its entry, a call at its end errors
/// exactly when the stream is unclean, and later calls return `None`; a
/// stream never has more entries than bytes (each header alone is 512
/// bytes).
#[verifier::external_body]
fn tar_entry_at(bytes: &[u8], index: usize) -> (r: Result<Option<(Vec<u8>, bool, Vec<u8>)>, ()>)
    ensures
        r is Err ==> (index == tar_entries(bytes@).len() && !tar_clean(bytes@)),
        r matches Ok(oe) ==> (index < tar_entries(bytes@).len() ==> (oe matches Some(t) && t.0@
            == tar_entries(bytes@)[index as int].0 && t.1 == tar_entries(bytes@)[index as int].1
            && t.2@ == tar_entries(bytes@)[index as int].2)),
        r matches Ok(oe) ==> (index >= tar_entries(bytes@).len() ==> oe is None),
        r matches Ok(oe) ==> (oe is None && index == tar_entries(bytes@).len() ==> tar_clean(
            bytes@,
        )),
        r matches Ok(oe) ==> tar_entries(bytes@).len() <= bytes@.len(),
{
    let mut ar = tar::Archive::new(bytes);
    let mut it = ar.entries().map_err(|_| ())?;
    let first = match it.nth(index) {
        Some(got) => got.map_err(|_| ())?,
        None => return Ok(None),
    };
    let mut ent = first;
    let name = ent.path_bytes().to_vec();
    let is_file = ent.header().entry_type().is_file();
    let mut data = Vec::new();
    std::io::Read::read_to_end(&mut ent, &mut data).map_err(|_| ())?;
    Ok(Some((name, is_file, data)))
}

/// Extracts a zip archive held in memory into a fresh workspace: members in
/// central-directory order, non-file entries skipped silently, every file
/// entry's untrusted name validated. A corrupt container fails with
/// `ArchiveFormat`; one escaping or non-UTF-8 name fails the whole
/// extraction with `InvalidPath`, naming that entry, and nothing is kept.
pub fn extract_zip(scratch_root: Vec<u8>, bytes: &[u8]) -> (r: Result<ModData, ModError>)
    ensures
        r matches Ok(d) ==> d.wf() && d.root_view() == scratch_root@,
        zip_parse(bytes@) is None ==> (r matches Err(e) && e.kind == ErrKind::ArchiveFormat),
        zip_parse(bytes@) matches Some(es) ==> ((r is Ok) == (entries_readable(es)
            && all_file_names_safe(strip_entries(es)))),
        r matches Ok(d) ==> (zip_parse(bytes@) matches Some(es) ==> d.files_view()
            == file_members(strip_entries(es))),
        r matches Err(e) ==> e.kind == ErrKind::ArchiveFormat || e.kind == ErrKind::InvalidPath,
        zip_parse(bytes@) matches Some(es) ==> (entries_readable(es) ==> (r matches Err(e) ==> (
        e.kind == ErrKind::InvalidPath && exists|j: int|
            0 <= j < es.len() && es[j].1 && !entry_path_safe(es[j].0) && e.path@ == es[j].0))),
{
    let mut out: Vec<FileEntry> = Vec::new();
    let mut i: usize = 0;
    proof {
        if zip_parse(bytes@) is Some {
            let es = zip_parse(bytes@).unwrap();
            assert(strip_entries(es).take(0) =~= Seq::<(Seq<u8>, bool, Seq<u8>)>::empty());
            assert(out@.map(|k: int, e: FileEntry| (e.path@, e.data@)) =~= file_members(
                strip_entries(es).take(0),
            ));
        }
    }
    loop
        invariant
            i <= bytes@.len() + 1,
            forall|k: int| 0 <= k < out@.len() ==> entry_path_safe(out@[k].path@),
            zip_parse(bytes@) matches Some(es) ==> i <= es.len() && (i > 0 ==> es.len()
                <= bytes@.len()) && out@.map(|k: int, e: FileEntry| (e.path@, e.data@))
                == file_members(strip_entries(es).take(i as int)) && (forall|j: int|
                0 <= j < i ==> es[j].2 is Some) && (forall|j: int|
                0 <= j < i && es[j].1 ==> entry_path_safe(es[j].0)),
        decreases bytes@.len() + 1 - i,
    {
        if i > bytes.len() {
            proof {
                if zip_parse(bytes@) is Some {
                    assert(false);
                }
            }
            return Err(ModError::bare(ErrKind::ArchiveFormat));
        }
        match zip_entry_at(bytes, i) {
            Err(_) => {
                return Err(ModError::bare(ErrKind::ArchiveFormat));
            },
            Ok(None) => {
                proof {
                    let es = zip_parse(bytes@).unwrap();
                    assert(strip_entries(es).take(i as int) =~= strip_entries(es));
                }
                let d = ModData::new(scratch_root, out);
                return Ok(d);
            },
            Ok(Some(t)) => {
                let (name, is_file, data) = t;
                if is_file {
                    if !entry_name_safe(name.as_slice()) {
                        proof {
                            let es = zip_parse(bytes@).unwrap();
                            assert(strip_entries(es)[i as int].0 == es[i as int].0);
                            assert(strip_entries(es)[i as int].1 == es[i as int].1);
                        }
                        return Err(ModError::new(ErrKind::InvalidPath, name));
                    }
                    out.push(FileEntry { path: name, data });
                }
                proof {
                    let es = zip_parse(bytes@).unwrap();
                    assert(strip_entries(es).take(i + 1 as int).drop_last() =~= strip_entries(
                        es,
                    ).take(i as int));
                    assert(strip_entries(es).take(i + 1 as int).last() == strip_entries(es)[
                        i as int
                    ]);
                    if es[i as int].1 {
                        assert(out@.map(|k: int, e: FileEntry| (e.path@, e.data@)) =~= file_members(
                            strip_entries(es).take(i as int),
                        ).push((strip_entries(es)[i as int].0, strip_entries(es)[i as int].2)));
                    }
                }
                if i == bytes.len() {
                    proof {
                        if zip_parse(bytes@) is Some {
                            assert(false);
                        }
                    }
                    return Err(ModError::bare(ErrKind::ArchiveFormat));
                }
                i = i + 1;
            },
        }
    }
}

/// Extracts a tar+zstd archive held in memory: the zstd frame is decoded
/// first (`ArchiveFormat` when undecodable), then the tar entries are
/// handled exactly as the zip strategy handles its members; a stream that
/// does not iterate to a clean end is `ArchiveFormat`.
pub fn extract_tar_zst(scratch_root: Vec<u8>, bytes: &[u8]) -> (r: Result<ModData, ModError>)
    ensures
        r matches Ok(d) ==> d.wf() && d.root_view() == scratch_root@,
        (zstd_decode(bytes@) is None) ==> (r matches Err(e) && e.kind == ErrKind::ArchiveFormat),
        zstd_decode(bytes@) matches Some(tb) ==> ((r is Ok) == (tar_clean(tb)
            && all_file_names_safe(tar_entries(tb)))),
        r matches Ok(d) ==> (zstd_decode(bytes@) matches Some(tb) ==> d.files_view()
            == file_members(tar_entries(tb))),
        r matches Err(e) ==> e.kind == ErrKind::ArchiveFormat || e.kind == ErrKind::InvalidPath,
        zstd_decode(bytes@) matches Some(tb) ==> (tar_clean(tb) ==> (r matches Err(e) ==> (e.kind
            == ErrKind::InvalidPath && exists|j: int|
            0 <= j < tar_entries(tb).len() && tar_entries(tb)[j].1 && !entry_path_safe(
                tar_entries(tb)[j].0,
            ) && e.path@ == tar_entries(tb)[j].0))),
        zstd_decode(bytes@) matches Some(tb) ==> (!tar_clean(tb) && all_file_names_safe(
            tar_entries(tb),
        ) ==> (r matches Err(e) && e.kind == ErrKind::ArchiveFormat)),
{
    let tb = match zstd_decompress(bytes) {
        Ok(v) => v,
        Err(_) => {
            return Err(ModError::bare(ErrKind::ArchiveFormat));
        },
    };
    let mut out: Vec<FileEntry> = Vec::new();
    let mut i: usize = 0;
    proof {
        assert(tar_entries(tb@).take(0) =~= Seq::<(Seq<u8>, bool, Seq<u8>)>::empty());
        assert(out@.map(|k: int, e: FileEntry| (e.path@, e.data@)) =~= file_members(
            tar_entries(tb@).take(0),
        ));
    }
    loop
        invariant
            i <= tb@.len() + 1,
            Some(tb@) == zstd_decode(bytes@),
            forall|k: int| 0 <= k < out@.len() ==> entry_path_safe(out@[k].path@),
            i <= tar_entries(tb@).len(),
            i > 0 ==> tar_entries(tb@).len() <= tb@.len(),
            out@.map(|k: int, e: FileEntry| (e.path@, e.data@)) == file_members(
                tar_entries(tb@).take(i as int),
            ),
            forall|j: int|
                0 <= j < i && tar_entries(tb@)[j].1 ==> entry_path_safe(tar_entries(tb@)[j].0),
        decreases tb@.len() + 1 - i,
    {
        if i > tb.len() {
            proof {
                assert(false);
            }
            return Err(ModError::bare(ErrKind::ArchiveFormat));
        }
        match tar_entry_at(tb.as_slice(), i) {
            Err(_) => {
                return Err(ModError::bare(ErrKind::ArchiveFormat));
            },
            Ok(None) => {
                proof {
                    assert(tar_entries(tb@).take(i as int) =~= tar_entries(tb@));
                }
                let d = ModData::new(scratch_root, out);
                return Ok(d);
            },
            Ok(Some(t)) => {
                let (name, is_file, data) = t;
                if is_file {
                    if !entry_name_safe(name.as_slice()) {
                        return Err(ModError::new(ErrKind::InvalidPath, name));
                    }
                    out.push(FileEntry { path: name, data });
                }
                proof {
                    assert(tar_entries(tb@).take(i + 1 as int).drop_last() =~= tar_entries(
                        tb@,
                    ).take(i as int));
                    assert(tar_entries(tb@).take(i + 1 as int).last() == tar_entries(tb@)[i as int]);
                    if tar_entries(tb@)[i as int].1 {
                        assert(out@.map(|k: int, e: FileEntry| (e.path@, e.data@)) =~= file_members(
                            tar_entries(tb@).take(i as int),
                        ).push((tar_entries(tb@)[i as int].0, tar_entries(tb@)[i as int].2)));
                    }
                }
                if i == tb.len() {
                    proof {
                        assert(false);
                    }
                    return Err(ModError::bare(ErrKind::ArchiveFormat));
                }
                i = i + 1;
            },
        }
    }
}

/// Builds the workspace from a walked directory tree (the walk itself, with
/// its ignore-file filtering, happens outside the library): every entry's
/// relative path is validated before the workspace is accepted.
pub fn copy_dir(scratch_root: Vec<u8>, entries: Vec<FileEntry>) -> (r: Result<ModData, ModError>)
    ensures
        (r is Ok) == (forall|i: int|
            0 <= i < entries@.len() ==> entry_path_safe(entries@[i].path@)),
        r matches Ok(d) ==> d.wf() && d.root_view() == scratch_root@ && d.entry_seq() == entries@,
        r matches Err(e) ==> e.kind == ErrKind::InvalidPath && exists|i: int|
            0 <= i < entries@.len() && !entry_path_safe(entries@[i].path@) && e.path@
                == entries@[i].path@,
{
    let n = entries.len();
    let mut i: usize = 0;
    while i < n
        invariant
            n == entries@.len(),
            i <= n,
            forall|j: int| 0 <= j < i ==> entry_path_safe(entries@[j].path@),
        decreases n - i,
    {
        let e = &entries[i];
        if !entry_name_safe(e.path.as_slice()) {
            let p = copy_range(e.path.as_slice(), 0, e.path.len());
            return Err(ModError::new(ErrKind::InvalidPath, p));
        }
        i = i + 1;
    }
    Ok(ModData::new(scratch_root, entries))
}

/// One extraction source, materialized for the library by its caller: an
/// existing file (source path plus raw bytes), an existing directory (its
/// walked entries, already filtered by ignore rules), or nothing usable.
pub enum Source {
    File(Vec<u8>, Vec<u8>),
    Dir(Vec<FileEntry>),
    Missing,
}

/// Produces the workspace for a source: zip and tar+zstd files are
/// dispatched purely by file-name suffix (a misnamed file surfaces a
/// container error, never silent misdetection), directories are taken as
/// walked, and anything else is `UnsupportedInput`. For a recognized
/// archive the error kind is never `UnsupportedInput`: a corrupt container
/// is `ArchiveFormat` and an unsafe entry name is `InvalidPath`.
pub fn extract(src: Source, scratch_root: Vec<u8>) -> (r: Result<ModData, ModError>)
    ensures
        r matches Ok(d) ==> d.wf() && d.root_view() == scratch_root@,
        src matches Source::Missing ==> (r matches Err(e) && e.kind == ErrKind::UnsupportedInput),
        src matches Source::File(p, b) ==> (source_kind(file_name_of(p@))
            == SourceKind::Unsupported ==> (r matches Err(e) && e.kind
            == ErrKind::UnsupportedInput)),
        src matches Source::File(p, b) ==> (source_kind(file_name_of(p@)) == SourceKind::ZipFile
            ==> (r matches Err(e) ==> e.kind == ErrKind::ArchiveFormat || e.kind
            == ErrKind::InvalidPath)),
        src matches Source::File(p, b) ==> (source_kind(file_name_of(p@)) == SourceKind::ZipFile
            ==> (zip_parse(b@) is None ==> (r matches Err(e) && e.kind
            == ErrKind::ArchiveFormat))),
        src matches Source::File(p, b) ==> (source_kind(file_name_of(p@)) == SourceKind::ZipFile
            ==> (zip_parse(b@) matches Some(es) ==> ((r is Ok) == (entries_readable(es)
            && all_file_names_safe(strip_entries(es)))) && (r matches Ok(d) ==> d.files_view()
            == file_members(strip_entries(es))))),
        src matches Source::File(p, b) ==> (source_kind(file_name_of(p@))
            == SourceKind::TarZstFile ==> (r matches Err(e) ==> e.kind == ErrKind::ArchiveFormat
            || e.kind == ErrKind::InvalidPath)),
        src matches Source::File(p, b) ==> (source_kind(file_name_of(p@))
            == SourceKind::TarZstFile ==> (zstd_decode(b@) is None ==> (r matches Err(e) && e.kind
            == ErrKind::ArchiveFormat))),
        src matches Source::File(p, b) ==> (source_kind(file_name_of(p@))
            == SourceKind::TarZstFile ==> (zstd_decode(b@) matches Some(tb) ==> ((r is Ok) == (
        tar_clean(tb) && all_file_names_safe(tar_entries(tb)))) && (r matches Ok(d)
            ==> d.files_view() == file_members(tar_entries(tb))))),
        src matches Source::File(p, b) ==> (source_kind(file_name_of(p@))
            == SourceKind::TarZstFile ==> (zstd_decode(b@) matches Some(tb) ==> (!tar_clean(tb)
            && all_file_names_safe(tar_entries(tb)) ==> (r matches Err(e) && e.kind
            == ErrKind::ArchiveFormat)))),
        src matches Source::Dir(es) ==> ((r is Ok) == (forall|i: int|
            0 <= i < es@.len() ==> entry_path_safe(es@[i].path@))) && (r matches Ok(d)
            ==> d.entry_seq() == es@) && (r matches Err(e) ==> e.kind == ErrKind::InvalidPath),
{
    match src {
        Source::File(p, b) => {
            let name = file_name_vec(p.as_slice());
            match classify_source(name.as_slice()) {
                SourceKind::ZipFile => extract_zip(scratch_root, b.as_slice()),
                SourceKind::TarZstFile => extract_tar_zst(scratch_root, b.as_slice()),
                SourceKind::Unsupported => Err(ModError::bare(ErrKind::UnsupportedInput)),
            }
        },
        Source::Dir(entries) => copy_dir(scratch_root, entries),
        Source::Missing => Err(ModError::bare(ErrKind::UnsupportedInput)),
    }
}

} // verus!
