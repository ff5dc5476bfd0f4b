//! Cross-component laws: the round-trip guarantees between archiving and
//! extraction.
use vstd::prelude::*;

use crate::archive::{create_tar_zst_archive, create_zip_archive, zip_sizes_ok};
use crate::errors::{ErrKind, ModError};
use crate::extract::{
    all_file_names_safe, entries_readable, extract_tar_zst, extract_zip, file_members,
    strip_entries,
};
use crate::models::ModData;

verus! {

/// A member list in which every entry is a regular file extracts back to
/// exactly itself.
pub proof fn lemma_file_members_all(fv: Seq<(Seq<u8>, Seq<u8>)>)
    ensures
        file_members(fv.map(|i: int, p: (Seq<u8>, Seq<u8>)| (p.0, true, p.1))) == fv,
    decreases fv.len(),
{
    let m = fv.map(|i: int, p: (Seq<u8>, Seq<u8>)| (p.0, true, p.1));
    if fv.len() == 0 {
        assert(file_members(m) =~= fv);
    } else {
        lemma_file_members_all(fv.drop_last());
        assert(m.drop_last() =~= fv.drop_last().map(
            |i: int, p: (Seq<u8>, Seq<u8>)| (p.0, true, p.1),
        ));
        assert(file_members(m) =~= fv);
    }
}

/// Every member written from a well-formed workspace carries a safe name.
pub proof fn lemma_workspace_members_safe(d: ModData)
    requires
        d.wf(),
    ensures
        all_file_names_safe(d.files_view().map(|i: int, p: (Seq<u8>, Seq<u8>)| (p.0, true, p.1))),
{
    let m = d.files_view().map(|i: int, p: (Seq<u8>, Seq<u8>)| (p.0, true, p.1));
    assert forall|j: int| 0 <= j < m.len() && m[j].1 implies crate::models::entry_path_safe(
        m[j].0,
    ) by {
        assert(m[j].0 == d.files_view()[j].0);
        assert(d.files_view()[j].0 == d.entry_seq()[j].path@);
    }
}

/// Round-trip, zip: extracting a produced zip archive succeeds and yields
/// the same member paths and contents, in the same order, as the workspace
/// it was produced from; with distinct paths and files within zip's
/// per-entry limits the whole round trip is owed.
pub fn zip_round_trip(data: &ModData, scratch_root: Vec<u8>) -> (r: Result<ModData, ModError>)
    requires
        data.wf(),
    ensures
        data.paths_distinct() && zip_sizes_ok(*data) ==> r is Ok,
        r matches Ok(d2) ==> d2.files_view() == data.files_view(),
        r matches Err(e) ==> e.kind == ErrKind::ArchiveWrite,
{
    let bytes = create_zip_archive(data)?;
    proof {
        let m = data.files_view().map(|i: int, p: (Seq<u8>, Seq<u8>)| (p.0, true, Some(p.1)));
        assert forall|j: int| 0 <= j < m.len() implies m[j].2 is Some by {
            assert(m[j] == (data.files_view()[j].0, true, Some(data.files_view()[j].1)));
        }
        assert(strip_entries(m) =~= data.files_view().map(
            |i: int, p: (Seq<u8>, Seq<u8>)| (p.0, true, p.1),
        ));
        lemma_file_members_all(data.files_view());
        lemma_workspace_members_safe(*data);
    }
    let d2 = match extract_zip(scratch_root, bytes.as_slice()) {
        Ok(d2) => d2,
        Err(_) => {
            proof {
                assert(false);
            }
            return Err(ModError::bare(ErrKind::ArchiveWrite));
        },
    };
    Ok(d2)
}

/// Round-trip, tar+zstd: archiving a well-formed workspace always succeeds,
/// and extracting the produced tzst archive succeeds and yields the same
/// member paths and contents, in the same order.
pub fn tzst_round_trip(data: &ModData, scratch_root: Vec<u8>) -> (r: Result<ModData, ModError>)
    requires
        data.wf(),
    ensures
        r is Ok,
        r matches Ok(d2) ==> d2.files_view() == data.files_view(),
{
    let bytes = match create_tar_zst_archive(data) {
        Ok(v) => v,
        Err(_) => {
            proof {
                assert(false);
            }
            return Err(ModError::bare(ErrKind::ArchiveWrite));
        },
    };
    proof {
        lemma_file_members_all(data.files_view());
        lemma_workspace_members_safe(*data);
    }
    let d2 = match extract_tar_zst(scratch_root, bytes.as_slice()) {
        Ok(d2) => d2,
        Err(_) => {
            proof {
                assert(false);
            }
            return Err(ModError::bare(ErrKind::ArchiveWrite));
        },
    };
    Ok(d2)
}

} // verus!
