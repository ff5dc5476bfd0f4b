//! The uniform in-memory workspace produced by extraction: a recorded scratch
//! root plus the ordered list of files (relative path and contents).
use vstd::prelude::*;
use vstd::utf8::valid_utf8;

use crate::relpath::{components_safe, components_safe_check};
use crate::textenc::utf8_valid_check;

verus! {

/// A relative path is accepted from untrusted archive input only if it is
/// valid UTF-8 and structurally safe (cannot escape the extraction root).
pub open spec fn entry_path_safe(p: Seq<u8>) -> bool {
    valid_utf8(p) && components_safe(p)
}

/// Full safety check for one untrusted entry name.
pub fn entry_name_safe(v: &[u8]) -> (r: bool)
    ensures
        r == entry_path_safe(v@),
{
    utf8_valid_check(v) && components_safe_check(v)
}

/// One extracted file: its slash-normalized relative path (UTF-8 bytes) and
/// its contents.
#[derive(Debug)]
pub struct FileEntry {
    pub path: Vec<u8>,
    pub data: Vec<u8>,
}

/// The extracted mod bundle: the scratch root it was materialized under and
/// the files in discovery order. Invariant: every listed path is safe
/// relative to the root.
#[derive(Debug)]
pub struct ModData {
    root: Vec<u8>,
    entries: Vec<FileEntry>,
}

impl ModData {
    /// The recorded scratch root path.
    pub closed spec fn root_view(self) -> Seq<u8> {
        self.root@
    }

    /// The entries as they stand.
    pub closed spec fn entry_seq(self) -> Seq<FileEntry> {
        self.entries@
    }

    /// The listed relative paths, in discovery order.
    pub open spec fn paths_view(self) -> Seq<Seq<u8>> {
        self.entry_seq().map(|i: int, e: FileEntry| e.path@)
    }

    /// Paths and contents, in discovery order.
    pub open spec fn files_view(self) -> Seq<(Seq<u8>, Seq<u8>)> {
        self.entry_seq().map(|i: int, e: FileEntry| (e.path@, e.data@))
    }

    /// No two listed files share a relative path.
    pub open spec fn paths_distinct(self) -> bool {
        forall|i: int, j: int|
            0 <= i < j < self.entry_seq().len() ==> self.entry_seq()[i].path@
                != self.entry_seq()[j].path@
    }

    /// The workspace invariant: every listed path is safe.
    pub open spec fn wf(self) -> bool {
        forall|i: int|
            0 <= i < self.entry_seq().len() ==> entry_path_safe(self.entry_seq()[i].path@)
    }

    pub fn new(root: Vec<u8>, entries: Vec<FileEntry>) -> (r: ModData)
        requires
            forall|i: int| 0 <= i < entries@.len() ==> entry_path_safe(entries@[i].path@),
        ensures
            r.root_view() == root@,
            r.entry_seq() == entries@,
            r.wf(),
    {
        ModData { root, entries }
    }

    /// The scratch root this bundle was extracted under.
    pub fn path(&self) -> (r: &Vec<u8>)
        ensures
            r@ == self.root_view(),
    {
        &self.root
    }

    /// The extracted files, in discovery order.
    pub fn files(&self) -> (r: &Vec<FileEntry>)
        ensures
            r@ == self.entry_seq(),
    {
        &self.entries
    }

    /// Releases the workspace. The in-memory representation frees its storage
    /// on drop, so disposal itself cannot fail.
    pub fn delete(self) -> (r: Result<(), crate::errors::ModError>)
        ensures
            r is Ok,
    {
        Ok(())
    }
}

} // verus!
