//! The pipeline's error taxonomy. Every failure carries the kind of fault and,
//! where one is attributable, the relative path of the file that caused it.
//! The specification's disposal failure has no variant here: disposing the
//! in-memory workspace cannot fail, so no `Cleanup` kind can ever arise.
use vstd::prelude::*;

verus! {

/// What went wrong. Each variant corresponds to one failure mode of the
/// pipeline; the attribution (which file) travels beside it in [`ModError`].
#[derive(Clone, Copy, Debug, PartialEq, Eq, Structural)]
pub enum ErrKind {
    /// The source path is neither a recognized archive nor a directory.
    UnsupportedInput,
    /// An archive entry name is not valid UTF-8 or could escape the
    /// extraction root.
    InvalidPath,
    /// The archive container itself is corrupt.
    ArchiveFormat,
    /// A resource-level failure outside any specific file format. Reserved:
    /// the in-memory library itself never produces it (file and network I/O
    /// live outside the library).
    Io,
    /// A JSON file did not parse, even under relaxed (JSON5) rules.
    MalformedJson,
    /// A JSON file holds invalid UTF-8 and no legacy encoding is known for it.
    UnsupportedEncoding,
    /// A PNG file could not be decoded or re-encoded.
    ImageCodec,
    /// A tmx/tsx file is not well-formed XML.
    XmlSyntax,
    /// The output archive could not be serialized.
    ArchiveWrite,
}

/// One pipeline failure: its kind plus the relative path (UTF-8 bytes) of the
/// file it is attributed to, empty when no single file is to blame.
#[derive(Debug)]
pub struct ModError {
    pub kind: ErrKind,
    pub path: Vec<u8>,
}

impl ModError {
    pub fn new(kind: ErrKind, path: Vec<u8>) -> (r: ModError)
        ensures
            r.kind == kind,
            r.path@ == path@,
    {
        ModError { kind, path }
    }

    /// A failure with no single attributable file.
    pub fn bare(kind: ErrKind) -> (r: ModError)
        ensures
            r.kind == kind,
            r.path@ == Seq::<u8>::empty(),
    {
        let path: Vec<u8> = Vec::new();
        ModError { kind, path }
    }
}

} // verus!
