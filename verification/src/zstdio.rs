//! Zstandard framing, behind trusted wrappers. Compression at a fixed level
//! with fixed flags is a pure function of the payload; decompression is its
//! inverse.
use std::io::Write;

use vstd::prelude::*;

verus! {

/// The zstd frame produced for `data` at `level` under this module's fixed
/// encoder settings; a pure function of both.
pub uninterp spec fn zstd_frame(data: Seq<u8>, level: int) -> Seq<u8>;

/// What zstd decompression yields for `bytes`: `None` when the frame is not
/// decodable; a pure function of the bytes.
pub uninterp spec fn zstd_decode(bytes: Seq<u8>) -> Option<Seq<u8>>;

/// Relies on zstd::stream::write::Encoder: `new` at the given level,
/// `include_checksum(true)`, `include_contentsize(true)`, `write_all`,
/// `finish`. The frame is a pure function of payload and level under these
/// fixed settings, and decompressing it yields the payload back. (The
/// content-size flag is set, but a streaming writer without a pledged size
/// embeds none; the checksum is embedded.) Writing to the in-memory buffer
/// cannot fail, so the only failure is a compression level outside zstd's
/// accepted range.
#[verifier::external_body]
pub fn zstd_compress(data: &[u8], level: i32) -> (r: Result<Vec<u8>, ()>)
    ensures
        r is Err ==> (level < 1 || level > 22),
        r matches Ok(v) ==> v@ == zstd_frame(data@, level as int) && zstd_decode(v@) == Some(
            data@,
        ),
{
    let mut enc = match zstd::stream::write::Encoder::new(Vec::new(), level) {
        Ok(e) => e,
        Err(_) => return Err(()),
    };
    if enc.include_checksum(true).is_err() {
        return Err(());
    }
    if enc.include_contentsize(true).is_err() {
        return Err(());
    }
    if enc.write_all(data).is_err() {
        return Err(());
    }
    enc.finish().map_err(|_| ())
}

/// Relies on zstd::stream::decode_all: decompression is a pure function of
/// the input bytes and fails exactly on undecodable input.
#[verifier::external_body]
pub fn zstd_decompress(data: &[u8]) -> (r: Result<Vec<u8>, ()>)
    ensures
        (r is Ok) == (zstd_decode(data@) is Some),
        r matches Ok(v) ==> Some(v@) == zstd_decode(data@),
{
    zstd::stream::decode_all(data).map_err(|_| ())
}

} // verus!
