//! Repackaging pipeline for game-mod bundles: extraction of zip / tar+zstd /
//! directory sources into one uniform in-memory workspace, per-file-type
//! minification (JSON, PNG, Tiled XML), and deterministic re-archiving.
#![allow(unused_imports)]
use vstd::prelude::*;

pub mod archive;
pub mod errors;
pub mod extract;
pub mod laws;
pub mod minify;
pub mod models;
pub mod relpath;
pub mod textenc;
pub mod zstdio;

use crate::errors::ModError;
use crate::models::ModData;

verus! {

/// The output container format for the produced archive.
#[derive(Clone, Copy, Debug, PartialEq, Eq, Structural)]
pub enum Format {
    Zstd,
    Zip,
}

impl Default for Format {
    fn default() -> (r: Self)
        ensures
            r == Format::Zstd,
    {
        Format::Zstd
    }
}

/// The immutable configuration of one pipeline run: the three minification
/// toggles, the output format, and the source path (UTF-8 bytes).
pub struct Opt {
    /// Don't shrink JSON files.
    pub no_json: bool,
    /// Don't shrink image (png) files.
    pub no_images: bool,
    /// Don't shrink tile (tmx/tsx) files.
    pub no_tiles: bool,
    /// The archive format to use.
    pub format: Format,
    /// Path to either a mod archive file (*.zip, *.tzst or *.tar.zst) or a
    /// folder containing the mod's content.
    pub path: Vec<u8>,
}

/// Runs the in-memory body of the pipeline on an extracted workspace:
/// minification (fail-fast across files), then archiving. Returns the
/// output path computed from the source path and the archive bytes, which
/// are the selected serialization of a workspace standing in the
/// minification relation to the input. A file whose bytes are certain to
/// fail its transform (for example one corrupt PNG among many valid files)
/// fails the whole run and no archive bytes are produced; a workspace free
/// of such files is owed success (for the zip format: provided the paths
/// are distinct and the minified files fit zip's per-entry limits).
pub fn process(data: &ModData, opt: &Opt) -> (r: Result<(Vec<u8>, Vec<u8>), ModError>)
    requires
        data.wf(),
    ensures
        r matches Ok(pv) ==> pv.0@ == crate::archive::out_path_for(opt.path@, opt.format),
        r matches Ok(pv) ==> exists|d2: ModData|
            #[trigger] crate::minify::minify_rel(*data, d2, *opt) && (opt.format == Format::Zstd
                ==> pv.1@ == crate::archive::tzst_bytes_of(d2)) && (opt.format == Format::Zip
                ==> crate::archive::zip_parse(pv.1@) == Some(
                d2.files_view().map(|i: int, p: (Seq<u8>, Seq<u8>)| (p.0, true, Some(p.1))),
            )),
        (exists|i: int|
            0 <= i < data.entry_seq().len() && crate::minify::entry_must_fail(
                data.entry_seq()[i].path@,
                data.entry_seq()[i].data@,
                *opt,
            )) ==> r is Err,
        ((forall|i: int|
            0 <= i < data.entry_seq().len() ==> !crate::minify::entry_must_fail(
                data.entry_seq()[i].path@,
                data.entry_seq()[i].data@,
                *opt,
            )) && (opt.format == Format::Zip ==> data.paths_distinct() && (forall|i: int|
            0 <= i < data.entry_seq().len() ==> data.entry_seq()[i].path@.len()
                <= crate::archive::ZIP_NAME_MAX && crate::minify::entry_minified_data(
                data.entry_seq()[i].path@,
                data.entry_seq()[i].data@,
                *opt,
            ).len() <= crate::archive::ZIP_DATA_MAX))) ==> r is Ok,
{
    let minified = crate::minify::minify(data, opt)?;
    proof {
        if data.paths_distinct() {
            assert forall|i: int, j: int|
                0 <= i < j < minified.entry_seq().len() implies minified.entry_seq()[i].path@
                != minified.entry_seq()[j].path@ by {
                assert(minified.paths_view()[i] == minified.entry_seq()[i].path@);
                assert(minified.paths_view()[j] == minified.entry_seq()[j].path@);
                assert(data.paths_view()[i] == data.entry_seq()[i].path@);
                assert(data.paths_view()[j] == data.entry_seq()[j].path@);
            }
            assert(minified.paths_distinct());
        }
        assert forall|i: int| 0 <= i < minified.entry_seq().len() implies minified.entry_seq()[
            i
        ].path@ == data.entry_seq()[i].path@ && minified.entry_seq()[i].data@
            == crate::minify::entry_minified_data(
            data.entry_seq()[i].path@,
            data.entry_seq()[i].data@,
            *opt,
        ) by {
            assert(minified.paths_view()[i] == minified.entry_seq()[i].path@);
            assert(data.paths_view()[i] == data.entry_seq()[i].path@);
            crate::minify::lemma_minify_ok_is_functional(
                data.entry_seq()[i].path@,
                data.entry_seq()[i].data@,
                minified.entry_seq()[i].data@,
                *opt,
            );
        }
        if forall|i: int|
            0 <= i < data.entry_seq().len() ==> data.entry_seq()[i].path@.len()
                <= crate::archive::ZIP_NAME_MAX && crate::minify::entry_minified_data(
                data.entry_seq()[i].path@,
                data.entry_seq()[i].data@,
                *opt,
            ).len() <= crate::archive::ZIP_DATA_MAX {
            assert(crate::archive::zip_sizes_ok(minified));
        }
    }
    let out = crate::archive::archive(&minified, opt)?;
    proof {
        assert(crate::minify::minify_rel(*data, minified, *opt) && (opt.format == Format::Zstd
            ==> out.1@ == crate::archive::tzst_bytes_of(minified)) && (opt.format == Format::Zip
            ==> crate::archive::zip_parse(out.1@) == Some(
            minified.files_view().map(|i: int, p: (Seq<u8>, Seq<u8>)| (p.0, true, Some(p.1))),
        )));
    }
    Ok(out)
}

} // verus!
