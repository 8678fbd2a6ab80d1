//! The shared tar walk: listing the raw entry names of a tar stream,
//! and planning its extraction. Every tar-like adapter (plain tar and
//! each compressed tar layering) goes through these two functions.

use vstd::prelude::*;

use crate::codecs::{io_error_message, tar_decode, tar_entries_of, TarDecodeError};
use crate::engine::{extract_entries, files_of, plan_err_matches, plan_spec, written_files,
    PlanErrV};
use crate::entry::{Action, ActionV, ArchiveEntryV, ExtractOpts};
use crate::hooks::EntryHooks;
use crate::strutil::abs_path;
use crate::DecompressError;

verus! {

/// The raw in-archive path of every entry, in archive order.
pub open spec fn entry_names(es: Seq<ArchiveEntryV>) -> Seq<Seq<char>> {
    Seq::new(es.len(), |i: int| es[i].path)
}

/// How a tar decode failure surfaces: a non-text entry name is the
/// path-encoding error, everything else a codec error.
pub fn tar_error(e: TarDecodeError) -> (r: DecompressError)
    ensures
        r matches DecompressError::PathNotUtf8(_) || r matches DecompressError::Codec(_),
{
    match e {
        TarDecodeError::PathNotText(s) => DecompressError::PathNotUtf8(s),
        TarDecodeError::Stream(err) => DecompressError::Codec(io_error_message(&err)),
    }
}

/// List the raw entry names of a tar byte stream, with no filesystem
/// effect; stripping, filtering and mapping do not apply to a listing.
pub fn tar_list(data: &Vec<u8>) -> (r: Result<Vec<String>, DecompressError>)
    ensures
        r is Ok <==> tar_entries_of(data@) is Some,
        r matches Ok(names) ==> (tar_entries_of(data@) matches Some(es) && names.deep_view()
            == entry_names(es)),
        r matches Err(e) ==> (e matches DecompressError::Codec(_) || e
            matches DecompressError::PathNotUtf8(_)),
{
    match tar_decode(data) {
        Err(e) => Err(tar_error(e)),
        Ok(entries) => {
            let ghost es = entries.deep_view();
            let mut names: Vec<String> = Vec::new();
            let mut i: usize = 0;
            while i < entries.len()
                invariant
                    i <= entries.len(),
                    es == entries.deep_view(),
                    names.deep_view() == entry_names(es).subrange(0, i as int),
                decreases entries.len() - i,
            {
                let ghost pre = names.deep_view();
                names.push(entries[i].path.clone());
                i += 1;
                proof {
                    assert(names.deep_view() =~= pre.push(es[i - 1].path));
                    assert(entry_names(es).subrange(0, i as int) =~= pre.push(es[i - 1].path));
                }
            }
            proof {
                assert(entry_names(es).subrange(0, entries.len() as int) =~= entry_names(es));
            }
            Ok(names)
        },
    }
}

/// Plan the extraction of a tar byte stream into the absolutized output
/// directory `to_abs`, under the given options and hooks. Returns the
/// planned writes in archive order; nothing is written here.
pub fn tar_extract<H: EntryHooks>(
    data: &Vec<u8>,
    to_abs: &str,
    opts: &ExtractOpts,
    hooks: &H,
) -> (r: Result<Vec<Action>, DecompressError>)
    requires
        abs_path(to_abs@),
    ensures
        tar_entries_of(data@) is None ==> (r matches Err(e) && (e
            matches DecompressError::Codec(_) || e matches DecompressError::PathNotUtf8(_))),
        r matches Ok(acts) ==> (tar_entries_of(data@) matches Some(es) && plan_spec(
            hooks,
            es,
            opts.strip as int,
            to_abs@,
        ) == Ok::<Seq<ActionV>, PlanErrV>(acts.deep_view())),
        r is Err && tar_entries_of(data@) is Some ==> (r matches Err(e) && tar_entries_of(data@)
            matches Some(es) && plan_spec(hooks, es, opts.strip as int, to_abs@) matches Err(v)
            && plan_err_matches(e, v)),
{
    match tar_decode(data) {
        Err(e) => Err(tar_error(e)),
        Ok(entries) => extract_entries(hooks, entries, to_abs, opts.strip),
    }
}

/// The written-file list of a plan, as an extraction reports it.
pub fn plan_files(acts: &Vec<Action>) -> (r: Vec<String>)
    ensures
        r.deep_view() == written_files(acts.deep_view()),
{
    files_of(acts)
}

} // verus!
