//! Safe, format-detecting archive extraction.
//!
//! The crate models archive-internal paths (`RelPath`), selects a codec
//! adapter for an archive by filename pattern or content sniffing
//! (`Decompress`), and plans the extraction of each entry with
//! path-traversal protection, component stripping, and filter/map hooks.

use vstd::prelude::*;

pub mod codecs;
pub mod engine;
pub mod entry;
pub mod hooks;
pub mod laws;
pub mod map_args;
pub mod registry;
pub mod rel_path;
pub mod strutil;
pub mod tar_common;

pub use codecs::Pattern;
pub use engine::extract_entries;
pub use entry::{Action, ArchiveEntry, EntryKind, ExtractOpts, ExtractOptsBuilder};
pub use hooks::{AppendMapHooks, DefaultHooks, EntryHooks, SuffixFilterHooks};
pub use map_args::MapArgs;
pub use registry::{Adapter, Decompress, Decompression, Format, Listing};
pub use rel_path::{RelPath, RelPathKind};

verus! {

/// The errors an extraction or listing can end with.
#[derive(Debug, PartialEq, Eq)]
pub enum DecompressError {
    /// No registered adapter matched the archive.
    MissingCompressor,
    /// An archive-internal path had a root, drive, `.` or `..` component.
    PathNotRelative(String),
    /// An archive-internal path was not valid text.
    PathNotUtf8(String),
    /// The underlying codec failed to decode the byte stream.
    Codec(String),
    /// A filesystem operation failed.
    Io(String),
    /// The archive held an entry of a kind extraction refuses.
    UnsupportedEntryType(String),
}

} // verus!
