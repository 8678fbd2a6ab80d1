//! The filter/map hooks an extraction runs under. A hook type carries a
//! specification of its own decisions, so the engine's contract can say
//! exactly which entries survive and where each one is written.

use vstd::prelude::*;

use crate::map_args::{MapArgs, MapArgsV};
use crate::strutil::seq_ends_with;

verus! {

/// User-supplied policy consulted once per entry: `filter` decides
/// whether a directory or file entry is extracted at all, `map` decides
/// the final output path of a surviving entry.
pub trait EntryHooks {
    /// What `filter` returns, as a function of the descriptor.
    spec fn keep(&self, d: MapArgsV) -> bool;

    /// What `map` returns, as a function of the descriptor.
    spec fn rename(&self, d: MapArgsV) -> Seq<char>;

    /// Keep or drop one entry; `false` skips it with no side effects.
    fn filter(&self, d: &MapArgs<'_>) -> (r: bool)
        ensures
            r == self.keep(d@),
    ;

    /// The final output path for one surviving entry.
    fn map(&self, d: &MapArgs<'_>) -> (r: String)
        ensures
            r@ == self.rename(d@),
    ;
}

/// The default policy: keep every entry, write it where the engine
/// computed.
pub struct DefaultHooks;

impl EntryHooks for DefaultHooks {
    open spec fn keep(&self, d: MapArgsV) -> bool {
        true
    }

    open spec fn rename(&self, d: MapArgsV) -> Seq<char> {
        d.path
    }

    fn filter(&self, d: &MapArgs<'_>) -> (r: bool) {
        true
    }

    fn map(&self, d: &MapArgs<'_>) -> (r: String) {
        d.path().to_owned()
    }
}

/// Keep only the entries whose computed output path ends with the given
/// suffix; leave paths unchanged.
pub struct SuffixFilterHooks {
    pub suffix: String,
}

impl EntryHooks for SuffixFilterHooks {
    open spec fn keep(&self, d: MapArgsV) -> bool {
        seq_ends_with(d.path, self.suffix@)
    }

    open spec fn rename(&self, d: MapArgsV) -> Seq<char> {
        d.path
    }

    fn filter(&self, d: &MapArgs<'_>) -> (r: bool) {
        crate::strutil::str_ends_with(d.path(), self.suffix.as_str())
    }

    fn map(&self, d: &MapArgs<'_>) -> (r: String) {
        d.path().to_owned()
    }
}

/// Keep every entry but append a fixed suffix to each output path.
pub struct AppendMapHooks {
    pub suffix: String,
}

impl EntryHooks for AppendMapHooks {
    open spec fn keep(&self, d: MapArgsV) -> bool {
        true
    }

    open spec fn rename(&self, d: MapArgsV) -> Seq<char> {
        d.path + self.suffix@
    }

    fn filter(&self, d: &MapArgs<'_>) -> (r: bool) {
        true
    }

    fn map(&self, d: &MapArgs<'_>) -> (r: String) {
        d.path().to_owned().concat(self.suffix.as_str())
    }
}

} // verus!
