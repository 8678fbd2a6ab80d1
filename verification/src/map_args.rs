//! The entry descriptor handed to the filter and map hooks: the entry's
//! validated relative path, its computed absolute output path, and the
//! absolutized output root.

use vstd::prelude::*;

use crate::rel_path::{RelPath, RelPathV};
use crate::strutil::abs_path;

verus! {

/// The mathematical content of a descriptor.
pub struct MapArgsV {
    pub rel: RelPathV,
    pub path: Seq<char>,
    pub output_dir: Seq<char>,
}

/// Both paths of a descriptor are always absolute.
pub open spec fn desc_abs(d: MapArgsV) -> bool {
    abs_path(d.path) && abs_path(d.output_dir)
}

/// One archive entry as the hooks see it. The output path and output
/// root are always absolute; the relative path is always relative.
pub struct MapArgs<'a> {
    rel_path: &'a RelPath,
    path: &'a str,
    output_dir: &'a str,
}

impl View for MapArgs<'_> {
    type V = MapArgsV;

    closed spec fn view(&self) -> MapArgsV {
        MapArgsV { rel: self.rel_path@, path: self.path@, output_dir: self.output_dir@ }
    }
}

impl<'a> MapArgs<'a> {
    #[verifier::type_invariant]
    closed spec fn wf(self) -> bool {
        desc_abs(self@)
    }

    /// The entry's validated archive-internal path.
    pub fn rel_path(&self) -> (r: &RelPath)
        ensures
            r@ == self@.rel,
    {
        self.rel_path
    }

    /// The absolute path the entry is headed for.
    pub fn path(&self) -> (r: &str)
        ensures
            r@ == self@.path,
            abs_path(r@),
    {
        proof {
            use_type_invariant(self);
        }
        self.path
    }

    /// The absolutized output root directory.
    pub fn output_dir(&self) -> (r: &str)
        ensures
            r@ == self@.output_dir,
            abs_path(r@),
    {
        proof {
            use_type_invariant(self);
        }
        self.output_dir
    }

    /// Build a descriptor; both paths must already be absolute.
    pub fn new(rel_path: &'a RelPath, path: &'a str, output_dir: &'a str) -> (r: Self)
        requires
            abs_path(path@),
            abs_path(output_dir@),
        ensures
            r@.rel == rel_path@,
            r@.path == path@,
            r@.output_dir == output_dir@,
    {
        MapArgs { rel_path, path, output_dir }
    }
}

} // verus!
