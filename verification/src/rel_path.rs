//! The archive-internal path model: a validated relative path, classified
//! as file or directory and decomposed into safe segments. Joining the
//! segments onto a base directory is the only sanctioned way to turn an
//! archive path into an output path.

use vstd::prelude::*;

use crate::strutil::{
    is_sep, is_special_seg, join_parts_from, join_path, join_value, joined_segs, path_ok,
    segments_of, sep_char, split_segments, str_has_char, str_is_special,
};
use crate::DecompressError;

verus! {

/// What an archive entry's path names: a file or a directory.
#[derive(Clone, Copy, Debug, PartialEq, Eq, Structural)]
pub enum RelPathKind {
    File,
    Directory,
}

/// The kind a bare path string suggests: a trailing separator (of either
/// kind) marks a directory.
pub open spec fn guessed_kind_spec(s: Seq<char>) -> RelPathKind {
    if s.len() > 0 && is_sep(s.last()) {
        RelPathKind::Directory
    } else {
        RelPathKind::File
    }
}

/// The mathematical content of a `RelPath`: its kind and its segments.
pub struct RelPathV {
    pub kind: RelPathKind,
    pub parts: Seq<Seq<char>>,
}

/// A validated archive-internal path. Constructing one fails on a rooted
/// or drive-marked path and on any `.` or `..` segment; the segment
/// sequence is the sole source of truth for reconstructing an output
/// path.
#[derive(Debug)]
pub struct RelPath {
    kind: RelPathKind,
    parts: Vec<String>,
    value: String,
}

impl View for RelPath {
    type V = RelPathV;

    closed spec fn view(&self) -> RelPathV {
        RelPathV { kind: self.kind, parts: self.parts.deep_view() }
    }
}

impl RelPath {
    /// The canonical string form is always the `/`-joined segments.
    #[verifier::type_invariant]
    closed spec fn wf(self) -> bool {
        self.value@ == joined_segs(self.parts.deep_view())
    }

    /// Classify by the path string itself (a trailing separator means a
    /// directory), then validate.
    pub fn new_guess_kind(path: &str) -> (r: Result<Self, DecompressError>)
        ensures
            r is Ok <==> path_ok(path@),
            r matches Ok(rp) ==> rp@.kind == guessed_kind_spec(path@) && rp@.parts == segments_of(
                path@,
            ),
            r matches Err(e) ==> (e matches DecompressError::PathNotRelative(p) && p@ == path@),
    {
        let kind = Self::guess_kind(path);
        Self::new(kind, path)
    }

    /// Validate a path that is known to name a directory.
    pub fn new_directory(path: &str) -> (r: Result<Self, DecompressError>)
        ensures
            r is Ok <==> path_ok(path@),
            r matches Ok(rp) ==> rp@.kind == RelPathKind::Directory && rp@.parts == segments_of(
                path@,
            ),
            r matches Err(e) ==> (e matches DecompressError::PathNotRelative(p) && p@ == path@),
    {
        Self::new(RelPathKind::Directory, path)
    }

    /// Validate a path that is known to name a regular file.
    pub fn new_file(path: &str) -> (r: Result<Self, DecompressError>)
        ensures
            r is Ok <==> path_ok(path@),
            r matches Ok(rp) ==> rp@.kind == RelPathKind::File && rp@.parts == segments_of(path@),
            r matches Err(e) ==> (e matches DecompressError::PathNotRelative(p) && p@ == path@),
    {
        Self::new(RelPathKind::File, path)
    }

    /// The canonical forward-slash-joined representation.
    pub fn as_str(&self) -> (r: &str)
        ensures
            r@ == joined_segs(self@.parts),
    {
        proof {
            use_type_invariant(self);
        }
        self.value.as_str()
    }

    pub fn kind(&self) -> (r: RelPathKind)
        ensures
            r == self@.kind,
    {
        self.kind
    }

    pub fn is_directory(&self) -> (r: bool)
        ensures
            r == (self@.kind == RelPathKind::Directory),
    {
        self.kind == RelPathKind::Directory
    }

    pub fn is_file(&self) -> (r: bool)
        ensures
            r == (self@.kind == RelPathKind::File),
    {
        self.kind == RelPathKind::File
    }

    /// The path's segments, in order.
    pub fn parts(&self) -> (r: &Vec<String>)
        ensures
            r.deep_view() == self@.parts,
    {
        &self.parts
    }

    /// Append the segments to a base directory. This is the only
    /// sanctioned way to turn an archive path into an output path.
    pub fn join_onto(&self, base: &str) -> (r: String)
        ensures
            r@ == join_path(base@, self@.parts),
    {
        let r = join_parts_from(base, &self.parts, 0);
        proof {
            assert(self.parts.deep_view().skip(0) =~= self@.parts);
        }
        r
    }

    /// Validate and decompose a path of the given kind.
    pub fn new(kind: RelPathKind, path: &str) -> (r: Result<Self, DecompressError>)
        ensures
            r is Ok <==> path_ok(path@),
            r matches Ok(rp) ==> rp@.kind == kind && rp@.parts == segments_of(path@),
            r matches Err(e) ==> (e matches DecompressError::PathNotRelative(p) && p@ == path@),
    {
        let n = path.unicode_len();
        if n > 0 && sep_char(path.get_char(0)) {
            return Err(DecompressError::PathNotRelative(path.to_owned()));
        }
        let parts = split_segments(path);
        let ghost segs = segments_of(path@);
        let mut idx: usize = 0;
        while idx < parts.len()
            invariant
                idx <= parts.len(),
                segs == segments_of(path@),
                parts.deep_view() == segs,
                forall|i: int| 0 <= i < idx ==> !is_special_seg(#[trigger] segs[i]),
            decreases parts.len() - idx,
        {
            proof {
                assert(parts.deep_view()[idx as int] == parts@[idx as int]@);
            }
            if str_is_special(parts[idx].as_str()) {
                proof {
                    assert(is_special_seg(segments_of(path@)[idx as int]));
                }
                return Err(DecompressError::PathNotRelative(path.to_owned()));
            }
            idx += 1;
        }
        if parts.len() > 0 {
            proof {
                assert(parts.deep_view()[0] == parts@[0]@);
            }
            if str_has_char(parts[0].as_str(), ':') {
                return Err(DecompressError::PathNotRelative(path.to_owned()));
            }
        }
        let value = join_value(&parts);
        Ok(RelPath { kind, parts, value })
    }

    /// A trailing separator (either kind) marks a directory.
    pub fn guess_kind(path: &str) -> (r: RelPathKind)
        ensures
            r == guessed_kind_spec(path@),
    {
        let n = path.unicode_len();
        if n > 0 && sep_char(path.get_char(n - 1)) {
            RelPathKind::Directory
        } else {
            RelPathKind::File
        }
    }

    /// The validated segments of a path string, without building a
    /// `RelPath`.
    pub fn get_parts(path: &str) -> (r: Result<Vec<String>, DecompressError>)
        ensures
            r is Ok <==> path_ok(path@),
            r matches Ok(parts) ==> parts.deep_view() == segments_of(path@),
            r matches Err(e) ==> (e matches DecompressError::PathNotRelative(p) && p@ == path@),
    {
        match Self::new(RelPathKind::File, path) {
            Ok(rp) => Ok(rp.parts),
            Err(e) => Err(e),
        }
    }
}

} // verus!
