//! Decoded archive entries and the write actions extraction plans for
//! them. A codec turns an archive's bytes into a sequence of
//! `ArchiveEntry` values; the engine turns those into `Action` values
//! that an unverified shell performs on the filesystem.

use vstd::prelude::*;

verus! {

/// The kind an archive declares for an entry. Anything beyond
/// directories, regular files and symlinks (device nodes, hard links,
/// sparse markers) is `Other` and refused by extraction.
#[derive(Clone, Copy, Debug, PartialEq, Eq, Structural)]
pub enum EntryKind {
    Directory,
    Regular,
    Symlink,
    Other,
}

/// The mathematical content of one decoded entry.
#[verifier::ext_equal]
pub struct ArchiveEntryV {
    pub path: Seq<char>,
    pub kind: EntryKind,
    pub mode: Option<u32>,
    pub link: Seq<char>,
    pub data: Seq<u8>,
}

/// One decoded archive entry: its raw in-archive path, declared kind,
/// permission mode (when the archive carries one), symlink target (when
/// it is a symlink), and body bytes (when it is a regular file).
#[derive(Debug)]
pub struct ArchiveEntry {
    pub path: String,
    pub kind: EntryKind,
    pub mode: Option<u32>,
    pub link: String,
    pub data: Vec<u8>,
}

impl DeepView for ArchiveEntry {
    type V = ArchiveEntryV;

    open spec fn deep_view(&self) -> ArchiveEntryV {
        ArchiveEntryV {
            path: self.path@,
            kind: self.kind,
            mode: self.mode,
            link: self.link@,
            data: self.data@,
        }
    }
}

/// The mathematical content of one write action.
#[verifier::ext_equal]
pub enum ActionV {
    WriteFile { path: Seq<char>, mode: Option<u32>, data: Seq<u8> },
    WriteSymlink { path: Seq<char>, target: Seq<char> },
}

impl ActionV {
    /// The absolute output path the action writes to.
    pub open spec fn path(self) -> Seq<char> {
        match self {
            ActionV::WriteFile { path, .. } => path,
            ActionV::WriteSymlink { path, .. } => path,
        }
    }
}

/// One planned filesystem write: a regular file with its bytes and
/// normalized mode, or a symlink with its verbatim target.
#[derive(Debug)]
pub enum Action {
    WriteFile { path: String, mode: Option<u32>, data: Vec<u8> },
    WriteSymlink { path: String, target: String },
}

impl DeepView for Action {
    type V = ActionV;

    open spec fn deep_view(&self) -> ActionV {
        match self {
            Action::WriteFile { path, mode, data } => ActionV::WriteFile {
                path: path@,
                mode: *mode,
                data: data@,
            },
            Action::WriteSymlink { path, target } => ActionV::WriteSymlink {
                path: path@,
                target: target@,
            },
        }
    }
}

/// How an archive's permission bits are normalized before they are
/// applied: anything executable becomes `rwxr-xr-x`, everything else
/// `rw-r--r--`, so extracted files are never unreadable or unlistable.
pub open spec fn normalized_mode(m: u32) -> u32 {
    if m & 0o111 != 0 {
        0o755
    } else {
        0o644
    }
}

pub fn normalize_mode(m: u32) -> (r: u32)
    ensures
        r == normalized_mode(m),
{
    if m & 0o111 != 0 {
        0o755
    } else {
        0o644
    }
}

/// The options one extraction call runs under; immutable once built.
#[derive(Clone, Copy, Debug)]
pub struct ExtractOpts {
    /// How many leading path segments to discard from every entry.
    pub strip: usize,
    /// Prefer content sniffing over filename-extension matching.
    pub detect_content: bool,
}

/// Builds `ExtractOpts`; every field has a default.
#[derive(Debug)]
pub struct ExtractOptsBuilder {
    pub strip: usize,
    pub detect_content: bool,
}

impl Default for ExtractOptsBuilder {
    fn default() -> (r: Self)
        ensures
            r.strip == 0,
            !r.detect_content,
    {
        ExtractOptsBuilder { strip: 0, detect_content: false }
    }
}

impl ExtractOptsBuilder {
    pub fn strip(self, strip: usize) -> (r: Self)
        ensures
            r.strip == strip,
            r.detect_content == self.detect_content,
    {
        ExtractOptsBuilder { strip, detect_content: self.detect_content }
    }

    pub fn detect_content(self, detect_content: bool) -> (r: Self)
        ensures
            r.detect_content == detect_content,
            r.strip == self.strip,
    {
        ExtractOptsBuilder { strip: self.strip, detect_content }
    }

    pub fn build(self) -> (r: Result<ExtractOpts, crate::DecompressError>)
        ensures
            r matches Ok(o) && o.strip == self.strip && o.detect_content == self.detect_content,
    {
        Ok(ExtractOpts { strip: self.strip, detect_content: self.detect_content })
    }
}

} // verus!
