//! The trusted boundary to the outside crates: pattern matching
//! (`regex`), tar container decoding (`tar`), gzip stream decoding
//! (`flate2`) and output-directory absolutization (`path-absolutize`).
//! Everything here is believed, not proved; each item names the outside
//! function it relies on.

use vstd::prelude::*;

use crate::entry::{ArchiveEntry, ArchiveEntryV, EntryKind};
use crate::strutil::{abs_path, clean_abs_path};

verus! {

#[verifier::external_type_specification]
#[verifier::external_body]
pub struct ExRegex(regex::Regex);

/// Whether the regular expression whose source is `pattern` matches
/// `text`: a function of the two strings alone.
pub uninterp spec fn re_match(pattern: Seq<char>, text: Seq<char>) -> bool;

/// A compiled filename pattern, kept together with its source text; its
/// view is the source. `new` is the only constructor, so the compiled
/// regex always belongs to the stored source.
#[derive(Debug)]
pub struct Pattern {
    re: regex::Regex,
    src: String,
}

impl View for Pattern {
    type V = Seq<char>;

    closed spec fn view(&self) -> Seq<char> {
        self.src@
    }
}

impl Pattern {
    /// Relies on regex::Regex::new: compiling succeeds or fails on the
    /// source alone, and the compiled regex is the one for that source.
    #[verifier::external_body]
    pub fn new(src: &str) -> (r: Option<Pattern>)
        ensures
            r matches Some(p) ==> p@ == src@,
    {
        match regex::Regex::new(src) {
            Ok(re) => Some(Pattern { re, src: src.to_owned() }),
            Err(_) => None,
        }
    }

    /// Relies on regex::Regex::is_match: whether a compiled regex
    /// matches depends on its source pattern and the text alone.
    #[verifier::external_body]
    pub fn is_match(&self, text: &str) -> (r: bool)
        ensures
            r == re_match(self@, text@),
    {
        self.re.is_match(text)
    }
}

/// The entry sequence a tar byte stream decodes to, or nothing when the
/// stream is malformed; decoding is a function of the bytes alone.
pub uninterp spec fn tar_entries_of(data: Seq<u8>) -> Option<Seq<ArchiveEntryV>>;

#[verifier::external_type_specification]
#[verifier::external_body]
pub struct ExTarEntryType(tar::EntryType);

#[verifier::external_type_specification]
#[verifier::external_body]
pub struct ExIoError(std::io::Error);

/// How decoding a tar stream fails: an entry name that is not text
/// (reported in lossy form), or a malformed stream.
#[derive(Debug)]
pub enum TarDecodeError {
    PathNotText(String),
    Stream(std::io::Error),
}

/// Relies on std::str::from_utf8: an entry name that is not valid text
/// is refused, handed back in lossy form for the error report.
#[verifier::external_body]
fn utf8_name(b: &[u8]) -> Result<String, TarDecodeError> {
    match std::str::from_utf8(b) {
        Ok(s) => Ok(s.to_owned()),
        Err(_) => Err(TarDecodeError::PathNotText(String::from_utf8_lossy(b).into_owned())),
    }
}

/// Relies on tar::EntryType: tells the tags the tar crate reports
/// apart, one arm each, onto the library's entry kinds.
#[verifier::external_body]
fn entry_kind_of(t: tar::EntryType) -> EntryKind {
    match t {
        tar::EntryType::Directory => EntryKind::Directory,
        tar::EntryType::Regular => EntryKind::Regular,
        tar::EntryType::Symlink => EntryKind::Symlink,
        _ => EntryKind::Other,
    }
}

/// Relies on std::io::Error's Display impl for the codec error text.
#[verifier::external_body]
pub(crate) fn io_error_message(e: &std::io::Error) -> String {
    e.to_string()
}

/// Relies on tar::Archive and tar::Entry (entries, path_bytes, header,
/// mode, link_name_bytes, the Read impl) to decode an in-memory tar
/// stream into its entries, in archive order. A non-text entry name
/// fails the decode rather than being silently mangled.
#[verifier::external_body]
pub(crate) fn tar_decode(data: &Vec<u8>) -> (r: Result<Vec<ArchiveEntry>, TarDecodeError>)
    ensures
        r matches Ok(es) ==> tar_entries_of(data@) == Some(es.deep_view()),
        r is Err ==> tar_entries_of(data@) is None,
{
    let mut archive = tar::Archive::new(data.as_slice());
    let mut out = Vec::new();
    for next in archive.entries().map_err(TarDecodeError::Stream)? {
        let mut ent = next.map_err(TarDecodeError::Stream)?;
        let path = utf8_name(&ent.path_bytes())?;
        let kind = entry_kind_of(ent.header().entry_type());
        let mode = ent.header().mode().ok();
        let link = String::from_utf8_lossy(&ent.link_name_bytes().unwrap_or_default()).into_owned();
        let mut body = Vec::new();
        std::io::Read::read_to_end(&mut ent, &mut body).map_err(TarDecodeError::Stream)?;
        out.push(ArchiveEntry { path, kind, mode, link, data: body });
    }
    Ok(out)
}

/// The byte stream a gzip stream decodes to, or nothing when it is
/// malformed; decoding is a function of the bytes alone.
pub uninterp spec fn gunzip_of(data: Seq<u8>) -> Option<Seq<u8>>;

/// Relies on flate2::read::GzDecoder to decode a gzip stream held in
/// memory.
#[verifier::external_body]
pub(crate) fn gunzip(data: &Vec<u8>) -> (r: Result<Vec<u8>, String>)
    ensures
        r matches Ok(o) ==> gunzip_of(data@) == Some(o@),
        r is Err ==> gunzip_of(data@) is None,
{
    let mut decoder = flate2::read::GzDecoder::new(data.as_slice());
    let mut out: Vec<u8> = Vec::new();
    match std::io::Read::read_to_end(&mut decoder, &mut out) {
        Ok(_) => Ok(out),
        Err(e) => Err(e.to_string()),
    }
}

/// Relies on path_absolutize::Absolutize::absolutize: on this platform
/// every successfully absolutized path is rooted at `/` (a relative
/// input is resolved against the current directory, which is itself
/// rooted, and only reading that directory can fail). An input already
/// in canonical absolute form reads no environment and comes back
/// unchanged.
#[verifier::external_body]
pub(crate) fn absolutize_path(p: &str) -> (r: Result<String, String>)
    ensures
        r matches Ok(a) ==> abs_path(a@) && (clean_abs_path(p@) ==> a@ == p@),
        r is Err ==> !clean_abs_path(p@),
{
    match path_absolutize::Absolutize::absolutize(std::path::Path::new(p)) {
        Ok(a) => Ok(a.to_string_lossy().into_owned()),
        Err(e) => Err(e.to_string()),
    }
}

} // verus!
