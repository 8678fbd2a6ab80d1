//! The decompressor registry: an ordered list of codec adapters, each
//! with a format identifier and a detection rule. Selection walks the
//! list in registration order — by filename pattern, or by a
//! content-sniffed MIME signature when asked — and delegates to the
//! first adapter that matches.

use vstd::prelude::*;

use crate::codecs::{absolutize_path, gunzip, gunzip_of, re_match, tar_decode, tar_entries_of,
    Pattern};
use crate::engine::{extract_entries, lemma_plan_err_root_free, plan_check, plan_ok, plan_spec,
    written_files, PlanErrV};
use crate::entry::{Action, ActionV, ArchiveEntry, ArchiveEntryV, EntryKind, ExtractOpts};
use crate::hooks::EntryHooks;
use crate::strutil::{abs_path, clean_abs_path, ends_with_ci, last_char_index, last_sep_index,
    rfind_char, rfind_sep, seq_ends_with, str_ends_with_ci, str_eq};
use crate::tar_common::{entry_names, plan_files, tar_error, tar_list};
use crate::DecompressError;

verus! {

/// The fixed vocabulary of formats the registry knows.
#[derive(Clone, Copy, Debug, PartialEq, Eq, Structural)]
pub enum Format {
    Tarball,
    Targz,
    Tarxz,
    Tarzst,
    Tarbz,
    Zip,
    Ar,
    Gz,
    Bz2,
    Xz,
    Zst,
    Rar,
}

pub open spec fn format_id(f: Format) -> Seq<char> {
    match f {
        Format::Tarball => "tarball"@,
        Format::Targz => "targz"@,
        Format::Tarxz => "tarxz"@,
        Format::Tarzst => "tarzst"@,
        Format::Tarbz => "tarbz"@,
        Format::Zip => "zip"@,
        Format::Ar => "ar"@,
        Format::Gz => "gz"@,
        Format::Bz2 => "bz2"@,
        Format::Xz => "xz"@,
        Format::Zst => "zst"@,
        Format::Rar => "rar"@,
    }
}

impl Format {
    /// The identifier reported in results.
    pub fn id(&self) -> (r: &'static str)
        ensures
            r@ == format_id(*self),
    {
        match self {
            Format::Tarball => "tarball",
            Format::Targz => "targz",
            Format::Tarxz => "tarxz",
            Format::Tarzst => "tarzst",
            Format::Tarbz => "tarbz",
            Format::Zip => "zip",
            Format::Ar => "ar",
            Format::Gz => "gz",
            Format::Bz2 => "bz2",
            Format::Xz => "xz",
            Format::Zst => "zst",
            Format::Rar => "rar",
        }
    }
}

/// The default, case-insensitive filename rule of each format.
pub open spec fn default_ext_match(f: Format, name: Seq<char>) -> bool {
    match f {
        Format::Tarball => ends_with_ci(name, ".tar"@),
        Format::Targz => ends_with_ci(name, ".tar.gz"@) || ends_with_ci(name, ".tgz"@),
        Format::Tarxz => ends_with_ci(name, ".tar.xz"@) || ends_with_ci(name, ".txz"@),
        Format::Tarzst => ends_with_ci(name, ".tar.zst"@) || ends_with_ci(name, ".tzst"@),
        Format::Tarbz => ends_with_ci(name, ".tar.bz2"@) || ends_with_ci(name, ".tbz2"@)
            || ends_with_ci(name, ".tbz"@),
        Format::Zip => ends_with_ci(name, ".zip"@),
        Format::Ar => ends_with_ci(name, ".ar"@),
        Format::Gz => ends_with_ci(name, ".gz"@),
        Format::Bz2 => ends_with_ci(name, ".bz2"@),
        Format::Xz => ends_with_ci(name, ".xz"@),
        Format::Zst => ends_with_ci(name, ".zst"@),
        Format::Rar => ends_with_ci(name, ".rar"@),
    }
}

/// The fixed MIME rule of each format. The tar-over-zstd layering has
/// no MIME signature of its own, so a zstd-sniffed stream selects the
/// bare codec.
pub open spec fn mime_match(f: Format, mime: Seq<char>) -> bool {
    match f {
        Format::Tarball => mime == "application/x-tar"@,
        Format::Targz => mime == "application/gzip"@,
        Format::Tarxz => mime == "application/x-xz"@,
        Format::Tarzst => false,
        Format::Tarbz => mime == "application/x-bzip2"@,
        Format::Zip => mime == "application/zip"@,
        Format::Ar => mime == "application/x-unix-archive"@,
        Format::Gz => mime == "application/gzip"@,
        Format::Bz2 => mime == "application/x-bzip2"@,
        Format::Xz => mime == "application/x-xz"@,
        Format::Zst => mime == "application/zstd"@,
        Format::Rar => mime == "application/vnd.rar"@,
    }
}

/// The MIME type the magic bytes of the probe name, when they name one.
pub open spec fn sniffed_mime(data: Seq<u8>) -> Option<Seq<char>> {
    if data.len() >= 2 && data[0] == 0x1f && data[1] == 0x8b {
        Some("application/gzip"@)
    } else if data.len() >= 3 && data[0] == 0x42 && data[1] == 0x5a && data[2] == 0x68 {
        Some("application/x-bzip2"@)
    } else if data.len() >= 6 && data[0] == 0xfd && data[1] == 0x37 && data[2] == 0x7a && data[3]
        == 0x58 && data[4] == 0x5a && data[5] == 0x00 {
        Some("application/x-xz"@)
    } else if data.len() >= 4 && data[0] == 0x28 && data[1] == 0xb5 && data[2] == 0x2f && data[3]
        == 0xfd {
        Some("application/zstd"@)
    } else if data.len() >= 4 && data[0] == 0x50 && data[1] == 0x4b && data[2] == 0x03 && data[3]
        == 0x04 {
        Some("application/zip"@)
    } else if data.len() >= 6 && data[0] == 0x52 && data[1] == 0x61 && data[2] == 0x72 && data[3]
        == 0x21 && data[4] == 0x1a && data[5] == 0x07 {
        Some("application/vnd.rar"@)
    } else if data.len() >= 7 && data[0] == 0x21 && data[1] == 0x3c && data[2] == 0x61 && data[3]
        == 0x72 && data[4] == 0x63 && data[5] == 0x68 && data[6] == 0x3e {
        Some("application/x-unix-archive"@)
    } else if data.len() >= 262 && data[257] == 0x75 && data[258] == 0x73 && data[259] == 0x74
        && data[260] == 0x61 && data[261] == 0x72 {
        Some("application/x-tar"@)
    } else {
        None
    }
}

/// Probe the first bytes for a known magic signature.
pub fn sniff(data: &Vec<u8>) -> (r: Option<&'static str>)
    ensures
        r matches Some(m) ==> sniffed_mime(data@) == Some(m@),
        r is None ==> sniffed_mime(data@) is None,
{
    if data.len() >= 2 && data[0] == 0x1f && data[1] == 0x8b {
        Some("application/gzip")
    } else if data.len() >= 3 && data[0] == 0x42 && data[1] == 0x5a && data[2] == 0x68 {
        Some("application/x-bzip2")
    } else if data.len() >= 6 && data[0] == 0xfd && data[1] == 0x37 && data[2] == 0x7a && data[3]
        == 0x58 && data[4] == 0x5a && data[5] == 0x00 {
        Some("application/x-xz")
    } else if data.len() >= 4 && data[0] == 0x28 && data[1] == 0xb5 && data[2] == 0x2f && data[3]
        == 0xfd {
        Some("application/zstd")
    } else if data.len() >= 4 && data[0] == 0x50 && data[1] == 0x4b && data[2] == 0x03 && data[3]
        == 0x04 {
        Some("application/zip")
    } else if data.len() >= 6 && data[0] == 0x52 && data[1] == 0x61 && data[2] == 0x72 && data[3]
        == 0x21 && data[4] == 0x1a && data[5] == 0x07 {
        Some("application/vnd.rar")
    } else if data.len() >= 7 && data[0] == 0x21 && data[1] == 0x3c && data[2] == 0x61 && data[3]
        == 0x72 && data[4] == 0x63 && data[5] == 0x68 && data[6] == 0x3e {
        Some("application/x-unix-archive")
    } else if data.len() >= 262 && data[257] == 0x75 && data[258] == 0x73 && data[259] == 0x74
        && data[260] == 0x61 && data[261] == 0x72 {
        Some("application/x-tar")
    } else {
        None
    }
}

/// The mathematical content of an adapter: its format, and its custom
/// pattern source if one replaced the default filename rule.
#[verifier::ext_equal]
pub struct AdapterV {
    pub format: Format,
    pub pattern: Option<Seq<char>>,
}

/// Whether an adapter's detection rule matches: the rule — the custom
/// pattern when one was given, the format's default rule otherwise —
/// is applied to the archive name's final file-name component, so a
/// directory on the way to the archive never decides its format.
pub open spec fn adapter_matches(a: AdapterV, name: Seq<char>) -> bool {
    match a.pattern {
        Some(src) => re_match(src, base_name_spec(name)),
        None => default_ext_match(a.format, base_name_spec(name)),
    }
}

/// One registry entry: a format and its detection rule.
#[derive(Debug)]
pub struct Adapter {
    format: Format,
    pattern: Option<Pattern>,
}

impl View for Adapter {
    type V = AdapterV;

    closed spec fn view(&self) -> AdapterV {
        AdapterV {
            format: self.format,
            pattern: match self.pattern {
                Some(p) => Some(p@),
                None => None,
            },
        }
    }
}

impl DeepView for Adapter {
    type V = AdapterV;

    open spec fn deep_view(&self) -> AdapterV {
        self.view()
    }
}

impl Adapter {
    /// An adapter for a format, with `pattern` replacing the format's
    /// default filename rule when given.
    pub fn new(format: Format, pattern: Option<Pattern>) -> (r: Self)
        ensures
            r@.format == format,
            pattern matches Some(p) ==> r@.pattern == Some(p@),
            pattern is None ==> r@.pattern is None,
    {
        Adapter { format, pattern }
    }

    pub fn format(&self) -> (r: Format)
        ensures
            r == self@.format,
    {
        self.format
    }

    /// Filename-based detection, caller-overridable by a custom
    /// pattern; the rule sees only the final file-name component.
    pub fn test(&self, archive: &str) -> (r: bool)
        ensures
            r == adapter_matches(self@, archive@),
    {
        let base = base_name_of(archive);
        match &self.pattern {
            Some(p) => p.is_match(base),
            None => {
                match self.format {
                    Format::Tarball => str_ends_with_ci(base, ".tar"),
                    Format::Targz => str_ends_with_ci(base, ".tar.gz") || str_ends_with_ci(
                        base,
                        ".tgz",
                    ),
                    Format::Tarxz => str_ends_with_ci(base, ".tar.xz") || str_ends_with_ci(
                        base,
                        ".txz",
                    ),
                    Format::Tarzst => str_ends_with_ci(base, ".tar.zst") || str_ends_with_ci(
                        base,
                        ".tzst",
                    ),
                    Format::Tarbz => str_ends_with_ci(base, ".tar.bz2") || str_ends_with_ci(
                        base,
                        ".tbz2",
                    ) || str_ends_with_ci(base, ".tbz"),
                    Format::Zip => str_ends_with_ci(base, ".zip"),
                    Format::Ar => str_ends_with_ci(base, ".ar"),
                    Format::Gz => str_ends_with_ci(base, ".gz"),
                    Format::Bz2 => str_ends_with_ci(base, ".bz2"),
                    Format::Xz => str_ends_with_ci(base, ".xz"),
                    Format::Zst => str_ends_with_ci(base, ".zst"),
                    Format::Rar => str_ends_with_ci(base, ".rar"),
                }
            },
        }
    }

    /// MIME-based detection; fixed per format.
    pub fn test_mimetype(&self, mime: &str) -> (r: bool)
        ensures
            r == mime_match(self@.format, mime@),
    {
        match self.format {
            Format::Tarball => str_eq(mime, "application/x-tar"),
            Format::Targz => str_eq(mime, "application/gzip"),
            Format::Tarxz => str_eq(mime, "application/x-xz"),
            Format::Tarzst => false,
            Format::Tarbz => str_eq(mime, "application/x-bzip2"),
            Format::Zip => str_eq(mime, "application/zip"),
            Format::Ar => str_eq(mime, "application/x-unix-archive"),
            Format::Gz => str_eq(mime, "application/gzip"),
            Format::Bz2 => str_eq(mime, "application/x-bzip2"),
            Format::Xz => str_eq(mime, "application/x-xz"),
            Format::Zst => str_eq(mime, "application/zstd"),
            Format::Rar => str_eq(mime, "application/vnd.rar"),
        }
    }
}

/// The default stack, in precedence order: layered tar formats first,
/// so a `.tar.gz` never falls to the bare gzip adapter, then the plain
/// container formats, then the single-stream codecs.
pub open spec fn default_stack() -> Seq<AdapterV> {
    seq![
        AdapterV { format: Format::Tarball, pattern: None },
        AdapterV { format: Format::Targz, pattern: None },
        AdapterV { format: Format::Tarxz, pattern: None },
        AdapterV { format: Format::Tarzst, pattern: None },
        AdapterV { format: Format::Tarbz, pattern: None },
        AdapterV { format: Format::Zip, pattern: None },
        AdapterV { format: Format::Ar, pattern: None },
        AdapterV { format: Format::Gz, pattern: None },
        AdapterV { format: Format::Bz2, pattern: None },
        AdapterV { format: Format::Xz, pattern: None },
        AdapterV { format: Format::Zst, pattern: None },
        AdapterV { format: Format::Rar, pattern: None },
    ]
}

// ---------------------------------------------------------------------
// Selection.
// ---------------------------------------------------------------------

pub open spec fn ext_none_before(adapters: Seq<AdapterV>, name: Seq<char>, i: int) -> bool {
    forall|j: int| 0 <= j < i ==> !adapter_matches(#[trigger] adapters[j], name)
}

/// `i` is the first adapter whose filename rule matches.
pub open spec fn is_ext_selected(adapters: Seq<AdapterV>, name: Seq<char>, i: int) -> bool {
    &&& 0 <= i < adapters.len()
    &&& adapter_matches(adapters[i], name)
    &&& ext_none_before(adapters, name, i)
}

pub open spec fn mime_none_before(adapters: Seq<AdapterV>, mime: Seq<char>, i: int) -> bool {
    forall|j: int| 0 <= j < i ==> !mime_match((#[trigger] adapters[j]).format, mime)
}

/// `i` is the first adapter whose MIME rule matches.
pub open spec fn is_mime_selected(adapters: Seq<AdapterV>, mime: Seq<char>, i: int) -> bool {
    &&& 0 <= i < adapters.len()
    &&& mime_match(adapters[i].format, mime)
    &&& mime_none_before(adapters, mime, i)
}

/// Content-based selection decides only when it was asked for, the
/// probe names a MIME type, and some adapter matches that type;
/// anything less falls back to filename matching.
pub open spec fn mime_applicable(adapters: Seq<AdapterV>, data: Seq<u8>, detect_content: bool) -> bool {
    &&& detect_content
    &&& sniffed_mime(data) is Some
    &&& exists|j: int|
        0 <= j < adapters.len() && mime_match((#[trigger] adapters[j]).format, sniffed_mime(data)->0)
}

/// The adapter index a list/decompress call settles on.
pub open spec fn selected_ok(
    adapters: Seq<AdapterV>,
    name: Seq<char>,
    data: Seq<u8>,
    detect_content: bool,
    i: int,
) -> bool {
    if mime_applicable(adapters, data, detect_content) {
        is_mime_selected(adapters, sniffed_mime(data)->0, i)
    } else {
        is_ext_selected(adapters, name, i)
    }
}

/// No adapter matches under the applicable rule.
pub open spec fn no_selection(
    adapters: Seq<AdapterV>,
    name: Seq<char>,
    data: Seq<u8>,
    detect_content: bool,
) -> bool {
    &&& !mime_applicable(adapters, data, detect_content)
    &&& forall|j: int| 0 <= j < adapters.len() ==> !adapter_matches(#[trigger] adapters[j], name)
}

/// At most one adapter index can be the selection: both rules pick the
/// first match.
pub proof fn lemma_selected_unique(
    adapters: Seq<AdapterV>,
    name: Seq<char>,
    data: Seq<u8>,
    detect_content: bool,
    i: int,
    j: int,
)
    requires
        selected_ok(adapters, name, data, detect_content, i),
        selected_ok(adapters, name, data, detect_content, j),
    ensures
        i == j,
{
    if mime_applicable(adapters, data, detect_content) {
        let m = sniffed_mime(data)->0;
        if i < j {
            assert(!mime_match(adapters[i].format, m));
        } else if j < i {
            assert(!mime_match(adapters[j].format, m));
        }
    } else {
        if i < j {
            assert(!adapter_matches(adapters[i], name));
        } else if j < i {
            assert(!adapter_matches(adapters[j], name));
        }
    }
}

// ---------------------------------------------------------------------
// The single-file entry of the plain gzip adapter.
// ---------------------------------------------------------------------

/// The part of a path after its last separator.
pub open spec fn base_name_spec(s: Seq<char>) -> Seq<char> {
    s.skip(last_sep_index(s) + 1)
}

/// A file name with its final extension removed; a lone leading dot is
/// kept.
pub open spec fn stem_spec(b: Seq<char>) -> Seq<char> {
    let d = last_char_index(b, '.');
    if d <= 0 {
        b
    } else {
        b.take(d)
    }
}

/// The entry name a single-stream codec reports: the archive's file
/// name with the outer extension removed.
pub open spec fn gz_entry_name(name: Seq<char>) -> Seq<char> {
    stem_spec(base_name_spec(name))
}

/// The one entry a decoded single-stream archive holds.
pub open spec fn gz_entry_v(name: Seq<char>, body: Seq<u8>) -> ArchiveEntryV {
    ArchiveEntryV {
        path: gz_entry_name(name),
        kind: EntryKind::Regular,
        mode: None,
        link: Seq::empty(),
        data: body,
    }
}

/// The final file-name component of an archive name.
pub fn base_name_of(name: &str) -> (r: &str)
    ensures
        r@ == base_name_spec(name@),
{
    let n = name.unicode_len();
    match rfind_sep(name) {
        Some(i) => {
            let b = name.substring_char(i + 1, n);
            proof {
                assert(b@ =~= base_name_spec(name@));
            }
            b
        },
        None => {
            proof {
                assert(name@.skip(0) =~= name@);
            }
            name
        },
    }
}

/// Derive the single entry's name from the archive's name.
fn gz_name(name: &str) -> (r: String)
    ensures
        r@ == gz_entry_name(name@),
{
    let base = base_name_of(name);
    let m = base.unicode_len();
    match rfind_char(base, '.') {
        Some(d) => {
            if d > 0 {
                let s = base.substring_char(0, d);
                proof {
                    assert(s@ =~= stem_spec(base@));
                }
                s.to_owned()
            } else {
                base.to_owned()
            }
        },
        None => base.to_owned(),
    }
}

/// The name a rar entry is listed under: a directory entry carries a
/// trailing `/`, which the rar codec reports without one; file entries
/// and already-slashed names pass through unchanged.
pub fn rar_entry_name(name: &str, is_dir: bool) -> (r: String)
    ensures
        r@ == if is_dir && !seq_ends_with(name@, seq!['/']) {
            name@ + seq!['/']
        } else {
            name@
        },
{
    proof {
        reveal_strlit("/");
        assert("/"@ =~= seq!['/']);
    }
    let n = name.unicode_len();
    let slashed = n > 0 && name.get_char(n - 1) == '/';
    proof {
        if slashed {
            assert(name@.subrange(n - 1, n as int) =~= seq!['/']);
        } else if n > 0 && seq_ends_with(name@, seq!['/']) {
            assert(name@.subrange(n - 1, n as int)[0] == name@[n - 1]);
        }
    }
    if is_dir && !slashed {
        name.to_owned().concat("/")
    } else {
        name.to_owned()
    }
}

// ---------------------------------------------------------------------
// Results.
// ---------------------------------------------------------------------

/// What a successful extraction reports: the format actually used, the
/// absolutized output root every write was planned under, the written
/// file paths in archive order, and the planned writes themselves for a
/// shell to perform.
#[derive(Debug)]
pub struct Decompression {
    pub id: String,
    pub output_dir: String,
    pub files: Vec<String>,
    pub actions: Vec<Action>,
}

/// What a successful listing reports: the format actually used and the
/// raw in-archive entry names, in archive order.
#[derive(Debug)]
pub struct Listing {
    pub id: String,
    pub entries: Vec<String>,
}

/// The entries a format's decode chain yields from the archive's bytes
/// and name, when every decode step succeeds. Formats whose codec is
/// not linked into this build yield nothing.
pub open spec fn decoded_entries(f: Format, name: Seq<char>, data: Seq<u8>) -> Option<
    Seq<ArchiveEntryV>,
> {
    match f {
        Format::Tarball => tar_entries_of(data),
        Format::Targz => match gunzip_of(data) {
            Some(mid) => tar_entries_of(mid),
            None => None,
        },
        Format::Gz => match gunzip_of(data) {
            Some(body) => Some(seq![gz_entry_v(name, body)]),
            None => None,
        },
        _ => None,
    }
}

/// A decompression under this format is owed: the decode chain
/// succeeds and planning finds no invalid path or unsupported entry.
pub open spec fn decode_plan_ok(f: Format, name: Seq<char>, data: Seq<u8>, strip: int) -> bool {
    decoded_entries(f, name, data) matches Some(es) && plan_ok(es, strip)
}

/// What a decompression's plan must be, per selected format, under the
/// output root it reports.
pub open spec fn decompressed_by<H: EntryHooks>(
    f: Format,
    h: &H,
    name: Seq<char>,
    data: Seq<u8>,
    strip: int,
    root: Seq<char>,
    acts: Seq<ActionV>,
) -> bool {
    decoded_entries(f, name, data) matches Some(es) && plan_spec(h, es, strip, root) == Ok::<
        Seq<ActionV>,
        PlanErrV,
    >(acts)
}

/// A listing under this format is owed: its decode chain succeeds (a
/// single-stream archive lists its one derived name without decoding).
pub open spec fn decode_list_ok(f: Format, data: Seq<u8>) -> bool {
    match f {
        Format::Tarball => tar_entries_of(data) is Some,
        Format::Targz => gunzip_of(data) matches Some(mid) && tar_entries_of(mid) is Some,
        Format::Gz => true,
        _ => false,
    }
}

/// What a listing's names must be, per selected format.
pub open spec fn listed_by(f: Format, name: Seq<char>, data: Seq<u8>, names: Seq<Seq<char>>) -> bool {
    match f {
        Format::Tarball => tar_entries_of(data) matches Some(es) && names == entry_names(es),
        Format::Targz => gunzip_of(data) matches Some(mid) && tar_entries_of(mid) matches Some(es)
            && names == entry_names(es),
        Format::Gz => names == seq![gz_entry_name(name)],
        _ => false,
    }
}

// ---------------------------------------------------------------------
// The registry.
// ---------------------------------------------------------------------

/// An ordered, read-only stack of adapters. The default stack supports
/// every format of the vocabulary; a custom stack entirely replaces it.
#[derive(Debug)]
pub struct Decompress {
    adapters: Vec<Adapter>,
}

impl View for Decompress {
    type V = Seq<AdapterV>;

    closed spec fn view(&self) -> Seq<AdapterV> {
        self.adapters.deep_view()
    }
}

impl Default for Decompress {
    /// The registry with the default adapter stack.
    fn default() -> (r: Self)
        ensures
            r@ == default_stack(),
    {
        let adapters: Vec<Adapter> = vec![
            Adapter::new(Format::Tarball, None),
            Adapter::new(Format::Targz, None),
            Adapter::new(Format::Tarxz, None),
            Adapter::new(Format::Tarzst, None),
            Adapter::new(Format::Tarbz, None),
            Adapter::new(Format::Zip, None),
            Adapter::new(Format::Ar, None),
            Adapter::new(Format::Gz, None),
            Adapter::new(Format::Bz2, None),
            Adapter::new(Format::Xz, None),
            Adapter::new(Format::Zst, None),
            Adapter::new(Format::Rar, None),
        ];
        let r = Decompress { adapters };
        proof {
            assert(r@ =~= default_stack());
        }
        r
    }
}

impl Decompress {
    /// A registry with exactly the given adapters, in order; the
    /// default stack is not merged in.
    pub fn build(adapters: Vec<Adapter>) -> (r: Self)
        ensures
            r@ == adapters.deep_view(),
    {
        Decompress { adapters }
    }

    /// Whether some adapter's filename rule matches.
    pub fn can_decompress(&self, archive: &str) -> (r: bool)
        ensures
            r == exists|i: int|
                0 <= i < self@.len() && adapter_matches(#[trigger] self@[i], archive@),
    {
        let mut i: usize = 0;
        while i < self.adapters.len()
            invariant
                i <= self.adapters.len(),
                self@.len() == self.adapters.len(),
                ext_none_before(self@, archive@, i as int),
            decreases self.adapters.len() - i,
        {
            proof {
                assert(self.adapters.deep_view()[i as int] == self.adapters@[i as int]@);
            }
            if self.adapters[i].test(archive) {
                return true;
            }
            i += 1;
        }
        false
    }

    /// The first adapter the applicable rule selects, if any.
    fn select(&self, archive: &str, data: &Vec<u8>, detect_content: bool) -> (r: Option<usize>)
        ensures
            r matches Some(i) ==> selected_ok(self@, archive@, data@, detect_content, i as int),
            r is None ==> no_selection(self@, archive@, data@, detect_content),
    {
        if detect_content {
            if let Some(m) = sniff(data) {
                let mut i: usize = 0;
                while i < self.adapters.len()
                    invariant
                        detect_content,
                        i <= self.adapters.len(),
                        self@.len() == self.adapters.len(),
                        sniffed_mime(data@) == Some(m@),
                        mime_none_before(self@, m@, i as int),
                    decreases self.adapters.len() - i,
                {
                    proof {
                        assert(self.adapters.deep_view()[i as int] == self.adapters@[i as int]@);
                    }
                    if self.adapters[i].test_mimetype(m) {
                        proof {
                            assert(mime_match(self@[i as int].format, sniffed_mime(data@)->0));
                            assert(mime_applicable(self@, data@, detect_content));
                        }
                        return Some(i);
                    }
                    i += 1;
                }
                proof {
                    assert(!mime_applicable(self@, data@, detect_content));
                }
            }
        }
        proof {
            assert(!mime_applicable(self@, data@, detect_content));
        }
        let mut i: usize = 0;
        while i < self.adapters.len()
            invariant
                i <= self.adapters.len(),
                self@.len() == self.adapters.len(),
                !mime_applicable(self@, data@, detect_content),
                ext_none_before(self@, archive@, i as int),
            decreases self.adapters.len() - i,
        {
            proof {
                assert(self.adapters.deep_view()[i as int] == self.adapters@[i as int]@);
            }
            if self.adapters[i].test(archive) {
                return Some(i);
            }
            i += 1;
        }
        None
    }

    /// List the archive held in `data`, named `archive`: select an
    /// adapter, decode, and report the raw entry names with no
    /// filesystem effect.
    pub fn list(&self, archive: &str, data: &Vec<u8>, opts: &ExtractOpts) -> (r: Result<
        Listing,
        DecompressError,
    >)
        ensures
            (r matches Err(e) && e matches DecompressError::MissingCompressor) <==> no_selection(
                self@,
                archive@,
                data@,
                opts.detect_content,
            ),
            r matches Ok(l) ==> exists|i: int|
                #[trigger] selected_ok(self@, archive@, data@, opts.detect_content, i) && l.id@
                    == format_id(self@[i].format) && listed_by(
                    self@[i].format,
                    archive@,
                    data@,
                    l.entries.deep_view(),
                ),
            r is Ok <==> exists|i: int|
                #[trigger] selected_ok(self@, archive@, data@, opts.detect_content, i)
                    && decode_list_ok(self@[i].format, data@),
    {
        let i = match self.select(archive, data, opts.detect_content) {
            None => {
                proof {
                    assert forall|j: int|
                        !(#[trigger] selected_ok(self@, archive@, data@, opts.detect_content, j)
                            && decode_list_ok(self@[j].format, data@)) by {
                        if selected_ok(self@, archive@, data@, opts.detect_content, j) {
                            assert(adapter_matches(self@[j], archive@));
                        }
                    }
                }
                return Err(DecompressError::MissingCompressor);
            },
            Some(i) => i,
        };
        let fmt = self.adapters[i].format();
        proof {
            assert(self.adapters.deep_view()[i as int] == self.adapters@[i as int]@);
            assert(!no_selection(self@, archive@, data@, opts.detect_content));
        }
        match fmt {
            Format::Tarball => {
                let names = match tar_list(data) {
                    Ok(ns) => ns,
                    Err(e) => {
                        proof {
                            self.lemma_no_listable_selection(archive@, data@, opts.detect_content, i as int);
                        }
                        return Err(e);
                    },
                };
                let l = Listing { id: fmt.id().to_owned(), entries: names };
                proof {
                    assert(selected_ok(self@, archive@, data@, opts.detect_content, i as int));
                }
                Ok(l)
            },
            Format::Targz => {
                let mid = match gunzip(data) {
                    Ok(m) => m,
                    Err(m) => {
                        proof {
                            self.lemma_no_listable_selection(archive@, data@, opts.detect_content, i as int);
                        }
                        return Err(DecompressError::Codec(m));
                    },
                };
                let names = match tar_list(&mid) {
                    Ok(ns) => ns,
                    Err(e) => {
                        proof {
                            self.lemma_no_listable_selection(archive@, data@, opts.detect_content, i as int);
                        }
                        return Err(e);
                    },
                };
                let l = Listing { id: fmt.id().to_owned(), entries: names };
                proof {
                    assert(selected_ok(self@, archive@, data@, opts.detect_content, i as int));
                }
                Ok(l)
            },
            Format::Gz => {
                let name = gz_name(archive);
                let mut entries: Vec<String> = Vec::new();
                entries.push(name);
                let l = Listing { id: fmt.id().to_owned(), entries };
                proof {
                    assert(l.entries.deep_view() =~= seq![gz_entry_name(archive@)]);
                    assert(selected_ok(self@, archive@, data@, opts.detect_content, i as int));
                }
                Ok(l)
            },
            _ => {
                proof {
                    self.lemma_no_listable_selection(archive@, data@, opts.detect_content, i as int);
                }
                Err(DecompressError::Codec(
                    fmt.id().to_owned().concat(": codec is not linked into this build"),
                ))
            },
        }
    }

    /// When the selected adapter's listing cannot be produced, no
    /// adapter's can: selection is unique.
    proof fn lemma_no_listable_selection(
        &self,
        name: Seq<char>,
        data: Seq<u8>,
        detect_content: bool,
        i: int,
    )
        requires
            selected_ok(self@, name, data, detect_content, i),
            !decode_list_ok(self@[i].format, data),
        ensures
            !exists|j: int|
                #[trigger] selected_ok(self@, name, data, detect_content, j) && decode_list_ok(
                    self@[j].format,
                    data,
                ),
    {
        assert forall|j: int|
            !(#[trigger] selected_ok(self@, name, data, detect_content, j) && decode_list_ok(
                self@[j].format,
                data,
            )) by {
            if selected_ok(self@, name, data, detect_content, j) {
                lemma_selected_unique(self@, name, data, detect_content, i, j);
            }
        }
    }

    /// When the selected adapter's extraction is not owed, no
    /// adapter's is: selection is unique.
    proof fn lemma_no_extractable_selection(
        &self,
        name: Seq<char>,
        data: Seq<u8>,
        detect_content: bool,
        strip: int,
        i: int,
    )
        requires
            selected_ok(self@, name, data, detect_content, i),
            !decode_plan_ok(self@[i].format, name, data, strip),
        ensures
            !exists|j: int|
                #[trigger] selected_ok(self@, name, data, detect_content, j) && decode_plan_ok(
                    self@[j].format,
                    name,
                    data,
                    strip,
                ),
    {
        assert forall|j: int|
            !(#[trigger] selected_ok(self@, name, data, detect_content, j) && decode_plan_ok(
                self@[j].format,
                name,
                data,
                strip,
            )) by {
            if selected_ok(self@, name, data, detect_content, j) {
                lemma_selected_unique(self@, name, data, detect_content, i, j);
            }
        }
    }

    /// Extract the archive held in `data`, named `archive`, into `to`:
    /// select an adapter, decode, check the plan, and plan every write
    /// under the absolutized output directory, which the result
    /// reports. The caller performs the returned actions; nothing is
    /// written here. Success is owed — up to reading the current
    /// directory, the one environment step — exactly when selection
    /// finds a linked format whose decode succeeds and whose entries
    /// plan cleanly.
    pub fn decompress<H: EntryHooks>(
        &self,
        archive: &str,
        data: &Vec<u8>,
        to: &str,
        opts: &ExtractOpts,
        hooks: &H,
    ) -> (r: Result<Decompression, DecompressError>)
        ensures
            (r matches Err(e) && e matches DecompressError::MissingCompressor) <==> no_selection(
                self@,
                archive@,
                data@,
                opts.detect_content,
            ),
            (r is Ok || (r matches Err(e) && e matches DecompressError::Io(_))) <==> exists|i: int|
                #[trigger] selected_ok(self@, archive@, data@, opts.detect_content, i)
                    && decode_plan_ok(self@[i].format, archive@, data@, opts.strip as int),
            r matches Ok(d) ==> exists|i: int|
                #[trigger] selected_ok(self@, archive@, data@, opts.detect_content, i) && d.id@
                    == format_id(self@[i].format) && abs_path(d.output_dir@) && decompressed_by(
                    self@[i].format,
                    hooks,
                    archive@,
                    data@,
                    opts.strip as int,
                    d.output_dir@,
                    d.actions.deep_view(),
                ) && d.files.deep_view() == written_files(d.actions.deep_view()),
            r matches Ok(d) ==> (clean_abs_path(to@) ==> d.output_dir@ == to@),
    {
        let i = match self.select(archive, data, opts.detect_content) {
            None => {
                proof {
                    assert forall|j: int|
                        !(#[trigger] selected_ok(self@, archive@, data@, opts.detect_content, j)
                            && decode_plan_ok(self@[j].format, archive@, data@, opts.strip as int))
                        by {
                        if selected_ok(self@, archive@, data@, opts.detect_content, j) {
                            assert(adapter_matches(self@[j], archive@));
                        }
                    }
                }
                return Err(DecompressError::MissingCompressor);
            },
            Some(i) => i,
        };
        let fmt = self.adapters[i].format();
        proof {
            assert(self.adapters.deep_view()[i as int] == self.adapters@[i as int]@);
            assert(!no_selection(self@, archive@, data@, opts.detect_content));
        }
        let entries: Vec<ArchiveEntry> = match fmt {
            Format::Tarball => {
                match tar_decode(data) {
                    Ok(es) => es,
                    Err(e) => {
                        proof {
                            self.lemma_no_extractable_selection(
                                archive@,
                                data@,
                                opts.detect_content,
                                opts.strip as int,
                                i as int,
                            );
                        }
                        return Err(tar_error(e));
                    },
                }
            },
            Format::Targz => {
                let mid = match gunzip(data) {
                    Ok(m) => m,
                    Err(m) => {
                        proof {
                            self.lemma_no_extractable_selection(
                                archive@,
                                data@,
                                opts.detect_content,
                                opts.strip as int,
                                i as int,
                            );
                        }
                        return Err(DecompressError::Codec(m));
                    },
                };
                match tar_decode(&mid) {
                    Ok(es) => es,
                    Err(e) => {
                        proof {
                            self.lemma_no_extractable_selection(
                                archive@,
                                data@,
                                opts.detect_content,
                                opts.strip as int,
                                i as int,
                            );
                        }
                        return Err(tar_error(e));
                    },
                }
            },
            Format::Gz => {
                let body = match gunzip(data) {
                    Ok(m) => m,
                    Err(m) => {
                        proof {
                            self.lemma_no_extractable_selection(
                                archive@,
                                data@,
                                opts.detect_content,
                                opts.strip as int,
                                i as int,
                            );
                        }
                        return Err(DecompressError::Codec(m));
                    },
                };
                let name = gz_name(archive);
                let ghost bodyv = body@;
                let mut single: Vec<ArchiveEntry> = Vec::new();
                single.push(
                    ArchiveEntry {
                        path: name,
                        kind: EntryKind::Regular,
                        mode: None,
                        link: String::new(),
                        data: body,
                    },
                );
                proof {
                    assert(single.deep_view() =~= seq![gz_entry_v(archive@, bodyv)]);
                }
                single
            },
            _ => {
                proof {
                    self.lemma_no_extractable_selection(
                        archive@,
                        data@,
                        opts.detect_content,
                        opts.strip as int,
                        i as int,
                    );
                }
                return Err(DecompressError::Codec(
                    fmt.id().to_owned().concat(": codec is not linked into this build"),
                ));
            },
        };
        proof {
            assert(decoded_entries(self@[i as int].format, archive@, data@) == Some(
                entries.deep_view(),
            ));
        }
        match plan_extraction(fmt, entries, to, opts.strip, hooks) {
            Ok(d) => {
                proof {
                    assert(selected_ok(self@, archive@, data@, opts.detect_content, i as int));
                }
                Ok(d)
            },
            Err(e) => {
                proof {
                    if !(e matches DecompressError::Io(_)) {
                        self.lemma_no_extractable_selection(
                            archive@,
                            data@,
                            opts.detect_content,
                            opts.strip as int,
                            i as int,
                        );
                    } else {
                        assert(selected_ok(self@, archive@, data@, opts.detect_content, i as int));
                    }
                }
                Err(e)
            },
        }
    }
}

/// The common tail of every extraction: refuse a plan that would fail,
/// absolutize the output directory, and plan every write under it.
fn plan_extraction<H: EntryHooks>(
    fmt: Format,
    entries: Vec<ArchiveEntry>,
    to: &str,
    strip: usize,
    hooks: &H,
) -> (r: Result<Decompression, DecompressError>)
    ensures
        (r is Ok || (r matches Err(e) && e matches DecompressError::Io(_))) <==> plan_ok(
            entries.deep_view(),
            strip as int,
        ),
        r matches Ok(d) ==> d.id@ == format_id(fmt) && abs_path(d.output_dir@) && plan_spec(
            hooks,
            entries.deep_view(),
            strip as int,
            d.output_dir@,
        ) == Ok::<Seq<ActionV>, PlanErrV>(d.actions.deep_view()) && d.files.deep_view()
            == written_files(d.actions.deep_view()) && (clean_abs_path(to@) ==> d.output_dir@
            == to@),
        r matches Err(e) ==> !(e matches DecompressError::MissingCompressor),
{
    if let Some(e) = plan_check(&entries, strip) {
        return Err(e);
    }
    let ghost es = entries.deep_view();
    let to_abs = match absolutize_path(to) {
        Ok(a) => a,
        Err(m) => {
            return Err(DecompressError::Io(m));
        },
    };
    let acts = match extract_entries(hooks, entries, to_abs.as_str(), strip) {
        Ok(a) => a,
        Err(e) => {
            proof {
                lemma_plan_err_root_free(hooks, es, es.len() as int, strip as int, to_abs@);
                assert(false);
            }
            return Err(e);
        },
    };
    let files = plan_files(&acts);
    Ok(Decompression { id: fmt.id().to_owned(), output_dir: to_abs, files, actions: acts })
}

} // verus!
