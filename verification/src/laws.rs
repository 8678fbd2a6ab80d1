//! The library's laws: containment of every planned write, exactness of
//! stripping, the guarantees of the filter and map hooks, and the
//! determinism of format selection. Each is stated over the same spec
//! functions the public contracts use.

use vstd::prelude::*;

use crate::engine::{desc_of, plan_rec, plan_spec, step_spec, stripped_segs, PlanErrV, StepV};
use crate::entry::{normalized_mode, ActionV, ArchiveEntryV, EntryKind};
use crate::hooks::EntryHooks;
use crate::map_args::MapArgsV;
use crate::registry::{adapter_matches, default_stack, is_ext_selected, selected_ok, Format};
use crate::strutil::{ends_with_ci, lemma_join_path_within, lemma_path_ok_segs_safe,
    lemma_segs_safe_skip, lower_seq, path_ok, safely_within, segments_of, seq_ends_with};

verus! {

/// Hooks that leave output paths alone.
pub open spec fn identity_rename<H: EntryHooks>(h: &H) -> bool {
    forall|d: MapArgsV| #[trigger] h.rename(d) == d.path
}

/// A step that emits an action under identity-renaming hooks lands the
/// action strictly inside the output root, through safe segments only.
proof fn lemma_step_within<H: EntryHooks>(
    h: &H,
    e: ArchiveEntryV,
    strip: int,
    root: Seq<char>,
    a: ActionV,
)
    requires
        root.len() > 0,
        0 <= strip,
        identity_rename(h),
        step_spec(h, e, strip, root) == StepV::Emit(a),
    ensures
        safely_within(a.path(), root),
{
    let segs = stripped_segs(e.path, strip);
    assert(path_ok(e.path));
    assert(segs.len() > 0);
    assert(strip < segments_of(e.path).len());
    lemma_path_ok_segs_safe(e.path);
    lemma_segs_safe_skip(segments_of(e.path), strip);
    assert(a.path() == h.rename(desc_of(e, strip, root)));
    assert(h.rename(desc_of(e, strip, root)) == desc_of(e, strip, root).path);
    lemma_join_path_within(root, segs);
}

/// No planned write escapes the output directory: under
/// identity-renaming hooks, every action of a successful plan writes
/// strictly inside the absolutized output root, reached through safe
/// segments only — whatever `..`, rooted or mixed-separator names the
/// archive held.
pub proof fn lemma_no_path_escape<H: EntryHooks>(
    h: &H,
    es: Seq<ArchiveEntryV>,
    n: int,
    strip: int,
    root: Seq<char>,
    acts: Seq<ActionV>,
)
    requires
        root.len() > 0,
        0 <= strip,
        identity_rename(h),
        0 <= n <= es.len(),
        plan_rec(h, es, n, strip, root) == Ok::<Seq<ActionV>, PlanErrV>(acts),
    ensures
        forall|k: int| 0 <= k < acts.len() ==> safely_within(#[trigger] acts[k].path(), root),
    decreases n,
{
    if n > 0 {
        let prev = plan_rec(h, es, n - 1, strip, root);
        assert(prev is Ok);
        let pacts = prev->Ok_0;
        lemma_no_path_escape(h, es, n - 1, strip, root, pacts);
        match step_spec(h, es[n - 1], strip, root) {
            StepV::Fail(_) => {
                assert(false);
            },
            StepV::Skip => {
                assert(acts == pacts);
            },
            StepV::Emit(a) => {
                lemma_step_within(h, es[n - 1], strip, root, a);
                assert(acts == pacts.push(a));
                assert forall|k: int| 0 <= k < acts.len() implies safely_within(
                    #[trigger] acts[k].path(),
                    root,
                ) by {
                    if k < pacts.len() {
                        assert(acts[k] == pacts[k]);
                    } else {
                        assert(acts[k] == a);
                    }
                }
            },
        }
    }
}

/// The whole-plan form of the containment law.
pub proof fn lemma_plan_no_path_escape<H: EntryHooks>(
    h: &H,
    es: Seq<ArchiveEntryV>,
    strip: int,
    root: Seq<char>,
    acts: Seq<ActionV>,
)
    requires
        root.len() > 0,
        0 <= strip,
        identity_rename(h),
        plan_spec(h, es, strip, root) == Ok::<Seq<ActionV>, PlanErrV>(acts),
    ensures
        forall|k: int| 0 <= k < acts.len() ==> safely_within(#[trigger] acts[k].path(), root),
{
    lemma_no_path_escape(h, es, es.len() as int, strip, root, acts);
}

/// `strip = 0` is the identity transform: a kept regular-file entry is
/// written at its full relative path joined, unchanged, under the
/// output directory.
pub proof fn lemma_strip_zero_identity<H: EntryHooks>(h: &H, e: ArchiveEntryV, root: Seq<char>)
    requires
        identity_rename(h),
        path_ok(e.path),
        segments_of(e.path).len() > 0,
        e.kind == EntryKind::Regular,
        h.keep(desc_of(e, 0, root)),
    ensures
        step_spec(h, e, 0, root) == StepV::Emit(
            ActionV::WriteFile {
                path: crate::strutil::join_path(root, segments_of(e.path)),
                mode: match e.mode {
                    Some(m) => Some(normalized_mode(m)),
                    None => None,
                },
                data: e.data,
            },
        ),
{
    assert(segments_of(e.path).skip(0) =~= segments_of(e.path));
    assert(stripped_segs(e.path, 0) == segments_of(e.path));
    assert(desc_of(e, 0, root).path == crate::strutil::join_path(root, segments_of(e.path)));
}

/// `strip = k` drops an entry whose path has exactly `k` segments: it
/// is skipped entirely, not written as the output root.
pub proof fn lemma_strip_consumes_entry<H: EntryHooks>(
    h: &H,
    e: ArchiveEntryV,
    strip: int,
    root: Seq<char>,
)
    requires
        path_ok(e.path),
        segments_of(e.path).len() == strip,
    ensures
        step_spec(h, e, strip, root) == StepV::Skip,
{
    assert(stripped_segs(e.path, strip).len() == 0);
}

/// `strip = k` removes exactly the first `k` segments: a kept
/// regular-file entry with more than `k` segments is written at the
/// join of the remaining ones.
pub proof fn lemma_strip_removes_prefix<H: EntryHooks>(
    h: &H,
    e: ArchiveEntryV,
    strip: int,
    root: Seq<char>,
)
    requires
        identity_rename(h),
        path_ok(e.path),
        0 <= strip < segments_of(e.path).len(),
        e.kind == EntryKind::Regular,
        h.keep(desc_of(e, strip, root)),
    ensures
        step_spec(h, e, strip, root) == StepV::Emit(
            ActionV::WriteFile {
                path: crate::strutil::join_path(root, segments_of(e.path).skip(strip)),
                mode: match e.mode {
                    Some(m) => Some(normalized_mode(m)),
                    None => None,
                },
                data: e.data,
            },
        ),
{
    assert(stripped_segs(e.path, strip) == segments_of(e.path).skip(strip));
    assert(stripped_segs(e.path, strip).len() > 0);
}

/// A `false` filter answer skips the entry: its step plans no write at
/// all, so no file is created at the entry's resolved path.
pub proof fn lemma_filter_skips<H: EntryHooks>(
    h: &H,
    e: ArchiveEntryV,
    strip: int,
    root: Seq<char>,
)
    requires
        path_ok(e.path),
        e.kind == EntryKind::Regular || e.kind == EntryKind::Directory,
        !h.keep(desc_of(e, strip, root)),
    ensures
        step_spec(h, e, strip, root) == StepV::Skip,
{
}

/// Every action of a successful plan is the step of some entry: what
/// the steps skip cannot appear in the returned list.
pub proof fn lemma_plan_actions_from_steps<H: EntryHooks>(
    h: &H,
    es: Seq<ArchiveEntryV>,
    n: int,
    strip: int,
    root: Seq<char>,
    acts: Seq<ActionV>,
)
    requires
        0 <= n <= es.len(),
        plan_rec(h, es, n, strip, root) == Ok::<Seq<ActionV>, PlanErrV>(acts),
    ensures
        forall|k: int|
            0 <= k < acts.len() ==> exists|j: int|
                0 <= j < n && step_spec(h, es[j], strip, root) == StepV::Emit(#[trigger] acts[k]),
    decreases n,
{
    if n > 0 {
        let prev = plan_rec(h, es, n - 1, strip, root);
        let pacts = prev->Ok_0;
        lemma_plan_actions_from_steps(h, es, n - 1, strip, root, pacts);
        match step_spec(h, es[n - 1], strip, root) {
            StepV::Fail(_) => {
                assert(false);
            },
            StepV::Skip => {
                assert(acts == pacts);
            },
            StepV::Emit(a) => {
                assert(acts == pacts.push(a));
                assert forall|k: int| 0 <= k < acts.len() implies exists|j: int|
                    0 <= j < n && step_spec(h, es[j], strip, root) == StepV::Emit(
                        #[trigger] acts[k],
                    ) by {
                    if k < pacts.len() {
                        assert(acts[k] == pacts[k]);
                    } else {
                        assert(acts[k] == a);
                        assert(step_spec(h, es[n - 1], strip, root) == StepV::Emit(acts[k]));
                    }
                }
            },
        }
    }
}

/// The map hook alone decides where a surviving file lands: its step
/// writes at the mapped path, and nowhere else — in particular never at
/// the original path when the hook moved it.
pub proof fn lemma_map_decides_output<H: EntryHooks>(
    h: &H,
    e: ArchiveEntryV,
    strip: int,
    root: Seq<char>,
)
    requires
        path_ok(e.path),
        stripped_segs(e.path, strip).len() > 0,
        e.kind == EntryKind::Regular,
        h.keep(desc_of(e, strip, root)),
    ensures
        step_spec(h, e, strip, root) matches StepV::Emit(a) && a.path() == h.rename(
            desc_of(e, strip, root),
        ),
        h.rename(desc_of(e, strip, root)) != desc_of(e, strip, root).path
            ==> (step_spec(h, e, strip, root) matches StepV::Emit(a) && a.path() != desc_of(
            e,
            strip,
            root,
        ).path),
{
}

/// The containment law at the registry's own contract: whatever format
/// a successful `decompress` settled on, under identity-renaming hooks
/// every planned write lands strictly inside the output root the
/// result reports.
pub proof fn lemma_decompression_contained<H: EntryHooks>(
    h: &H,
    f: Format,
    name: Seq<char>,
    data: Seq<u8>,
    strip: int,
    root: Seq<char>,
    acts: Seq<ActionV>,
)
    requires
        identity_rename(h),
        0 <= strip,
        crate::strutil::abs_path(root),
        crate::registry::decompressed_by(f, h, name, data, strip, root, acts),
    ensures
        forall|k: int| 0 <= k < acts.len() ==> safely_within(#[trigger] acts[k].path(), root),
{
    let es = crate::registry::decoded_entries(f, name, data)->0;
    lemma_plan_no_path_escape(h, es, strip, root, acts);
}

/// Format selection is deterministic: with content detection off, an
/// archive whose file name ends in `.tar.gz` always selects the
/// tar-over-gzip adapter of the default stack — never the bare gzip
/// adapter — whatever the bytes hold.
pub proof fn lemma_selection_deterministic(name: Seq<char>, data: Seq<u8>)
    requires
        ends_with_ci(crate::registry::base_name_spec(name), ".tar.gz"@),
    ensures
        default_stack()[1].format == Format::Targz,
        is_ext_selected(default_stack(), name, 1),
        forall|i: int| selected_ok(default_stack(), name, data, false, i) ==> i == 1,
{
    reveal_strlit(".tar.gz");
    reveal_strlit(".tar");
    let stack = default_stack();
    let low = lower_seq(crate::registry::base_name_spec(name));
    let t7 = ".tar.gz"@;
    let t4 = ".tar"@;
    assert(t7.len() == 7);
    assert(t4.len() == 4);
    assert(seq_ends_with(low, t7));
    assert(low.len() >= 7);
    assert(low.subrange(low.len() - 7, low.len() as int) == t7);
    assert(low[low.len() - 1] == t7[6]) by {
        assert(low.subrange(low.len() - 7, low.len() as int)[6] == t7[6]);
    }
    assert(t7[6] == 'z');
    assert(t4[3] == 'r');
    assert(!seq_ends_with(low, t4)) by {
        if seq_ends_with(low, t4) {
            assert(low.subrange(low.len() - 4, low.len() as int)[3] == t4[3]);
            assert(low[low.len() - 1] == 'r');
        }
    }
    assert(stack[0].pattern is None && stack[0].format == Format::Tarball);
    assert(!adapter_matches(stack[0], name));
    assert(adapter_matches(stack[1], name));
    assert(is_ext_selected(stack, name, 1));
    assert forall|i: int| selected_ok(stack, name, data, false, i) implies i == 1 by {
        assert(is_ext_selected(stack, name, i));
        if i > 1 {
            assert(!adapter_matches(stack[1], name));
        }
    }
}

} // verus!
