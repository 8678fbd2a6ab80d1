//! The shared extraction engine: one linear pass over a decoded entry
//! sequence that validates each path, strips leading segments, applies
//! the filter/map hooks, and plans the filesystem writes — with
//! path-traversal protection built into the join step.

use vstd::prelude::*;

use crate::entry::{normalize_mode, normalized_mode, Action, ActionV, ArchiveEntry, ArchiveEntryV,
    EntryKind};
use crate::hooks::EntryHooks;
use crate::map_args::{MapArgs, MapArgsV};
use crate::rel_path::{RelPath, RelPathKind, RelPathV};
use crate::strutil::{abs_path, join_parts_from, join_path, lemma_join_path_abs, path_ok,
    segments_of};
use crate::DecompressError;

verus! {

/// Why a plan fails: a malformed in-archive path, or an entry kind
/// extraction refuses.
pub enum PlanErrV {
    NotRelative(Seq<char>),
    Unsupported(Seq<char>),
}

/// What the engine does with one entry.
#[verifier::ext_equal]
pub enum StepV {
    Fail(PlanErrV),
    Skip,
    Emit(ActionV),
}

/// The `RelPath` kind an entry is classified under: directories are
/// directories, everything else (file, symlink, other) parses as a file
/// path.
pub open spec fn entry_rel_kind(k: EntryKind) -> RelPathKind {
    if k == EntryKind::Directory {
        RelPathKind::Directory
    } else {
        RelPathKind::File
    }
}

/// The segments left after discarding the first `strip`; consuming all
/// of them leaves the empty sequence.
pub open spec fn stripped_segs(path: Seq<char>, strip: int) -> Seq<Seq<char>> {
    let gs = segments_of(path);
    if strip >= gs.len() {
        Seq::empty()
    } else {
        gs.skip(strip)
    }
}

/// The descriptor the hooks see for an entry: its full relative path,
/// the candidate absolute output path (after stripping), and the output
/// root.
pub open spec fn desc_of(e: ArchiveEntryV, strip: int, root: Seq<char>) -> MapArgsV {
    MapArgsV {
        rel: RelPathV { kind: entry_rel_kind(e.kind), parts: segments_of(e.path) },
        path: join_path(root, stripped_segs(e.path, strip)),
        output_dir: root,
    }
}

/// The engine's decision for one entry: validate, strip (an entry
/// consumed whole by stripping is skipped, not an error), filter
/// directories and files, map survivors, then dispatch on the kind.
/// Directories write nothing; unsupported kinds fail the whole plan.
pub open spec fn step_spec<H: EntryHooks>(
    h: &H,
    e: ArchiveEntryV,
    strip: int,
    root: Seq<char>,
) -> StepV {
    if !path_ok(e.path) {
        StepV::Fail(PlanErrV::NotRelative(e.path))
    } else if stripped_segs(e.path, strip).len() == 0 {
        StepV::Skip
    } else {
        let d = desc_of(e, strip, root);
        match e.kind {
            EntryKind::Directory => StepV::Skip,
            EntryKind::Regular => if h.keep(d) {
                StepV::Emit(
                    ActionV::WriteFile {
                        path: h.rename(d),
                        mode: match e.mode {
                            Some(m) => Some(normalized_mode(m)),
                            None => None,
                        },
                        data: e.data,
                    },
                )
            } else {
                StepV::Skip
            },
            EntryKind::Symlink => StepV::Emit(
                ActionV::WriteSymlink { path: h.rename(d), target: e.link },
            ),
            EntryKind::Other => StepV::Fail(PlanErrV::Unsupported(e.path)),
        }
    }
}

/// The plan for the first `n` entries: the actions in archive order, or
/// the first failure.
pub open spec fn plan_rec<H: EntryHooks>(
    h: &H,
    es: Seq<ArchiveEntryV>,
    n: int,
    strip: int,
    root: Seq<char>,
) -> Result<Seq<ActionV>, PlanErrV>
    decreases n,
{
    if n <= 0 {
        Ok(Seq::empty())
    } else {
        match plan_rec(h, es, n - 1, strip, root) {
            Err(e) => Err(e),
            Ok(acts) => match step_spec(h, es[n - 1], strip, root) {
                StepV::Fail(e) => Err(e),
                StepV::Skip => Ok(acts),
                StepV::Emit(a) => Ok(acts.push(a)),
            },
        }
    }
}

/// The plan for a whole decoded entry sequence.
pub open spec fn plan_spec<H: EntryHooks>(
    h: &H,
    es: Seq<ArchiveEntryV>,
    strip: int,
    root: Seq<char>,
) -> Result<Seq<ActionV>, PlanErrV> {
    plan_rec(h, es, es.len() as int, strip, root)
}

/// How a plan failure surfaces as the crate's error type.
pub open spec fn plan_err_matches(e: DecompressError, v: PlanErrV) -> bool {
    match v {
        PlanErrV::NotRelative(p) => e matches DecompressError::PathNotRelative(q) && q@ == p,
        PlanErrV::Unsupported(p) => e matches DecompressError::UnsupportedEntryType(q) && q@ == p,
    }
}

/// The failure a step would report. It depends on the entry and the
/// strip count alone — never on the output root or the hooks, which
/// only decide between skipping and writing.
pub open spec fn step_err(e: ArchiveEntryV, strip: int) -> Option<PlanErrV> {
    if !path_ok(e.path) {
        Some(PlanErrV::NotRelative(e.path))
    } else if stripped_segs(e.path, strip).len() == 0 {
        None
    } else if e.kind == EntryKind::Other {
        Some(PlanErrV::Unsupported(e.path))
    } else {
        None
    }
}

/// The first step failure among the first `n` entries, if any.
pub open spec fn first_err_rec(es: Seq<ArchiveEntryV>, n: int, strip: int) -> Option<PlanErrV>
    decreases n,
{
    if n <= 0 {
        None
    } else {
        match first_err_rec(es, n - 1, strip) {
            Some(v) => Some(v),
            None => step_err(es[n - 1], strip),
        }
    }
}

/// Whether planning a whole entry sequence succeeds: a pure function of
/// the entries and the strip count.
pub open spec fn plan_ok(es: Seq<ArchiveEntryV>, strip: int) -> bool {
    first_err_rec(es, es.len() as int, strip) is None
}

/// Whether a plan succeeds — and with which failure it fails — does not
/// depend on the output root or the hooks.
pub proof fn lemma_plan_err_root_free<H: EntryHooks>(
    h: &H,
    es: Seq<ArchiveEntryV>,
    n: int,
    strip: int,
    root: Seq<char>,
)
    requires
        0 <= n <= es.len(),
    ensures
        plan_rec(h, es, n, strip, root) is Ok <==> first_err_rec(es, n, strip) is None,
        plan_rec(h, es, n, strip, root) matches Err(v) ==> first_err_rec(es, n, strip) == Some(v),
    decreases n,
{
    if n > 0 {
        lemma_plan_err_root_free(h, es, n - 1, strip, root);
        match step_spec(h, es[n - 1], strip, root) {
            StepV::Fail(v) => {
                assert(step_err(es[n - 1], strip) == Some(v));
            },
            StepV::Skip => {
                assert(step_err(es[n - 1], strip) is None);
            },
            StepV::Emit(_) => {
                assert(step_err(es[n - 1], strip) is None);
            },
        }
    }
}

/// Once a step has failed, the first failure of any longer prefix is
/// that one.
proof fn lemma_first_err_propagates(
    es: Seq<ArchiveEntryV>,
    i: int,
    n: int,
    strip: int,
    v: PlanErrV,
)
    requires
        0 <= i < n <= es.len(),
        first_err_rec(es, i + 1, strip) == Some(v),
    ensures
        first_err_rec(es, n, strip) == Some(v),
    decreases n - i,
{
    if n > i + 1 {
        lemma_first_err_propagates(es, i, n - 1, strip, v);
    }
}

/// Check a decoded entry sequence for the failures planning would hit —
/// the first invalid path or unsupported entry kind — without needing
/// an output root or hooks.
pub fn plan_check(entries: &Vec<ArchiveEntry>, strip: usize) -> (r: Option<DecompressError>)
    ensures
        r is None <==> plan_ok(entries.deep_view(), strip as int),
        r matches Some(e) ==> (first_err_rec(
            entries.deep_view(),
            entries.len() as int,
            strip as int,
        ) matches Some(v) && plan_err_matches(e, v)),
{
    let ghost es = entries.deep_view();
    let mut i: usize = 0;
    while i < entries.len()
        invariant
            i <= entries.len(),
            es == entries.deep_view(),
            first_err_rec(es, i as int, strip as int) is None,
        decreases entries.len() - i,
    {
        let ghost ev = es[i as int];
        let e = &entries[i];
        proof {
            assert(ev == e.deep_view());
        }
        match RelPath::new(RelPathKind::File, e.path.as_str()) {
            Err(err) => {
                proof {
                    assert(step_err(ev, strip as int) == Some(PlanErrV::NotRelative(ev.path)));
                    assert(first_err_rec(es, i + 1, strip as int) == Some(
                        PlanErrV::NotRelative(ev.path),
                    ));
                    lemma_first_err_propagates(
                        es,
                        i as int,
                        es.len() as int,
                        strip as int,
                        PlanErrV::NotRelative(ev.path),
                    );
                }
                return Some(err);
            },
            Ok(rp) => {
                if rp.parts().len() <= strip {
                    proof {
                        assert(stripped_segs(ev.path, strip as int).len() == 0);
                        assert(step_err(ev, strip as int) is None);
                    }
                } else if e.kind == EntryKind::Other {
                    proof {
                        assert(step_err(ev, strip as int) == Some(
                            PlanErrV::Unsupported(ev.path),
                        ));
                        assert(first_err_rec(es, i + 1, strip as int) == Some(
                            PlanErrV::Unsupported(ev.path),
                        ));
                        lemma_first_err_propagates(
                            es,
                            i as int,
                            es.len() as int,
                            strip as int,
                            PlanErrV::Unsupported(ev.path),
                        );
                    }
                    return Some(DecompressError::UnsupportedEntryType(e.path.clone()));
                } else {
                    proof {
                        assert(step_err(ev, strip as int) is None);
                    }
                }
            },
        }
        i += 1;
        proof {
            assert(first_err_rec(es, i as int, strip as int) is None);
        }
    }
    None
}

/// Once a step fails, the plan for any longer prefix carries that
/// failure.
proof fn lemma_plan_err_propagates<H: EntryHooks>(
    h: &H,
    es: Seq<ArchiveEntryV>,
    i: int,
    n: int,
    strip: int,
    root: Seq<char>,
    v: PlanErrV,
)
    requires
        0 <= i < n <= es.len(),
        plan_rec(h, es, i + 1, strip, root) == Err::<Seq<ActionV>, PlanErrV>(v),
    ensures
        plan_rec(h, es, n, strip, root) == Err::<Seq<ActionV>, PlanErrV>(v),
    decreases n - i,
{
    if n > i + 1 {
        lemma_plan_err_propagates(h, es, i, n - 1, strip, root, v);
    }
}

/// Plan the extraction of a decoded entry sequence into the absolutized
/// output directory `to_abs`, stripping `strip` leading segments from
/// every entry and consulting the hooks. Returns the planned writes in
/// archive order, or the first failure; nothing is written here.
pub fn extract_entries<H: EntryHooks>(
    h: &H,
    entries: Vec<ArchiveEntry>,
    to_abs: &str,
    strip: usize,
) -> (r: Result<Vec<Action>, DecompressError>)
    requires
        abs_path(to_abs@),
    ensures
        r is Ok <==> plan_spec(h, entries.deep_view(), strip as int, to_abs@) is Ok,
        r matches Ok(acts) ==> plan_spec(h, entries.deep_view(), strip as int, to_abs@) == Ok::<
            Seq<ActionV>,
            PlanErrV,
        >(acts.deep_view()),
        r matches Err(e) ==> (plan_spec(h, entries.deep_view(), strip as int, to_abs@) matches Err(
            v,
        ) && plan_err_matches(e, v)),
{
    let ghost es = entries.deep_view();
    let n = entries.len();
    let mut acts: Vec<Action> = Vec::new();
    let mut i: usize = 0;
    proof {
        assert(acts.deep_view() =~= Seq::<ActionV>::empty());
    }
    while i < n
        invariant
            i <= n,
            n == entries.len(),
            es == entries.deep_view(),
            abs_path(to_abs@),
            plan_rec(h, es, i as int, strip as int, to_abs@) == Ok::<Seq<ActionV>, PlanErrV>(
                acts.deep_view(),
            ),
        decreases n - i,
    {
        let ghost pre = acts.deep_view();
        let ghost ev = es[i as int];
        let e = &entries[i];
        proof {
            assert(ev == e.deep_view());
        }
        let kind_rp = if e.kind == EntryKind::Directory {
            RelPathKind::Directory
        } else {
            RelPathKind::File
        };
        let ghost step = step_spec(h, ev, strip as int, to_abs@);
        match RelPath::new(kind_rp, e.path.as_str()) {
            Err(err) => {
                proof {
                    assert(step == StepV::Fail(PlanErrV::NotRelative(ev.path)));
                    lemma_plan_err_propagates(
                        h,
                        es,
                        i as int,
                        es.len() as int,
                        strip as int,
                        to_abs@,
                        PlanErrV::NotRelative(ev.path),
                    );
                }
                return Err(err);
            },
            Ok(rp) => {
                if rp.parts().len() <= strip {
                    proof {
                        assert(stripped_segs(ev.path, strip as int).len() == 0);
                        assert(step == StepV::Skip);
                    }
                } else {
                    let cand = join_parts_from(to_abs, rp.parts(), strip);
                    proof {
                        assert(rp@.parts.skip(strip as int) == stripped_segs(
                            ev.path,
                            strip as int,
                        ));
                        lemma_join_path_abs(to_abs@, stripped_segs(ev.path, strip as int));
                    }
                    let desc = MapArgs::new(&rp, cand.as_str(), to_abs);
                    let ghost dv = desc_of(ev, strip as int, to_abs@);
                    proof {
                        assert(desc@ =~= dv);
                    }
                    match e.kind {
                        EntryKind::Directory => {
                            if h.filter(&desc) {
                                let _mapped = h.map(&desc);
                            }
                            proof {
                                assert(step == StepV::Skip);
                            }
                        },
                        EntryKind::Regular => {
                            if h.filter(&desc) {
                                let outp = h.map(&desc);
                                let mode = match e.mode {
                                    Some(m) => Some(normalize_mode(m)),
                                    None => None,
                                };
                                let data = e.data.clone();
                                acts.push(Action::WriteFile { path: outp, mode, data });
                                proof {
                                    assert(acts.deep_view() =~= pre.push(
                                        ActionV::WriteFile {
                                            path: h.rename(dv),
                                            mode: match ev.mode {
                                                Some(m) => Some(normalized_mode(m)),
                                                None => None,
                                            },
                                            data: ev.data,
                                        },
                                    ));
                                }
                            } else {
                                proof {
                                    assert(step == StepV::Skip);
                                }
                            }
                        },
                        EntryKind::Symlink => {
                            let outp = h.map(&desc);
                            let target = e.link.clone();
                            acts.push(Action::WriteSymlink { path: outp, target });
                            proof {
                                assert(acts.deep_view() =~= pre.push(
                                    ActionV::WriteSymlink { path: h.rename(dv), target: ev.link },
                                ));
                            }
                        },
                        EntryKind::Other => {
                            proof {
                                assert(step == StepV::Fail(PlanErrV::Unsupported(ev.path)));
                                lemma_plan_err_propagates(
                                    h,
                                    es,
                                    i as int,
                                    es.len() as int,
                                    strip as int,
                                    to_abs@,
                                    PlanErrV::Unsupported(ev.path),
                                );
                            }
                            return Err(DecompressError::UnsupportedEntryType(e.path.clone()));
                        },
                    }
                }
            },
        }
        i += 1;
        proof {
            assert(plan_rec(h, es, i as int, strip as int, to_abs@) == Ok::<
                Seq<ActionV>,
                PlanErrV,
            >(acts.deep_view()));
        }
    }
    Ok(acts)
}

/// The output paths of the planned file writes, in order; directories
/// and symlinks are not listed, matching the result contract of an
/// extraction.
pub open spec fn written_files(acts: Seq<ActionV>) -> Seq<Seq<char>>
    decreases acts.len(),
{
    if acts.len() == 0 {
        Seq::empty()
    } else {
        let rest = written_files(acts.drop_last());
        match acts.last() {
            ActionV::WriteFile { path, .. } => rest.push(path),
            ActionV::WriteSymlink { .. } => rest,
        }
    }
}

/// Collect the file paths a plan writes, in order.
pub fn files_of(acts: &Vec<Action>) -> (r: Vec<String>)
    ensures
        r.deep_view() == written_files(acts.deep_view()),
{
    let mut out: Vec<String> = Vec::new();
    let mut i: usize = 0;
    proof {
        assert(acts.deep_view().subrange(0, 0) =~= Seq::<ActionV>::empty());
        assert(out.deep_view() =~= Seq::<Seq<char>>::empty());
    }
    while i < acts.len()
        invariant
            i <= acts.len(),
            out.deep_view() == written_files(acts.deep_view().subrange(0, i as int)),
        decreases acts.len() - i,
    {
        let ghost pre = acts.deep_view().subrange(0, i as int);
        let ghost preout = out.deep_view();
        match &acts[i] {
            Action::WriteFile { path, .. } => {
                out.push(path.clone());
                proof {
                    assert(out.deep_view() =~= preout.push(path@));
                }
            },
            Action::WriteSymlink { .. } => {},
        }
        i += 1;
        proof {
            let sub = acts.deep_view().subrange(0, i as int);
            assert(sub.drop_last() =~= pre);
            assert(sub.last() == acts.deep_view()[i - 1]);
        }
    }
    proof {
        assert(acts.deep_view().subrange(0, acts.len() as int) =~= acts.deep_view());
    }
    out
}

} // verus!
