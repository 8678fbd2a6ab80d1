//! Character-sequence helpers shared by the path model, the extraction
//! engine and the registry: separator rules, case folding, splitting a
//! path into segments, and joining segments onto a base directory.

use vstd::prelude::*;

verus! {

/// `/` always separates path segments; `\` is also accepted as an input
/// separator, so archives written on any platform parse the same way.
pub open spec fn is_sep(c: char) -> bool {
    c == '/' || c == '\\'
}

/// ASCII lower-casing of one character (extension matching is
/// case-insensitive).
pub open spec fn lower_char(c: char) -> char {
    if 'A' <= c && c <= 'Z' {
        ((c as u8) + 32) as char
    } else {
        c
    }
}

pub open spec fn lower_seq(s: Seq<char>) -> Seq<char> {
    Seq::new(s.len(), |i: int| lower_char(s[i]))
}

pub open spec fn seq_ends_with(s: Seq<char>, suf: Seq<char>) -> bool {
    suf.len() <= s.len() && s.subrange(s.len() - suf.len(), s.len() as int) == suf
}

/// Case-insensitive suffix test: the candidate is lower-cased, the suffix
/// is expected to be lower-case already.
pub open spec fn ends_with_ci(s: Seq<char>, suf: Seq<char>) -> bool {
    seq_ends_with(lower_seq(s), suf)
}

pub open spec fn seq_has_char(s: Seq<char>, c: char) -> bool {
    exists|i: int| 0 <= i < s.len() && s[i] == c
}

/// A path string is absolute (for the host) when it is rooted at `/`.
pub open spec fn abs_path(s: Seq<char>) -> bool {
    s.len() > 0 && s[0] == '/'
}

/// An absolute path already in canonical form: rooted, `/`-separated
/// with no doubled or trailing separator, no backslash, and no `.` or
/// `..` segment. Absolutizing such a path changes nothing.
pub open spec fn clean_abs_path(s: Seq<char>) -> bool {
    &&& abs_path(s)
    &&& s.len() == 1 || s.last() != '/'
    &&& forall|i: int| 0 < i < s.len() ==> !(#[trigger] s[i] == '/' && s[i - 1] == '/')
    &&& forall|i: int| 0 <= i < s.len() ==> #[trigger] s[i] != '\\'
    &&& forall|i: int| 0 <= i < segments_of(s).len() ==> !is_special_seg(#[trigger] segments_of(s)[i])
}

// ---------------------------------------------------------------------
// Splitting a path into segments.
// ---------------------------------------------------------------------

/// One pass over the characters: `cur` is the segment being read, `acc`
/// the segments already read. Empty segments (doubled or trailing
/// separators) are not segments.
pub open spec fn split_acc(s: Seq<char>, cur: Seq<char>, acc: Seq<Seq<char>>) -> Seq<Seq<char>>
    decreases s.len(),
{
    if s.len() == 0 {
        if cur.len() == 0 {
            acc
        } else {
            acc.push(cur)
        }
    } else if is_sep(s[0]) {
        split_acc(
            s.drop_first(),
            Seq::empty(),
            if cur.len() == 0 {
                acc
            } else {
                acc.push(cur)
            },
        )
    } else {
        split_acc(s.drop_first(), cur.push(s[0]), acc)
    }
}

/// The segments of a path string, in order.
pub open spec fn segments_of(s: Seq<char>) -> Seq<Seq<char>> {
    split_acc(s, Seq::empty(), Seq::empty())
}

/// A segment that is safe to place under an output directory: non-empty,
/// free of separators, and neither `.` nor `..`.
pub open spec fn seg_safe(g: Seq<char>) -> bool {
    &&& g.len() > 0
    &&& forall|i: int| 0 <= i < g.len() ==> !is_sep(g[i])
    &&& g != seq!['.']
    &&& g != seq!['.', '.']
}

pub open spec fn segs_safe(gs: Seq<Seq<char>>) -> bool {
    forall|i: int| 0 <= i < gs.len() ==> seg_safe(#[trigger] gs[i])
}

/// `.` or `..`: the segments a relative archive path may not contain.
pub open spec fn is_special_seg(g: Seq<char>) -> bool {
    g == seq!['.'] || g == seq!['.', '.']
}

/// The validity rule for an archive-internal path: not rooted, no drive
/// marker in its first segment, and no `.` or `..` segment anywhere.
pub open spec fn path_ok(s: Seq<char>) -> bool {
    &&& s.len() > 0 ==> !is_sep(s[0])
    &&& forall|i: int| 0 <= i < segments_of(s).len() ==> !is_special_seg(#[trigger] segments_of(s)[i])
    &&& segments_of(s).len() > 0 ==> !seq_has_char(segments_of(s)[0], ':')
}

// ---------------------------------------------------------------------
// Joining segments.
// ---------------------------------------------------------------------

/// Append one segment to a path, inserting `/` unless the path already
/// ends with one; an empty base yields the segment itself.
pub open spec fn join_one(p: Seq<char>, g: Seq<char>) -> Seq<char> {
    if p.len() == 0 {
        g
    } else if p.last() == '/' {
        p + g
    } else {
        p + seq!['/'] + g
    }
}

/// A base directory with every segment appended in order.
pub open spec fn join_path(base: Seq<char>, gs: Seq<Seq<char>>) -> Seq<char>
    decreases gs.len(),
{
    if gs.len() == 0 {
        base
    } else {
        join_one(join_path(base, gs.drop_last()), gs.last())
    }
}

/// The canonical forward-slash-joined form of a segment list (no base).
pub open spec fn joined_segs(gs: Seq<Seq<char>>) -> Seq<char>
    decreases gs.len(),
{
    if gs.len() == 0 {
        Seq::empty()
    } else if gs.len() == 1 {
        gs[0]
    } else {
        joined_segs(gs.drop_last()) + seq!['/'] + gs.last()
    }
}

/// Containment: `p` names something strictly inside `root`, reached only
/// through safe segments, so no `..`, rooted or drive-marked remainder
/// can lead back out.
pub open spec fn safely_within(p: Seq<char>, root: Seq<char>) -> bool {
    exists|gs: Seq<Seq<char>>| gs.len() > 0 && segs_safe(gs) && p == join_path(root, gs)
}

// ---------------------------------------------------------------------
// Lemmas.
// ---------------------------------------------------------------------

/// A raw segment as the splitter produces it: non-empty, no separator.
pub open spec fn raw_seg_wf(g: Seq<char>) -> bool {
    g.len() > 0 && forall|j: int| 0 <= j < g.len() ==> !is_sep(g[j])
}

pub open spec fn raw_segs_wf(gs: Seq<Seq<char>>) -> bool {
    forall|i: int| 0 <= i < gs.len() ==> raw_seg_wf(#[trigger] gs[i])
}

/// Every segment the splitter produces is non-empty and free of
/// separators.
proof fn lemma_split_acc_wf(s: Seq<char>, cur: Seq<char>, acc: Seq<Seq<char>>)
    requires
        raw_segs_wf(acc),
        forall|j: int| 0 <= j < cur.len() ==> !is_sep(cur[j]),
    ensures
        raw_segs_wf(split_acc(s, cur, acc)),
    decreases s.len(),
{
    let pushed = acc.push(cur);
    if cur.len() > 0 {
        assert forall|i: int| 0 <= i < pushed.len() implies raw_seg_wf(#[trigger] pushed[i]) by {
            if i < acc.len() {
                assert(pushed[i] == acc[i]);
            } else {
                assert(pushed[i] == cur);
            }
        }
        assert(raw_segs_wf(pushed));
    }
    if s.len() == 0 {
    } else if is_sep(s[0]) {
        let acc2 = if cur.len() == 0 {
            acc
        } else {
            pushed
        };
        lemma_split_acc_wf(s.drop_first(), Seq::empty(), acc2);
    } else {
        let cur2 = cur.push(s[0]);
        assert forall|j: int| 0 <= j < cur2.len() implies !is_sep(cur2[j]) by {
            if j < cur.len() {
                assert(cur2[j] == cur[j]);
            } else {
                assert(cur2[j] == s[0]);
            }
        }
        lemma_split_acc_wf(s.drop_first(), cur2, acc);
    }
}

/// The segments of any path string are non-empty and separator-free.
pub proof fn lemma_segments_wf(s: Seq<char>)
    ensures
        raw_segs_wf(segments_of(s)),
{
    lemma_split_acc_wf(s, Seq::empty(), Seq::empty());
}

/// For a valid path, the segments are safe to join under a directory.
pub proof fn lemma_path_ok_segs_safe(s: Seq<char>)
    requires
        path_ok(s),
    ensures
        segs_safe(segments_of(s)),
{
    lemma_segments_wf(s);
    assert forall|i: int| 0 <= i < segments_of(s).len() implies seg_safe(
        #[trigger] segments_of(s)[i],
    ) by {
        assert(raw_seg_wf(segments_of(s)[i]));
        assert(!is_special_seg(segments_of(s)[i]));
    }
}

/// Joining keeps an absolute base absolute.
pub proof fn lemma_join_path_abs(base: Seq<char>, gs: Seq<Seq<char>>)
    requires
        abs_path(base),
    ensures
        abs_path(join_path(base, gs)),
    decreases gs.len(),
{
    if gs.len() > 0 {
        lemma_join_path_abs(base, gs.drop_last());
    }
}

/// Joining one or more segments onto a non-empty base lands strictly
/// inside it.
pub proof fn lemma_join_path_within(base: Seq<char>, gs: Seq<Seq<char>>)
    requires
        base.len() > 0,
        gs.len() > 0,
        segs_safe(gs),
    ensures
        safely_within(join_path(base, gs), base),
{
    assert(gs.len() > 0 && segs_safe(gs) && join_path(base, gs) == join_path(base, gs));
}

// ---------------------------------------------------------------------
// Executable counterparts.
// ---------------------------------------------------------------------

pub fn sep_char(c: char) -> (r: bool)
    ensures
        r == is_sep(c),
{
    c == '/' || c == '\\'
}

pub fn lower_char_x(c: char) -> (r: char)
    ensures
        r == lower_char(c),
{
    if 'A' <= c && c <= 'Z' {
        ((c as u8) + 32) as char
    } else {
        c
    }
}

/// Character-wise string equality, stated over the views.
pub fn str_eq(a: &str, b: &str) -> (r: bool)
    ensures
        r == (a@ == b@),
{
    let n = a.unicode_len();
    if n != b.unicode_len() {
        proof {
            assert(a@ != b@);
        }
        return false;
    }
    let mut i: usize = 0;
    while i < n
        invariant
            i <= n,
            n == a@.len(),
            n == b@.len(),
            forall|j: int| 0 <= j < i ==> a@[j] == b@[j],
        decreases n - i,
    {
        if a.get_char(i) != b.get_char(i) {
            return false;
        }
        i += 1;
    }
    proof {
        assert(a@ =~= b@);
    }
    true
}

/// Case-insensitive suffix test; the suffix is taken as already
/// lower-case.
pub fn str_ends_with_ci(s: &str, suf: &str) -> (r: bool)
    ensures
        r == ends_with_ci(s@, suf@),
{
    let n = s.unicode_len();
    let m = suf.unicode_len();
    if m > n {
        return false;
    }
    let mut j: usize = 0;
    while j < m
        invariant
            j <= m <= n,
            n == s@.len(),
            m == suf@.len(),
            forall|k: int| 0 <= k < j ==> lower_seq(s@)[n - m + k] == suf@[k],
        decreases m - j,
    {
        let c = lower_char_x(s.get_char(n - m + j));
        if c != suf.get_char(j) {
            proof {
                assert(lower_seq(s@)[n - m + j] != suf@[j as int]);
                assert(lower_seq(s@).subrange(n - m, n as int)[j as int] != suf@[j as int]);
            }
            return false;
        }
        j += 1;
    }
    proof {
        assert(lower_seq(s@).subrange(n - m, n as int) =~= suf@);
    }
    true
}

/// Case-sensitive suffix test, stated over the views.
pub fn str_ends_with(s: &str, suf: &str) -> (r: bool)
    ensures
        r == seq_ends_with(s@, suf@),
{
    let n = s.unicode_len();
    let m = suf.unicode_len();
    if m > n {
        return false;
    }
    let mut j: usize = 0;
    while j < m
        invariant
            j <= m <= n,
            n == s@.len(),
            m == suf@.len(),
            forall|k: int| 0 <= k < j ==> s@[n - m + k] == suf@[k],
        decreases m - j,
    {
        if s.get_char(n - m + j) != suf.get_char(j) {
            proof {
                assert(s@.subrange(n - m, n as int)[j as int] != suf@[j as int]);
            }
            return false;
        }
        j += 1;
    }
    proof {
        assert(s@.subrange(n - m, n as int) =~= suf@);
    }
    true
}

/// Whether the string holds the given character anywhere.
pub fn str_has_char(s: &str, c: char) -> (r: bool)
    ensures
        r == seq_has_char(s@, c),
{
    let n = s.unicode_len();
    let mut i: usize = 0;
    while i < n
        invariant
            i <= n,
            n == s@.len(),
            forall|j: int| 0 <= j < i ==> s@[j] != c,
        decreases n - i,
    {
        if s.get_char(i) == c {
            return true;
        }
        i += 1;
    }
    false
}

/// Whether the string is exactly `.` or `..`.
pub fn str_is_special(s: &str) -> (r: bool)
    ensures
        r == is_special_seg(s@),
{
    let n = s.unicode_len();
    if n == 1 && s.get_char(0) == '.' {
        proof {
            assert(s@ =~= seq!['.']);
        }
        true
    } else if n == 2 && s.get_char(0) == '.' && s.get_char(1) == '.' {
        proof {
            assert(s@ =~= seq!['.', '.']);
        }
        true
    } else {
        proof {
            if s@ == seq!['.'] {
                assert(s@.len() == 1 && s@[0] == '.');
            }
            if s@ == seq!['.', '.'] {
                assert(s@.len() == 2 && s@[0] == '.' && s@[1] == '.');
            }
        }
        false
    }
}

/// Split a path string into its segments.
pub fn split_segments(s: &str) -> (r: Vec<String>)
    ensures
        r.deep_view() == segments_of(s@),
{
    let n = s.unicode_len();
    let mut parts: Vec<String> = Vec::new();
    let mut start: usize = 0;
    let mut i: usize = 0;
    proof {
        assert(s@.skip(0) =~= s@);
        assert(s@.subrange(0, 0) =~= Seq::<char>::empty());
        assert(parts.deep_view() =~= Seq::<Seq<char>>::empty());
    }
    while i < n
        invariant
            start <= i <= n,
            n == s@.len(),
            forall|j: int| start <= j < i ==> !is_sep(s@[j]),
            split_acc(s@.skip(i as int), s@.subrange(start as int, i as int), parts.deep_view())
                == segments_of(s@),
        decreases n - i,
    {
        let ghost prev = parts.deep_view();
        let ghost cur = s@.subrange(start as int, i as int);
        let c = s.get_char(i);
        if sep_char(c) {
            if start < i {
                let part = s.substring_char(start, i).to_owned();
                parts.push(part);
                proof {
                    assert(parts.deep_view() =~= prev.push(cur));
                }
            }
            start = i + 1;
        }
        i += 1;
        proof {
            assert(s@.skip(i - 1).drop_first() =~= s@.skip(i as int));
            assert(s@.skip(i - 1)[0] == s@[i - 1]);
            if !is_sep(c) {
                assert(cur.push(s@[i - 1]) =~= s@.subrange(start as int, i as int));
            } else {
                assert(s@.subrange(start as int, i as int) =~= Seq::<char>::empty());
            }
        }
    }
    if start < n {
        let ghost prev = parts.deep_view();
        let ghost cur = s@.subrange(start as int, n as int);
        let part = s.substring_char(start, n).to_owned();
        parts.push(part);
        proof {
            assert(s@.skip(n as int) =~= Seq::<char>::empty());
            assert(parts.deep_view() =~= prev.push(cur));
        }
    } else {
        proof {
            assert(s@.skip(n as int) =~= Seq::<char>::empty());
            assert(s@.subrange(start as int, n as int) =~= Seq::<char>::empty());
        }
    }
    parts
}

/// Append one segment to a path string, inserting `/` as `join_one` says.
pub fn push_seg(p: String, g: &str) -> (r: String)
    ensures
        r@ == join_one(p@, g@),
{
    proof {
        reveal_strlit("/");
        assert("/"@ =~= seq!['/']);
    }
    let n = p.as_str().unicode_len();
    if n == 0 {
        g.to_owned()
    } else if p.as_str().get_char(n - 1) == '/' {
        p.concat(g)
    } else {
        p.concat("/").concat(g)
    }
}

/// Join the segments from index `from` on onto a base directory.
pub fn join_parts_from(base: &str, parts: &Vec<String>, from: usize) -> (r: String)
    requires
        from <= parts.len(),
    ensures
        r@ == join_path(base@, parts.deep_view().skip(from as int)),
{
    let mut out = base.to_owned();
    let mut j: usize = from;
    proof {
        assert(parts.deep_view().subrange(from as int, from as int) =~= Seq::<Seq<char>>::empty());
    }
    while j < parts.len()
        invariant
            from <= j <= parts.len(),
            out@ == join_path(base@, parts.deep_view().subrange(from as int, j as int)),
        decreases parts.len() - j,
    {
        let ghost pre = parts.deep_view().subrange(from as int, j as int);
        out = push_seg(out, parts[j].as_str());
        j += 1;
        proof {
            let sub = parts.deep_view().subrange(from as int, j as int);
            assert(sub.drop_last() =~= pre);
            assert(sub.last() == parts.deep_view()[j - 1]);
        }
    }
    proof {
        assert(parts.deep_view().subrange(from as int, parts.len() as int) =~= parts.deep_view()
            .skip(from as int));
    }
    out
}

/// The canonical `/`-joined form of a part list.
pub fn join_value(parts: &Vec<String>) -> (r: String)
    ensures
        r@ == joined_segs(parts.deep_view()),
{
    let mut out = String::new();
    let mut j: usize = 0;
    proof {
        reveal_strlit("/");
        assert("/"@ =~= seq!['/']);
        assert(parts.deep_view().subrange(0, 0) =~= Seq::<Seq<char>>::empty());
    }
    while j < parts.len()
        invariant
            j <= parts.len(),
            out@ == joined_segs(parts.deep_view().subrange(0, j as int)),
        decreases parts.len() - j,
    {
        proof {
            reveal_strlit("/");
            assert("/"@ =~= seq!['/']);
        }
        let ghost pre = parts.deep_view().subrange(0, j as int);
        if j > 0 {
            out = out.concat("/");
        }
        out = out.concat(parts[j].as_str());
        j += 1;
        proof {
            let sub = parts.deep_view().subrange(0, j as int);
            assert(sub.drop_last() =~= pre);
            assert(sub.last() == parts.deep_view()[j - 1]);
            if j == 1 {
                assert(joined_segs(sub) == sub[0]);
            }
        }
    }
    proof {
        assert(parts.deep_view().subrange(0, parts.len() as int) =~= parts.deep_view());
    }
    out
}

/// The index of the last occurrence of `c`, or `-1`.
pub open spec fn last_char_index(s: Seq<char>, c: char) -> int
    decreases s.len(),
{
    if s.len() == 0 {
        -1
    } else if s.last() == c {
        s.len() - 1
    } else {
        last_char_index(s.drop_last(), c)
    }
}

/// The index of the last separator, or `-1`.
pub open spec fn last_sep_index(s: Seq<char>) -> int
    decreases s.len(),
{
    if s.len() == 0 {
        -1
    } else if is_sep(s.last()) {
        s.len() - 1
    } else {
        last_sep_index(s.drop_last())
    }
}

pub proof fn lemma_last_char_index_bounds(s: Seq<char>, c: char)
    ensures
        -1 <= last_char_index(s, c) < s.len(),
    decreases s.len(),
{
    if s.len() > 0 && s.last() != c {
        lemma_last_char_index_bounds(s.drop_last(), c);
    }
}

pub proof fn lemma_last_sep_index_bounds(s: Seq<char>)
    ensures
        -1 <= last_sep_index(s) < s.len(),
    decreases s.len(),
{
    if s.len() > 0 && !is_sep(s.last()) {
        lemma_last_sep_index_bounds(s.drop_last());
    }
}

/// Find the last occurrence of `c`.
pub fn rfind_char(s: &str, c: char) -> (r: Option<usize>)
    ensures
        r matches Some(i) ==> i < s@.len() && last_char_index(s@, c) == i,
        r is None ==> last_char_index(s@, c) == -1,
{
    let n = s.unicode_len();
    let mut i: usize = n;
    proof {
        assert(s@.subrange(0, n as int) =~= s@);
    }
    while i > 0
        invariant
            i <= n,
            n == s@.len(),
            last_char_index(s@, c) == last_char_index(s@.subrange(0, i as int), c),
        decreases i,
    {
        i -= 1;
        let ghost sub = s@.subrange(0, i + 1);
        proof {
            assert(sub.drop_last() =~= s@.subrange(0, i as int));
            assert(sub.last() == s@[i as int]);
        }
        if s.get_char(i) == c {
            proof {
                assert(last_char_index(sub, c) == i);
            }
            return Some(i);
        }
    }
    proof {
        assert(s@.subrange(0, 0) =~= Seq::<char>::empty());
    }
    None
}

/// Find the last separator (`/` or `\`).
pub fn rfind_sep(s: &str) -> (r: Option<usize>)
    ensures
        r matches Some(i) ==> i < s@.len() && last_sep_index(s@) == i,
        r is None ==> last_sep_index(s@) == -1,
{
    let n = s.unicode_len();
    let mut i: usize = n;
    proof {
        assert(s@.subrange(0, n as int) =~= s@);
    }
    while i > 0
        invariant
            i <= n,
            n == s@.len(),
            last_sep_index(s@) == last_sep_index(s@.subrange(0, i as int)),
        decreases i,
    {
        i -= 1;
        let ghost sub = s@.subrange(0, i + 1);
        proof {
            assert(sub.drop_last() =~= s@.subrange(0, i as int));
            assert(sub.last() == s@[i as int]);
        }
        if sep_char(s.get_char(i)) {
            proof {
                assert(last_sep_index(sub) == i);
            }
            return Some(i);
        }
    }
    proof {
        assert(s@.subrange(0, 0) =~= Seq::<char>::empty());
    }
    None
}

/// A suffix of a safe segment list is safe.
pub proof fn lemma_segs_safe_skip(gs: Seq<Seq<char>>, k: int)
    requires
        segs_safe(gs),
        0 <= k <= gs.len(),
    ensures
        segs_safe(gs.skip(k)),
{
    assert forall|i: int| 0 <= i < gs.skip(k).len() implies seg_safe(#[trigger] gs.skip(k)[i]) by {
        assert(gs.skip(k)[i] == gs[k + i]);
    }
}

} // verus!
