//! The index structure of CUSUM binary segmentation: which segments of the
//! return series are examined, which proposed breaks are accepted, and the
//! regimes either side of each accepted break.
//!
//! The statistic that proposes a break inside a segment, and whether it
//! exceeds the threshold, are computed by the caller and handed in through a
//! closure; everything decided on indices is decided here.

use vstd::prelude::*;
use crate::anom::cusum_break::BreakKind;

verus! {

/// Whether the answer `c`, given for the segment `[lo, hi)`, is accepted as a
/// break: it proposes a position `t` strictly inside the segment, its
/// statistic exceeds the threshold, and it leaves at least `m` returns on
/// each side.
pub open spec fn accepts(c: Option<(usize, bool)>, lo: int, hi: int, m: int) -> bool {
    match c {
        Some((t, exceeds)) => exceeds && 0 < t && t < hi - lo && t >= m && hi - lo - t >= m,
        None => false,
    }
}

/// Whether the segment `[lo, hi)` is long enough to be examined: it holds
/// at least `2m` returns.
pub open spec fn examined(lo: int, hi: int, m: int) -> bool {
    hi - lo >= 2 * m
}

/// The entries of `b` increase strictly.
pub open spec fn increasing(b: Seq<usize>) -> bool {
    forall|a: int, c: int| 0 <= a < c < b.len() ==> b[a] < b[c]
}

/// `b` lists the bounds of a partition of `[0, n)` into segments: it starts
/// at 0, ends at `n` and increases strictly.
pub open spec fn partitions(b: Seq<usize>, n: usize) -> bool {
    &&& b.len() >= 1
    &&& b[0] == 0
    &&& b.last() == n
    &&& increasing(b)
}

/// The length of segment `k` of the partition `b`.
pub open spec fn seg_len(b: Seq<usize>, k: int) -> int {
    b[k + 1] - b[k]
}

/// Every segment of the partition `b` holds at least `m` returns.
pub open spec fn segments_at_least(b: Seq<usize>, m: usize) -> bool {
    forall|k: int| 0 <= k < b.len() - 1 ==> #[trigger] seg_len(b, k) >= m
}

/// The segment `[lo, hi)` is left whole: it is too short to be examined, or
/// an answer the closure `f` gives for it is refused.
pub open spec fn left_whole<F: Fn(usize, usize) -> Option<(usize, bool)>>(
    f: F,
    lo: usize,
    hi: usize,
    m: usize,
) -> bool {
    ||| !examined(lo as int, hi as int, m as int)
    ||| exists|c: Option<(usize, bool)>|
        #[trigger] call_ensures(f, (lo, hi), c) && !accepts(c, lo as int, hi as int, m as int)
}

/// Bound `k` of the partition `b` was accepted as the break the closure `f`
/// proposed for the segment `origin`, a segment that was examined and spans
/// both neighbours of the bound.
pub open spec fn found_in<F: Fn(usize, usize) -> Option<(usize, bool)>>(
    f: F,
    b: Seq<usize>,
    origin: (usize, usize),
    k: int,
    m: usize,
) -> bool {
    let lo = origin.0;
    let hi = origin.1;
    let answer = Some(((b[k] - lo) as usize, true));
    &&& lo <= b[k - 1]
    &&& b[k + 1] <= hi
    &&& examined(lo as int, hi as int, m as int)
    &&& call_ensures(f, (lo, hi), answer)
    &&& accepts(answer, lo as int, hi as int, m as int)
}

/// The outcome of a binary segmentation of `[0, n)`.
pub struct Segmentation {
    /// The bounds of the final segments: 0, the accepted breaks in
    /// increasing order, and `n`.
    pub bounds: Vec<usize>,
    /// For each bound, the segment in which it was introduced (the whole
    /// series for 0 and `n`).
    pub origins: Vec<(usize, usize)>,
}

/// The facts about `Seq::insert` at position `i + 1` that the segmentation
/// uses, for the bounds and their origins alike.
proof fn lemma_insert_after<T>(s: Seq<T>, i: int, x: T)
    requires
        0 <= i < s.len(),
    ensures
        s.insert(i + 1, x).len() == s.len() + 1,
        forall|k: int| 0 <= k <= i ==> #[trigger] s.insert(i + 1, x)[k] == s[k],
        s.insert(i + 1, x)[i + 1] == x,
        forall|k: int| i + 1 <= k < s.len() ==> s.insert(i + 1, x)[k + 1] == #[trigger] s[k],
{
    s.insert_ensures(i + 1, x);
}

/// What holds of the bounds and origins of a segmentation in progress: they
/// partition `[0, n)`, the segments are long enough once a break has been
/// accepted, and every break was found in a segment around it.
#[verifier::opaque]
pub open spec fn well_formed<F: Fn(usize, usize) -> Option<(usize, bool)>>(
    f: F,
    b: Seq<usize>,
    o: Seq<(usize, usize)>,
    n: usize,
    m: usize,
) -> bool {
    &&& partitions(b, n)
    &&& o.len() == b.len()
    &&& b.len() > 2 ==> segments_at_least(b, m)
    &&& forall|k: int| 0 < k < b.len() - 1 ==> found_in(f, b, #[trigger] o[k], k, m)
    &&& forall|k: int| 0 <= k < b.len() ==> ends_are_bounds(b, #[trigger] o[k])
}

/// Both ends of the segment `seg` are bounds of the partition `b`.
pub open spec fn ends_are_bounds(b: Seq<usize>, seg: (usize, usize)) -> bool {
    b.contains(seg.0) && b.contains(seg.1)
}

/// The first `i` segments of the partition `b` were left whole.
#[verifier::opaque]
pub open spec fn whole_before<F: Fn(usize, usize) -> Option<(usize, bool)>>(
    f: F,
    b: Seq<usize>,
    i: int,
    m: usize,
) -> bool {
    forall|k: int| 0 <= k < i ==> left_whole(f, #[trigger] b[k], b[k + 1], m)
}

/// Inserting a bound strictly between bounds `i` and `i + 1` keeps the
/// bounds increasing.
proof fn lemma_split_increasing(b: Seq<usize>, i: int, s: usize)
    requires
        increasing(b),
        0 <= i,
        i + 1 < b.len(),
        b[i] < s < b[i + 1],
    ensures
        increasing(b.insert(i + 1, s)),
{
    lemma_insert_after(b, i, s);
    let nb = b.insert(i + 1, s);
    assert forall|a: int, c: int| 0 <= a < c < nb.len() implies nb[a] < nb[c] by {
        if a <= i {
            assert(nb[a] == b[a]);
            assert(b[a] <= b[i]);
        } else if a > i + 1 {
            assert(nb[a] == b[a - 1]);
        }
        if c <= i {
            assert(nb[c] == b[c]);
        } else if c > i + 1 {
            assert(nb[c] == b[c - 1]);
            assert(b[i + 1] <= b[c - 1]);
        }
    }
}

/// Splitting segment `i` into two segments of at least `m` returns keeps
/// every segment at least `m` long, if they were before or if segment `i`
/// was the only one.
proof fn lemma_split_segments(b: Seq<usize>, i: int, s: usize, m: usize)
    requires
        b.len() > 2 ==> segments_at_least(b, m),
        0 <= i,
        i + 1 < b.len(),
        s - b[i] >= m,
        b[i + 1] - s >= m,
    ensures
        segments_at_least(b.insert(i + 1, s), m),
{
    lemma_insert_after(b, i, s);
    let nb = b.insert(i + 1, s);
    assert forall|k: int| 0 <= k < nb.len() - 1 implies #[trigger] seg_len(nb, k) >= m by {
        if k < i {
            assert(nb[k] == b[k] && nb[k + 1] == b[k + 1]);
            assert(seg_len(b, k) >= m);
        } else if k == i {
            assert(nb[k] == b[i] && nb[k + 1] == s);
        } else if k == i + 1 {
            assert(nb[k] == s && nb[k + 1] == b[i + 1]);
        } else {
            assert(nb[k] == b[k - 1] && nb[k + 1] == b[k]);
            assert(seg_len(b, k - 1) >= m);
        }
    }
}

/// Splitting segment `i` at the break accepted there keeps every break
/// found in a segment around it.
proof fn lemma_split_found<F: Fn(usize, usize) -> Option<(usize, bool)>>(
    f: F,
    b: Seq<usize>,
    o: Seq<(usize, usize)>,
    m: usize,
    i: int,
    t: usize,
)
    requires
        forall|k: int| 0 < k < b.len() - 1 ==> found_in(f, b, #[trigger] o[k], k, m),
        o.len() == b.len(),
        0 <= i,
        i + 1 < b.len(),
        b[i] < b[i + 1],
        examined(b[i] as int, b[i + 1] as int, m as int),
        call_ensures(f, (b[i], b[i + 1]), Some((t, true))),
        accepts(Some((t, true)), b[i] as int, b[i + 1] as int, m as int),
    ensures
        forall|k: int|
            0 < k < b.len() ==> found_in(
                f,
                b.insert(i + 1, (b[i] + t) as usize),
                #[trigger] o.insert(i + 1, (b[i], b[i + 1]))[k],
                k,
                m,
            ),
{
    let lo = b[i];
    let hi = b[i + 1];
    let s = (lo + t) as usize;
    lemma_insert_after(b, i, s);
    lemma_insert_after(o, i, (lo, hi));
    let nb = b.insert(i + 1, s);
    let no = o.insert(i + 1, (lo, hi));
    assert forall|k: int| 0 < k < b.len() implies found_in(f, nb, #[trigger] no[k], k, m) by {
        if k < i {
            assert(no[k] == o[k]);
            assert(nb[k - 1] == b[k - 1] && nb[k] == b[k] && nb[k + 1] == b[k + 1]);
            assert(found_in(f, b, o[k], k, m));
        } else if k == i {
            assert(no[k] == o[k]);
            assert(nb[k - 1] == b[k - 1] && nb[k] == b[k]);
            assert(found_in(f, b, o[k], k, m));
        } else if k == i + 1 {
            assert(no[k] == (lo, hi));
            assert(nb[k - 1] == lo && nb[k] == s && nb[k + 1] == hi);
            assert(((s - lo) as usize) == t);
        } else if k == i + 2 {
            assert(no[k] == o[k - 1]);
            assert(nb[k] == b[k - 1] && nb[k + 1] == b[k]);
            assert(found_in(f, b, o[k - 1], k - 1, m));
        } else {
            assert(no[k] == o[k - 1]);
            assert(nb[k - 1] == b[k - 2] && nb[k] == b[k - 1] && nb[k + 1] == b[k]);
            assert(found_in(f, b, o[k - 1], k - 1, m));
        }
    }
}

/// Splitting segment `i` at an accepted break keeps the segmentation well
/// formed, and leaves the segments before it as they were.
proof fn lemma_split<F: Fn(usize, usize) -> Option<(usize, bool)>>(
    f: F,
    b: Seq<usize>,
    o: Seq<(usize, usize)>,
    n: usize,
    m: usize,
    i: int,
    t: usize,
)
    requires
        well_formed(f, b, o, n, m),
        whole_before(f, b, i, m),
        0 <= i,
        i + 1 < b.len(),
        examined(b[i] as int, b[i + 1] as int, m as int),
        call_ensures(f, (b[i], b[i + 1]), Some((t, true))),
        accepts(Some((t, true)), b[i] as int, b[i + 1] as int, m as int),
    ensures
        well_formed(
            f,
            b.insert(i + 1, (b[i] + t) as usize),
            o.insert(i + 1, (b[i], b[i + 1])),
            n,
            m,
        ),
        whole_before(f, b.insert(i + 1, (b[i] + t) as usize), i, m),
{
    reveal(well_formed);
    reveal(whole_before);
    let s = (b[i] + t) as usize;
    lemma_insert_after(b, i, s);
    lemma_insert_after(o, i, (b[i], b[i + 1]));
    let nb = b.insert(i + 1, s);
    lemma_split_increasing(b, i, s);
    lemma_split_segments(b, i, s, m);
    lemma_split_found(f, b, o, m, i, t);
    assert(nb.last() == b.last());
    let no = o.insert(i + 1, (b[i], b[i + 1]));
    assert forall|k: int| 0 <= k < nb.len() implies ends_are_bounds(nb, #[trigger] no[k]) by {
        let seg = no[k];
        if k == i + 1 {
            assert(nb[i] == b[i] && nb[i + 2] == b[i + 1]);
        } else {
            if k <= i {
                assert(seg == o[k]);
            } else {
                assert(seg == o[k - 1]);
            }
            assert(ends_are_bounds(b, seg));
            let w0 = choose|w: int| 0 <= w < b.len() && b[w] == seg.0;
            let w1 = choose|w: int| 0 <= w < b.len() && b[w] == seg.1;
            if w0 <= i {
                assert(nb[w0] == seg.0);
            } else {
                assert(nb[w0 + 1] == seg.0);
            }
            if w1 <= i {
                assert(nb[w1] == seg.1);
            } else {
                assert(nb[w1 + 1] == seg.1);
            }
        }
    }
    assert forall|k: int| 0 <= k < i implies left_whole(f, #[trigger] nb[k], nb[k + 1], m) by {
        assert(nb[k] == b[k] && nb[k + 1] == b[k + 1]);
        assert(left_whole(f, b[k], b[k + 1], m));
    }
}

/// Segment the returns `[0, n)` by binary segmentation.
///
/// `candidate(lo, hi)` proposes the most likely break of the segment
/// `[lo, hi)`: its position relative to `lo`, and whether its statistic
/// exceeds the threshold (`None` when the segment has none, such as a
/// constant segment). A segment of fewer than `2 * min_segment` returns is
/// never examined; an examined segment is split at its proposed break when
/// that break is accepted (see [`accepts`]), and both halves are then
/// segmented in turn. Segments are examined depth first, left half before
/// right half.
///
/// The result partitions `[0, n)`. Once a break is accepted, every final
/// segment holds at least `min_segment` returns; each break was accepted in
/// a segment that spans both its neighbours, and each final segment was left
/// whole.
pub fn segment_returns<F: Fn(usize, usize) -> Option<(usize, bool)>>(
    n: usize,
    min_segment: usize,
    candidate: &F,
) -> (r: Segmentation)
    requires
        forall|lo: usize, hi: usize| lo < hi <= n ==> call_requires(*candidate, (lo, hi)),
    ensures
        partitions(r.bounds@, n),
        r.origins@.len() == r.bounds@.len(),
        r.bounds@.len() > 2 ==> segments_at_least(r.bounds@, min_segment),
        n < 2 * min_segment ==> r.bounds@.len() <= 2,
        forall|k: int|
            0 < k < r.bounds@.len() - 1 ==> found_in(
                *candidate,
                r.bounds@,
                #[trigger] r.origins@[k],
                k,
                min_segment,
            ),
        forall|k: int|
            0 <= k < r.bounds@.len() ==> ends_are_bounds(r.bounds@, #[trigger] r.origins@[k]),
        forall|k: int|
            0 <= k < r.bounds@.len() - 1 ==> left_whole(
                *candidate,
                #[trigger] r.bounds@[k],
                r.bounds@[k + 1],
                min_segment,
            ),
{
    let mut bounds: Vec<usize> = Vec::new();
    let mut origins: Vec<(usize, usize)> = Vec::new();
    bounds.push(0);
    origins.push((0, n));
    if n > 0 {
        bounds.push(n);
        origins.push((0, n));
    }
    let mut i: usize = 0;
    proof {
        reveal(well_formed);
        reveal(whole_before);
        assert(bounds@[0] == 0 && bounds@[bounds@.len() - 1] == n);
        assert forall|k: int| 0 <= k < bounds@.len() implies ends_are_bounds(
            bounds@,
            #[trigger] origins@[k],
        ) by {
            assert(origins@[k] == (0usize, n));
        }
    }
    while i < bounds.len() - 1
        invariant
            forall|lo: usize, hi: usize| lo < hi <= n ==> call_requires(*candidate, (lo, hi)),
            well_formed(*candidate, bounds@, origins@, n, min_segment),
            whole_before(*candidate, bounds@, i as int, min_segment),
            i < bounds@.len(),
            n < 2 * min_segment ==> bounds@.len() <= 2,
        decreases n - bounds@[i as int], bounds@[i + 1] - bounds@[i as int],
    {
        proof {
            reveal(well_formed);
            assert(bounds@[i as int] < bounds@[i + 1]);
            assert(bounds@[i + 1] <= n) by {
                if i + 1 < bounds@.len() - 1 {
                    assert(bounds@[i + 1] < bounds@[bounds@.len() - 1]);
                }
            }
        }
        let lo = bounds[i];
        let hi = bounds[i + 1];
        let len = hi - lo;
        let mut split: Option<usize> = None;
        if len >= min_segment && len - min_segment >= min_segment {
            let c = candidate(lo, hi);
            if let Some((t, exceeds)) = c {
                if exceeds && 0 < t && t < len && t >= min_segment && len - t >= min_segment {
                    split = Some(t);
                }
            }
            proof {
                if split is None {
                    assert(call_ensures(*candidate, (lo, hi), c) && !accepts(
                        c,
                        lo as int,
                        hi as int,
                        min_segment as int,
                    ));
                } else {
                    assert(c == Some((split->0, true)));
                }
            }
        }
        match split {
            Some(t) => {
                proof {
                    lemma_split(*candidate, bounds@, origins@, n, min_segment, i as int, t);
                }
                bounds.insert(i + 1, lo + t);
                origins.insert(i + 1, (lo, hi));
            },
            None => {
                proof {
                    reveal(whole_before);
                    assert(left_whole(*candidate, lo, hi, min_segment));
                    assert forall|k: int| 0 <= k < i + 1 implies left_whole(
                        *candidate,
                        #[trigger] bounds@[k],
                        bounds@[k + 1],
                        min_segment,
                    ) by {
                        if k < i {
                            assert(left_whole(*candidate, bounds@[k], bounds@[k + 1], min_segment));
                        }
                    }
                }
                i = i + 1;
            },
        }
    }
    proof {
        reveal(well_formed);
        reveal(whole_before);
    }
    Segmentation { bounds, origins }
}


/// The index frame of one detected break: where it lies, the regimes either
/// side of it, and the segment in which it was found.
#[derive(PartialEq, Eq, Structural, Clone, Copy, Debug)]
pub struct BreakFrame {
    /// What the break changes.
    pub kind: BreakKind,
    /// First index of the post-break regime in the return series.
    pub index: usize,
    /// First index of the pre-break regime: the previous break of the same
    /// kind, or 0.
    pub pre_start: usize,
    /// End (exclusive) of the post-break regime: the next break of the same
    /// kind, or the length of the series.
    pub post_end: usize,
    /// 1-based ordinal of the regime the break opens among the breaks of its
    /// kind (regime 0 precedes the first break).
    pub regime_index: usize,
    /// Start of the segment whose proposed break this is.
    pub found_lo: usize,
    /// End (exclusive) of the segment whose proposed break this is.
    pub found_hi: usize,
}

/// The frame of the break at bound `j + 1` of the partition `b`.
pub open spec fn frame_at(kind: BreakKind, b: Seq<usize>, o: Seq<(usize, usize)>, j: int) -> BreakFrame {
    BreakFrame {
        kind,
        index: b[j + 1],
        pre_start: b[j],
        post_end: b[j + 2],
        regime_index: (j + 1) as usize,
        found_lo: o[j + 1].0,
        found_hi: o[j + 1].1,
    }
}

/// The number of breaks of a partition with bounds `b`.
pub open spec fn break_count(b: Seq<usize>) -> int {
    if b.len() >= 2 {
        b.len() - 2
    } else {
        0
    }
}

/// The frames of the breaks of `seg`, all of kind `kind`, in increasing
/// order of index: break `j` opens regime `j + 1`, which runs to the next
/// break, and closes the regime that began at the previous break.
pub fn regime_frames(kind: BreakKind, seg: &Segmentation) -> (r: Vec<BreakFrame>)
    requires
        seg.origins@.len() == seg.bounds@.len(),
    ensures
        r@.len() == break_count(seg.bounds@),
        forall|j: int| 0 <= j < r@.len() ==> #[trigger] r@[j] == frame_at(kind, seg.bounds@, seg.origins@, j),
{
    let mut out: Vec<BreakFrame> = Vec::new();
    if seg.bounds.len() < 2 {
        return out;
    }
    let count = seg.bounds.len() - 2;
    let mut j: usize = 0;
    while j < count
        invariant
            count + 2 == seg.bounds.len(),
            seg.origins@.len() == seg.bounds@.len(),
            j <= count,
            out@.len() == j,
            forall|q: int| 0 <= q < j ==> #[trigger] out@[q] == frame_at(kind, seg.bounds@, seg.origins@, q),
        decreases count - j,
    {
        let (found_lo, found_hi) = seg.origins[j + 1];
        out.push(BreakFrame {
            kind,
            index: seg.bounds[j + 1],
            pre_start: seg.bounds[j],
            post_end: seg.bounds[j + 2],
            regime_index: j + 1,
            found_lo,
            found_hi,
        });
        j = j + 1;
    }
    out
}

/// Every regime either side of a detected break holds at least
/// `min_segment` returns, when the partition's segments all do, as those of
/// [`segment_returns`] do once it has accepted a break.
pub proof fn lemma_regimes_hold_min_segment(
    kind: BreakKind,
    b: Seq<usize>,
    o: Seq<(usize, usize)>,
    min_segment: usize,
    j: int,
)
    requires
        segments_at_least(b, min_segment),
        0 <= j < break_count(b),
    ensures
        frame_at(kind, b, o, j).index - frame_at(kind, b, o, j).pre_start >= min_segment,
        frame_at(kind, b, o, j).post_end - frame_at(kind, b, o, j).index >= min_segment,
{
    assert(seg_len(b, j) >= min_segment);
    assert(seg_len(b, j + 1) >= min_segment);
}

/// Where a detected break is reported against the close series: a return
/// at index `i` is the change from close `i` to close `i + 1`, so the break
/// opens at close `i + 1`.
#[derive(PartialEq, Eq, Structural, Clone, Copy, Debug)]
pub struct BreakLocation {
    /// Index of the break in the close series.
    pub close_index: usize,
    /// 1-based ordinal of the regime the break opens.
    pub regime_index: usize,
    /// Open timestamp of the bar at `close_index`, when the series has one.
    pub ts_ms: Option<i64>,
}

/// The close-series location of the break `frame`, given the open
/// timestamps `close_ts_ms` of the close series.
pub fn locate_break(frame: &BreakFrame, close_ts_ms: &[i64]) -> (r: BreakLocation)
    requires
        frame.index < usize::MAX,
    ensures
        r.close_index == frame.index + 1,
        r.regime_index == frame.regime_index,
        r.ts_ms == (if frame.index + 1 < close_ts_ms@.len() {
            Some(close_ts_ms@[frame.index + 1])
        } else {
            None::<i64>
        }),
{
    let close_index = frame.index + 1;
    let ts_ms = if close_index < close_ts_ms.len() {
        Some(close_ts_ms[close_index])
    } else {
        None
    };
    BreakLocation { close_index, regime_index: frame.regime_index, ts_ms }
}

/// The breaks of two lists merged in increasing order of index, taking from
/// `a` first when both lists offer the same index.
pub open spec fn merged(a: Seq<BreakFrame>, b: Seq<BreakFrame>) -> Seq<BreakFrame>
    decreases a.len() + b.len(),
{
    if a.len() == 0 {
        b
    } else if b.len() == 0 {
        a
    } else if a[0].index <= b[0].index {
        seq![a[0]] + merged(a.drop_first(), b)
    } else {
        seq![b[0]] + merged(a, b.drop_first())
    }
}

/// Merge the mean breaks and the volatility breaks of a series into one
/// list in increasing order of index, mean before volatility at the same
/// index.
pub fn merge_breaks(mean: &Vec<BreakFrame>, vol: &Vec<BreakFrame>) -> (r: Vec<BreakFrame>)
    ensures
        r@ == merged(mean@, vol@),
{
    let mut out: Vec<BreakFrame> = Vec::new();
    let mut i: usize = 0;
    let mut j: usize = 0;
    assert(mean@.skip(0) =~= mean@);
    assert(vol@.skip(0) =~= vol@);
    assert(out@ + merged(mean@, vol@) =~= merged(mean@, vol@));
    while i < mean.len() || j < vol.len()
        invariant
            i <= mean@.len(),
            j <= vol@.len(),
            out@ + merged(mean@.skip(i as int), vol@.skip(j as int)) == merged(mean@, vol@),
        decreases mean@.len() + vol@.len() - i - j,
    {
        let ghost a = mean@.skip(i as int);
        let ghost b = vol@.skip(j as int);
        let take_mean = j == vol.len() || (i < mean.len() && mean[i].index <= vol[j].index);
        if take_mean {
            let x = mean[i];
            proof {
                assert(a.drop_first() =~= mean@.skip(i + 1));
                assert(a[0] == x);
                assert(merged(a, b) == seq![x] + merged(a.drop_first(), b)) by {
                    if b.len() == 0 {
                        assert(merged(a, b) == a);
                        assert(merged(a.drop_first(), b) == a.drop_first());
                        assert(a =~= seq![x] + a.drop_first());
                    }
                }
                assert(out@.push(x) + merged(a.drop_first(), b) =~= out@ + (seq![x] + merged(
                    a.drop_first(),
                    b,
                )));
            }
            out.push(x);
            i = i + 1;
        } else {
            let y = vol[j];
            proof {
                assert(b.drop_first() =~= vol@.skip(j + 1));
                assert(b[0] == y);
                assert(merged(a, b) == seq![y] + merged(a, b.drop_first())) by {
                    if a.len() == 0 {
                        assert(merged(a, b) == b);
                        assert(merged(a, b.drop_first()) == b.drop_first());
                        assert(b =~= seq![y] + b.drop_first());
                    }
                }
                assert(out@.push(y) + merged(a, b.drop_first()) =~= out@ + (seq![y] + merged(
                    a,
                    b.drop_first(),
                )));
            }
            out.push(y);
            j = j + 1;
        }
    }
    proof {
        assert(mean@.skip(i as int) =~= Seq::<BreakFrame>::empty());
        assert(vol@.skip(j as int) =~= Seq::<BreakFrame>::empty());
        assert(out@ + Seq::<BreakFrame>::empty() =~= out@);
    }
    out
}

/// Every break of a merge comes from one of the two lists, and the merge
/// holds each break of both lists as often as they do together.
pub proof fn lemma_merged_multiset(a: Seq<BreakFrame>, b: Seq<BreakFrame>)
    ensures
        merged(a, b).to_multiset() == a.to_multiset().add(b.to_multiset()),
    decreases a.len() + b.len(),
{
    broadcast use vstd::multiset::group_multiset_axioms;

    if a.len() == 0 {
        assert(a + b =~= b);
        vstd::seq_lib::lemma_multiset_commutative(a, b);
    } else if b.len() == 0 {
        assert(a + b =~= a);
        vstd::seq_lib::lemma_multiset_commutative(a, b);
    } else if a[0].index <= b[0].index {
        lemma_merged_multiset(a.drop_first(), b);
        vstd::seq_lib::lemma_multiset_commutative(seq![a[0]], merged(a.drop_first(), b));
        vstd::seq_lib::lemma_multiset_commutative(seq![a[0]], a.drop_first());
        assert(seq![a[0]] + a.drop_first() =~= a);
        assert(merged(a, b).to_multiset() =~= a.to_multiset().add(b.to_multiset()));
    } else {
        lemma_merged_multiset(a, b.drop_first());
        vstd::seq_lib::lemma_multiset_commutative(seq![b[0]], merged(a, b.drop_first()));
        vstd::seq_lib::lemma_multiset_commutative(seq![b[0]], b.drop_first());
        assert(seq![b[0]] + b.drop_first() =~= b);
        assert(merged(a, b).to_multiset() =~= a.to_multiset().add(b.to_multiset()));
    }
}

/// Break `x` comes before break `y`: at a smaller index, or at the same
/// index with a smaller kind order.
pub open spec fn comes_before(x: BreakFrame, y: BreakFrame) -> bool {
    x.index < y.index || (x.index == y.index && x.kind.spec_order() < y.kind.spec_order())
}

/// The breaks of `s` all have kind `kind` and strictly increasing indices.
pub open spec fn one_kind_in_order(s: Seq<BreakFrame>, kind: BreakKind) -> bool {
    &&& forall|p: int| 0 <= p < s.len() ==> (#[trigger] s[p]).kind == kind
    &&& forall|p: int, q: int| 0 <= p < q < s.len() ==> s[p].index < s[q].index
}

/// Every break of a merge is a break of one of the two lists.
proof fn lemma_merged_from(a: Seq<BreakFrame>, b: Seq<BreakFrame>)
    ensures
        forall|q: int|
            0 <= q < merged(a, b).len() ==> a.contains(#[trigger] merged(a, b)[q]) || b.contains(
                merged(a, b)[q],
            ),
        merged(a, b).len() == a.len() + b.len(),
    decreases a.len() + b.len(),
{
    if a.len() == 0 || b.len() == 0 {
        assert forall|q: int| 0 <= q < merged(a, b).len() implies a.contains(
            #[trigger] merged(a, b)[q],
        ) || b.contains(merged(a, b)[q]) by {
            if a.len() == 0 {
                assert(b[q] == merged(a, b)[q]);
            } else {
                assert(a[q] == merged(a, b)[q]);
            }
        }
    } else if a[0].index <= b[0].index {
        let rest = merged(a.drop_first(), b);
        lemma_merged_from(a.drop_first(), b);
        assert forall|q: int| 0 <= q < merged(a, b).len() implies a.contains(
            #[trigger] merged(a, b)[q],
        ) || b.contains(merged(a, b)[q]) by {
            if q == 0 {
                assert(a[0] == merged(a, b)[q]);
            } else {
                assert(merged(a, b)[q] == rest[q - 1]);
                if a.drop_first().contains(rest[q - 1]) {
                    let w = choose|w: int| 0 <= w < a.drop_first().len() && a.drop_first()[w] == rest[q - 1];
                    assert(a[w + 1] == rest[q - 1]);
                }
            }
        }
    } else {
        let rest = merged(a, b.drop_first());
        lemma_merged_from(a, b.drop_first());
        assert forall|q: int| 0 <= q < merged(a, b).len() implies a.contains(
            #[trigger] merged(a, b)[q],
        ) || b.contains(merged(a, b)[q]) by {
            if q == 0 {
                assert(b[0] == merged(a, b)[q]);
            } else {
                assert(merged(a, b)[q] == rest[q - 1]);
                if b.drop_first().contains(rest[q - 1]) {
                    let w = choose|w: int| 0 <= w < b.drop_first().len() && b.drop_first()[w] == rest[q - 1];
                    assert(b[w + 1] == rest[q - 1]);
                }
            }
        }
    }
}

/// Merging the mean breaks and the volatility breaks of a series, each list
/// in increasing order of index, orders all breaks by index and then by
/// kind, mean first.
pub proof fn lemma_merged_in_order(mean: Seq<BreakFrame>, vol: Seq<BreakFrame>)
    requires
        one_kind_in_order(mean, BreakKind::Mean),
        one_kind_in_order(vol, BreakKind::Vol),
    ensures
        forall|p: int, q: int|
            0 <= p < q < merged(mean, vol).len() ==> comes_before(
                #[trigger] merged(mean, vol)[p],
                #[trigger] merged(mean, vol)[q],
            ),
    decreases mean.len() + vol.len(),
{
    let r = merged(mean, vol);
    if mean.len() == 0 {
        assert forall|p: int, q: int| 0 <= p < q < r.len() implies comes_before(
            #[trigger] r[p],
            #[trigger] r[q],
        ) by {
            assert(vol[p].index < vol[q].index);
        }
    } else if vol.len() == 0 {
        assert forall|p: int, q: int| 0 <= p < q < r.len() implies comes_before(
            #[trigger] r[p],
            #[trigger] r[q],
        ) by {
            assert(mean[p].index < mean[q].index);
        }
    } else if mean[0].index <= vol[0].index {
        let tail = mean.drop_first();
        let rest = merged(tail, vol);
        assert(one_kind_in_order(tail, BreakKind::Mean)) by {
            assert forall|p: int, q: int| 0 <= p < q < tail.len() implies tail[p].index
                < tail[q].index by {
                assert(mean[p + 1].index < mean[q + 1].index);
            }
        }
        lemma_merged_in_order(tail, vol);
        lemma_merged_from(tail, vol);
        assert forall|p: int, q: int| 0 <= p < q < r.len() implies comes_before(
            #[trigger] r[p],
            #[trigger] r[q],
        ) by {
            assert(r[q] == rest[q - 1]);
            if p == 0 {
                assert(r[p] == mean[0]);
                let y = rest[q - 1];
                if tail.contains(y) {
                    let w = choose|w: int| 0 <= w < tail.len() && tail[w] == y;
                    assert(mean[0].index < mean[w + 1].index);
                } else {
                    assert(vol.contains(y));
                    let w = choose|w: int| 0 <= w < vol.len() && vol[w] == y;
                    if w > 0 {
                        assert(vol[0].index < vol[w].index);
                    }
                    assert(y.kind == BreakKind::Vol);
                    assert(mean[0].kind == BreakKind::Mean);
                }
            } else {
                assert(r[p] == rest[p - 1]);
                assert(comes_before(rest[p - 1], rest[q - 1]));
            }
        }
    } else {
        let tail = vol.drop_first();
        let rest = merged(mean, tail);
        assert(one_kind_in_order(tail, BreakKind::Vol)) by {
            assert forall|p: int, q: int| 0 <= p < q < tail.len() implies tail[p].index
                < tail[q].index by {
                assert(vol[p + 1].index < vol[q + 1].index);
            }
        }
        lemma_merged_in_order(mean, tail);
        lemma_merged_from(mean, tail);
        assert forall|p: int, q: int| 0 <= p < q < r.len() implies comes_before(
            #[trigger] r[p],
            #[trigger] r[q],
        ) by {
            assert(r[q] == rest[q - 1]);
            if p == 0 {
                assert(r[p] == vol[0]);
                let y = rest[q - 1];
                if tail.contains(y) {
                    let w = choose|w: int| 0 <= w < tail.len() && tail[w] == y;
                    assert(vol[0].index < vol[w + 1].index);
                } else {
                    assert(mean.contains(y));
                    let w = choose|w: int| 0 <= w < mean.len() && mean[w] == y;
                    if w > 0 {
                        assert(mean[0].index < mean[w].index);
                    }
                }
            } else {
                assert(r[p] == rest[p - 1]);
                assert(comes_before(rest[p - 1], rest[q - 1]));
            }
        }
    }
}

} // verus!
