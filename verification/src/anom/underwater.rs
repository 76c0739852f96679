//! The running-peak sweep of a drawdown profile: which bars lie under the
//! running peak, and the drawdown episodes from a peak down to a trough and
//! back to a recovery.
//!
//! The sweep reads the equity curve only by comparing its values, so it
//! takes each value as an order key: keys compare as the values do, and a
//! value that compares false with every value (not a number) has no key.

use vstd::prelude::*;

verus! {

/// Whether a value with key `a` is at or above a value with key `b`.
pub open spec fn at_or_above(a: Option<u64>, b: Option<u64>) -> bool {
    match (a, b) {
        (Some(x), Some(y)) => x >= y,
        _ => false,
    }
}

/// Whether a value with key `a` lies strictly below a value with key `b`.
pub open spec fn below(a: Option<u64>, b: Option<u64>) -> bool {
    match (a, b) {
        (Some(x), Some(y)) => x < y,
        _ => false,
    }
}

/// One drawdown episode, by bar index.
#[derive(PartialEq, Eq, Structural, Clone, Copy, Debug)]
pub struct Episode {
    /// The bar of the running peak the episode fell from.
    pub peak: usize,
    /// The lowest bar of the episode (the first to reach that low).
    pub trough: usize,
    /// The bar at which the running peak was reached again.
    pub recovery: usize,
}

/// The state of the sweep between two bars.
#[derive(PartialEq, Eq, Structural, Clone, Copy, Debug)]
pub struct SweepState {
    /// The bar of the running peak.
    pub peak: usize,
    /// Whether an episode is open.
    pub in_drawdown: bool,
    /// The peak of the open episode.
    pub episode_peak: usize,
    /// The trough of the open episode so far.
    pub trough: usize,
}

/// The state before the first bar: the running peak is the first bar.
pub open spec fn initial_state() -> SweepState {
    SweepState { peak: 0, in_drawdown: false, episode_peak: 0, trough: 0 }
}

/// Whether bar `t` closes the open episode of state `s`: an episode is open
/// and the bar reaches the running peak again.
pub open spec fn closes_episode(keys: Seq<Option<u64>>, s: SweepState, t: int) -> bool {
    s.in_drawdown && at_or_above(keys[t], keys[s.peak as int])
}

/// The state after bar `t`, from the state `s` before it. A bar at or above
/// the running peak becomes the running peak (and closes any open episode);
/// a bar below it opens an episode if none is open, with itself as trough,
/// or else becomes the trough when it lies below the trough so far.
pub open spec fn next_state(keys: Seq<Option<u64>>, s: SweepState, t: int) -> SweepState {
    if at_or_above(keys[t], keys[s.peak as int]) {
        SweepState {
            peak: t as usize,
            in_drawdown: false,
            episode_peak: s.episode_peak,
            trough: s.trough,
        }
    } else if !s.in_drawdown {
        SweepState { peak: s.peak, in_drawdown: true, episode_peak: s.peak, trough: t as usize }
    } else if below(keys[t], keys[s.trough as int]) {
        SweepState {
            peak: s.peak,
            in_drawdown: true,
            episode_peak: s.episode_peak,
            trough: t as usize,
        }
    } else {
        s
    }
}

/// The state after the first `t` bars.
pub open spec fn state_after(keys: Seq<Option<u64>>, t: nat) -> SweepState
    decreases t,
{
    if t == 0 {
        initial_state()
    } else {
        next_state(keys, state_after(keys, (t - 1) as nat), t - 1)
    }
}

/// The episodes closed by the first `t` bars, in the order they closed.
pub open spec fn episodes_after(keys: Seq<Option<u64>>, t: nat) -> Seq<Episode>
    decreases t,
{
    if t == 0 {
        Seq::empty()
    } else {
        let s = state_after(keys, (t - 1) as nat);
        let before = episodes_after(keys, (t - 1) as nat);
        if closes_episode(keys, s, t - 1) {
            before.push(Episode { peak: s.episode_peak, trough: s.trough, recovery: (t - 1) as usize })
        } else {
            before
        }
    }
}

/// What the sweep finds for each bar and over the whole curve.
pub struct Sweep {
    /// For each bar, the running peak it is compared with.
    pub peaks: Vec<usize>,
    /// For each bar, whether it lies under that running peak.
    pub underwater: Vec<bool>,
    /// The closed episodes, in order.
    pub episodes: Vec<Episode>,
}

fn at_or_above_keys(a: Option<u64>, b: Option<u64>) -> (r: bool)
    ensures
        r == at_or_above(a, b),
{
    match (a, b) {
        (Some(x), Some(y)) => x >= y,
        _ => false,
    }
}

fn below_keys(a: Option<u64>, b: Option<u64>) -> (r: bool)
    ensures
        r == below(a, b),
{
    match (a, b) {
        (Some(x), Some(y)) => x < y,
        _ => false,
    }
}

/// Sweep the equity curve given by its order keys, one bar at a time (see
/// [`next_state`]): every bar is compared with the running peak, and an
/// episode closes at the first bar that reaches its peak again. An episode
/// still open after the last bar is not reported.
///
/// When every value has a key, the running peak of bar `t > 0` is the last
/// of the bars before it that holds their maximum. The episodes are exactly
/// the maximal spans under water that recover: each runs from a bar not
/// under water through bars that all are to a recovery that is not, none of
/// its bars lies below its trough, the episodes do not overlap, and every
/// bar under water lies inside one of them unless it and every later bar are
/// under water.
pub fn underwater_sweep(keys: &[Option<u64>]) -> (r: Sweep)
    requires
        keys@.len() > 0,
    ensures
        r.peaks@.len() == keys@.len(),
        r.underwater@.len() == keys@.len(),
        forall|t: int| 0 <= t < keys@.len() ==> #[trigger] r.peaks@[t] == state_after(keys@, t as nat).peak,
        forall|t: int|
            0 <= t < keys@.len() ==> #[trigger] r.underwater@[t] == !at_or_above(
                keys@[t],
                keys@[r.peaks@[t] as int],
            ),
        r.episodes@ == episodes_after(keys@, keys@.len()),
        keys@[0] is Some ==> !r.underwater@[0],
        all_keyed(keys@) ==> forall|t: int|
            0 < t < keys@.len() ==> is_running_peak(keys@, #[trigger] r.peaks@[t] as int, t),
        forall|i: int|
            0 <= i < r.episodes@.len() ==> {
                let e = #[trigger] r.episodes@[i];
                &&& e.peak < e.trough < e.recovery < keys@.len()
                &&& !r.underwater@[e.peak as int]
                &&& forall|j: int| e.peak < j < e.recovery ==> #[trigger] r.underwater@[j]
                &&& !r.underwater@[e.recovery as int]
                &&& forall|j: int| e.peak < j < e.recovery ==> !below(#[trigger] keys@[j], keys@[e.trough as int])
            },
        forall|i: int|
            0 <= i < r.episodes@.len() - 1 ==> #[trigger] r.episodes@[i].recovery <= r.episodes@[i + 1].peak,
        forall|j: int|
            0 <= j < keys@.len() && #[trigger] r.underwater@[j] ==> inside_episode(r.episodes@, j) || (
            forall|q: int| j <= q < keys@.len() ==> r.underwater@[q]),
{
    let n = keys.len();
    let mut peaks: Vec<usize> = Vec::new();
    let mut underwater: Vec<bool> = Vec::new();
    let mut episodes: Vec<Episode> = Vec::new();
    let mut s = SweepState { peak: 0, in_drawdown: false, episode_peak: 0, trough: 0 };
    let mut t: usize = 0;
    while t < n
        invariant
            n == keys@.len(),
            t <= n,
            s == state_after(keys@, t as nat),
            s.peak <= t,
            s.trough <= t,
            peaks@.len() == t,
            underwater@.len() == t,
            forall|q: int| 0 <= q < t ==> #[trigger] peaks@[q] == state_after(keys@, q as nat).peak,
            forall|q: int|
                0 <= q < t ==> #[trigger] underwater@[q] == !at_or_above(keys@[q], keys@[peaks@[q] as int]),
            episodes@ == episodes_after(keys@, t as nat),
        decreases n - t,
    {
        let up = at_or_above_keys(keys[t], keys[s.peak]);
        peaks.push(s.peak);
        underwater.push(!up);
        if up {
            if s.in_drawdown {
                episodes.push(Episode { peak: s.episode_peak, trough: s.trough, recovery: t });
            }
            s = SweepState { peak: t, in_drawdown: false, episode_peak: s.episode_peak, trough: s.trough };
        } else if !s.in_drawdown {
            s = SweepState { peak: s.peak, in_drawdown: true, episode_peak: s.peak, trough: t };
        } else if below_keys(keys[t], keys[s.trough]) {
            s = SweepState { peak: s.peak, in_drawdown: true, episode_peak: s.episode_peak, trough: t };
        }
        t = t + 1;
    }
    proof {
        lemma_episodes_well_shaped(keys@);
        lemma_episodes_are_maximal_spans(keys@);
        assert forall|q: int| 0 <= q < n implies #[trigger] underwater@[q] == underwater_at(keys@, q) by {
            assert(peaks@[q] == state_after(keys@, q as nat).peak);
        }
        if all_keyed(keys@) {
            assert forall|q: int| 0 < q < n implies is_running_peak(keys@, #[trigger] peaks@[q] as int, q) by {
                lemma_running_peak(keys@, q as nat);
            }
        }
        assert forall|i: int| 0 <= i < episodes@.len() implies {
            let e = #[trigger] episodes@[i];
            &&& e.peak < e.trough < e.recovery < keys@.len()
            &&& !underwater@[e.peak as int]
            &&& forall|j: int| e.peak < j < e.recovery ==> #[trigger] underwater@[j]
            &&& !underwater@[e.recovery as int]
            &&& forall|j: int| e.peak < j < e.recovery ==> !below(#[trigger] keys@[j], keys@[e.trough as int])
        } by {
            let e = episodes@[i];
            assert(well_shaped(keys@, e));
            assert(underwater@[e.peak as int] == underwater_at(keys@, e.peak as int));
            assert(underwater@[e.recovery as int] == underwater_at(keys@, e.recovery as int));
            assert forall|j: int| e.peak < j < e.recovery implies #[trigger] underwater@[j] by {
                assert(underwater@[j] == underwater_at(keys@, j));
            }
        }
        assert forall|j: int| 0 <= j < n && #[trigger] underwater@[j] implies inside_episode(episodes@, j)
            || (forall|q: int| j <= q < n ==> underwater@[q]) by {
            assert(underwater_at(keys@, j));
            if !inside_episode(episodes@, j) {
                assert forall|q: int| j <= q < n implies underwater@[q] by {
                    assert(underwater@[q] == underwater_at(keys@, q));
                }
            }
        }
    }
    Sweep { peaks, underwater, episodes }
}


/// An episode runs from its peak down to its trough and back to its
/// recovery, in that order: every bar after the peak and before the recovery
/// lies under the peak, none of them lies below the trough, and the recovery
/// reaches the peak again.
pub open spec fn well_shaped(keys: Seq<Option<u64>>, e: Episode) -> bool {
    &&& e.peak < e.trough
    &&& e.trough < e.recovery
    &&& at_or_above(keys[e.recovery as int], keys[e.peak as int])
    &&& forall|j: int| e.peak < j < e.recovery ==> !at_or_above(#[trigger] keys[j], keys[e.peak as int])
    &&& forall|j: int| e.peak < j < e.recovery ==> !below(#[trigger] keys[j], keys[e.trough as int])
}

/// What holds after the first `t` bars: the running peak is the last bar
/// unless an episode is open; an open episode fell from the running peak,
/// and every bar since lies under the peak and not below the trough; the
/// closed episodes are well shaped and follow one another.
spec fn sweep_inv(keys: Seq<Option<u64>>, s: SweepState, eps: Seq<Episode>, t: int) -> bool {
    &&& s.peak <= t
    &&& t > 0 ==> s.peak < t
    &&& !s.in_drawdown && t > 0 ==> s.peak == t - 1
    &&& s.in_drawdown ==> {
        &&& s.episode_peak == s.peak
        &&& s.trough < t
        &&& s.peak < s.trough || (s.peak == s.trough && keys[s.peak as int] is None)
        &&& forall|j: int| s.peak < j < t ==> !at_or_above(#[trigger] keys[j], keys[s.peak as int])
        &&& forall|j: int| s.peak < j < t ==> !below(#[trigger] keys[j], keys[s.trough as int])
    }
    &&& forall|i: int| 0 <= i < eps.len() ==> #[trigger] well_shaped(keys, eps[i]) && eps[i].recovery < t
    &&& forall|i: int| 0 <= i < eps.len() - 1 ==> #[trigger] eps[i].recovery <= eps[i + 1].peak
    &&& eps.len() > 0 ==> eps.last().recovery <= s.peak
}

/// One more bar keeps the sweep's invariant.
proof fn lemma_sweep_step(keys: Seq<Option<u64>>, t: nat)
    requires
        t < keys.len(),
        keys.len() <= usize::MAX,
        sweep_inv(keys, state_after(keys, t), episodes_after(keys, t), t as int),
    ensures
        sweep_inv(keys, state_after(keys, t + 1), episodes_after(keys, t + 1), t + 1 as int),
{
    let s = state_after(keys, t);
    let eps = episodes_after(keys, t);
    let ns = state_after(keys, t + 1);
    let neps = episodes_after(keys, t + 1);
    assert(ns == next_state(keys, s, t as int));
    let up = at_or_above(keys[t as int], keys[s.peak as int]);
    if up {
        if s.in_drawdown {
            let e = Episode { peak: s.episode_peak, trough: s.trough, recovery: t as usize };
            assert(neps == eps.push(e));
            assert(well_shaped(keys, e));
            assert forall|i: int| 0 <= i < neps.len() implies #[trigger] well_shaped(keys, neps[i])
                && neps[i].recovery < t + 1 by {
                if i < eps.len() {
                    assert(neps[i] == eps[i]);
                }
            }
            assert forall|i: int| 0 <= i < neps.len() - 1 implies #[trigger] neps[i].recovery
                <= neps[i + 1].peak by {
                if i < eps.len() - 1 {
                    assert(neps[i] == eps[i] && neps[i + 1] == eps[i + 1]);
                } else {
                    assert(neps[i] == eps.last());
                }
            }
        } else {
            assert(neps == eps);
        }
    } else {
        assert(neps == eps);
        if !s.in_drawdown {
            assert forall|j: int| ns.peak < j < t + 1 implies !at_or_above(
                #[trigger] keys[j],
                keys[ns.peak as int],
            ) by {
                assert(j == t);
            }
            assert forall|j: int| ns.peak < j < t + 1 implies !below(
                #[trigger] keys[j],
                keys[ns.trough as int],
            ) by {
                assert(j == t);
            }
        } else if below(keys[t as int], keys[s.trough as int]) {
            assert forall|j: int| ns.peak < j < t + 1 implies !below(
                #[trigger] keys[j],
                keys[ns.trough as int],
            ) by {
                if j < t {
                    assert(!below(keys[j], keys[s.trough as int]));
                }
            }
        }
    }
}

/// The sweep's invariant holds after every prefix of the bars.
proof fn lemma_sweep_inv(keys: Seq<Option<u64>>, t: nat)
    requires
        t <= keys.len(),
        keys.len() <= usize::MAX,
    ensures
        sweep_inv(keys, state_after(keys, t), episodes_after(keys, t), t as int),
    decreases t,
{
    if t > 0 {
        lemma_sweep_inv(keys, (t - 1) as nat);
        lemma_sweep_step(keys, (t - 1) as nat);
    }
}

/// Every episode the sweep reports is well shaped and ends within the
/// curve, and the episodes follow one another without overlapping: each
/// recovers no later than the next one's peak.
pub proof fn lemma_episodes_well_shaped(keys: Seq<Option<u64>>)
    requires
        keys.len() <= usize::MAX,
    ensures
        forall|i: int|
            0 <= i < episodes_after(keys, keys.len()).len() ==> #[trigger] well_shaped(
                keys,
                episodes_after(keys, keys.len())[i],
            ) && episodes_after(keys, keys.len())[i].recovery < keys.len(),
        forall|i: int|
            0 <= i < episodes_after(keys, keys.len()).len() - 1 ==> #[trigger] episodes_after(
                keys,
                keys.len(),
            )[i].recovery <= episodes_after(keys, keys.len())[i + 1].peak,
{
    lemma_sweep_inv(keys, keys.len());
}


/// Whether bar `t` lies under the running peak it is compared with.
pub open spec fn underwater_at(keys: Seq<Option<u64>>, t: int) -> bool {
    !at_or_above(keys[t], keys[state_after(keys, t as nat).peak as int])
}

/// Bar `j` lies strictly between the peak and the recovery of one of the
/// episodes `eps`.
pub open spec fn inside_episode(eps: Seq<Episode>, j: int) -> bool {
    exists|i: int| 0 <= i < eps.len() && #[trigger] eps[i].peak < j && j < eps[i].recovery
}

/// Episode `e` is a maximal span under water: its peak is not under water,
/// every bar after it up to the recovery is compared with that peak, and
/// the recovery is not under water.
pub open spec fn maximal_span(keys: Seq<Option<u64>>, e: Episode) -> bool {
    &&& !underwater_at(keys, e.peak as int)
    &&& forall|j: int| e.peak < j <= e.recovery ==> #[trigger] state_after(keys, j as nat).peak == e.peak
}

/// What holds after the first `t` bars, beyond [`sweep_inv`]: every bar
/// since the peak of an open episode is compared with that peak; a running
/// peak with a key is not under water; every closed episode is a maximal
/// span; and every bar under water so far lies inside a closed episode or
/// in the open one.
spec fn cover_inv(keys: Seq<Option<u64>>, s: SweepState, eps: Seq<Episode>, t: int) -> bool {
    &&& s.in_drawdown ==> forall|k: int| s.peak < k < t ==> #[trigger] state_after(keys, k as nat).peak == s.peak
    &&& (s.peak < t && keys[s.peak as int] is Some) ==> !underwater_at(keys, s.peak as int)
    &&& forall|i: int| 0 <= i < eps.len() ==> #[trigger] maximal_span(keys, eps[i])
    &&& forall|j: int|
        0 <= j < t && #[trigger] underwater_at(keys, j) ==> inside_episode(eps, j) || (s.in_drawdown && (
        s.peak < j || (j == s.peak && keys[j] is None)))
}

/// One more bar keeps [`cover_inv`].
proof fn lemma_cover_step(keys: Seq<Option<u64>>, t: nat)
    requires
        t < keys.len(),
        keys.len() <= usize::MAX,
        sweep_inv(keys, state_after(keys, t), episodes_after(keys, t), t as int),
        cover_inv(keys, state_after(keys, t), episodes_after(keys, t), t as int),
    ensures
        cover_inv(keys, state_after(keys, t + 1), episodes_after(keys, t + 1), t + 1 as int),
{
    let s = state_after(keys, t);
    let eps = episodes_after(keys, t);
    let ns = state_after(keys, t + 1);
    let neps = episodes_after(keys, t + 1);
    assert(ns == next_state(keys, s, t as int));
    let up = at_or_above(keys[t as int], keys[s.peak as int]);
    assert(underwater_at(keys, t as int) == !up);
    if up {
        assert(!underwater_at(keys, ns.peak as int));
        if s.in_drawdown {
            let e = Episode { peak: s.episode_peak, trough: s.trough, recovery: t as usize };
            assert(neps == eps.push(e));
            assert(maximal_span(keys, e)) by {
                assert forall|j: int| e.peak < j <= e.recovery implies #[trigger] state_after(
                    keys,
                    j as nat,
                ).peak == e.peak by {
                    if j < t {
                    }
                }
            }
            assert forall|i: int| 0 <= i < neps.len() implies #[trigger] maximal_span(keys, neps[i]) by {
                if i < eps.len() {
                    assert(neps[i] == eps[i]);
                }
            }
            assert forall|j: int| 0 <= j < t + 1 && #[trigger] underwater_at(keys, j) implies inside_episode(
                neps,
                j,
            ) || (ns.in_drawdown && (ns.peak < j || (j == ns.peak && keys[j] is None))) by {
                if j < t {
                    if inside_episode(eps, j) {
                        let i = choose|i: int| 0 <= i < eps.len() && #[trigger] eps[i].peak < j && j < eps[i].recovery;
                        assert(neps[i] == eps[i]);
                    } else {
                        assert(s.peak < j || (j == s.peak && keys[j] is None));
                        assert(keys[s.peak as int] is Some);
                        assert(neps[eps.len() as int] == e);
                    }
                }
            }
        } else {
            assert(neps == eps);
            assert forall|j: int| 0 <= j < t + 1 && #[trigger] underwater_at(keys, j) implies inside_episode(
                neps,
                j,
            ) || (ns.in_drawdown && (ns.peak < j || (j == ns.peak && keys[j] is None))) by {
            }
        }
    } else {
        assert(neps == eps);
        if !s.in_drawdown {
            assert forall|k: int| ns.peak < k < t + 1 implies #[trigger] state_after(keys, k as nat).peak
                == ns.peak by {
                assert(k == t);
            }
        } else {
            assert forall|k: int| ns.peak < k < t + 1 implies #[trigger] state_after(keys, k as nat).peak
                == ns.peak by {
                if k < t {
                }
            }
        }
        assert forall|j: int| 0 <= j < t + 1 && #[trigger] underwater_at(keys, j) implies inside_episode(
            neps,
            j,
        ) || (ns.in_drawdown && (ns.peak < j || (j == ns.peak && keys[j] is None))) by {
            if j == t as int {
                if t > 0 {
                    assert(s.peak < t);
                } else {
                    assert(s.peak == 0);
                    assert(keys[0] is None);
                }
            }
        }
    }
}

/// [`cover_inv`] holds after every prefix of the bars.
proof fn lemma_cover_inv(keys: Seq<Option<u64>>, t: nat)
    requires
        t <= keys.len(),
        keys.len() <= usize::MAX,
    ensures
        sweep_inv(keys, state_after(keys, t), episodes_after(keys, t), t as int),
        cover_inv(keys, state_after(keys, t), episodes_after(keys, t), t as int),
    decreases t,
{
    lemma_sweep_inv(keys, t);
    if t > 0 {
        lemma_cover_inv(keys, (t - 1) as nat);
        lemma_cover_step(keys, (t - 1) as nat);
    }
}

/// The episodes are exactly the maximal spans under water that recover:
/// each runs from a bar that is not under water, through bars that all are,
/// to a recovery that is not, with no bar below its trough; and every bar
/// under water lies inside a reported episode, unless it and every later bar
/// are under water (a drawdown that never recovers).
pub proof fn lemma_episodes_are_maximal_spans(keys: Seq<Option<u64>>)
    requires
        keys.len() <= usize::MAX,
    ensures
        forall|i: int|
            0 <= i < episodes_after(keys, keys.len()).len() ==> {
                let e = #[trigger] episodes_after(keys, keys.len())[i];
                &&& !underwater_at(keys, e.peak as int)
                &&& forall|j: int| e.peak < j < e.recovery ==> underwater_at(keys, j)
                &&& !underwater_at(keys, e.recovery as int)
                &&& forall|j: int| e.peak < j < e.recovery ==> !below(#[trigger] keys[j], keys[e.trough as int])
            },
        forall|j: int|
            0 <= j < keys.len() && #[trigger] underwater_at(keys, j) ==> inside_episode(
                episodes_after(keys, keys.len()),
                j,
            ) || (forall|q: int| j <= q < keys.len() ==> underwater_at(keys, q)),
{
    let n = keys.len();
    lemma_cover_inv(keys, n);
    lemma_episodes_well_shaped(keys);
    let s = state_after(keys, n);
    let eps = episodes_after(keys, n);
    assert forall|i: int| 0 <= i < eps.len() implies {
        let e = #[trigger] eps[i];
        &&& !underwater_at(keys, e.peak as int)
        &&& forall|j: int| e.peak < j < e.recovery ==> underwater_at(keys, j)
        &&& !underwater_at(keys, e.recovery as int)
        &&& forall|j: int| e.peak < j < e.recovery ==> !below(keys[j], keys[e.trough as int])
    } by {
        let e = eps[i];
        assert(maximal_span(keys, e));
        assert(well_shaped(keys, e));
        assert forall|j: int| e.peak < j < e.recovery implies underwater_at(keys, j) by {
            assert(state_after(keys, j as nat).peak == e.peak);
            assert(!at_or_above(keys[j], keys[e.peak as int]));
        }
        let r = e.recovery as int;
        assert(e.peak < r <= e.recovery);
        assert(state_after(keys, r as nat).peak == e.peak);
        assert(forall|j: int| e.peak < j < e.recovery ==> !below(#[trigger] keys[j], keys[e.trough as int]));
    }
    assert forall|j: int| 0 <= j < n && #[trigger] underwater_at(keys, j) implies inside_episode(eps, j)
        || (forall|q: int| j <= q < n ==> underwater_at(keys, q)) by {
        if !inside_episode(eps, j) {
            assert forall|q: int| j <= q < n implies underwater_at(keys, q) by {
                if q > j || q > s.peak {
                    if q > s.peak {
                        assert(state_after(keys, q as nat).peak == s.peak);
                        assert(!at_or_above(keys[q], keys[s.peak as int]));
                    }
                }
            }
        }
    }
}

/// The value behind a key known to be present.
pub open spec fn key_value(k: Option<u64>) -> u64 {
    match k {
        Some(v) => v,
        None => 0,
    }
}

/// Every value has a key (no value is not a number).
pub open spec fn all_keyed(keys: Seq<Option<u64>>) -> bool {
    forall|t: int| 0 <= t < keys.len() ==> (#[trigger] keys[t]) is Some
}

/// When every value has a key, the running peak a bar `t > 0` is compared
/// with is the last of the bars before it that holds their maximum.
pub open spec fn is_running_peak(keys: Seq<Option<u64>>, p: int, t: int) -> bool {
    &&& 0 <= p < t
    &&& forall|j: int| 0 <= j < t ==> key_value(#[trigger] keys[j]) <= key_value(keys[p])
    &&& forall|j: int| p < j < t ==> key_value(#[trigger] keys[j]) < key_value(keys[p])
}

/// The running peak is the last maximum so far.
pub proof fn lemma_running_peak(keys: Seq<Option<u64>>, t: nat)
    requires
        all_keyed(keys),
        0 < t <= keys.len(),
        keys.len() <= usize::MAX,
    ensures
        is_running_peak(keys, state_after(keys, t).peak as int, t as int),
    decreases t,
{
    let s = state_after(keys, (t - 1) as nat);
    assert(state_after(keys, t) == next_state(keys, s, t - 1));
    assert(keys[t - 1] is Some);
    if t == 1 {
        assert(s.peak == 0);
        assert(keys[0] is Some);
    } else {
        lemma_running_peak(keys, (t - 1) as nat);
        assert(keys[s.peak as int] is Some);
        let p = state_after(keys, t).peak as int;
        if at_or_above(keys[t - 1], keys[s.peak as int]) {
            assert(p == t - 1);
            assert forall|j: int| 0 <= j < t implies key_value(#[trigger] keys[j]) <= key_value(keys[p]) by {
                if j < t - 1 {
                    assert(key_value(keys[j]) <= key_value(keys[s.peak as int]));
                }
            }
        } else {
            assert(p == s.peak);
            assert forall|j: int| 0 <= j < t implies key_value(#[trigger] keys[j]) <= key_value(keys[p]) by {
                if j == t - 1 {
                    assert(keys[j] is Some);
                }
            }
            assert forall|j: int| p < j < t implies key_value(#[trigger] keys[j]) < key_value(keys[p]) by {
                if j == t - 1 {
                    assert(keys[j] is Some);
                }
            }
        }
    }
}

} // verus!
