//! Returns-profile scan: its declaration, its `variant` label, the checks it
//! makes before the returns are computed, and which bar timestamps the
//! returns of each variant carry.

use vstd::prelude::*;
use crate::params::{ParamKey, ParamValue, Params, ScanError};
use crate::resolve::{lemma_parse_label_cases, label_param, parse_label};
use crate::scan::{key_views, NullMethod, ScanArity, ScanFindingShape};
use crate::text::str_eq;

verus! {

/// Mean and spread of one kind of returns of the closes.
pub struct ReturnsProfileScan;

/// The kind of returns profiled.
#[derive(PartialEq, Eq, Structural, Clone, Copy, Debug)]
pub enum ReturnsVariant {
    /// Log returns between consecutive closes.
    Log,
    /// Simple returns between consecutive closes.
    Simple,
    /// Returns between consecutive closes of the same UTC day.
    Intraday,
    /// Returns between consecutive closes that cross a UTC day boundary.
    Overnight,
}

/// The variant of [`ReturnsVariant`] a label names.
pub open spec fn variant_from_label(s: Seq<char>) -> Option<ReturnsVariant> {
    if s == "log"@ {
        Some(ReturnsVariant::Log)
    } else if s == "simple"@ {
        Some(ReturnsVariant::Simple)
    } else if s == "intraday"@ {
        Some(ReturnsVariant::Intraday)
    } else if s == "overnight"@ {
        Some(ReturnsVariant::Overnight)
    } else {
        None
    }
}

impl ReturnsVariant {
    /// The label of this variant.
    pub open spec fn spec_label(self) -> Seq<char> {
        match self {
            ReturnsVariant::Log => "log"@,
            ReturnsVariant::Simple => "simple"@,
            ReturnsVariant::Intraday => "intraday"@,
            ReturnsVariant::Overnight => "overnight"@,
        }
    }

    /// The label of this variant.
    pub fn as_str(self) -> (r: &'static str)
        ensures
            r@ == self.spec_label(),
            variant_from_label(r@) == Some(self),
    {
        let r = match self {
            ReturnsVariant::Log => "log",
            ReturnsVariant::Simple => "simple",
            ReturnsVariant::Intraday => "intraday",
            ReturnsVariant::Overnight => "overnight",
        };
        proof {
            reveal_strlit("log");
            reveal_strlit("simple");
            reveal_strlit("intraday");
            reveal_strlit("overnight");
            assert("log"@.len() == 3 && "simple"@.len() == 6 && "intraday"@.len() == 8 && "overnight"@.len() == 9);
        }
        r
    }
}

/// The `variant` parameter; `log` when absent.
pub open spec fn variant_rule(p: Params) -> Result<ReturnsVariant, ScanError> {
    parse_label(p, ParamKey::Variant, ReturnsVariant::Log, |s: Seq<char>| variant_from_label(s))
}

/// Resolve the `variant` parameter.
pub fn resolve_variant(params: &Params) -> (r: Result<ReturnsVariant, ScanError>)
    ensures
        r == variant_rule(*params),
{
    let label = match label_param(params, ParamKey::Variant) {
        Err(e) => {
            return Err(e);
        },
        Ok(None) => {
            return Ok(ReturnsVariant::Log);
        },
        Ok(Some(s)) => s,
    };
    if str_eq(label.as_str(), "log") {
        Ok(ReturnsVariant::Log)
    } else if str_eq(label.as_str(), "simple") {
        Ok(ReturnsVariant::Simple)
    } else if str_eq(label.as_str(), "intraday") {
        Ok(ReturnsVariant::Intraday)
    } else if str_eq(label.as_str(), "overnight") {
        Ok(ReturnsVariant::Overnight)
    } else {
        Err(ScanError::UnknownLabel { key: ParamKey::Variant, label: label.clone() })
    }
}

/// What a run over bars stamped `ts` (one per close) proceeds with: the
/// `variant` parameter, at least two closes, and at least two returns of that
/// variant, whose timestamps the result carries.
pub open spec fn returns_rule(ts: Seq<i64>, p: Params) -> Result<(ReturnsVariant, Seq<i64>), ScanError> {
    match variant_rule(p) {
        Err(e) => Err(e),
        Ok(v) => {
            if ts.len() < 2 {
                Err(ScanError::InsufficientData { needed: 2, got: ts.len() as usize })
            } else if return_timestamps(ts, v).len() < 2 {
                Err(
                    ScanError::SeriesTooShort {
                        needed: 2,
                        got: return_timestamps(ts, v).len() as usize,
                    },
                )
            } else {
                Ok((v, return_timestamps(ts, v)))
            }
        },
    }
}

/// What the scan runs with once its input and parameters are accepted.
pub struct ReturnsSettings {
    pub variant: ReturnsVariant,
    /// Timestamps of the returns the variant produces.
    pub timestamps_ms: Vec<i64>,
}

/// The number a finding carries for a variant: 0 log, 1 simple,
/// 2 intraday, 3 overnight.
pub fn variant_discriminant(v: ReturnsVariant) -> (r: u32)
    ensures
        r == (match v {
            ReturnsVariant::Log => 0u32,
            ReturnsVariant::Simple => 1u32,
            ReturnsVariant::Intraday => 2u32,
            ReturnsVariant::Overnight => 3u32,
        }),
{
    match v {
        ReturnsVariant::Log => 0,
        ReturnsVariant::Simple => 1,
        ReturnsVariant::Intraday => 2,
        ReturnsVariant::Overnight => 3,
    }
}

/// Milliseconds in a day.
pub const MS_PER_DAY: i64 = 86_400_000;

/// The UTC calendar day of a timestamp in milliseconds since the epoch,
/// counted from the epoch's day.
pub open spec fn utc_day(ms: i64) -> int {
    ms as int / MS_PER_DAY as int
}

/// The UTC calendar day of a timestamp in milliseconds since the epoch.
pub fn utc_day_index(ms: i64) -> (r: i64)
    ensures
        r == utc_day(ms),
{
    if ms >= 0 {
        ms / MS_PER_DAY
    } else {
        let m: i64 = -(ms + 1);
        -(m / MS_PER_DAY) - 1
    }
}

/// Whether a return from the bar stamped `prev` to the bar stamped `cur`
/// belongs to variant `v`.
pub open spec fn emits(v: ReturnsVariant, prev: i64, cur: i64) -> bool {
    match v {
        ReturnsVariant::Log => true,
        ReturnsVariant::Simple => true,
        ReturnsVariant::Intraday => utc_day(prev) == utc_day(cur),
        ReturnsVariant::Overnight => utc_day(prev) != utc_day(cur),
    }
}

/// The timestamps of the returns that variant `v` produces from bars stamped
/// `ts`: each return carries the stamp of its later bar.
pub open spec fn return_timestamps(ts: Seq<i64>, v: ReturnsVariant) -> Seq<i64>
    decreases ts.len(),
{
    if ts.len() < 2 {
        seq![]
    } else {
        let earlier = return_timestamps(ts.drop_last(), v);
        if emits(v, ts[ts.len() - 2], ts[ts.len() - 1]) {
            earlier.push(ts[ts.len() - 1])
        } else {
            earlier
        }
    }
}

/// The timestamps of the returns that `variant` produces from bars stamped
/// `ts_ms` (milliseconds since the epoch, one per close).
pub fn compute_timestamps_ms(ts_ms: &[i64], variant: ReturnsVariant) -> (r: Vec<i64>)
    ensures
        r@ == return_timestamps(ts_ms@, variant),
{
    let mut out: Vec<i64> = Vec::new();
    if ts_ms.len() < 2 {
        return out;
    }
    let mut i: usize = 1;
    assert(ts_ms@.take(1).len() < 2);
    while i < ts_ms.len()
        invariant
            1 <= i <= ts_ms@.len(),
            out@ == return_timestamps(ts_ms@.take(i as int), variant),
        decreases ts_ms@.len() - i,
    {
        let same_day = utc_day_index(ts_ms[i - 1]) == utc_day_index(ts_ms[i]);
        let emit = match variant {
            ReturnsVariant::Log => true,
            ReturnsVariant::Simple => true,
            ReturnsVariant::Intraday => same_day,
            ReturnsVariant::Overnight => !same_day,
        };
        if emit {
            out.push(ts_ms[i]);
        }
        let ghost next = ts_ms@.take(i + 1);
        assert(next.drop_last() =~= ts_ms@.take(i as int));
        i = i + 1;
    }
    assert(ts_ms@.take(i as int) =~= ts_ms@);
    out
}

/// Every step between consecutive bars gives a log (and a simple) return,
/// and each step gives exactly one of an intraday and an overnight return.
pub proof fn lemma_intraday_overnight_partition(ts: Seq<i64>)
    ensures
        return_timestamps(ts, ReturnsVariant::Log).len() == (if ts.len() < 2 { 0 } else { ts.len() - 1 }),
        return_timestamps(ts, ReturnsVariant::Simple) == return_timestamps(ts, ReturnsVariant::Log),
        return_timestamps(ts, ReturnsVariant::Intraday).len() + return_timestamps(ts, ReturnsVariant::Overnight).len()
            == return_timestamps(ts, ReturnsVariant::Log).len(),
    decreases ts.len(),
{
    if ts.len() >= 2 {
        lemma_intraday_overnight_partition(ts.drop_last());
    }
}

/// A timestamp's UTC day is the whole number of days of 86 400 000 ms since
/// the epoch, rounded down: the day starts at or before the timestamp and
/// the next day starts after it.
pub proof fn lemma_utc_day_floor(ms: i64)
    ensures
        utc_day(ms) * 86_400_000 <= ms,
        ms < (utc_day(ms) + 1) * 86_400_000,
{
}

/// Whether UTC day `d` (counted in days of 86 400 000 ms from the epoch)
/// holds the timestamp `t`.
pub open spec fn day_holds(d: int, t: i64) -> bool {
    d * 86_400_000 <= t < (d + 1) * 86_400_000
}

/// Whether the bars stamped `prev` and `cur` open on the same UTC day.
pub open spec fn same_utc_day(prev: i64, cur: i64) -> bool {
    exists|d: int| #[trigger] day_holds(d, prev) && day_holds(d, cur)
}

/// Two timestamps lie on the same UTC day exactly when their days agree.
proof fn lemma_same_utc_day(prev: i64, cur: i64)
    ensures
        same_utc_day(prev, cur) <==> utc_day(prev) == utc_day(cur),
{
    lemma_utc_day_floor(prev);
    lemma_utc_day_floor(cur);
    if same_utc_day(prev, cur) {
        let d = choose|d: int| #[trigger] day_holds(d, prev) && day_holds(d, cur);
        assert(utc_day(prev) == d) by (nonlinear_arith)
            requires
                d * 86_400_000 <= prev < (d + 1) * 86_400_000,
                utc_day(prev) * 86_400_000 <= prev < (utc_day(prev) + 1) * 86_400_000,
        ;
        assert(utc_day(cur) == d) by (nonlinear_arith)
            requires
                d * 86_400_000 <= cur < (d + 1) * 86_400_000,
                utc_day(cur) * 86_400_000 <= cur < (utc_day(cur) + 1) * 86_400_000,
        ;
    } else if utc_day(prev) == utc_day(cur) {
        let d = utc_day(prev);
        assert(day_holds(d, prev) && day_holds(d, cur));
    }
}

/// Extending the bars by one appends the new bar's stamp to the returns of
/// a variant exactly when that step gives a return of the variant: always
/// for log and simple returns, when the two bars open on the same UTC day
/// for intraday returns, and when they open on different UTC days for
/// overnight returns. Fewer than two bars give no returns.
pub proof fn lemma_return_timestamps_step(ts: Seq<i64>, v: ReturnsVariant)
    ensures
        ts.len() < 2 ==> return_timestamps(ts, v) == Seq::<i64>::empty(),
        ts.len() >= 2 ==> {
            let prev = ts[ts.len() - 2];
            let cur = ts[ts.len() - 1];
            let kept = match v {
                ReturnsVariant::Log => true,
                ReturnsVariant::Simple => true,
                ReturnsVariant::Intraday => same_utc_day(prev, cur),
                ReturnsVariant::Overnight => !same_utc_day(prev, cur),
            };
            return_timestamps(ts, v) == if kept {
                return_timestamps(ts.drop_last(), v).push(cur)
            } else {
                return_timestamps(ts.drop_last(), v)
            }
        },
{
    if ts.len() >= 2 {
        lemma_same_utc_day(ts[ts.len() - 2], ts[ts.len() - 1]);
    }
}

/// The intraday returns are stamped with exactly the bars that open on the
/// same UTC day as the bar before them, and the overnight returns with
/// exactly the others (after the first bar), in bar order.
pub proof fn lemma_return_timestamps_members(ts: Seq<i64>)
    ensures
        forall|i: int|
            1 <= i < ts.len() && #[trigger] same_utc_day(ts[i - 1], ts[i]) ==> return_timestamps(
                ts,
                ReturnsVariant::Intraday,
            ).contains(ts[i]),
        forall|i: int|
            1 <= i < ts.len() && !#[trigger] same_utc_day(ts[i - 1], ts[i]) ==> return_timestamps(
                ts,
                ReturnsVariant::Overnight,
            ).contains(ts[i]),
        forall|x: i64|
            #[trigger] return_timestamps(ts, ReturnsVariant::Intraday).contains(x) ==> exists|i: int|
                1 <= i < ts.len() && ts[i] == x && #[trigger] same_utc_day(ts[i - 1], ts[i]),
        forall|x: i64|
            #[trigger] return_timestamps(ts, ReturnsVariant::Overnight).contains(x) ==> exists|i: int|
                1 <= i < ts.len() && ts[i] == x && !#[trigger] same_utc_day(ts[i - 1], ts[i]),
    decreases ts.len(),
{
    if ts.len() >= 2 {
        let init = ts.drop_last();
        lemma_return_timestamps_members(init);
        lemma_return_timestamps_step(ts, ReturnsVariant::Intraday);
        lemma_return_timestamps_step(ts, ReturnsVariant::Overnight);
        let last = ts.len() - 1;
        assert forall|i: int|
            1 <= i < ts.len() && #[trigger] same_utc_day(ts[i - 1], ts[i]) implies return_timestamps(
            ts,
            ReturnsVariant::Intraday,
        ).contains(ts[i]) by {
            let r = return_timestamps(ts, ReturnsVariant::Intraday);
            if i == last {
                assert(r.last() == ts[i]);
                assert(r[r.len() - 1] == ts[i]);
            } else {
                assert(init[i - 1] == ts[i - 1] && init[i] == ts[i]);
                assert(same_utc_day(init[i - 1], init[i]));
                let e = return_timestamps(init, ReturnsVariant::Intraday);
                let k = choose|k: int| 0 <= k < e.len() && e[k] == ts[i];
                assert(r[k] == ts[i]);
            }
        }
        assert forall|i: int|
            1 <= i < ts.len() && !#[trigger] same_utc_day(ts[i - 1], ts[i]) implies return_timestamps(
            ts,
            ReturnsVariant::Overnight,
        ).contains(ts[i]) by {
            let r = return_timestamps(ts, ReturnsVariant::Overnight);
            if i == last {
                assert(r[r.len() - 1] == ts[i]);
            } else {
                assert(init[i - 1] == ts[i - 1] && init[i] == ts[i]);
                assert(!same_utc_day(init[i - 1], init[i]));
                let e = return_timestamps(init, ReturnsVariant::Overnight);
                let k = choose|k: int| 0 <= k < e.len() && e[k] == ts[i];
                assert(r[k] == ts[i]);
            }
        }
        assert forall|x: i64| #[trigger] return_timestamps(ts, ReturnsVariant::Intraday).contains(x) implies exists|i: int|
            1 <= i < ts.len() && ts[i] == x && #[trigger] same_utc_day(ts[i - 1], ts[i]) by {
            let r = return_timestamps(ts, ReturnsVariant::Intraday);
            let e = return_timestamps(init, ReturnsVariant::Intraday);
            let k = choose|k: int| 0 <= k < r.len() && r[k] == x;
            if k < e.len() {
                assert(e[k] == x);
                assert(e.contains(x));
                let i = choose|i: int| 1 <= i < init.len() && init[i] == x && #[trigger] same_utc_day(init[i - 1], init[i]);
                assert(ts[i] == x && ts[i - 1] == init[i - 1]);
                assert(same_utc_day(ts[i - 1], ts[i]));
            } else {
                assert(x == ts[last]);
                assert(same_utc_day(ts[last - 1], ts[last]));
            }
        }
        assert forall|x: i64| #[trigger] return_timestamps(ts, ReturnsVariant::Overnight).contains(x) implies exists|i: int|
            1 <= i < ts.len() && ts[i] == x && !#[trigger] same_utc_day(ts[i - 1], ts[i]) by {
            let r = return_timestamps(ts, ReturnsVariant::Overnight);
            let e = return_timestamps(init, ReturnsVariant::Overnight);
            let k = choose|k: int| 0 <= k < r.len() && r[k] == x;
            if k < e.len() {
                assert(e[k] == x);
                assert(e.contains(x));
                let i = choose|i: int| 1 <= i < init.len() && init[i] == x && !#[trigger] same_utc_day(init[i - 1], init[i]);
                assert(ts[i] == x && ts[i - 1] == init[i - 1]);
                assert(!same_utc_day(ts[i - 1], ts[i]));
            } else {
                assert(x == ts[last]);
                assert(!same_utc_day(ts[last - 1], ts[last]));
            }
        }
    }
}

impl ReturnsProfileScan {
    /// The scan's identifier.
    pub fn id(&self) -> (r: &'static str)
        ensures
            r@ == "stats.returns.profile"@,
    {
        "stats.returns.profile"
    }

    /// The scan's version.
    pub fn version(&self) -> (r: u32)
        ensures
            r == 1,
    {
        1
    }

    /// The scan reads one instrument.
    pub fn arity(&self) -> (r: ScanArity)
        ensures
            r == ScanArity::Single,
    {
        ScanArity::Single
    }

    /// The keys of the scan's result findings.
    pub fn finding_fields(&self) -> (r: ScanFindingShape)
        ensures
            key_views(r.effect_extra_keys@) == seq!["mean"@, "n"@, "returns_vector"@, "std"@, "variant_label"@],
            key_views(r.raw_series_keys@) == seq!["returns"@, "timestamps_ms"@],
    {
        let r = ScanFindingShape {
            effect_extra_keys: vec!["mean", "n", "returns_vector", "std", "variant_label"],
            raw_series_keys: vec!["returns", "timestamps_ms"],
        };
        assert(key_views(r.effect_extra_keys@) =~= seq!["mean"@, "n"@, "returns_vector"@, "std"@, "variant_label"@]);
        assert(key_views(r.raw_series_keys@) =~= seq!["returns"@, "timestamps_ms"@]);
        r
    }

    /// Whether the engine may attach bootstrap confidence intervals.
    pub fn supports_bootstrap(&self) -> (r: bool)
        ensures
            r == false,
    {
        false
    }

    /// Whether the engine may run the scan under null method `m`.
    pub fn supports_null_method(&self, m: NullMethod) -> (r: bool)
        ensures
            r == false,
    {
        false
    }

    /// Resolve the parameters, check the input length and select the returns
    /// of the variant, as a run does before profiling them; `ts_ms` holds the
    /// bar timestamps, one per close.
    pub fn prepare(&self, ts_ms: &[i64], params: &Params) -> (r: Result<ReturnsSettings, ScanError>)
        ensures
            match r {
                Ok(s) => returns_rule(ts_ms@, *params) == Ok::<(ReturnsVariant, Seq<i64>), ScanError>(
                    (s.variant, s.timestamps_ms@),
                ),
                Err(e) => returns_rule(ts_ms@, *params) == Err::<(ReturnsVariant, Seq<i64>), ScanError>(e),
            },
    {
        let variant = resolve_variant(params)?;
        if ts_ms.len() < 2 {
            return Err(ScanError::InsufficientData { needed: 2, got: ts_ms.len() });
        }
        let timestamps_ms = compute_timestamps_ms(ts_ms, variant);
        if timestamps_ms.len() < 2 {
            return Err(ScanError::SeriesTooShort { needed: 2, got: timestamps_ms.len() });
        }
        Ok(ReturnsSettings { variant, timestamps_ms })
    }
}


/// How the `variant` parameter: log returns when absent; `log`, `simple`, `intraday` and `overnight` select those returns; any other string is refused as an unknown label, naming it.
pub proof fn lemma_variant_labels(p: Params)
    ensures
        p.spec_get(ParamKey::Variant) is None ==> variant_rule(p) == Ok::<ReturnsVariant, ScanError>(ReturnsVariant::Log),
        forall|s: String|
            p.spec_get(ParamKey::Variant) == Some(ParamValue::Str(s)) ==> {
                &&& (variant_rule(p) == Ok::<ReturnsVariant, ScanError>(ReturnsVariant::Log) <==> s@ == "log"@)
                &&& (variant_rule(p) == Ok::<ReturnsVariant, ScanError>(ReturnsVariant::Simple) <==> s@ == "simple"@)
                &&& (variant_rule(p) == Ok::<ReturnsVariant, ScanError>(ReturnsVariant::Intraday) <==> s@ == "intraday"@)
                &&& (variant_rule(p) == Ok::<ReturnsVariant, ScanError>(ReturnsVariant::Overnight) <==> s@ == "overnight"@)
                &&& (variant_rule(p) == Err::<ReturnsVariant, ScanError>(ScanError::UnknownLabel { key: ParamKey::Variant, label: s }) <==> (s@ != "log"@ && s@ != "simple"@ && s@ != "intraday"@ && s@ != "overnight"@))
            },
{
    reveal_strlit("log");
    reveal_strlit("simple");
    reveal_strlit("intraday");
    reveal_strlit("overnight");
    assert("log"@.len() == 3 && "log"@[0] == 'l' && "simple"@.len() == 6 && "simple"@[0] == 's' && "intraday"@.len() == 8 && "intraday"@[0] == 'i' && "overnight"@.len() == 9 && "overnight"@[0] == 'o');

    lemma_parse_label_cases(p, ParamKey::Variant, ReturnsVariant::Log, |s: Seq<char>| variant_from_label(s));
    assert forall|s: String| p.spec_get(ParamKey::Variant) == Some(ParamValue::Str(s)) implies {
        &&& (variant_rule(p) == Ok::<ReturnsVariant, ScanError>(ReturnsVariant::Log) <==> s@ == "log"@)
        &&& (variant_rule(p) == Ok::<ReturnsVariant, ScanError>(ReturnsVariant::Simple) <==> s@ == "simple"@)
        &&& (variant_rule(p) == Ok::<ReturnsVariant, ScanError>(ReturnsVariant::Intraday) <==> s@ == "intraday"@)
        &&& (variant_rule(p) == Ok::<ReturnsVariant, ScanError>(ReturnsVariant::Overnight) <==> s@ == "overnight"@)
        &&& (variant_rule(p) == Err::<ReturnsVariant, ScanError>(ScanError::UnknownLabel { key: ParamKey::Variant, label: s }) <==> (s@ != "log"@ && s@ != "simple"@ && s@ != "intraday"@ && s@ != "overnight"@))
    } by {
        assert(variant_rule(p) == match variant_from_label(s@) {
            Some(t) => Ok::<ReturnsVariant, ScanError>(t),
            None => Err(ScanError::UnknownLabel { key: ParamKey::Variant, label: s }),
        });
    }
}

} // verus!
