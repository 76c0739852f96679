//! Rolling-volatility scan: its declaration, its `series` label and
//! `window` parameter, and the checks it makes before the rolling
//! deviations are computed.

use vstd::prelude::*;
use crate::params::{ParamKey, ParamValue, Params, ScanError};
use crate::resolve::{lemma_parse_label_cases, label_param, parse_label, usize_of, i64_to_usize};
use crate::scan::{key_views, NullMethod, ScanArity, ScanFindingShape};
use crate::text::str_eq;
use crate::params::{int_of, ValueKind};

verus! {

/// Rolling sample standard deviation over a fixed window.
pub struct VolRollingScan;

/// The series whose rolling volatility is measured.
#[derive(PartialEq, Eq, Structural, Clone, Copy, Debug)]
pub enum VolSeries {
    /// Log returns of the closes.
    LogReturns,
    /// The closes themselves.
    Close,
}

/// The variant of [`VolSeries`] a label names.
pub open spec fn vol_series_from_label(s: Seq<char>) -> Option<VolSeries> {
    if s == "log_returns"@ {
        Some(VolSeries::LogReturns)
    } else if s == "close"@ {
        Some(VolSeries::Close)
    } else {
        None
    }
}

impl VolSeries {
    /// The label of this variant.
    pub open spec fn spec_label(self) -> Seq<char> {
        match self {
            VolSeries::LogReturns => "log_returns"@,
            VolSeries::Close => "close"@,
        }
    }

    /// The label of this variant.
    pub fn as_str(self) -> (r: &'static str)
        ensures
            r@ == self.spec_label(),
            vol_series_from_label(r@) == Some(self),
    {
        let r = match self {
            VolSeries::LogReturns => "log_returns",
            VolSeries::Close => "close",
        };
        proof {
            reveal_strlit("log_returns");
            reveal_strlit("close");
            assert("log_returns"@.len() == 11 && "close"@.len() == 5);
        }
        r
    }
}

/// The `series` parameter; `log_returns` when absent.
pub open spec fn series_rule(p: Params) -> Result<VolSeries, ScanError> {
    parse_label(p, ParamKey::Series, VolSeries::LogReturns, |s: Seq<char>| vol_series_from_label(s))
}

/// Resolve the `series` parameter.
pub fn resolve_series(params: &Params) -> (r: Result<VolSeries, ScanError>)
    ensures
        r == series_rule(*params),
{
    let label = match label_param(params, ParamKey::Series) {
        Err(e) => {
            return Err(e);
        },
        Ok(None) => {
            return Ok(VolSeries::LogReturns);
        },
        Ok(Some(s)) => s,
    };
    if str_eq(label.as_str(), "log_returns") {
        Ok(VolSeries::LogReturns)
    } else if str_eq(label.as_str(), "close") {
        Ok(VolSeries::Close)
    } else {
        Err(ScanError::UnknownLabel { key: ParamKey::Series, label: label.clone() })
    }
}

/// The `window` parameter: required, an integer of at least 2.
pub open spec fn window_rule(p: Params) -> Result<usize, ScanError> {
    match p.spec_get(ParamKey::Window) {
        None => Err(ScanError::Missing { key: ParamKey::Window }),
        Some(v) => match int_of(v) {
            None => Err(ScanError::WrongKind { key: ParamKey::Window, expected: ValueKind::Integer }),
            Some(w) => {
                if w < 2 {
                    Err(ScanError::BelowMinimum { key: ParamKey::Window, minimum: 2, given: w })
                } else if usize_of(w) is None {
                    Err(ScanError::OutOfUsizeRange { key: ParamKey::Window, given: w })
                } else {
                    Ok(w as usize)
                }
            },
        },
    }
}

/// Resolve the `window` parameter.
pub fn resolve_window(params: &Params) -> (r: Result<usize, ScanError>)
    ensures
        r == window_rule(*params),
{
    let raw = match params.get(ParamKey::Window) {
        Some(v) => v,
        None => {
            return Err(ScanError::Missing { key: ParamKey::Window });
        },
    };
    let w = match raw.as_i64() {
        Some(w) => w,
        None => {
            return Err(ScanError::WrongKind { key: ParamKey::Window, expected: ValueKind::Integer });
        },
    };
    if w < 2 {
        return Err(ScanError::BelowMinimum { key: ParamKey::Window, minimum: 2, given: w });
    }
    match i64_to_usize(w) {
        Some(u) => Ok(u),
        None => Err(ScanError::OutOfUsizeRange { key: ParamKey::Window, given: w }),
    }
}

/// What the scan runs with once its input and parameters are accepted.
#[derive(PartialEq, Eq, Structural, Clone, Copy, Debug)]
pub struct VolSettings {
    pub series: VolSeries,
    pub window: usize,
}

/// The length of the series the rolling window runs over, for `n` closes.
pub open spec fn vol_series_len(series: VolSeries, n: usize) -> int {
    match series {
        VolSeries::LogReturns => n - 1,
        VolSeries::Close => n as int,
    }
}

/// What a run over `n` closes proceeds with: `series`, then `window`, then
/// a non-empty close series, at least two closes for log returns, and a
/// window no longer than the series it runs over.
pub open spec fn vol_rule(n: usize, p: Params) -> Result<VolSettings, ScanError> {
    match series_rule(p) {
        Err(e) => Err(e),
        Ok(series) => match window_rule(p) {
            Err(e) => Err(e),
            Ok(window) => {
                if n == 0 {
                    Err(ScanError::EmptySeries)
                } else if series == VolSeries::LogReturns && n < 2 {
                    Err(ScanError::InsufficientData { needed: 2, got: n })
                } else if window > vol_series_len(series, n) {
                    Err(
                        ScanError::Above {
                            key: ParamKey::Window,
                            value: window,
                            bound: vol_series_len(series, n) as usize,
                        },
                    )
                } else {
                    Ok(VolSettings { series, window })
                }
            },
        },
    }
}

impl VolRollingScan {
    /// The scan's identifier.
    pub fn id(&self) -> (r: &'static str)
        ensures
            r@ == "stats.vol.rolling"@,
    {
        "stats.vol.rolling"
    }

    /// The scan's version.
    pub fn version(&self) -> (r: u32)
        ensures
            r == 1,
    {
        1
    }

    /// The scan reads one instrument.
    pub fn arity(&self) -> (r: ScanArity)
        ensures
            r == ScanArity::Single,
    {
        ScanArity::Single
    }

    /// The keys of the scan's result findings.
    pub fn finding_fields(&self) -> (r: ScanFindingShape)
        ensures
            key_views(r.effect_extra_keys@) == seq!["values"@, "vol_of_vol"@, "window_length"@, "window_starts_ms"@],
            key_views(r.raw_series_keys@) == seq!["returns"@, "timestamps_ms"@],
    {
        let r = ScanFindingShape {
            effect_extra_keys: vec!["values", "vol_of_vol", "window_length", "window_starts_ms"],
            raw_series_keys: vec!["returns", "timestamps_ms"],
        };
        assert(key_views(r.effect_extra_keys@) =~= seq!["values"@, "vol_of_vol"@, "window_length"@, "window_starts_ms"@]);
        assert(key_views(r.raw_series_keys@) =~= seq!["returns"@, "timestamps_ms"@]);
        r
    }

    /// Whether the engine may attach bootstrap confidence intervals.
    pub fn supports_bootstrap(&self) -> (r: bool)
        ensures
            r == false,
    {
        false
    }

    /// Whether the engine may run the scan under null method `m`.
    pub fn supports_null_method(&self, m: NullMethod) -> (r: bool)
        ensures
            r == false,
    {
        false
    }

    /// Resolve the parameters and check them against the input length, as a
    /// run does before computing the rolling deviations.
    pub fn prepare(&self, n_closes: usize, params: &Params) -> (r: Result<VolSettings, ScanError>)
        ensures
            r == vol_rule(n_closes, *params),
    {
        let series = resolve_series(params)?;
        let window = resolve_window(params)?;
        if n_closes == 0 {
            return Err(ScanError::EmptySeries);
        }
        let len = match series {
            VolSeries::LogReturns => {
                if n_closes < 2 {
                    return Err(ScanError::InsufficientData { needed: 2, got: n_closes });
                }
                n_closes - 1
            },
            VolSeries::Close => n_closes,
        };
        if window > len {
            return Err(ScanError::Above { key: ParamKey::Window, value: window, bound: len });
        }
        Ok(VolSettings { series, window })
    }
}


/// The bar timestamps that stamp the values of `series`: a log return is
/// stamped with the open time of the later of its two bars, so the returns
/// carry every timestamp but the first; the closes carry them all.
pub open spec fn series_timestamps(series: VolSeries, ts_ms: Seq<i64>) -> Seq<i64> {
    match series {
        VolSeries::LogReturns => ts_ms.skip(1),
        VolSeries::Close => ts_ms,
    }
}

/// How the rolling windows lie over a series: how many windows there are,
/// how many values the volatility of the window volatilities has, and the
/// timestamp of the first value of each window.
pub struct WindowLayout {
    pub n_windows: usize,
    pub vol_of_vol_len: usize,
    pub window_starts_ms: Vec<i64>,
}

impl VolRollingScan {
    /// The timestamps of the values of `series`, from the open timestamps
    /// `ts_ms` of the bars (at least one bar when the series is returns).
    pub fn series_timestamps_ms(&self, series: VolSeries, ts_ms: &[i64]) -> (r: Vec<i64>)
        requires
            series == VolSeries::LogReturns ==> ts_ms@.len() >= 1,
        ensures
            r@ == series_timestamps(series, ts_ms@),
    {
        let first: usize = match series {
            VolSeries::LogReturns => 1,
            VolSeries::Close => 0,
        };
        let mut out: Vec<i64> = Vec::new();
        let mut i: usize = first;
        while i < ts_ms.len()
            invariant
                first <= i <= ts_ms@.len(),
                out@ == ts_ms@.subrange(first as int, i as int),
            decreases ts_ms@.len() - i,
        {
            out.push(ts_ms[i]);
            i = i + 1;
            assert(out@ =~= ts_ms@.subrange(first as int, i as int));
        }
        assert(ts_ms@.subrange(first as int, ts_ms@.len() as int) =~= series_timestamps(series, ts_ms@));
        out
    }

    /// The layout of windows of `window` values over a series whose values
    /// are stamped `series_ts_ms`: one window starts at each value that has
    /// `window - 1` values after it, and the volatility of the window
    /// volatilities, over windows of the same length, has a value for each
    /// window volatility that has `window - 1` after it (none when there are
    /// fewer window volatilities than `window`).
    pub fn window_layout(&self, series_ts_ms: &[i64], window: usize) -> (r: WindowLayout)
        requires
            2 <= window <= series_ts_ms@.len(),
        ensures
            r.n_windows == series_ts_ms@.len() - window + 1,
            r.vol_of_vol_len == (if r.n_windows < window { 0 } else { r.n_windows - window + 1 }),
            r.window_starts_ms@ == series_ts_ms@.take(r.n_windows as int),
    {
        let n_windows = series_ts_ms.len() - window + 1;
        let vol_of_vol_len = if n_windows < window { 0 } else { n_windows - window + 1 };
        let mut starts: Vec<i64> = Vec::new();
        let mut i: usize = 0;
        while i < n_windows
            invariant
                n_windows <= series_ts_ms@.len(),
                i <= n_windows,
                starts@ == series_ts_ms@.take(i as int),
            decreases n_windows - i,
        {
            starts.push(series_ts_ms[i]);
            i = i + 1;
            assert(starts@ =~= series_ts_ms@.take(i as int));
        }
        WindowLayout { n_windows, vol_of_vol_len, window_starts_ms: starts }
    }
}


/// How the `series` parameter: the log returns when absent; `log_returns` and `close` select the log returns or the closes; any other string is refused as an unknown label, naming it.
pub proof fn lemma_series_labels(p: Params)
    ensures
        p.spec_get(ParamKey::Series) is None ==> series_rule(p) == Ok::<VolSeries, ScanError>(VolSeries::LogReturns),
        forall|s: String|
            p.spec_get(ParamKey::Series) == Some(ParamValue::Str(s)) ==> {
                &&& (series_rule(p) == Ok::<VolSeries, ScanError>(VolSeries::LogReturns) <==> s@ == "log_returns"@)
                &&& (series_rule(p) == Ok::<VolSeries, ScanError>(VolSeries::Close) <==> s@ == "close"@)
                &&& (series_rule(p) == Err::<VolSeries, ScanError>(ScanError::UnknownLabel { key: ParamKey::Series, label: s }) <==> (s@ != "log_returns"@ && s@ != "close"@))
            },
{
    reveal_strlit("log_returns");
    reveal_strlit("close");
    assert("log_returns"@.len() == 11 && "log_returns"@[0] == 'l' && "close"@.len() == 5 && "close"@[0] == 'c');

    lemma_parse_label_cases(p, ParamKey::Series, VolSeries::LogReturns, |s: Seq<char>| vol_series_from_label(s));
    assert forall|s: String| p.spec_get(ParamKey::Series) == Some(ParamValue::Str(s)) implies {
        &&& (series_rule(p) == Ok::<VolSeries, ScanError>(VolSeries::LogReturns) <==> s@ == "log_returns"@)
        &&& (series_rule(p) == Ok::<VolSeries, ScanError>(VolSeries::Close) <==> s@ == "close"@)
        &&& (series_rule(p) == Err::<VolSeries, ScanError>(ScanError::UnknownLabel { key: ParamKey::Series, label: s }) <==> (s@ != "log_returns"@ && s@ != "close"@))
    } by {
        assert(series_rule(p) == match vol_series_from_label(s@) {
            Some(t) => Ok::<VolSeries, ScanError>(t),
            None => Err(ScanError::UnknownLabel { key: ParamKey::Series, label: s }),
        });
    }
}


/// The window is required: absent, it is refused as missing; a given window
/// is accepted exactly when it is an integer of at least 2 that fits in
/// `usize`. A run is
/// accepted only with a window no longer than the series it runs over: the
/// `n - 1` log returns, or the `n` closes.
pub proof fn lemma_vol_window(n: usize, p: Params)
    ensures
        p.spec_get(ParamKey::Window) is None ==> window_rule(p) == Err::<usize, ScanError>(
            ScanError::Missing { key: ParamKey::Window },
        ),
        forall|w: i64|
            p.spec_get(ParamKey::Window) == Some(ParamValue::Int(w)) ==> (window_rule(p) is Ok <==> 2 <= w <= usize::MAX) && (
            window_rule(p) matches Ok(m) ==> m == w),
        vol_rule(n, p) matches Ok(s) ==> 2 <= s.window && (s.series == VolSeries::LogReturns ==> s.window <= n
            - 1) && (s.series == VolSeries::Close ==> s.window <= n),
        vol_rule(n, p) matches Ok(s) ==> (p.spec_get(ParamKey::Series) is None ==> s.series
            == VolSeries::LogReturns),
{
}

} // verus!
