//! Peak-to-trough drawdown profile scan: its declaration, its `series`
//! label, and the checks it makes before the profile is computed.

use vstd::prelude::*;
use crate::params::{ParamKey, ParamValue, Params, ScanError};
use crate::resolve::{lemma_parse_label_cases, label_param, parse_label};
use crate::scan::{key_views, NullMethod, ScanArity, ScanFindingShape};
use crate::text::str_eq;

verus! {

/// Peak-to-trough drawdown profile of the cumulative log-equity curve.
pub struct DrawdownProfileScan;

/// The series whose drawdowns are profiled.
#[derive(PartialEq, Eq, Structural, Clone, Copy, Debug)]
pub enum DrawdownSeries {
    /// Log returns of the closes.
    LogReturns,
    /// The closes, through their log returns.
    Close,
}

/// The variant of [`DrawdownSeries`] a label names.
pub open spec fn drawdown_series_from_label(s: Seq<char>) -> Option<DrawdownSeries> {
    if s == "log_returns"@ {
        Some(DrawdownSeries::LogReturns)
    } else if s == "close"@ {
        Some(DrawdownSeries::Close)
    } else {
        None
    }
}

impl DrawdownSeries {
    /// The label of this variant.
    pub open spec fn spec_label(self) -> Seq<char> {
        match self {
            DrawdownSeries::LogReturns => "log_returns"@,
            DrawdownSeries::Close => "close"@,
        }
    }

    /// The label of this variant.
    pub fn as_str(self) -> (r: &'static str)
        ensures
            r@ == self.spec_label(),
            drawdown_series_from_label(r@) == Some(self),
    {
        let r = match self {
            DrawdownSeries::LogReturns => "log_returns",
            DrawdownSeries::Close => "close",
        };
        proof {
            reveal_strlit("log_returns");
            reveal_strlit("close");
            assert("log_returns"@.len() == 11 && "close"@.len() == 5);
        }
        r
    }
}

/// The `series` parameter; `log_returns` when absent.
pub open spec fn series_rule(p: Params) -> Result<DrawdownSeries, ScanError> {
    parse_label(p, ParamKey::Series, DrawdownSeries::LogReturns, |s: Seq<char>| drawdown_series_from_label(s))
}

/// Resolve the `series` parameter.
pub fn resolve_series(params: &Params) -> (r: Result<DrawdownSeries, ScanError>)
    ensures
        r == series_rule(*params),
{
    let label = match label_param(params, ParamKey::Series) {
        Err(e) => {
            return Err(e);
        },
        Ok(None) => {
            return Ok(DrawdownSeries::LogReturns);
        },
        Ok(Some(s)) => s,
    };
    if str_eq(label.as_str(), "log_returns") {
        Ok(DrawdownSeries::LogReturns)
    } else if str_eq(label.as_str(), "close") {
        Ok(DrawdownSeries::Close)
    } else {
        Err(ScanError::UnknownLabel { key: ParamKey::Series, label: label.clone() })
    }
}

/// The length of the series the profile runs over, for `n` closes.
pub open spec fn drawdown_series_len(series: DrawdownSeries, n: usize) -> int {
    match series {
        DrawdownSeries::LogReturns => n - 1,
        DrawdownSeries::Close => n as int,
    }
}

/// What a run over `n` closes proceeds with: the `series` parameter, then a
/// non-empty close series, at least two closes for log returns, and a
/// series of at least two values.
pub open spec fn drawdown_rule(n: usize, p: Params) -> Result<DrawdownSeries, ScanError> {
    match series_rule(p) {
        Err(e) => Err(e),
        Ok(s) => {
            if n == 0 {
                Err(ScanError::EmptySeries)
            } else if s == DrawdownSeries::LogReturns && n < 2 {
                Err(ScanError::InsufficientData { needed: 2, got: n })
            } else if drawdown_series_len(s, n) < 2 {
                Err(ScanError::SeriesTooShort { needed: 2, got: drawdown_series_len(s, n) as usize })
            } else {
                Ok(s)
            }
        },
    }
}

impl DrawdownProfileScan {
    /// The scan's identifier.
    pub fn id(&self) -> (r: &'static str)
        ensures
            r@ == "stats.drawdown.profile"@,
    {
        "stats.drawdown.profile"
    }

    /// The scan's version.
    pub fn version(&self) -> (r: u32)
        ensures
            r == 1,
    {
        1
    }

    /// The scan reads one instrument.
    pub fn arity(&self) -> (r: ScanArity)
        ensures
            r == ScanArity::Single,
    {
        ScanArity::Single
    }

    /// The keys of the scan's result findings.
    pub fn finding_fields(&self) -> (r: ScanFindingShape)
        ensures
            key_views(r.effect_extra_keys@) == seq!["dd_distribution_p50_p95_p99"@, "drawdown_durations_ms"@, "equity_curve"@, "peaks"@, "time_to_recover_ms"@, "troughs"@],
            key_views(r.raw_series_keys@) == seq!["returns"@, "timestamps_ms"@],
    {
        let r = ScanFindingShape {
            effect_extra_keys: vec!["dd_distribution_p50_p95_p99", "drawdown_durations_ms", "equity_curve", "peaks", "time_to_recover_ms", "troughs"],
            raw_series_keys: vec!["returns", "timestamps_ms"],
        };
        assert(key_views(r.effect_extra_keys@) =~= seq!["dd_distribution_p50_p95_p99"@, "drawdown_durations_ms"@, "equity_curve"@, "peaks"@, "time_to_recover_ms"@, "troughs"@]);
        assert(key_views(r.raw_series_keys@) =~= seq!["returns"@, "timestamps_ms"@]);
        r
    }

    /// Whether the engine may attach bootstrap confidence intervals.
    pub fn supports_bootstrap(&self) -> (r: bool)
        ensures
            r == false,
    {
        false
    }

    /// Whether the engine may run the scan under null method `m`.
    pub fn supports_null_method(&self, m: NullMethod) -> (r: bool)
        ensures
            r == false,
    {
        false
    }

    /// Resolve the parameters and check the input length, as a run does
    /// before computing the profile.
    pub fn prepare(&self, n_closes: usize, params: &Params) -> (r: Result<DrawdownSeries, ScanError>)
        ensures
            r == drawdown_rule(n_closes, *params),
    {
        let series = resolve_series(params)?;
        if n_closes == 0 {
            return Err(ScanError::EmptySeries);
        }
        let len = match series {
            DrawdownSeries::LogReturns => {
                if n_closes < 2 {
                    return Err(ScanError::InsufficientData { needed: 2, got: n_closes });
                }
                n_closes - 1
            },
            DrawdownSeries::Close => n_closes,
        };
        if len < 2 {
            return Err(ScanError::SeriesTooShort { needed: 2, got: len });
        }
        Ok(series)
    }
}


/// How the `series` parameter: the log returns when absent; `log_returns` and `close` select the log returns or the closes; any other string is refused as an unknown label, naming it.
pub proof fn lemma_series_labels(p: Params)
    ensures
        p.spec_get(ParamKey::Series) is None ==> series_rule(p) == Ok::<DrawdownSeries, ScanError>(DrawdownSeries::LogReturns),
        forall|s: String|
            p.spec_get(ParamKey::Series) == Some(ParamValue::Str(s)) ==> {
                &&& (series_rule(p) == Ok::<DrawdownSeries, ScanError>(DrawdownSeries::LogReturns) <==> s@ == "log_returns"@)
                &&& (series_rule(p) == Ok::<DrawdownSeries, ScanError>(DrawdownSeries::Close) <==> s@ == "close"@)
                &&& (series_rule(p) == Err::<DrawdownSeries, ScanError>(ScanError::UnknownLabel { key: ParamKey::Series, label: s }) <==> (s@ != "log_returns"@ && s@ != "close"@))
            },
{
    reveal_strlit("log_returns");
    reveal_strlit("close");
    assert("log_returns"@.len() == 11 && "log_returns"@[0] == 'l' && "close"@.len() == 5 && "close"@[0] == 'c');

    lemma_parse_label_cases(p, ParamKey::Series, DrawdownSeries::LogReturns, |s: Seq<char>| drawdown_series_from_label(s));
    assert forall|s: String| p.spec_get(ParamKey::Series) == Some(ParamValue::Str(s)) implies {
        &&& (series_rule(p) == Ok::<DrawdownSeries, ScanError>(DrawdownSeries::LogReturns) <==> s@ == "log_returns"@)
        &&& (series_rule(p) == Ok::<DrawdownSeries, ScanError>(DrawdownSeries::Close) <==> s@ == "close"@)
        &&& (series_rule(p) == Err::<DrawdownSeries, ScanError>(ScanError::UnknownLabel { key: ParamKey::Series, label: s }) <==> (s@ != "log_returns"@ && s@ != "close"@))
    } by {
        assert(series_rule(p) == match drawdown_series_from_label(s@) {
            Some(t) => Ok::<DrawdownSeries, ScanError>(t),
            None => Err(ScanError::UnknownLabel { key: ParamKey::Series, label: s }),
        });
    }
}


/// A run needs a series of at least two values: at least three closes for
/// the log returns (the default), at least two for the closes; no closes at
/// all is refused as an empty series.
pub proof fn lemma_drawdown_length(n: usize, p: Params)
    ensures
        drawdown_rule(n, p) matches Ok(s) ==> (s == DrawdownSeries::LogReturns ==> n >= 3) && (s
            == DrawdownSeries::Close ==> n >= 2),
        (series_rule(p) is Ok && n == 0) ==> drawdown_rule(n, p) == Err::<DrawdownSeries, ScanError>(
            ScanError::EmptySeries,
        ),
        p.spec_get(ParamKey::Series) is None ==> drawdown_rule(n, p) == (if n == 0 {
            Err::<DrawdownSeries, ScanError>(ScanError::EmptySeries)
        } else if n < 2 {
            Err::<DrawdownSeries, ScanError>(ScanError::InsufficientData { needed: 2, got: n })
        } else if n < 3 {
            Err::<DrawdownSeries, ScanError>(ScanError::SeriesTooShort { needed: 2, got: 1 })
        } else {
            Ok::<DrawdownSeries, ScanError>(DrawdownSeries::LogReturns)
        }),
{
}

} // verus!
