//! Welford summary-statistics scan: its declaration, its `series` label, and
//! the checks it makes before the summary is computed.

use vstd::prelude::*;
use crate::params::{ParamKey, ParamValue, Params, ScanError};
use crate::resolve::{lemma_parse_label_cases, label_param, parse_label};
use crate::scan::{key_views, NullMethod, ScanArity, ScanFindingShape};
use crate::text::str_eq;

verus! {

/// One-pass summary statistics of closes or log returns.
pub struct SummaryWelfordScan;

/// The series that is summarised.
#[derive(PartialEq, Eq, Structural, Clone, Copy, Debug)]
pub enum SummarySeries {
    /// The closes themselves.
    Close,
    /// Log returns of the closes.
    LogReturns,
}

/// The variant of [`SummarySeries`] a label names.
pub open spec fn summary_series_from_label(s: Seq<char>) -> Option<SummarySeries> {
    if s == "close"@ {
        Some(SummarySeries::Close)
    } else if s == "log_returns"@ {
        Some(SummarySeries::LogReturns)
    } else {
        None
    }
}

impl SummarySeries {
    /// The label of this variant.
    pub open spec fn spec_label(self) -> Seq<char> {
        match self {
            SummarySeries::Close => "close"@,
            SummarySeries::LogReturns => "log_returns"@,
        }
    }

    /// The label of this variant.
    pub fn as_str(self) -> (r: &'static str)
        ensures
            r@ == self.spec_label(),
            summary_series_from_label(r@) == Some(self),
    {
        let r = match self {
            SummarySeries::Close => "close",
            SummarySeries::LogReturns => "log_returns",
        };
        proof {
            reveal_strlit("close");
            reveal_strlit("log_returns");
            assert("close"@.len() == 5 && "log_returns"@.len() == 11);
        }
        r
    }
}

/// The `series` parameter; `log_returns` when absent.
pub open spec fn series_rule(p: Params) -> Result<SummarySeries, ScanError> {
    parse_label(p, ParamKey::Series, SummarySeries::LogReturns, |s: Seq<char>| summary_series_from_label(s))
}

/// Resolve the `series` parameter.
pub fn resolve_series(params: &Params) -> (r: Result<SummarySeries, ScanError>)
    ensures
        r == series_rule(*params),
{
    let label = match label_param(params, ParamKey::Series) {
        Err(e) => {
            return Err(e);
        },
        Ok(None) => {
            return Ok(SummarySeries::LogReturns);
        },
        Ok(Some(s)) => s,
    };
    if str_eq(label.as_str(), "close") {
        Ok(SummarySeries::Close)
    } else if str_eq(label.as_str(), "log_returns") {
        Ok(SummarySeries::LogReturns)
    } else {
        Err(ScanError::UnknownLabel { key: ParamKey::Series, label: label.clone() })
    }
}

/// What a run over `n` closes proceeds with: the `series` parameter, then a
/// non-empty close series, with at least two closes for log returns.
pub open spec fn summary_rule(n: usize, p: Params) -> Result<SummarySeries, ScanError> {
    match series_rule(p) {
        Err(e) => Err(e),
        Ok(s) => {
            if n == 0 {
                Err(ScanError::EmptySeries)
            } else if s == SummarySeries::LogReturns && n < 2 {
                Err(ScanError::InsufficientData { needed: 2, got: n })
            } else {
                Ok(s)
            }
        },
    }
}

impl SummaryWelfordScan {
    /// The scan's identifier.
    pub fn id(&self) -> (r: &'static str)
        ensures
            r@ == "stats.summary.welford"@,
    {
        "stats.summary.welford"
    }

    /// The scan's version.
    pub fn version(&self) -> (r: u32)
        ensures
            r == 1,
    {
        1
    }

    /// The scan reads one instrument.
    pub fn arity(&self) -> (r: ScanArity)
        ensures
            r == ScanArity::Single,
    {
        ScanArity::Single
    }

    /// The keys of the scan's result findings.
    pub fn finding_fields(&self) -> (r: ScanFindingShape)
        ensures
            key_views(r.effect_extra_keys@) == seq!["excess_kurtosis"@, "iqr"@, "max"@, "min"@, "n"@, "skew"@, "std"@],
            key_views(r.raw_series_keys@) == seq!["returns"@, "timestamps_ms"@],
    {
        let r = ScanFindingShape {
            effect_extra_keys: vec!["excess_kurtosis", "iqr", "max", "min", "n", "skew", "std"],
            raw_series_keys: vec!["returns", "timestamps_ms"],
        };
        assert(key_views(r.effect_extra_keys@) =~= seq!["excess_kurtosis"@, "iqr"@, "max"@, "min"@, "n"@, "skew"@, "std"@]);
        assert(key_views(r.raw_series_keys@) =~= seq!["returns"@, "timestamps_ms"@]);
        r
    }

    /// Whether the engine may attach bootstrap confidence intervals.
    pub fn supports_bootstrap(&self) -> (r: bool)
        ensures
            r == false,
    {
        false
    }

    /// Whether the engine may run the scan under null method `m`.
    pub fn supports_null_method(&self, m: NullMethod) -> (r: bool)
        ensures
            r == false,
    {
        false
    }

    /// Resolve the parameters and check the input length, as a run does
    /// before computing the summary.
    pub fn prepare(&self, n_closes: usize, params: &Params) -> (r: Result<SummarySeries, ScanError>)
        ensures
            r == summary_rule(n_closes, *params),
    {
        let series = resolve_series(params)?;
        if n_closes == 0 {
            return Err(ScanError::EmptySeries);
        }
        if series == SummarySeries::LogReturns && n_closes < 2 {
            return Err(ScanError::InsufficientData { needed: 2, got: n_closes });
        }
        Ok(series)
    }
}


/// How the `series` parameter: the log returns when absent; `log_returns` and `close` select the log returns or the closes; any other string is refused as an unknown label, naming it.
pub proof fn lemma_series_labels(p: Params)
    ensures
        p.spec_get(ParamKey::Series) is None ==> series_rule(p) == Ok::<SummarySeries, ScanError>(SummarySeries::LogReturns),
        forall|s: String|
            p.spec_get(ParamKey::Series) == Some(ParamValue::Str(s)) ==> {
                &&& (series_rule(p) == Ok::<SummarySeries, ScanError>(SummarySeries::LogReturns) <==> s@ == "log_returns"@)
                &&& (series_rule(p) == Ok::<SummarySeries, ScanError>(SummarySeries::Close) <==> s@ == "close"@)
                &&& (series_rule(p) == Err::<SummarySeries, ScanError>(ScanError::UnknownLabel { key: ParamKey::Series, label: s }) <==> (s@ != "log_returns"@ && s@ != "close"@))
            },
{
    reveal_strlit("log_returns");
    reveal_strlit("close");
    assert("log_returns"@.len() == 11 && "log_returns"@[0] == 'l' && "close"@.len() == 5 && "close"@[0] == 'c');

    lemma_parse_label_cases(p, ParamKey::Series, SummarySeries::LogReturns, |s: Seq<char>| summary_series_from_label(s));
    assert forall|s: String| p.spec_get(ParamKey::Series) == Some(ParamValue::Str(s)) implies {
        &&& (series_rule(p) == Ok::<SummarySeries, ScanError>(SummarySeries::LogReturns) <==> s@ == "log_returns"@)
        &&& (series_rule(p) == Ok::<SummarySeries, ScanError>(SummarySeries::Close) <==> s@ == "close"@)
        &&& (series_rule(p) == Err::<SummarySeries, ScanError>(ScanError::UnknownLabel { key: ParamKey::Series, label: s }) <==> (s@ != "log_returns"@ && s@ != "close"@))
    } by {
        assert(series_rule(p) == match summary_series_from_label(s@) {
            Some(t) => Ok::<SummarySeries, ScanError>(t),
            None => Err(ScanError::UnknownLabel { key: ParamKey::Series, label: s }),
        });
    }
}


/// A run needs at least one close, and two for the log returns (the
/// default).
pub proof fn lemma_summary_length(n: usize, p: Params)
    ensures
        summary_rule(n, p) matches Ok(s) ==> n >= 1 && (s == SummarySeries::LogReturns ==> n >= 2),
        p.spec_get(ParamKey::Series) is None ==> (summary_rule(n, p) is Ok <==> n >= 2),
        p.spec_get(ParamKey::Series) is None && n >= 2 ==> summary_rule(n, p) == Ok::<SummarySeries, ScanError>(
            SummarySeries::LogReturns,
        ),
{
}

} // verus!
