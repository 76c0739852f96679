//! Z-score and modified-Z (MAD) outlier scan: its declaration and its
//! `series` label.

use vstd::prelude::*;
use crate::params::{ParamKey, ParamValue, Params, ScanError};
use crate::resolve::{lemma_parse_label_cases, label_param, parse_label};
use crate::scan::{key_views, NullMethod, ScanArity, ScanFindingShape};
use crate::text::str_eq;

verus! {

/// Outliers by z-score and by MAD-based modified z-score.
pub struct OutliersZAndMadScan;

/// The series searched for outliers.
#[derive(PartialEq, Eq, Structural, Clone, Copy, Debug)]
pub enum OutlierSeries {
    /// Log returns of the closes.
    LogReturns,
    /// The closes themselves.
    Close,
}

/// The variant of [`OutlierSeries`] a label names.
pub open spec fn outlier_series_from_label(s: Seq<char>) -> Option<OutlierSeries> {
    if s == "log_returns"@ {
        Some(OutlierSeries::LogReturns)
    } else if s == "close"@ {
        Some(OutlierSeries::Close)
    } else {
        None
    }
}

impl OutlierSeries {
    /// The label of this variant.
    pub open spec fn spec_label(self) -> Seq<char> {
        match self {
            OutlierSeries::LogReturns => "log_returns"@,
            OutlierSeries::Close => "close"@,
        }
    }

    /// The label of this variant.
    pub fn as_str(self) -> (r: &'static str)
        ensures
            r@ == self.spec_label(),
            outlier_series_from_label(r@) == Some(self),
    {
        let r = match self {
            OutlierSeries::LogReturns => "log_returns",
            OutlierSeries::Close => "close",
        };
        proof {
            reveal_strlit("log_returns");
            reveal_strlit("close");
            assert("log_returns"@.len() == 11 && "close"@.len() == 5);
        }
        r
    }
}

/// The `series` parameter; `log_returns` when absent.
pub open spec fn series_rule(p: Params) -> Result<OutlierSeries, ScanError> {
    parse_label(p, ParamKey::Series, OutlierSeries::LogReturns, |s: Seq<char>| outlier_series_from_label(s))
}

/// Resolve the `series` parameter.
pub fn resolve_series(params: &Params) -> (r: Result<OutlierSeries, ScanError>)
    ensures
        r == series_rule(*params),
{
    let label = match label_param(params, ParamKey::Series) {
        Err(e) => {
            return Err(e);
        },
        Ok(None) => {
            return Ok(OutlierSeries::LogReturns);
        },
        Ok(Some(s)) => s,
    };
    if str_eq(label.as_str(), "log_returns") {
        Ok(OutlierSeries::LogReturns)
    } else if str_eq(label.as_str(), "close") {
        Ok(OutlierSeries::Close)
    } else {
        Err(ScanError::UnknownLabel { key: ParamKey::Series, label: label.clone() })
    }
}

/// The length of the searched series, for `n` closes.
pub open spec fn outlier_series_len(series: OutlierSeries, n: usize) -> int {
    match series {
        OutlierSeries::LogReturns => n - 1,
        OutlierSeries::Close => n as int,
    }
}

/// Whether a run over `n` closes with `series` may search for outliers: a
/// non-empty close series, at least two closes for log returns, and a
/// searched series of at least two values, whose length is the result.
pub open spec fn outlier_length_rule(series: OutlierSeries, n: usize) -> Result<usize, ScanError> {
    if n == 0 {
        Err(ScanError::EmptySeries)
    } else if series == OutlierSeries::LogReturns && n < 2 {
        Err(ScanError::InsufficientData { needed: 2, got: n })
    } else if outlier_series_len(series, n) < 2 {
        Err(ScanError::SeriesTooShort { needed: 2, got: outlier_series_len(series, n) as usize })
    } else {
        Ok(outlier_series_len(series, n) as usize)
    }
}

impl OutliersZAndMadScan {
    /// The scan's identifier.
    pub fn id(&self) -> (r: &'static str)
        ensures
            r@ == "stats.outliers.z_and_mad"@,
    {
        "stats.outliers.z_and_mad"
    }

    /// The scan's version.
    pub fn version(&self) -> (r: u32)
        ensures
            r == 1,
    {
        1
    }

    /// The scan reads one instrument.
    pub fn arity(&self) -> (r: ScanArity)
        ensures
            r == ScanArity::Single,
    {
        ScanArity::Single
    }

    /// The keys of the scan's result findings.
    pub fn finding_fields(&self) -> (r: ScanFindingShape)
        ensures
            key_views(r.effect_extra_keys@) == seq!["mad"@, "median"@, "modified_z_threshold"@, "outlier_indices"@, "outlier_values_modified_z"@, "outlier_values_z"@, "z_threshold"@],
            key_views(r.raw_series_keys@) == seq!["returns"@, "timestamps_ms"@],
    {
        let r = ScanFindingShape {
            effect_extra_keys: vec!["mad", "median", "modified_z_threshold", "outlier_indices", "outlier_values_modified_z", "outlier_values_z", "z_threshold"],
            raw_series_keys: vec!["returns", "timestamps_ms"],
        };
        assert(key_views(r.effect_extra_keys@) =~= seq!["mad"@, "median"@, "modified_z_threshold"@, "outlier_indices"@, "outlier_values_modified_z"@, "outlier_values_z"@, "z_threshold"@]);
        assert(key_views(r.raw_series_keys@) =~= seq!["returns"@, "timestamps_ms"@]);
        r
    }

    /// Whether the engine may attach bootstrap confidence intervals.
    pub fn supports_bootstrap(&self) -> (r: bool)
        ensures
            r == false,
    {
        false
    }

    /// Whether the engine may run the scan under null method `m`.
    pub fn supports_null_method(&self, m: NullMethod) -> (r: bool)
        ensures
            r == false,
    {
        false
    }

    /// Check the input length for the resolved `series`, as a run does
    /// after resolving its parameters; the result is the length of the
    /// searched series.
    pub fn check_length(&self, series: OutlierSeries, n_closes: usize) -> (r: Result<usize, ScanError>)
        ensures
            r == outlier_length_rule(series, n_closes),
    {
        if n_closes == 0 {
            return Err(ScanError::EmptySeries);
        }
        let len = match series {
            OutlierSeries::LogReturns => {
                if n_closes < 2 {
                    return Err(ScanError::InsufficientData { needed: 2, got: n_closes });
                }
                n_closes - 1
            },
            OutlierSeries::Close => n_closes,
        };
        if len < 2 {
            return Err(ScanError::SeriesTooShort { needed: 2, got: len });
        }
        Ok(len)
    }
}


/// How the `series` parameter: the log returns when absent; `log_returns` and `close` select the log returns or the closes; any other string is refused as an unknown label, naming it.
pub proof fn lemma_series_labels(p: Params)
    ensures
        p.spec_get(ParamKey::Series) is None ==> series_rule(p) == Ok::<OutlierSeries, ScanError>(OutlierSeries::LogReturns),
        forall|s: String|
            p.spec_get(ParamKey::Series) == Some(ParamValue::Str(s)) ==> {
                &&& (series_rule(p) == Ok::<OutlierSeries, ScanError>(OutlierSeries::LogReturns) <==> s@ == "log_returns"@)
                &&& (series_rule(p) == Ok::<OutlierSeries, ScanError>(OutlierSeries::Close) <==> s@ == "close"@)
                &&& (series_rule(p) == Err::<OutlierSeries, ScanError>(ScanError::UnknownLabel { key: ParamKey::Series, label: s }) <==> (s@ != "log_returns"@ && s@ != "close"@))
            },
{
    reveal_strlit("log_returns");
    reveal_strlit("close");
    assert("log_returns"@.len() == 11 && "log_returns"@[0] == 'l' && "close"@.len() == 5 && "close"@[0] == 'c');

    lemma_parse_label_cases(p, ParamKey::Series, OutlierSeries::LogReturns, |s: Seq<char>| outlier_series_from_label(s));
    assert forall|s: String| p.spec_get(ParamKey::Series) == Some(ParamValue::Str(s)) implies {
        &&& (series_rule(p) == Ok::<OutlierSeries, ScanError>(OutlierSeries::LogReturns) <==> s@ == "log_returns"@)
        &&& (series_rule(p) == Ok::<OutlierSeries, ScanError>(OutlierSeries::Close) <==> s@ == "close"@)
        &&& (series_rule(p) == Err::<OutlierSeries, ScanError>(ScanError::UnknownLabel { key: ParamKey::Series, label: s }) <==> (s@ != "log_returns"@ && s@ != "close"@))
    } by {
        assert(series_rule(p) == match outlier_series_from_label(s@) {
            Some(t) => Ok::<OutlierSeries, ScanError>(t),
            None => Err(ScanError::UnknownLabel { key: ParamKey::Series, label: s }),
        });
    }
}


/// Outliers are sought in a series of at least two values: the `n - 1` log
/// returns of at least three closes, or at least two closes; the accepted
/// length is that series' length.
pub proof fn lemma_outlier_length(series: OutlierSeries, n: usize)
    ensures
        outlier_length_rule(series, n) matches Ok(len) ==> (series == OutlierSeries::LogReturns ==> n >= 3 && len
            == n - 1) && (series == OutlierSeries::Close ==> n >= 2 && len == n),
        outlier_length_rule(series, n) is Ok <==> (series == OutlierSeries::LogReturns && n >= 3) || (series
            == OutlierSeries::Close && n >= 2),
{
}

} // verus!
