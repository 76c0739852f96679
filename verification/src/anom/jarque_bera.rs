//! Jarque-Bera normality scan: its declaration, its `series` label, and the
//! checks it makes before the statistic is computed.

use vstd::prelude::*;
use crate::params::{ParamKey, ParamValue, Params, ScanError};
use crate::resolve::{lemma_parse_label_cases, label_param, parse_label};
use crate::scan::{key_views, NullMethod, ScanArity, ScanFindingShape};
use crate::text::str_eq;

verus! {

/// Jarque-Bera test of normality on returns (or closes).
pub struct JarqueBeraScan;

/// The series whose normality is tested.
#[derive(PartialEq, Eq, Structural, Clone, Copy, Debug)]
pub enum JbSeries {
    /// Log returns of the closes.
    LogReturns,
    /// The closes themselves.
    Close,
}

/// The variant of [`JbSeries`] a label names.
pub open spec fn jb_series_from_label(s: Seq<char>) -> Option<JbSeries> {
    if s == "log_returns"@ {
        Some(JbSeries::LogReturns)
    } else if s == "close"@ {
        Some(JbSeries::Close)
    } else {
        None
    }
}

impl JbSeries {
    /// The label of this variant.
    pub open spec fn spec_label(self) -> Seq<char> {
        match self {
            JbSeries::LogReturns => "log_returns"@,
            JbSeries::Close => "close"@,
        }
    }

    /// The label of this variant.
    pub fn as_str(self) -> (r: &'static str)
        ensures
            r@ == self.spec_label(),
            jb_series_from_label(r@) == Some(self),
    {
        let r = match self {
            JbSeries::LogReturns => "log_returns",
            JbSeries::Close => "close",
        };
        proof {
            reveal_strlit("log_returns");
            reveal_strlit("close");
            assert("log_returns"@.len() == 11 && "close"@.len() == 5);
        }
        r
    }
}

/// The `series` parameter; `log_returns` when absent.
pub open spec fn series_rule(p: Params) -> Result<JbSeries, ScanError> {
    parse_label(p, ParamKey::Series, JbSeries::LogReturns, |s: Seq<char>| jb_series_from_label(s))
}

/// Resolve the `series` parameter.
pub fn resolve_series(params: &Params) -> (r: Result<JbSeries, ScanError>)
    ensures
        r == series_rule(*params),
{
    let label = match label_param(params, ParamKey::Series) {
        Err(e) => {
            return Err(e);
        },
        Ok(None) => {
            return Ok(JbSeries::LogReturns);
        },
        Ok(Some(s)) => s,
    };
    if str_eq(label.as_str(), "log_returns") {
        Ok(JbSeries::LogReturns)
    } else if str_eq(label.as_str(), "close") {
        Ok(JbSeries::Close)
    } else {
        Err(ScanError::UnknownLabel { key: ParamKey::Series, label: label.clone() })
    }
}

/// The length of the tested series, for `n` closes.
pub open spec fn jb_series_len(series: JbSeries, n: usize) -> int {
    match series {
        JbSeries::LogReturns => n - 1,
        JbSeries::Close => n as int,
    }
}

/// What a run over `n` closes proceeds with: the `series` parameter, then a
/// non-empty series of at least two closes, and a tested series of at least
/// four values.
pub open spec fn jarque_bera_rule(n: usize, p: Params) -> Result<JbSeries, ScanError> {
    match series_rule(p) {
        Err(e) => Err(e),
        Ok(s) => {
            if n == 0 {
                Err(ScanError::EmptySeries)
            } else if n < 2 {
                Err(ScanError::InsufficientData { needed: 2, got: n })
            } else if jb_series_len(s, n) < 4 {
                Err(ScanError::SeriesTooShort { needed: 4, got: jb_series_len(s, n) as usize })
            } else {
                Ok(s)
            }
        },
    }
}

impl JarqueBeraScan {
    /// The scan's identifier.
    pub fn id(&self) -> (r: &'static str)
        ensures
            r@ == "stats.normality.jarque_bera"@,
    {
        "stats.normality.jarque_bera"
    }

    /// The scan's version.
    pub fn version(&self) -> (r: u32)
        ensures
            r == 1,
    {
        1
    }

    /// The scan reads one instrument.
    pub fn arity(&self) -> (r: ScanArity)
        ensures
            r == ScanArity::Single,
    {
        ScanArity::Single
    }

    /// The keys of the scan's result findings.
    pub fn finding_fields(&self) -> (r: ScanFindingShape)
        ensures
            key_views(r.effect_extra_keys@) == seq!["excess_kurtosis"@, "n"@, "p_value"@, "skew"@],
            key_views(r.raw_series_keys@) == seq!["returns"@, "timestamps_ms"@],
    {
        let r = ScanFindingShape {
            effect_extra_keys: vec!["excess_kurtosis", "n", "p_value", "skew"],
            raw_series_keys: vec!["returns", "timestamps_ms"],
        };
        assert(key_views(r.effect_extra_keys@) =~= seq!["excess_kurtosis"@, "n"@, "p_value"@, "skew"@]);
        assert(key_views(r.raw_series_keys@) =~= seq!["returns"@, "timestamps_ms"@]);
        r
    }

    /// Whether the engine may attach bootstrap confidence intervals.
    pub fn supports_bootstrap(&self) -> (r: bool)
        ensures
            r == false,
    {
        false
    }

    /// Whether the engine may run the scan under null method `m`.
    pub fn supports_null_method(&self, m: NullMethod) -> (r: bool)
        ensures
            r == false,
    {
        false
    }

    /// Resolve the parameters and check the input length, as a run does
    /// before computing the statistic.
    pub fn prepare(&self, n_closes: usize, params: &Params) -> (r: Result<JbSeries, ScanError>)
        ensures
            r == jarque_bera_rule(n_closes, *params),
    {
        let series = resolve_series(params)?;
        if n_closes == 0 {
            return Err(ScanError::EmptySeries);
        }
        if n_closes < 2 {
            return Err(ScanError::InsufficientData { needed: 2, got: n_closes });
        }
        let len = match series {
            JbSeries::LogReturns => n_closes - 1,
            JbSeries::Close => n_closes,
        };
        if len < 4 {
            return Err(ScanError::SeriesTooShort { needed: 4, got: len });
        }
        Ok(series)
    }
}


/// How the `series` parameter: the log returns when absent; `log_returns` and `close` select the log returns or the closes; any other string is refused as an unknown label, naming it.
pub proof fn lemma_series_labels(p: Params)
    ensures
        p.spec_get(ParamKey::Series) is None ==> series_rule(p) == Ok::<JbSeries, ScanError>(JbSeries::LogReturns),
        forall|s: String|
            p.spec_get(ParamKey::Series) == Some(ParamValue::Str(s)) ==> {
                &&& (series_rule(p) == Ok::<JbSeries, ScanError>(JbSeries::LogReturns) <==> s@ == "log_returns"@)
                &&& (series_rule(p) == Ok::<JbSeries, ScanError>(JbSeries::Close) <==> s@ == "close"@)
                &&& (series_rule(p) == Err::<JbSeries, ScanError>(ScanError::UnknownLabel { key: ParamKey::Series, label: s }) <==> (s@ != "log_returns"@ && s@ != "close"@))
            },
{
    reveal_strlit("log_returns");
    reveal_strlit("close");
    assert("log_returns"@.len() == 11 && "log_returns"@[0] == 'l' && "close"@.len() == 5 && "close"@[0] == 'c');

    lemma_parse_label_cases(p, ParamKey::Series, JbSeries::LogReturns, |s: Seq<char>| jb_series_from_label(s));
    assert forall|s: String| p.spec_get(ParamKey::Series) == Some(ParamValue::Str(s)) implies {
        &&& (series_rule(p) == Ok::<JbSeries, ScanError>(JbSeries::LogReturns) <==> s@ == "log_returns"@)
        &&& (series_rule(p) == Ok::<JbSeries, ScanError>(JbSeries::Close) <==> s@ == "close"@)
        &&& (series_rule(p) == Err::<JbSeries, ScanError>(ScanError::UnknownLabel { key: ParamKey::Series, label: s }) <==> (s@ != "log_returns"@ && s@ != "close"@))
    } by {
        assert(series_rule(p) == match jb_series_from_label(s@) {
            Some(t) => Ok::<JbSeries, ScanError>(t),
            None => Err(ScanError::UnknownLabel { key: ParamKey::Series, label: s }),
        });
    }
}


/// A run needs a tested series of at least four values: at least five
/// closes for the log returns (the default), at least four for the closes.
pub proof fn lemma_jarque_bera_length(n: usize, p: Params)
    ensures
        jarque_bera_rule(n, p) matches Ok(s) ==> (s == JbSeries::LogReturns ==> n >= 5) && (s == JbSeries::Close
            ==> n >= 4),
        p.spec_get(ParamKey::Series) is None ==> (jarque_bera_rule(n, p) is Ok <==> n >= 5),
        p.spec_get(ParamKey::Series) is None && n >= 5 ==> jarque_bera_rule(n, p) == Ok::<JbSeries, ScanError>(
            JbSeries::LogReturns,
        ),
{
}

} // verus!
