//! KPSS stationarity scan: its declaration, its `regression` and `nlags`
//! parameters, the default lag truncation, and the checks it makes before
//! the statistic is computed.

use vstd::prelude::*;
use crate::params::{ParamKey, Params, ScanError};
use crate::resolve::{label_param, label_rule, parse_label, usize_of, i64_to_usize};
use crate::scan::{key_views, NullMethod, ScanArity, ScanFindingShape};
use crate::text::str_eq;
use crate::params::{ParamValue, ValueKind};
use crate::lagroot::{floor_lag_root, is_lag_root, lag_root};

verus! {

/// Kwiatkowski-Phillips-Schmidt-Shin stationarity test on the close levels.
pub struct KpssScan;

/// Deterministic terms removed before the test.
#[derive(PartialEq, Eq, Structural, Clone, Copy, Debug)]
pub enum KpssRegression {
    /// Level stationarity (constant only).
    C,
    /// Trend stationarity (constant and trend).
    Ct,
}

/// The variant of [`KpssRegression`] a label names.
pub open spec fn kpss_regression_from_label(s: Seq<char>) -> Option<KpssRegression> {
    if s == "c"@ {
        Some(KpssRegression::C)
    } else if s == "ct"@ {
        Some(KpssRegression::Ct)
    } else {
        None
    }
}

impl KpssRegression {
    /// The label of this variant.
    pub open spec fn spec_label(self) -> Seq<char> {
        match self {
            KpssRegression::C => "c"@,
            KpssRegression::Ct => "ct"@,
        }
    }

    /// The label of this variant.
    pub fn label(self) -> (r: &'static str)
        ensures
            r@ == self.spec_label(),
            kpss_regression_from_label(r@) == Some(self),
    {
        let r = match self {
            KpssRegression::C => "c",
            KpssRegression::Ct => "ct",
        };
        proof {
            reveal_strlit("c");
            reveal_strlit("ct");
            assert("c"@.len() == 1 && "ct"@.len() == 2);
        }
        r
    }
}

/// The `regression` parameter; `c` when absent.
pub open spec fn regression_rule(p: Params) -> Result<KpssRegression, ScanError> {
    parse_label(p, ParamKey::Regression, KpssRegression::C, |s: Seq<char>| kpss_regression_from_label(s))
}

/// Resolve the `regression` parameter.
pub fn resolve_regression(params: &Params) -> (r: Result<KpssRegression, ScanError>)
    ensures
        r == regression_rule(*params),
{
    let label = match label_param(params, ParamKey::Regression) {
        Err(e) => {
            return Err(e);
        },
        Ok(None) => {
            return Ok(KpssRegression::C);
        },
        Ok(Some(s)) => s,
    };
    if str_eq(label.as_str(), "c") {
        Ok(KpssRegression::C)
    } else if str_eq(label.as_str(), "ct") {
        Ok(KpssRegression::Ct)
    } else {
        Err(ScanError::UnknownLabel { key: ParamKey::Regression, label: label.clone() })
    }
}

/// The label of a regression variant.
pub fn regression_label(r: KpssRegression) -> (s: &'static str)
    ensures
        s@ == r.spec_label(),
        kpss_regression_from_label(s@) == Some(r),
{
    r.label()
}

/// How the Bartlett lag truncation is chosen.
#[derive(PartialEq, Eq, Structural, Clone, Copy, Debug)]
pub enum NlagsParam {
    /// `floor(4 · (n / 100)^(1/4))`.
    Auto,
    /// A fixed truncation below the series length.
    Manual(usize),
}

/// `floor(4 · (n / 100)^(1/4))`, the automatic lag truncation for `n`
/// observations.
pub fn auto_lag_truncation(n: usize) -> (r: usize)
    ensures
        is_lag_root(r as int, 4, n as int),
        r == lag_root(4, n as int),
{
    floor_lag_root(4, n)
}

/// The `nlags` parameter for a series of `n` closes: `auto` (also when
/// absent) or a non-negative integer below `n`.
pub open spec fn nlags_rule(p: Params, n: usize) -> Result<NlagsParam, ScanError> {
    match p.spec_get(ParamKey::Nlags) {
        None => Ok(NlagsParam::Auto),
        Some(ParamValue::Str(s)) => {
            if s@ == "auto"@ {
                Ok(NlagsParam::Auto)
            } else {
                Err(ScanError::UnknownLabel { key: ParamKey::Nlags, label: s })
            }
        },
        Some(ParamValue::Int(i)) => {
            if i < 0 {
                Err(ScanError::BelowMinimum { key: ParamKey::Nlags, minimum: 0, given: i })
            } else if usize_of(i) is None {
                Err(ScanError::OutOfUsizeRange { key: ParamKey::Nlags, given: i })
            } else if i >= n {
                Err(ScanError::NotBelow { key: ParamKey::Nlags, value: i as usize, bound: n })
            } else {
                Ok(NlagsParam::Manual(i as usize))
            }
        },
        Some(_) => Err(ScanError::WrongKind { key: ParamKey::Nlags, expected: ValueKind::IntegerOrAuto }),
    }
}

/// Resolve the `nlags` parameter for a series of `n` closes.
pub fn resolve_nlags(params: &Params, n: usize) -> (r: Result<NlagsParam, ScanError>)
    ensures
        r == nlags_rule(*params, n),
{
    let v = match params.get(ParamKey::Nlags) {
        None => {
            return Ok(NlagsParam::Auto);
        },
        Some(v) => v,
    };
    if let Some(s) = v.as_str() {
        if str_eq(s.as_str(), "auto") {
            Ok(NlagsParam::Auto)
        } else {
            Err(ScanError::UnknownLabel { key: ParamKey::Nlags, label: s.clone() })
        }
    } else if let Some(i) = v.as_i64() {
        if i < 0 {
            return Err(ScanError::BelowMinimum { key: ParamKey::Nlags, minimum: 0, given: i });
        }
        let u = match i64_to_usize(i) {
            Some(u) => u,
            None => {
                return Err(ScanError::OutOfUsizeRange { key: ParamKey::Nlags, given: i });
            },
        };
        if u >= n {
            return Err(ScanError::NotBelow { key: ParamKey::Nlags, value: u, bound: n });
        }
        Ok(NlagsParam::Manual(u))
    } else {
        Err(ScanError::WrongKind { key: ParamKey::Nlags, expected: ValueKind::IntegerOrAuto })
    }
}

/// What the scan runs with once its input and parameters are accepted.
#[derive(PartialEq, Eq, Structural, Clone, Copy, Debug)]
pub struct KpssSettings {
    pub regression: KpssRegression,
    pub nlags: NlagsParam,
}

/// What a run over `n` closes proceeds with: at least four closes, then
/// `regression`, then `nlags`.
pub open spec fn kpss_rule(n: usize, p: Params) -> Result<KpssSettings, ScanError> {
    if n < 4 {
        Err(ScanError::InsufficientData { needed: 4, got: n })
    } else {
        match regression_rule(p) {
            Err(e) => Err(e),
            Ok(regression) => match nlags_rule(p, n) {
                Err(e) => Err(e),
                Ok(nlags) => Ok(KpssSettings { regression, nlags }),
            },
        }
    }
}

impl KpssScan {
    /// The scan's identifier.
    pub fn id(&self) -> (r: &'static str)
        ensures
            r@ == "stats.stationarity.kpss"@,
    {
        "stats.stationarity.kpss"
    }

    /// The scan's version.
    pub fn version(&self) -> (r: u32)
        ensures
            r == 1,
    {
        1
    }

    /// The scan reads one instrument.
    pub fn arity(&self) -> (r: ScanArity)
        ensures
            r == ScanArity::Single,
    {
        ScanArity::Single
    }

    /// The keys of the scan's result findings.
    pub fn finding_fields(&self) -> (r: ScanFindingShape)
        ensures
            key_views(r.effect_extra_keys@) == seq!["crit_values"@, "lag_truncation"@, "p_value"@, "regression"@],
            key_views(r.raw_series_keys@) == seq!["closes"@, "timestamps_ms"@],
    {
        let r = ScanFindingShape {
            effect_extra_keys: vec!["crit_values", "lag_truncation", "p_value", "regression"],
            raw_series_keys: vec!["closes", "timestamps_ms"],
        };
        assert(key_views(r.effect_extra_keys@) =~= seq!["crit_values"@, "lag_truncation"@, "p_value"@, "regression"@]);
        assert(key_views(r.raw_series_keys@) =~= seq!["closes"@, "timestamps_ms"@]);
        r
    }

    /// Whether the engine may attach bootstrap confidence intervals.
    pub fn supports_bootstrap(&self) -> (r: bool)
        ensures
            r == true,
    {
        true
    }

    /// Whether the engine may run the scan under null method `m`.
    pub fn supports_null_method(&self, m: NullMethod) -> (r: bool)
        ensures
            r == (m == NullMethod::PhaseScramble || m == NullMethod::CircularShift),
    {
        match m {
            NullMethod::PhaseScramble => true,
            NullMethod::CircularShift => true,
        }
    }

    /// Check the input length and resolve the parameters, as a run does
    /// before computing the statistic.
    pub fn prepare(&self, n_closes: usize, params: &Params) -> (r: Result<KpssSettings, ScanError>)
        ensures
            r == kpss_rule(n_closes, *params),
    {
        if n_closes < 4 {
            return Err(ScanError::InsufficientData { needed: 4, got: n_closes });
        }
        let regression = resolve_regression(params)?;
        let nlags = resolve_nlags(params, n_closes)?;
        Ok(KpssSettings { regression, nlags })
    }
}


/// A KPSS run over `n` closes: fewer than four closes are refused; with no
/// `regression` and no `nlags` it tests level stationarity (regression `c`)
/// with the automatic lag truncation; the label `c` selects level and `ct`
/// trend stationarity, and any other label is refused; and a given lag
/// truncation lies below `n`.
pub proof fn lemma_kpss_settings(n: usize, p: Params)
    ensures
        n < 4 ==> kpss_rule(n, p) == Err::<KpssSettings, ScanError>(
            ScanError::InsufficientData { needed: 4, got: n },
        ),
        n >= 4 && p.spec_get(ParamKey::Regression) is None && p.spec_get(ParamKey::Nlags) is None
            ==> kpss_rule(n, p) == Ok::<KpssSettings, ScanError>(
            KpssSettings { regression: KpssRegression::C, nlags: NlagsParam::Auto },
        ),
        p.spec_get(ParamKey::Regression) is None ==> regression_rule(p) == Ok::<
            KpssRegression,
            ScanError,
        >(KpssRegression::C),
        forall|s: String|
            p.spec_get(ParamKey::Regression) == Some(ParamValue::Str(s)) ==> {
                &&& (regression_rule(p) == Ok::<KpssRegression, ScanError>(KpssRegression::C) <==> s@
                    == "c"@)
                &&& (regression_rule(p) == Ok::<KpssRegression, ScanError>(KpssRegression::Ct) <==> s@
                    == "ct"@)
                &&& (regression_rule(p) is Err <==> (s@ != "c"@ && s@ != "ct"@))
            },
        kpss_rule(n, p) matches Ok(st) ==> (st.nlags matches NlagsParam::Manual(m) ==> m < n),
        forall|s: String|
            p.spec_get(ParamKey::Nlags) == Some(ParamValue::Str(s)) ==> (nlags_rule(p, n) is Ok <==> s@ == "auto"@)
                && (nlags_rule(p, n) is Ok ==> nlags_rule(p, n) == Ok::<NlagsParam, ScanError>(NlagsParam::Auto)),
        forall|i: i64|
            p.spec_get(ParamKey::Nlags) == Some(ParamValue::Int(i)) ==> (nlags_rule(p, n) is Ok <==> 0 <= i < n) && (
            nlags_rule(p, n) matches Ok(NlagsParam::Manual(m)) ==> m == i) && !(nlags_rule(p, n) matches Ok(
                NlagsParam::Auto,
            )),
        kpss_rule(n, p) matches Ok(st) ==> (p.spec_get(ParamKey::Nlags) is None ==> st.nlags
            == NlagsParam::Auto),
{
    reveal_strlit("c");
    reveal_strlit("ct");
    assert("c"@.len() == 1 && "ct"@.len() == 2);
    assert forall|s: String| p.spec_get(ParamKey::Regression) == Some(ParamValue::Str(s)) implies {
        &&& (regression_rule(p) == Ok::<KpssRegression, ScanError>(KpssRegression::C) <==> s@ == "c"@)
        &&& (regression_rule(p) == Ok::<KpssRegression, ScanError>(KpssRegression::Ct) <==> s@ == "ct"@)
        &&& (regression_rule(p) is Err <==> (s@ != "c"@ && s@ != "ct"@))
    } by {
        assert(label_rule(p, ParamKey::Regression) == Ok::<Option<String>, ScanError>(Some(s)));
        assert(regression_rule(p) == match kpss_regression_from_label(s@) {
            Some(t) => Ok::<KpssRegression, ScanError>(t),
            None => Err(ScanError::UnknownLabel { key: ParamKey::Regression, label: s }),
        });
    }
}

} // verus!
