//! Augmented Dickey-Fuller stationarity scan: its declaration, its labels,
//! and the checks it makes on its input and parameters before the test runs.

use vstd::prelude::*;
use crate::lagroot::{floor_lag_root, lag_root, lemma_lag_root_is_root, pow4};
use crate::params::{ParamKey, ParamValue, Params, ScanError};
use crate::resolve::{lemma_parse_label_cases, int_param, int_rule, label_param, parse_label, usize_of, i64_to_usize};
use crate::scan::{key_views, NullMethod, ScanArity, ScanFindingShape};
use crate::text::str_eq;

verus! {

/// Augmented Dickey-Fuller unit-root test on the close levels.
pub struct AdfScan;

/// Deterministic terms of the test regression.
#[derive(PartialEq, Eq, Structural, Clone, Copy, Debug)]
pub enum RegressionVariant {
    /// No constant.
    Nc,
    /// Constant only.
    C,
    /// Constant and linear trend.
    Ct,
    /// Constant, linear and quadratic trend.
    Ctt,
}

/// How the lag order of the test regression is chosen.
#[derive(PartialEq, Eq, Structural, Clone, Copy, Debug)]
pub enum AutoLagVariant {
    /// Minimise the Akaike criterion over `0..=max_lag`.
    Aic,
    /// Minimise the Bayesian criterion over `0..=max_lag`.
    Bic,
    /// Use `max_lag` itself (the label `None`).
    Fixed,
}

/// What the scan runs with once its input and parameters are accepted.
#[derive(PartialEq, Eq, Structural, Clone, Copy, Debug)]
pub struct AdfSettings {
    pub regression: RegressionVariant,
    pub autolag: AutoLagVariant,
    pub max_lag: usize,
}

/// The regression variant a label names.
pub open spec fn regression_from_label(s: Seq<char>) -> Option<RegressionVariant> {
    if s == "nc"@ {
        Some(RegressionVariant::Nc)
    } else if s == "c"@ {
        Some(RegressionVariant::C)
    } else if s == "ct"@ {
        Some(RegressionVariant::Ct)
    } else if s == "ctt"@ {
        Some(RegressionVariant::Ctt)
    } else {
        None
    }
}

/// The lag-selection mode a label names.
pub open spec fn autolag_from_label(s: Seq<char>) -> Option<AutoLagVariant> {
    if s == "AIC"@ {
        Some(AutoLagVariant::Aic)
    } else if s == "BIC"@ {
        Some(AutoLagVariant::Bic)
    } else if s == "None"@ {
        Some(AutoLagVariant::Fixed)
    } else {
        None
    }
}

/// The `regression` parameter; `c` when absent.
pub open spec fn regression_rule(p: Params) -> Result<RegressionVariant, ScanError> {
    parse_label(p, ParamKey::Regression, RegressionVariant::C, |s: Seq<char>| regression_from_label(s))
}

/// The `autolag` parameter; `AIC` when absent.
pub open spec fn autolag_rule(p: Params) -> Result<AutoLagVariant, ScanError> {
    parse_label(p, ParamKey::Autolag, AutoLagVariant::Aic, |s: Seq<char>| autolag_from_label(s))
}

/// The `max_lag` parameter for a series of `n` closes: a non-negative
/// integer, `floor(12 · (n / 100)^(1/4))` when absent, and always below `n`.
pub open spec fn max_lag_rule(p: Params, n: usize) -> Result<usize, ScanError> {
    let candidate: Result<usize, ScanError> = match int_rule(p, ParamKey::MaxLag) {
        Err(e) => Err(e),
        Ok(None) => Ok(lag_root(12, n as int) as usize),
        Ok(Some(i)) => {
            if i < 0 {
                Err(ScanError::BelowMinimum { key: ParamKey::MaxLag, minimum: 0, given: i })
            } else if usize_of(i) is None {
                Err(ScanError::OutOfUsizeRange { key: ParamKey::MaxLag, given: i })
            } else {
                Ok(i as usize)
            }
        },
    };
    match candidate {
        Err(e) => Err(e),
        Ok(m) => {
            if m >= n {
                Err(ScanError::NotBelow { key: ParamKey::MaxLag, value: m, bound: n })
            } else {
                Ok(m)
            }
        },
    }
}

/// What a run over `n` closes with parameters `p` proceeds with: at least
/// four closes, then `regression`, `autolag` and `max_lag`, checked in
/// that order.
pub open spec fn adf_settings_rule(n: usize, p: Params) -> Result<AdfSettings, ScanError> {
    if n < 4 {
        Err(ScanError::InsufficientData { needed: 4, got: n })
    } else {
        match regression_rule(p) {
            Err(e) => Err(e),
            Ok(regression) => match autolag_rule(p) {
                Err(e) => Err(e),
                Ok(autolag) => match max_lag_rule(p, n) {
                    Err(e) => Err(e),
                    Ok(max_lag) => Ok(AdfSettings { regression, autolag, max_lag }),
                },
            },
        }
    }
}

/// Resolve the `regression` parameter.
pub fn resolve_regression(params: &Params) -> (r: Result<RegressionVariant, ScanError>)
    ensures
        r == regression_rule(*params),
{
    let label = match label_param(params, ParamKey::Regression) {
        Err(e) => {
            return Err(e);
        },
        Ok(None) => {
            return Ok(RegressionVariant::C);
        },
        Ok(Some(s)) => s,
    };
    if str_eq(label.as_str(), "nc") {
        Ok(RegressionVariant::Nc)
    } else if str_eq(label.as_str(), "c") {
        Ok(RegressionVariant::C)
    } else if str_eq(label.as_str(), "ct") {
        Ok(RegressionVariant::Ct)
    } else if str_eq(label.as_str(), "ctt") {
        Ok(RegressionVariant::Ctt)
    } else {
        Err(ScanError::UnknownLabel { key: ParamKey::Regression, label: label.clone() })
    }
}

/// Resolve the `autolag` parameter.
pub fn resolve_autolag(params: &Params) -> (r: Result<AutoLagVariant, ScanError>)
    ensures
        r == autolag_rule(*params),
{
    let label = match label_param(params, ParamKey::Autolag) {
        Err(e) => {
            return Err(e);
        },
        Ok(None) => {
            return Ok(AutoLagVariant::Aic);
        },
        Ok(Some(s)) => s,
    };
    if str_eq(label.as_str(), "AIC") {
        Ok(AutoLagVariant::Aic)
    } else if str_eq(label.as_str(), "BIC") {
        Ok(AutoLagVariant::Bic)
    } else if str_eq(label.as_str(), "None") {
        Ok(AutoLagVariant::Fixed)
    } else {
        Err(ScanError::UnknownLabel { key: ParamKey::Autolag, label: label.clone() })
    }
}

/// Resolve the `max_lag` parameter for a series of `n` closes.
pub fn resolve_max_lag(params: &Params, n: usize) -> (r: Result<usize, ScanError>)
    ensures
        r == max_lag_rule(*params, n),
{
    let max_lag = match int_param(params, ParamKey::MaxLag) {
        Err(e) => {
            return Err(e);
        },
        Ok(Some(i)) => {
            if i < 0 {
                return Err(ScanError::BelowMinimum { key: ParamKey::MaxLag, minimum: 0, given: i });
            }
            match i64_to_usize(i) {
                Some(u) => u,
                None => {
                    return Err(ScanError::OutOfUsizeRange { key: ParamKey::MaxLag, given: i });
                },
            }
        },
        Ok(None) => floor_lag_root(12, n),
    };
    if max_lag >= n {
        return Err(ScanError::NotBelow { key: ParamKey::MaxLag, value: max_lag, bound: n });
    }
    Ok(max_lag)
}

/// The label of a regression variant.
pub fn regression_label(r: RegressionVariant) -> (s: &'static str)
    ensures
        regression_from_label(s@) == Some(r),
{
    let s = match r {
        RegressionVariant::Nc => "nc",
        RegressionVariant::C => "c",
        RegressionVariant::Ct => "ct",
        RegressionVariant::Ctt => "ctt",
    };
    proof {
        reveal_strlit("nc");
        reveal_strlit("c");
        reveal_strlit("ct");
        reveal_strlit("ctt");
        assert("nc"@.len() == 2 && "c"@.len() == 1 && "ct"@.len() == 2 && "ctt"@.len() == 3);
        assert("ct"@[0] != "nc"@[0]);
    }
    s
}

impl AdfScan {
    /// The scan's identifier.
    pub fn id(&self) -> (r: &'static str)
        ensures
            r@ == "stats.stationarity.adf"@,
    {
        "stats.stationarity.adf"
    }

    /// The scan's version.
    pub fn version(&self) -> (r: u32)
        ensures
            r == 1,
    {
        1
    }

    /// The scan reads one instrument.
    pub fn arity(&self) -> (r: ScanArity)
        ensures
            r == ScanArity::Single,
    {
        ScanArity::Single
    }

    /// The keys of the scan's result findings.
    pub fn finding_fields(&self) -> (r: ScanFindingShape)
        ensures
            key_views(r.effect_extra_keys@) == seq!["crit_values"@, "lag_selected"@, "nobs"@, "p_value"@, "regression"@],
            key_views(r.raw_series_keys@) == seq!["closes"@, "timestamps_ms"@],
    {
        let r = ScanFindingShape {
            effect_extra_keys: vec!["crit_values", "lag_selected", "nobs", "p_value", "regression"],
            raw_series_keys: vec!["closes", "timestamps_ms"],
        };
        assert(key_views(r.effect_extra_keys@) =~= seq!["crit_values"@, "lag_selected"@, "nobs"@, "p_value"@, "regression"@]);
        assert(key_views(r.raw_series_keys@) =~= seq!["closes"@, "timestamps_ms"@]);
        r
    }

    /// Whether the engine may attach bootstrap confidence intervals.
    pub fn supports_bootstrap(&self) -> (r: bool)
        ensures
            r == true,
    {
        true
    }

    /// Whether the engine may run the scan under null method `m`.
    pub fn supports_null_method(&self, m: NullMethod) -> (r: bool)
        ensures
            r == (m == NullMethod::PhaseScramble || m == NullMethod::CircularShift),
    {
        match m {
            NullMethod::PhaseScramble => true,
            NullMethod::CircularShift => true,
        }
    }

    /// Check the input length and resolve the parameters, as a run does
    /// before the test: at least four closes, then `regression`, `autolag`
    /// and `max_lag`.
    pub fn prepare(&self, n_closes: usize, params: &Params) -> (r: Result<AdfSettings, ScanError>)
        ensures
            r == adf_settings_rule(n_closes, *params),
    {
        if n_closes < 4 {
            return Err(ScanError::InsufficientData { needed: 4, got: n_closes });
        }
        let regression = resolve_regression(params)?;
        let autolag = resolve_autolag(params)?;
        let max_lag = resolve_max_lag(params, n_closes)?;
        Ok(AdfSettings { regression, autolag, max_lag })
    }
}


/// How the `regression` parameter: `c` (constant only) when absent; `nc`, `c`, `ct`, `ctt` name no constant, a constant, a constant and trend, and a constant with linear and quadratic trend; any other string is refused as an unknown label, naming it.
pub proof fn lemma_regression_labels(p: Params)
    ensures
        p.spec_get(ParamKey::Regression) is None ==> regression_rule(p) == Ok::<RegressionVariant, ScanError>(RegressionVariant::C),
        forall|s: String|
            p.spec_get(ParamKey::Regression) == Some(ParamValue::Str(s)) ==> {
                &&& (regression_rule(p) == Ok::<RegressionVariant, ScanError>(RegressionVariant::Nc) <==> s@ == "nc"@)
                &&& (regression_rule(p) == Ok::<RegressionVariant, ScanError>(RegressionVariant::C) <==> s@ == "c"@)
                &&& (regression_rule(p) == Ok::<RegressionVariant, ScanError>(RegressionVariant::Ct) <==> s@ == "ct"@)
                &&& (regression_rule(p) == Ok::<RegressionVariant, ScanError>(RegressionVariant::Ctt) <==> s@ == "ctt"@)
                &&& (regression_rule(p) == Err::<RegressionVariant, ScanError>(ScanError::UnknownLabel { key: ParamKey::Regression, label: s }) <==> (s@ != "nc"@ && s@ != "c"@ && s@ != "ct"@ && s@ != "ctt"@))
            },
{
    reveal_strlit("nc");
    reveal_strlit("c");
    reveal_strlit("ct");
    reveal_strlit("ctt");
    assert("nc"@.len() == 2 && "nc"@[0] == 'n' && "c"@.len() == 1 && "c"@[0] == 'c' && "ct"@.len() == 2 && "ct"@[0] == 'c' && "ctt"@.len() == 3 && "ctt"@[0] == 'c');

    lemma_parse_label_cases(p, ParamKey::Regression, RegressionVariant::C, |s: Seq<char>| regression_from_label(s));
    assert forall|s: String| p.spec_get(ParamKey::Regression) == Some(ParamValue::Str(s)) implies {
        &&& (regression_rule(p) == Ok::<RegressionVariant, ScanError>(RegressionVariant::Nc) <==> s@ == "nc"@)
        &&& (regression_rule(p) == Ok::<RegressionVariant, ScanError>(RegressionVariant::C) <==> s@ == "c"@)
        &&& (regression_rule(p) == Ok::<RegressionVariant, ScanError>(RegressionVariant::Ct) <==> s@ == "ct"@)
        &&& (regression_rule(p) == Ok::<RegressionVariant, ScanError>(RegressionVariant::Ctt) <==> s@ == "ctt"@)
        &&& (regression_rule(p) == Err::<RegressionVariant, ScanError>(ScanError::UnknownLabel { key: ParamKey::Regression, label: s }) <==> (s@ != "nc"@ && s@ != "c"@ && s@ != "ct"@ && s@ != "ctt"@))
    } by {
        assert(regression_rule(p) == match regression_from_label(s@) {
            Some(t) => Ok::<RegressionVariant, ScanError>(t),
            None => Err(ScanError::UnknownLabel { key: ParamKey::Regression, label: s }),
        });
    }
}


/// How the `autolag` parameter: `AIC` when absent; `AIC` and `BIC` pick the lag by those criteria and `None` uses `max_lag` itself; any other string is refused as an unknown label, naming it.
pub proof fn lemma_autolag_labels(p: Params)
    ensures
        p.spec_get(ParamKey::Autolag) is None ==> autolag_rule(p) == Ok::<AutoLagVariant, ScanError>(AutoLagVariant::Aic),
        forall|s: String|
            p.spec_get(ParamKey::Autolag) == Some(ParamValue::Str(s)) ==> {
                &&& (autolag_rule(p) == Ok::<AutoLagVariant, ScanError>(AutoLagVariant::Aic) <==> s@ == "AIC"@)
                &&& (autolag_rule(p) == Ok::<AutoLagVariant, ScanError>(AutoLagVariant::Bic) <==> s@ == "BIC"@)
                &&& (autolag_rule(p) == Ok::<AutoLagVariant, ScanError>(AutoLagVariant::Fixed) <==> s@ == "None"@)
                &&& (autolag_rule(p) == Err::<AutoLagVariant, ScanError>(ScanError::UnknownLabel { key: ParamKey::Autolag, label: s }) <==> (s@ != "AIC"@ && s@ != "BIC"@ && s@ != "None"@))
            },
{
    reveal_strlit("AIC");
    reveal_strlit("BIC");
    reveal_strlit("None");
    assert("AIC"@.len() == 3 && "AIC"@[0] == 'A' && "BIC"@.len() == 3 && "BIC"@[0] == 'B' && "None"@.len() == 4 && "None"@[0] == 'N');

    lemma_parse_label_cases(p, ParamKey::Autolag, AutoLagVariant::Aic, |s: Seq<char>| autolag_from_label(s));
    assert forall|s: String| p.spec_get(ParamKey::Autolag) == Some(ParamValue::Str(s)) implies {
        &&& (autolag_rule(p) == Ok::<AutoLagVariant, ScanError>(AutoLagVariant::Aic) <==> s@ == "AIC"@)
        &&& (autolag_rule(p) == Ok::<AutoLagVariant, ScanError>(AutoLagVariant::Bic) <==> s@ == "BIC"@)
        &&& (autolag_rule(p) == Ok::<AutoLagVariant, ScanError>(AutoLagVariant::Fixed) <==> s@ == "None"@)
        &&& (autolag_rule(p) == Err::<AutoLagVariant, ScanError>(ScanError::UnknownLabel { key: ParamKey::Autolag, label: s }) <==> (s@ != "AIC"@ && s@ != "BIC"@ && s@ != "None"@))
    } by {
        assert(autolag_rule(p) == match autolag_from_label(s@) {
            Some(t) => Ok::<AutoLagVariant, ScanError>(t),
            None => Err(ScanError::UnknownLabel { key: ParamKey::Autolag, label: s }),
        });
    }
}


/// With no `max_lag`, the maximum lag for `n` closes is
/// `floor(12 · (n / 100)^(1/4))`, the largest `m` with `100 · m⁴ ≤ 12⁴ · n`
/// (refused when it is not below `n`); a given `max_lag` is accepted exactly
/// when it is an integer from 0 to `n - 1`, and is then the lag used. A run
/// needs four closes, and with no `regression` or `autolag` it regresses on a
/// constant and picks the lag by the Akaike criterion.
pub proof fn lemma_adf_settings(n: usize, p: Params)
    ensures
        p.spec_get(ParamKey::MaxLag) is None ==> (max_lag_rule(p, n) matches Ok(m) ==> 100 * (m * m * m * m)
            <= 20736 * n && 20736 * n < 100 * ((m + 1) * (m + 1) * (m + 1) * (m + 1))),
        max_lag_rule(p, n) matches Ok(m) ==> m < n,
        forall|i: i64|
            p.spec_get(ParamKey::MaxLag) == Some(ParamValue::Int(i)) ==> (max_lag_rule(p, n) is Ok <==> 0 <= i < n)
                && (max_lag_rule(p, n) matches Ok(m) ==> m == i),
        n < 4 ==> adf_settings_rule(n, p) == Err::<AdfSettings, ScanError>(
            ScanError::InsufficientData { needed: 4, got: n },
        ),
        adf_settings_rule(n, p) matches Ok(s) ==> (p.spec_get(ParamKey::Regression) is None ==> s.regression
            == RegressionVariant::C) && (p.spec_get(ParamKey::Autolag) is None ==> s.autolag == AutoLagVariant::Aic)
            && s.max_lag < n,
{
    lemma_lag_root_is_root(12, n as int);
    assert(pow4(12) == 20736);
    let m = lag_root(12, n as int);
    assert(pow4(m) == m * m * m * m);
    assert(pow4(m + 1) == (m + 1) * (m + 1) * (m + 1) * (m + 1));
}

} // verus!
