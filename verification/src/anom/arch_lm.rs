//! Engle ARCH-LM heteroskedasticity scan: its declaration, its `lag`
//! parameter, and the checks it makes before the test runs.

use vstd::prelude::*;
use crate::params::{ParamKey, ParamValue, Params, ScanError};
use crate::resolve::{int_param, int_rule, usize_of, i64_to_usize};
use crate::scan::{key_views, NullMethod, ScanArity, ScanFindingShape};

verus! {

/// Engle's ARCH-LM test on the log returns.
pub struct ArchLmScan;

/// Default lag order.
pub const DEFAULT_LAG: usize = 5;

/// The `lag` parameter for `n` returns: an integer of at least 1 and at
/// most `n / 3`; 5 when absent.
pub open spec fn lag_rule(p: Params, n: usize) -> Result<usize, ScanError> {
    let lag: Result<usize, ScanError> = match int_rule(p, ParamKey::Lag) {
        Err(e) => Err(e),
        Ok(None) => Ok(DEFAULT_LAG),
        Ok(Some(i)) => {
            if i < 1 {
                Err(ScanError::BelowMinimum { key: ParamKey::Lag, minimum: 1, given: i })
            } else if usize_of(i) is None {
                Err(ScanError::OutOfUsizeRange { key: ParamKey::Lag, given: i })
            } else {
                Ok(i as usize)
            }
        },
    };
    match lag {
        Err(e) => Err(e),
        Ok(l) => {
            if l > n / 3 {
                Err(ScanError::Above { key: ParamKey::Lag, value: l, bound: n / 3 })
            } else {
                Ok(l)
            }
        },
    }
}

/// Resolve the `lag` parameter for `n` returns.
pub fn resolve_lag(params: &Params, n: usize) -> (r: Result<usize, ScanError>)
    ensures
        r == lag_rule(*params, n),
{
    let lag = match int_param(params, ParamKey::Lag) {
        Err(e) => {
            return Err(e);
        },
        Ok(None) => DEFAULT_LAG,
        Ok(Some(i)) => {
            if i < 1 {
                return Err(ScanError::BelowMinimum { key: ParamKey::Lag, minimum: 1, given: i });
            }
            match i64_to_usize(i) {
                Some(u) => u,
                None => {
                    return Err(ScanError::OutOfUsizeRange { key: ParamKey::Lag, given: i });
                },
            }
        },
    };
    if lag > n / 3 {
        return Err(ScanError::Above { key: ParamKey::Lag, value: lag, bound: n / 3 });
    }
    Ok(lag)
}

/// What a run over `n` closes proceeds with: at least two closes, then the
/// `lag` parameter for the `n - 1` log returns.
pub open spec fn arch_lm_rule(n: usize, p: Params) -> Result<usize, ScanError> {
    if n < 2 {
        Err(ScanError::InsufficientData { needed: 2, got: n })
    } else {
        lag_rule(p, (n - 1) as usize)
    }
}

impl ArchLmScan {
    /// The scan's identifier.
    pub fn id(&self) -> (r: &'static str)
        ensures
            r@ == "stats.heteroskedasticity.arch_lm"@,
    {
        "stats.heteroskedasticity.arch_lm"
    }

    /// The scan's version.
    pub fn version(&self) -> (r: u32)
        ensures
            r == 1,
    {
        1
    }

    /// The scan reads one instrument.
    pub fn arity(&self) -> (r: ScanArity)
        ensures
            r == ScanArity::Single,
    {
        ScanArity::Single
    }

    /// The keys of the scan's result findings.
    pub fn finding_fields(&self) -> (r: ScanFindingShape)
        ensures
            key_views(r.effect_extra_keys@) == seq!["f_p_value"@, "f_statistic"@, "lag"@, "p_value"@],
            key_views(r.raw_series_keys@) == seq!["returns"@, "timestamps_ms"@],
    {
        let r = ScanFindingShape {
            effect_extra_keys: vec!["f_p_value", "f_statistic", "lag", "p_value"],
            raw_series_keys: vec!["returns", "timestamps_ms"],
        };
        assert(key_views(r.effect_extra_keys@) =~= seq!["f_p_value"@, "f_statistic"@, "lag"@, "p_value"@]);
        assert(key_views(r.raw_series_keys@) =~= seq!["returns"@, "timestamps_ms"@]);
        r
    }

    /// Whether the engine may attach bootstrap confidence intervals.
    pub fn supports_bootstrap(&self) -> (r: bool)
        ensures
            r == false,
    {
        false
    }

    /// Whether the engine may run the scan under null method `m`.
    pub fn supports_null_method(&self, m: NullMethod) -> (r: bool)
        ensures
            r == false,
    {
        false
    }

    /// Check the input length and resolve `lag`, as a run does before the
    /// test.
    pub fn prepare(&self, n_closes: usize, params: &Params) -> (r: Result<usize, ScanError>)
        ensures
            r == arch_lm_rule(n_closes, *params),
    {
        if n_closes < 2 {
            return Err(ScanError::InsufficientData { needed: 2, got: n_closes });
        }
        resolve_lag(params, n_closes - 1)
    }
}


/// With no `lag` the lag order for `n` returns is 5, accepted when `n` is at
/// least 15; a given lag is accepted exactly when it is an integer from 1
/// to `n / 3`, and is then the order used. A run over `n` closes tests the
/// `n - 1` log returns and needs at least two closes.
pub proof fn lemma_arch_lm_lag(n: usize, p: Params)
    ensures
        p.spec_get(ParamKey::Lag) is None ==> lag_rule(p, n) == (if n / 3 < 5 {
            Err::<usize, ScanError>(ScanError::Above { key: ParamKey::Lag, value: 5, bound: n / 3 })
        } else {
            Ok::<usize, ScanError>(5)
        }),
        lag_rule(p, n) matches Ok(l) ==> 1 <= l <= n / 3,
        forall|l: i64|
            p.spec_get(ParamKey::Lag) == Some(ParamValue::Int(l)) ==> (lag_rule(p, n) is Ok <==> 1 <= l <= n / 3)
                && (lag_rule(p, n) matches Ok(m) ==> m == l),
        n < 2 ==> arch_lm_rule(n, p) == Err::<usize, ScanError>(ScanError::InsufficientData { needed: 2, got: n }),
        n >= 2 ==> arch_lm_rule(n, p) == lag_rule(p, (n - 1) as usize),
{
}

} // verus!
