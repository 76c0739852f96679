//! Ljung-Box test on squared returns: its declaration, its `lags`
//! parameter, and the checks it makes before the statistics are computed.

use vstd::prelude::*;
use crate::params::{ParamKey, ParamValue, Params, ScanError};
use crate::resolve::{int_param, int_rule, usize_of, i64_to_usize};
use crate::scan::{key_views, NullMethod, ScanArity, ScanFindingShape};

verus! {

/// Ljung-Box autocorrelation test on squared log returns.
pub struct LjungBoxSqScan;

/// The series label carried in the scan's findings.
pub const SERIES_KIND: &'static str = "squared_returns";

/// `min(n / 5, 10)`, the default lag count for `n` returns.
pub fn default_lags(n: usize) -> (r: i64)
    ensures
        r == (if n / 5 < 10 { n / 5 } else { 10 }),
{
    let candidate = if n / 5 < 10 { n / 5 } else { 10 };
    candidate as i64
}

/// The `lags` parameter for `n` returns: an integer of at least 1, below
/// `n`; `min(n / 5, 10)` when absent.
pub open spec fn lags_rule(p: Params, n: usize) -> Result<usize, ScanError> {
    let lags: Result<i64, ScanError> = match int_rule(p, ParamKey::Lags) {
        Err(e) => Err(e),
        Ok(Some(i)) => Ok(i),
        Ok(None) => Ok((if n / 5 < 10 { n / 5 } else { 10 }) as i64),
    };
    match lags {
        Err(e) => Err(e),
        Ok(l) => {
            if l < 1 {
                Err(ScanError::BelowMinimum { key: ParamKey::Lags, minimum: 1, given: l })
            } else if usize_of(l) is None {
                Err(ScanError::OutOfUsizeRange { key: ParamKey::Lags, given: l })
            } else if l >= n {
                Err(ScanError::NotBelow { key: ParamKey::Lags, value: l as usize, bound: n })
            } else {
                Ok(l as usize)
            }
        },
    }
}

/// Resolve the `lags` parameter for `n` returns.
pub fn resolve_lags(params: &Params, n: usize) -> (r: Result<usize, ScanError>)
    ensures
        r == lags_rule(*params, n),
{
    let lags_i64 = match int_param(params, ParamKey::Lags) {
        Err(e) => {
            return Err(e);
        },
        Ok(Some(i)) => i,
        Ok(None) => default_lags(n),
    };
    if lags_i64 < 1 {
        return Err(ScanError::BelowMinimum { key: ParamKey::Lags, minimum: 1, given: lags_i64 });
    }
    let lags_us = match i64_to_usize(lags_i64) {
        Some(u) => u,
        None => {
            return Err(ScanError::OutOfUsizeRange { key: ParamKey::Lags, given: lags_i64 });
        },
    };
    if lags_us >= n {
        return Err(ScanError::NotBelow { key: ParamKey::Lags, value: lags_us, bound: n });
    }
    Ok(lags_us)
}

/// The number of log returns of `n` closes.
pub open spec fn returns_len(n: usize) -> int {
    if n == 0 {
        0
    } else {
        n - 1
    }
}

/// What a run over `n` closes proceeds with: at least two returns, then
/// the `lags` parameter for that many returns.
pub open spec fn ljung_box_sq_rule(n: usize, p: Params) -> Result<usize, ScanError> {
    if returns_len(n) < 2 {
        Err(ScanError::TooFewReturns { needed: 2, got: returns_len(n) as usize })
    } else {
        lags_rule(p, returns_len(n) as usize)
    }
}

impl LjungBoxSqScan {
    /// The scan's identifier.
    pub fn id(&self) -> (r: &'static str)
        ensures
            r@ == "stats.autocorr.ljung_box_sq"@,
    {
        "stats.autocorr.ljung_box_sq"
    }

    /// The scan's version.
    pub fn version(&self) -> (r: u32)
        ensures
            r == 1,
    {
        1
    }

    /// The scan reads one instrument.
    pub fn arity(&self) -> (r: ScanArity)
        ensures
            r == ScanArity::Single,
    {
        ScanArity::Single
    }

    /// The keys of the scan's result findings.
    pub fn finding_fields(&self) -> (r: ScanFindingShape)
        ensures
            key_views(r.effect_extra_keys@) == seq!["acf"@, "lags"@, "p_values"@, "q_stats"@, "series_kind"@],
            key_views(r.raw_series_keys@) == seq!["returns_squared"@, "timestamps_ms"@],
    {
        let r = ScanFindingShape {
            effect_extra_keys: vec!["acf", "lags", "p_values", "q_stats", "series_kind"],
            raw_series_keys: vec!["returns_squared", "timestamps_ms"],
        };
        assert(key_views(r.effect_extra_keys@) =~= seq!["acf"@, "lags"@, "p_values"@, "q_stats"@, "series_kind"@]);
        assert(key_views(r.raw_series_keys@) =~= seq!["returns_squared"@, "timestamps_ms"@]);
        r
    }

    /// Whether the engine may attach bootstrap confidence intervals.
    pub fn supports_bootstrap(&self) -> (r: bool)
        ensures
            r == false,
    {
        false
    }

    /// Whether the engine may run the scan under null method `m`.
    pub fn supports_null_method(&self, m: NullMethod) -> (r: bool)
        ensures
            r == false,
    {
        false
    }

    /// Check the input length and resolve `lags`, as a run does before
    /// computing the statistics.
    pub fn prepare(&self, n_closes: usize, params: &Params) -> (r: Result<usize, ScanError>)
        ensures
            r == ljung_box_sq_rule(n_closes, *params),
    {
        let n = if n_closes == 0 {
            0
        } else {
            n_closes - 1
        };
        if n < 2 {
            return Err(ScanError::TooFewReturns { needed: 2, got: n });
        }
        resolve_lags(params, n)
    }
}


/// With no `lags` the lag count for `n` returns is `n / 5`, at most 10
/// (refused when `n / 5` is 0); a given lag count is accepted exactly when
/// it is an integer from 1 to `n - 1`, and is then the count used. A run over
/// `n` closes has `n - 1` returns and needs at least two of them.
pub proof fn lemma_ljung_box_lags(n: usize, p: Params)
    ensures
        p.spec_get(ParamKey::Lags) is None ==> lags_rule(p, n) == (if n < 5 {
            Err::<usize, ScanError>(ScanError::BelowMinimum { key: ParamKey::Lags, minimum: 1, given: 0 })
        } else if n < 50 {
            Ok::<usize, ScanError>(n / 5)
        } else {
            Ok::<usize, ScanError>(10)
        }),
        lags_rule(p, n) matches Ok(l) ==> 1 <= l < n,
        p.spec_get(ParamKey::Lags) is None ==> (lags_rule(p, n) matches Ok(l) ==> l <= 10),
        forall|l: i64|
            p.spec_get(ParamKey::Lags) == Some(ParamValue::Int(l)) ==> (lags_rule(p, n) is Ok <==> 1 <= l < n)
                && (lags_rule(p, n) matches Ok(m) ==> m == l),
        ljung_box_sq_rule(n, p) is Ok ==> n >= 3,
        n >= 3 ==> ljung_box_sq_rule(n, p) == lags_rule(p, (n - 1) as usize),
{
}

} // verus!
