//! Lo-MacKinlay variance-ratio scan: its declaration, its `k_values` and
//! `robust` parameters, and the checks it makes before the ratios.

use vstd::prelude::*;
use crate::params::{ParamKey, Params, ScanError};
use crate::resolve::{bool_param, bool_rule, int_list_param, int_list_rule, lemma_int_entries_at_least, lemma_int_entries_errors};
use crate::scan::{key_views, NullMethod, ScanArity, ScanFindingShape};
use crate::params::ParamValue;

verus! {

/// Lo-MacKinlay variance ratios of k-bar returns.
pub struct VarianceRatioScan;

/// The `k_values` parameter: a non-empty list of integers, each at least
/// 2; `[2, 4, 8, 16]` when absent.
pub open spec fn k_values_rule(p: Params) -> Result<Seq<usize>, ScanError> {
    match int_list_rule(p, ParamKey::KValues, 2) {
        None => Ok(seq![2usize, 4usize, 8usize, 16usize]),
        Some(r) => r,
    }
}

/// Resolve the `k_values` parameter.
pub fn resolve_k_values(params: &Params) -> (r: Result<Vec<usize>, ScanError>)
    ensures
        match r {
            Ok(v) => k_values_rule(*params) == Ok::<Seq<usize>, ScanError>(v@),
            Err(e) => k_values_rule(*params) == Err::<Seq<usize>, ScanError>(e),
        },
{
    match int_list_param(params, ParamKey::KValues, 2) {
        None => {
            let v: Vec<usize> = vec![2, 4, 8, 16];
            assert(v@ =~= seq![2usize, 4usize, 8usize, 16usize]);
            Ok(v)
        },
        Some(r) => r,
    }
}

/// The `robust` parameter: a boolean; `true` when absent.
pub open spec fn robust_rule(p: Params) -> Result<bool, ScanError> {
    bool_rule(p, ParamKey::Robust, true)
}

/// Resolve the `robust` parameter.
pub fn resolve_robust(params: &Params) -> (r: Result<bool, ScanError>)
    ensures
        r == robust_rule(*params),
{
    bool_param(params, ParamKey::Robust, true)
}

/// Whether horizon `k` is too long for `n` returns (`k` above half the return count).
pub open spec fn horizon_too_long(k: usize, n: usize) -> bool {
    k > n / 2
}

/// The first horizon of `ks` that is too long for `n` returns.
pub open spec fn first_long_horizon(ks: Seq<usize>, n: usize) -> Option<usize>
    decreases ks.len(),
{
    if ks.len() == 0 {
        None
    } else if horizon_too_long(ks[0], n) {
        Some(ks[0])
    } else {
        first_long_horizon(ks.drop_first(), n)
    }
}

/// What a run over `n` closes proceeds with: at least two closes, then
/// `k_values` and `robust`, then at least four returns and no horizon too long
/// for them (the first such horizon is reported).
pub open spec fn variance_ratio_rule(n: usize, p: Params) -> Result<(Seq<usize>, bool), ScanError> {
    if n < 2 {
        Err(ScanError::InsufficientData { needed: 2, got: n })
    } else {
        match k_values_rule(p) {
            Err(e) => Err(e),
            Ok(ks) => match robust_rule(p) {
                Err(e) => Err(e),
                Ok(flag) => {
                    let m = (n - 1) as usize;
                    if m < 4 {
                        Err(ScanError::TooFewReturns { needed: 4, got: m })
                    } else {
                        match first_long_horizon(ks, m) {
                            Some(k) => Err(ScanError::HorizonTooLong { k, n_returns: m }),
                            None => Ok((ks, flag)),
                        }
                    }
                },
            },
        }
    }
}

/// What the scan runs with once its input and parameters are accepted.
pub struct VarianceRatioSettings {
    pub k_values: Vec<usize>,
    pub robust: bool,
}

impl VarianceRatioScan {
    /// The scan's identifier.
    pub fn id(&self) -> (r: &'static str)
        ensures
            r@ == "stats.variance_ratio.lo_mackinlay"@,
    {
        "stats.variance_ratio.lo_mackinlay"
    }

    /// The scan's version.
    pub fn version(&self) -> (r: u32)
        ensures
            r == 1,
    {
        1
    }

    /// The scan reads one instrument.
    pub fn arity(&self) -> (r: ScanArity)
        ensures
            r == ScanArity::Single,
    {
        ScanArity::Single
    }

    /// The keys of the scan's result findings.
    pub fn finding_fields(&self) -> (r: ScanFindingShape)
        ensures
            key_views(r.effect_extra_keys@) == seq!["k_values"@, "p_values"@, "vr_values"@, "z_stats"@],
            key_views(r.raw_series_keys@) == seq!["returns"@, "timestamps_ms"@],
    {
        let r = ScanFindingShape {
            effect_extra_keys: vec!["k_values", "p_values", "vr_values", "z_stats"],
            raw_series_keys: vec!["returns", "timestamps_ms"],
        };
        assert(key_views(r.effect_extra_keys@) =~= seq!["k_values"@, "p_values"@, "vr_values"@, "z_stats"@]);
        assert(key_views(r.raw_series_keys@) =~= seq!["returns"@, "timestamps_ms"@]);
        r
    }

    /// Whether the engine may attach bootstrap confidence intervals.
    pub fn supports_bootstrap(&self) -> (r: bool)
        ensures
            r == false,
    {
        false
    }

    /// Whether the engine may run the scan under null method `m`.
    pub fn supports_null_method(&self, m: NullMethod) -> (r: bool)
        ensures
            r == false,
    {
        false
    }

    /// Check the input length, resolve the parameters and check the
    /// horizons against the return count, as a run does before the kernel.
    pub fn prepare(&self, n_closes: usize, params: &Params) -> (r: Result<VarianceRatioSettings, ScanError>)
        ensures
            match r {
                Ok(s) => variance_ratio_rule(n_closes, *params) == Ok::<(Seq<usize>, bool), ScanError>(
                    (s.k_values@, s.robust),
                ),
                Err(e) => variance_ratio_rule(n_closes, *params) == Err::<(Seq<usize>, bool), ScanError>(e),
            },
    {
        if n_closes < 2 {
            return Err(ScanError::InsufficientData { needed: 2, got: n_closes });
        }
        let k_values = resolve_k_values(params)?;
        let flag = resolve_robust(params)?;
        proof {
            match params.spec_get(ParamKey::KValues) {
                Some(ParamValue::Array(a)) => {
                    lemma_int_entries_at_least(a@, ParamKey::KValues, 2);
                },
                _ => {},
            }
        }
        let n_returns = n_closes - 1;
        if n_returns < 4 {
            return Err(ScanError::TooFewReturns { needed: 4, got: n_returns });
        }
        let mut i: usize = 0;
        assert(k_values@.skip(0) =~= k_values@);
        while i < k_values.len()
            invariant
                i <= k_values@.len(),
                n_closes >= 2,
                n_returns == n_closes - 1,
                k_values_rule(*params) == Ok::<Seq<usize>, ScanError>(k_values@),
                robust_rule(*params) == Ok::<bool, ScanError>(flag),
                n_returns >= 4,
                forall|j: int| 0 <= j < k_values@.len() ==> k_values@[j] >= 2,
                first_long_horizon(k_values@, n_returns) == first_long_horizon(k_values@.skip(i as int), n_returns),
            decreases k_values@.len() - i,
        {
            let k = k_values[i];
            let ghost rest = k_values@.skip(i as int);
            assert(rest.drop_first() =~= k_values@.skip(i + 1));
            if k > n_returns / 2 {
                return Err(ScanError::HorizonTooLong { k, n_returns });
            }
            i = i + 1;
        }
        Ok(VarianceRatioSettings { k_values, robust: flag })
    }
}


/// Whether some horizon of `ks` is too long for `m` returns, and which one
/// comes first.
proof fn lemma_first_long_horizon(ks: Seq<usize>, m: usize)
    ensures
        first_long_horizon(ks, m) is None <==> forall|j: int| 0 <= j < ks.len() ==> !horizon_too_long(#[trigger] ks[j], m),
        first_long_horizon(ks, m) matches Some(k) ==> exists|j: int|
            0 <= j < ks.len() && #[trigger] ks[j] == k && horizon_too_long(k, m) && forall|i: int|
                0 <= i < j ==> !horizon_too_long(#[trigger] ks[i], m),
    decreases ks.len(),
{
    if ks.len() > 0 {
        lemma_first_long_horizon(ks.drop_first(), m);
        if !horizon_too_long(ks[0], m) {
            if first_long_horizon(ks, m) is None {
                assert forall|j: int| 0 <= j < ks.len() implies !horizon_too_long(#[trigger] ks[j], m) by {
                    if j > 0 {
                        assert(ks[j] == ks.drop_first()[j - 1]);
                    }
                }
            } else {
                assert(!(forall|j: int| 0 <= j < ks.drop_first().len() ==> !horizon_too_long(#[trigger] ks.drop_first()[j], m)));
                let k = first_long_horizon(ks, m)->Some_0;
                let w = choose|j: int|
                    0 <= j < ks.drop_first().len() && #[trigger] ks.drop_first()[j] == k && horizon_too_long(k, m) && forall|i: int|
                        0 <= i < j ==> !horizon_too_long(#[trigger] ks.drop_first()[i], m);
                assert(ks[w + 1] == k);
                assert forall|i: int| 0 <= i < w + 1 implies !horizon_too_long(#[trigger] ks[i], m) by {
                    if i > 0 {
                        assert(ks[i] == ks.drop_first()[i - 1]);
                    }
                }
                if forall|j: int| 0 <= j < ks.len() ==> !horizon_too_long(#[trigger] ks[j], m) {
                    assert(!horizon_too_long(ks[w + 1], m));
                }
            }
        } else {
            assert(ks[0] == ks[0]);
        }
    }
}

/// A run over `n` closes is accepted exactly when there are at least two
/// closes giving at least four returns, `k_values` and `robust` resolve, and
/// every horizon leaves no longer than half the returns (`ks[j] <= (n - 1) / 2` for the `n - 1` returns);
/// a refused horizon is one of the requested horizons, the first that is
/// too long. Without `k_values` the horizons are `seq![2usize, 4usize, 8usize, 16usize]`; without
/// `robust` the flag is `true`.
pub proof fn lemma_variance_ratio_horizons(n: usize, p: Params)
    ensures
        variance_ratio_rule(n, p) is Ok <==> (n >= 5 && k_values_rule(p) is Ok && robust_rule(p) is Ok && forall|j: int|
            0 <= j < k_values_rule(p)->Ok_0.len() ==> (#[trigger] k_values_rule(p)->Ok_0[j]) as int <= (n - 1) / 2),
        variance_ratio_rule(n, p) matches Ok((ks, f)) ==> ks == k_values_rule(p)->Ok_0 && f == robust_rule(p)->Ok_0,
        variance_ratio_rule(n, p) matches Ok((ks, f)) ==> forall|j: int| 0 <= j < ks.len() ==> #[trigger] ks[j] >= 2 && ks[j] as int <= (n - 1) / 2,
        variance_ratio_rule(n, p) matches Err(ScanError::HorizonTooLong { k, n_returns }) ==> n_returns == n - 1 && exists|j: int|
            0 <= j < k_values_rule(p)->Ok_0.len() && #[trigger] k_values_rule(p)->Ok_0[j] == k && !(k_values_rule(p)->Ok_0[j] as int <= (n - 1) / 2),
        p.spec_get(ParamKey::KValues) is None ==> k_values_rule(p) == Ok::<Seq<usize>, ScanError>(seq![2usize, 4usize, 8usize, 16usize]),
        p.spec_get(ParamKey::Robust) is None ==> robust_rule(p) == Ok::<bool, ScanError>(true),
        variance_ratio_rule(n, p) matches Ok((_, f)) ==> (p.spec_get(ParamKey::Robust) is None ==> f == true),
{
    match p.spec_get(ParamKey::KValues) {
        Some(ParamValue::Array(a)) => {
            lemma_int_entries_errors(a@, ParamKey::KValues, 2);
        },
        _ => {},
    }
    if n >= 5 && k_values_rule(p) is Ok {
        let ks = k_values_rule(p)->Ok_0;
        lemma_first_long_horizon(ks, (n - 1) as usize);
        match p.spec_get(ParamKey::KValues) {
            Some(ParamValue::Array(a)) => {
                lemma_int_entries_at_least(a@, ParamKey::KValues, 2);
            },
            _ => {},
        }
        match first_long_horizon(ks, (n - 1) as usize) {
            Some(k) => {
                let w = choose|j: int|
                    0 <= j < ks.len() && #[trigger] ks[j] == k && horizon_too_long(k, (n - 1) as usize) && forall|i: int|
                        0 <= i < j ==> !horizon_too_long(#[trigger] ks[i], (n - 1) as usize);
                assert(ks[w] == k);
                assert(horizon_too_long(ks[w], (n - 1) as usize));
                assert(k_values_rule(p)->Ok_0[w] == k);
            },
            None => {},
        }
    }
}

} // verus!
