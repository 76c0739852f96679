//! Time-series momentum scan: its declaration, its `k_values` and `scaling`
//! parameters, and the checks it makes before the continuation regressions.

use vstd::prelude::*;
use crate::params::{ParamKey, Params, ScanError};
use crate::resolve::{bool_param, bool_rule, int_list_param, int_list_rule, lemma_int_entries_at_least, lemma_int_entries_errors};
use crate::scan::{key_views, NullMethod, ScanArity, ScanFindingShape};
use crate::params::ParamValue;

verus! {

/// Time-series momentum: continuation of k-bar returns into the next k bars.
pub struct TsmomScan;

/// The `k_values` parameter: a non-empty list of integers, each at least
/// 1; `[1, 5, 10, 20]` when absent.
pub open spec fn k_values_rule(p: Params) -> Result<Seq<usize>, ScanError> {
    match int_list_rule(p, ParamKey::KValues, 1) {
        None => Ok(seq![1usize, 5usize, 10usize, 20usize]),
        Some(r) => r,
    }
}

/// Resolve the `k_values` parameter.
pub fn resolve_k_values(params: &Params) -> (r: Result<Vec<usize>, ScanError>)
    ensures
        match r {
            Ok(v) => k_values_rule(*params) == Ok::<Seq<usize>, ScanError>(v@),
            Err(e) => k_values_rule(*params) == Err::<Seq<usize>, ScanError>(e),
        },
{
    match int_list_param(params, ParamKey::KValues, 1) {
        None => {
            let v: Vec<usize> = vec![1, 5, 10, 20];
            assert(v@ =~= seq![1usize, 5usize, 10usize, 20usize]);
            Ok(v)
        },
        Some(r) => r,
    }
}

/// The `scaling` parameter: a boolean; `true` when absent.
pub open spec fn scaling_rule(p: Params) -> Result<bool, ScanError> {
    bool_rule(p, ParamKey::Scaling, true)
}

/// Resolve the `scaling` parameter.
pub fn resolve_scaling(params: &Params) -> (r: Result<bool, ScanError>)
    ensures
        r == scaling_rule(*params),
{
    bool_param(params, ParamKey::Scaling, true)
}

/// Whether horizon `k` is too long for `n` returns (fewer than four non-overlapping blocks of `k` returns).
pub open spec fn horizon_too_long(k: usize, n: usize) -> bool {
    n / k < 4
}

/// The first horizon of `ks` that is too long for `n` returns.
pub open spec fn first_long_horizon(ks: Seq<usize>, n: usize) -> Option<usize>
    decreases ks.len(),
{
    if ks.len() == 0 {
        None
    } else if horizon_too_long(ks[0], n) {
        Some(ks[0])
    } else {
        first_long_horizon(ks.drop_first(), n)
    }
}

/// What a run over `n` closes proceeds with: at least two closes, then
/// `k_values` and `scaling`, then at least four returns and no horizon too long
/// for them (the first such horizon is reported).
pub open spec fn tsmom_rule(n: usize, p: Params) -> Result<(Seq<usize>, bool), ScanError> {
    if n < 2 {
        Err(ScanError::InsufficientData { needed: 2, got: n })
    } else {
        match k_values_rule(p) {
            Err(e) => Err(e),
            Ok(ks) => match scaling_rule(p) {
                Err(e) => Err(e),
                Ok(flag) => {
                    let m = (n - 1) as usize;
                    if m < 4 {
                        Err(ScanError::TooFewReturns { needed: 4, got: m })
                    } else {
                        match first_long_horizon(ks, m) {
                            Some(k) => Err(ScanError::HorizonTooLong { k, n_returns: m }),
                            None => Ok((ks, flag)),
                        }
                    }
                },
            },
        }
    }
}

/// What the scan runs with once its input and parameters are accepted.
pub struct TsmomSettings {
    pub k_values: Vec<usize>,
    pub scaling: bool,
}

impl TsmomScan {
    /// The scan's identifier.
    pub fn id(&self) -> (r: &'static str)
        ensures
            r@ == "stats.momentum.tsmom"@,
    {
        "stats.momentum.tsmom"
    }

    /// The scan's version.
    pub fn version(&self) -> (r: u32)
        ensures
            r == 1,
    {
        1
    }

    /// The scan reads one instrument.
    pub fn arity(&self) -> (r: ScanArity)
        ensures
            r == ScanArity::Single,
    {
        ScanArity::Single
    }

    /// The keys of the scan's result findings.
    pub fn finding_fields(&self) -> (r: ScanFindingShape)
        ensures
            key_views(r.effect_extra_keys@) == seq!["continuation_coefs"@, "hit_rates"@, "k_values"@, "p_values"@, "selected_hold_bars"@, "t_stats"@, "tsmom_means"@, "turnover_per_bar"@],
            key_views(r.raw_series_keys@) == seq!["returns"@, "timestamps_ms"@],
    {
        let r = ScanFindingShape {
            effect_extra_keys: vec!["continuation_coefs", "hit_rates", "k_values", "p_values", "selected_hold_bars", "t_stats", "tsmom_means", "turnover_per_bar"],
            raw_series_keys: vec!["returns", "timestamps_ms"],
        };
        assert(key_views(r.effect_extra_keys@) =~= seq!["continuation_coefs"@, "hit_rates"@, "k_values"@, "p_values"@, "selected_hold_bars"@, "t_stats"@, "tsmom_means"@, "turnover_per_bar"@]);
        assert(key_views(r.raw_series_keys@) =~= seq!["returns"@, "timestamps_ms"@]);
        r
    }

    /// Whether the engine may attach bootstrap confidence intervals.
    pub fn supports_bootstrap(&self) -> (r: bool)
        ensures
            r == false,
    {
        false
    }

    /// Whether the engine may run the scan under null method `m`.
    pub fn supports_null_method(&self, m: NullMethod) -> (r: bool)
        ensures
            r == false,
    {
        false
    }

    /// Check the input length, resolve the parameters and check the
    /// horizons against the return count, as a run does before the kernel.
    pub fn prepare(&self, n_closes: usize, params: &Params) -> (r: Result<TsmomSettings, ScanError>)
        ensures
            match r {
                Ok(s) => tsmom_rule(n_closes, *params) == Ok::<(Seq<usize>, bool), ScanError>(
                    (s.k_values@, s.scaling),
                ),
                Err(e) => tsmom_rule(n_closes, *params) == Err::<(Seq<usize>, bool), ScanError>(e),
            },
    {
        if n_closes < 2 {
            return Err(ScanError::InsufficientData { needed: 2, got: n_closes });
        }
        let k_values = resolve_k_values(params)?;
        let flag = resolve_scaling(params)?;
        proof {
            match params.spec_get(ParamKey::KValues) {
                Some(ParamValue::Array(a)) => {
                    lemma_int_entries_at_least(a@, ParamKey::KValues, 1);
                },
                _ => {},
            }
        }
        let n_returns = n_closes - 1;
        if n_returns < 4 {
            return Err(ScanError::TooFewReturns { needed: 4, got: n_returns });
        }
        let mut i: usize = 0;
        assert(k_values@.skip(0) =~= k_values@);
        while i < k_values.len()
            invariant
                i <= k_values@.len(),
                n_closes >= 2,
                n_returns == n_closes - 1,
                k_values_rule(*params) == Ok::<Seq<usize>, ScanError>(k_values@),
                scaling_rule(*params) == Ok::<bool, ScanError>(flag),
                n_returns >= 4,
                forall|j: int| 0 <= j < k_values@.len() ==> k_values@[j] >= 1,
                first_long_horizon(k_values@, n_returns) == first_long_horizon(k_values@.skip(i as int), n_returns),
            decreases k_values@.len() - i,
        {
            let k = k_values[i];
            let ghost rest = k_values@.skip(i as int);
            assert(rest.drop_first() =~= k_values@.skip(i + 1));
            if n_returns / k < 4 {
                return Err(ScanError::HorizonTooLong { k, n_returns });
            }
            i = i + 1;
        }
        Ok(TsmomSettings { k_values, scaling: flag })
    }
}


/// Whether some horizon of `ks` is too long for `m` returns, and which one
/// comes first.
proof fn lemma_first_long_horizon(ks: Seq<usize>, m: usize)
    ensures
        first_long_horizon(ks, m) is None <==> forall|j: int| 0 <= j < ks.len() ==> !horizon_too_long(#[trigger] ks[j], m),
        first_long_horizon(ks, m) matches Some(k) ==> exists|j: int|
            0 <= j < ks.len() && #[trigger] ks[j] == k && horizon_too_long(k, m) && forall|i: int|
                0 <= i < j ==> !horizon_too_long(#[trigger] ks[i], m),
    decreases ks.len(),
{
    if ks.len() > 0 {
        lemma_first_long_horizon(ks.drop_first(), m);
        if !horizon_too_long(ks[0], m) {
            if first_long_horizon(ks, m) is None {
                assert forall|j: int| 0 <= j < ks.len() implies !horizon_too_long(#[trigger] ks[j], m) by {
                    if j > 0 {
                        assert(ks[j] == ks.drop_first()[j - 1]);
                    }
                }
            } else {
                assert(!(forall|j: int| 0 <= j < ks.drop_first().len() ==> !horizon_too_long(#[trigger] ks.drop_first()[j], m)));
                let k = first_long_horizon(ks, m)->Some_0;
                let w = choose|j: int|
                    0 <= j < ks.drop_first().len() && #[trigger] ks.drop_first()[j] == k && horizon_too_long(k, m) && forall|i: int|
                        0 <= i < j ==> !horizon_too_long(#[trigger] ks.drop_first()[i], m);
                assert(ks[w + 1] == k);
                assert forall|i: int| 0 <= i < w + 1 implies !horizon_too_long(#[trigger] ks[i], m) by {
                    if i > 0 {
                        assert(ks[i] == ks.drop_first()[i - 1]);
                    }
                }
                if forall|j: int| 0 <= j < ks.len() ==> !horizon_too_long(#[trigger] ks[j], m) {
                    assert(!horizon_too_long(ks[w + 1], m));
                }
            }
        } else {
            assert(ks[0] == ks[0]);
        }
    }
}

/// A run over `n` closes is accepted exactly when there are at least two
/// closes giving at least four returns, `k_values` and `scaling` resolve, and
/// every horizon leaves at least four non-overlapping blocks of its length (`(n - 1) / ks[j] >= 4` for the `n - 1` returns);
/// a refused horizon is one of the requested horizons, the first that is
/// too long. Without `k_values` the horizons are `seq![1usize, 5usize, 10usize, 20usize]`; without
/// `scaling` the flag is `true`.
pub proof fn lemma_tsmom_horizons(n: usize, p: Params)
    ensures
        tsmom_rule(n, p) is Ok <==> (n >= 5 && k_values_rule(p) is Ok && scaling_rule(p) is Ok && forall|j: int|
            0 <= j < k_values_rule(p)->Ok_0.len() ==> (n - 1) / (#[trigger] k_values_rule(p)->Ok_0[j]) as int >= 4),
        tsmom_rule(n, p) matches Ok((ks, f)) ==> ks == k_values_rule(p)->Ok_0 && f == scaling_rule(p)->Ok_0,
        tsmom_rule(n, p) matches Ok((ks, f)) ==> forall|j: int| 0 <= j < ks.len() ==> #[trigger] ks[j] >= 1 && (n - 1) / ks[j] as int >= 4,
        tsmom_rule(n, p) matches Err(ScanError::HorizonTooLong { k, n_returns }) ==> n_returns == n - 1 && exists|j: int|
            0 <= j < k_values_rule(p)->Ok_0.len() && #[trigger] k_values_rule(p)->Ok_0[j] == k && !((n - 1) / k_values_rule(p)->Ok_0[j] as int >= 4),
        p.spec_get(ParamKey::KValues) is None ==> k_values_rule(p) == Ok::<Seq<usize>, ScanError>(seq![1usize, 5usize, 10usize, 20usize]),
        p.spec_get(ParamKey::Scaling) is None ==> scaling_rule(p) == Ok::<bool, ScanError>(true),
        tsmom_rule(n, p) matches Ok((_, f)) ==> (p.spec_get(ParamKey::Scaling) is None ==> f == true),
{
    match p.spec_get(ParamKey::KValues) {
        Some(ParamValue::Array(a)) => {
            lemma_int_entries_errors(a@, ParamKey::KValues, 1);
        },
        _ => {},
    }
    if n >= 5 && k_values_rule(p) is Ok {
        let ks = k_values_rule(p)->Ok_0;
        lemma_first_long_horizon(ks, (n - 1) as usize);
        match p.spec_get(ParamKey::KValues) {
            Some(ParamValue::Array(a)) => {
                lemma_int_entries_at_least(a@, ParamKey::KValues, 1);
            },
            _ => {},
        }
        match first_long_horizon(ks, (n - 1) as usize) {
            Some(k) => {
                let w = choose|j: int|
                    0 <= j < ks.len() && #[trigger] ks[j] == k && horizon_too_long(k, (n - 1) as usize) && forall|i: int|
                        0 <= i < j ==> !horizon_too_long(#[trigger] ks[i], (n - 1) as usize);
                assert(ks[w] == k);
                assert(horizon_too_long(ks[w], (n - 1) as usize));
                assert(k_values_rule(p)->Ok_0[w] == k);
            },
            None => {},
        }
    }
}

} // verus!
