//! Ornstein-Uhlenbeck half-life scan: its declaration, its `on` label and
//! `min_n` parameter, and the checks it makes before the AR(1) fit.

use vstd::prelude::*;
use crate::params::{ParamKey, ParamValue, Params, ScanError};
use crate::resolve::{lemma_parse_label_cases, label_param, parse_label, int_param, int_rule, usize_of, i64_to_usize};
use crate::scan::{key_views, NullMethod, ScanArity, ScanFindingShape};
use crate::text::str_eq;

verus! {

/// Ornstein-Uhlenbeck / AR(1) mean-reversion half-life.
pub struct OuHalfLifeScan;

/// Default minimum number of closes.
pub const DEFAULT_MIN_N: usize = 30;

/// Smallest accepted `min_n`.
pub const MIN_N_FLOOR: usize = 3;

/// The series the AR(1) is fitted on.
#[derive(PartialEq, Eq, Structural, Clone, Copy, Debug)]
pub enum SeriesBasis {
    /// The close levels (the default).
    Level,
    /// The log returns of the closes.
    Returns,
}

/// The variant of [`SeriesBasis`] a label names.
pub open spec fn basis_from_label(s: Seq<char>) -> Option<SeriesBasis> {
    if s == "level"@ {
        Some(SeriesBasis::Level)
    } else if s == "returns"@ {
        Some(SeriesBasis::Returns)
    } else {
        None
    }
}

impl SeriesBasis {
    /// The label of this variant.
    pub open spec fn spec_label(self) -> Seq<char> {
        match self {
            SeriesBasis::Level => "level"@,
            SeriesBasis::Returns => "returns"@,
        }
    }

    /// The label of this variant.
    pub fn label(self) -> (r: &'static str)
        ensures
            r@ == self.spec_label(),
            basis_from_label(r@) == Some(self),
    {
        let r = match self {
            SeriesBasis::Level => "level",
            SeriesBasis::Returns => "returns",
        };
        proof {
            reveal_strlit("level");
            reveal_strlit("returns");
            assert("level"@.len() == 5 && "returns"@.len() == 7);
        }
        r
    }
}

/// The `on` parameter; `level` when absent.
pub open spec fn on_rule(p: Params) -> Result<SeriesBasis, ScanError> {
    parse_label(p, ParamKey::On, SeriesBasis::Level, |s: Seq<char>| basis_from_label(s))
}

/// Resolve the `on` parameter.
pub fn resolve_on(params: &Params) -> (r: Result<SeriesBasis, ScanError>)
    ensures
        r == on_rule(*params),
{
    let label = match label_param(params, ParamKey::On) {
        Err(e) => {
            return Err(e);
        },
        Ok(None) => {
            return Ok(SeriesBasis::Level);
        },
        Ok(Some(s)) => s,
    };
    if str_eq(label.as_str(), "level") {
        Ok(SeriesBasis::Level)
    } else if str_eq(label.as_str(), "returns") {
        Ok(SeriesBasis::Returns)
    } else {
        Err(ScanError::UnknownLabel { key: ParamKey::On, label: label.clone() })
    }
}

/// The `min_n` parameter: an integer of at least 3; 30 when absent.
pub open spec fn min_n_rule(p: Params) -> Result<usize, ScanError> {
    match int_rule(p, ParamKey::MinN) {
        Err(e) => Err(e),
        Ok(None) => Ok(DEFAULT_MIN_N),
        Ok(Some(i)) => {
            if i < MIN_N_FLOOR {
                Err(ScanError::BelowMinimum { key: ParamKey::MinN, minimum: MIN_N_FLOOR as i64, given: i })
            } else if usize_of(i) is None {
                Err(ScanError::OutOfUsizeRange { key: ParamKey::MinN, given: i })
            } else {
                Ok(i as usize)
            }
        },
    }
}

/// Resolve the `min_n` parameter.
pub fn resolve_min_n(params: &Params) -> (r: Result<usize, ScanError>)
    ensures
        r == min_n_rule(*params),
{
    let min_n = match int_param(params, ParamKey::MinN) {
        Err(e) => {
            return Err(e);
        },
        Ok(None) => DEFAULT_MIN_N,
        Ok(Some(i)) => {
            if i < 0 {
                return Err(ScanError::BelowMinimum { key: ParamKey::MinN, minimum: 3, given: i });
            }
            match i64_to_usize(i) {
                Some(u) => u,
                None => {
                    return Err(ScanError::OutOfUsizeRange { key: ParamKey::MinN, given: i });
                },
            }
        },
    };
    if min_n < MIN_N_FLOOR {
        return Err(ScanError::BelowMinimum { key: ParamKey::MinN, minimum: 3, given: min_n as i64 });
    }
    Ok(min_n)
}

/// What the scan runs with once its input and parameters are accepted.
#[derive(PartialEq, Eq, Structural, Clone, Copy, Debug)]
pub struct OuSettings {
    pub on: SeriesBasis,
    pub min_n: usize,
}

/// What a run over `n` closes proceeds with: `on`, then `min_n`, then at
/// least `min_n` closes.
pub open spec fn ou_rule(n: usize, p: Params) -> Result<OuSettings, ScanError> {
    match on_rule(p) {
        Err(e) => Err(e),
        Ok(on) => match min_n_rule(p) {
            Err(e) => Err(e),
            Ok(min_n) => {
                if n < min_n {
                    Err(ScanError::InsufficientData { needed: min_n, got: n })
                } else {
                    Ok(OuSettings { on, min_n })
                }
            },
        },
    }
}

impl OuHalfLifeScan {
    /// The scan's identifier.
    pub fn id(&self) -> (r: &'static str)
        ensures
            r@ == "stats.meanrev.ou_halflife"@,
    {
        "stats.meanrev.ou_halflife"
    }

    /// The scan's version.
    pub fn version(&self) -> (r: u32)
        ensures
            r == 1,
    {
        1
    }

    /// The scan reads one instrument.
    pub fn arity(&self) -> (r: ScanArity)
        ensures
            r == ScanArity::Single,
    {
        ScanArity::Single
    }

    /// The keys of the scan's result findings.
    pub fn finding_fields(&self) -> (r: ScanFindingShape)
        ensures
            key_views(r.effect_extra_keys@) == seq!["ar1_coeff"@, "ar1_t_stat"@, "half_life"@, "nobs"@, "on"@],
            key_views(r.raw_series_keys@) == seq!["closes"@, "timestamps_ms"@],
    {
        let r = ScanFindingShape {
            effect_extra_keys: vec!["ar1_coeff", "ar1_t_stat", "half_life", "nobs", "on"],
            raw_series_keys: vec!["closes", "timestamps_ms"],
        };
        assert(key_views(r.effect_extra_keys@) =~= seq!["ar1_coeff"@, "ar1_t_stat"@, "half_life"@, "nobs"@, "on"@]);
        assert(key_views(r.raw_series_keys@) =~= seq!["closes"@, "timestamps_ms"@]);
        r
    }

    /// Whether the engine may attach bootstrap confidence intervals.
    pub fn supports_bootstrap(&self) -> (r: bool)
        ensures
            r == true,
    {
        true
    }

    /// Whether the engine may run the scan under null method `m`.
    pub fn supports_null_method(&self, m: NullMethod) -> (r: bool)
        ensures
            r == (m == NullMethod::PhaseScramble || m == NullMethod::CircularShift),
    {
        match m {
            NullMethod::PhaseScramble => true,
            NullMethod::CircularShift => true,
        }
    }

    /// Resolve the parameters and check the input length, as a run does
    /// before the fit.
    pub fn prepare(&self, n_closes: usize, params: &Params) -> (r: Result<OuSettings, ScanError>)
        ensures
            r == ou_rule(n_closes, *params),
    {
        let on = resolve_on(params)?;
        let min_n = resolve_min_n(params)?;
        if n_closes < min_n {
            return Err(ScanError::InsufficientData { needed: min_n, got: n_closes });
        }
        Ok(OuSettings { on, min_n })
    }
}


/// How the `on` parameter: the close levels when absent; `level` and `returns` select the close levels or their log returns; any other string is refused as an unknown label, naming it.
pub proof fn lemma_on_labels(p: Params)
    ensures
        p.spec_get(ParamKey::On) is None ==> on_rule(p) == Ok::<SeriesBasis, ScanError>(SeriesBasis::Level),
        forall|s: String|
            p.spec_get(ParamKey::On) == Some(ParamValue::Str(s)) ==> {
                &&& (on_rule(p) == Ok::<SeriesBasis, ScanError>(SeriesBasis::Level) <==> s@ == "level"@)
                &&& (on_rule(p) == Ok::<SeriesBasis, ScanError>(SeriesBasis::Returns) <==> s@ == "returns"@)
                &&& (on_rule(p) == Err::<SeriesBasis, ScanError>(ScanError::UnknownLabel { key: ParamKey::On, label: s }) <==> (s@ != "level"@ && s@ != "returns"@))
            },
{
    reveal_strlit("level");
    reveal_strlit("returns");
    assert("level"@.len() == 5 && "level"@[0] == 'l' && "returns"@.len() == 7 && "returns"@[0] == 'r');

    lemma_parse_label_cases(p, ParamKey::On, SeriesBasis::Level, |s: Seq<char>| basis_from_label(s));
    assert forall|s: String| p.spec_get(ParamKey::On) == Some(ParamValue::Str(s)) implies {
        &&& (on_rule(p) == Ok::<SeriesBasis, ScanError>(SeriesBasis::Level) <==> s@ == "level"@)
        &&& (on_rule(p) == Ok::<SeriesBasis, ScanError>(SeriesBasis::Returns) <==> s@ == "returns"@)
        &&& (on_rule(p) == Err::<SeriesBasis, ScanError>(ScanError::UnknownLabel { key: ParamKey::On, label: s }) <==> (s@ != "level"@ && s@ != "returns"@))
    } by {
        assert(on_rule(p) == match basis_from_label(s@) {
            Some(t) => Ok::<SeriesBasis, ScanError>(t),
            None => Err(ScanError::UnknownLabel { key: ParamKey::On, label: s }),
        });
    }
}


/// The fit needs 30 closes when `min_n` is absent; a given `min_n` is
/// accepted exactly when it is an integer of at least 3 that fits in
/// `usize`, and is then the minimum used. A run is accepted exactly when `on` and `min_n` resolve and
/// there are at least `min_n` closes, and then fits on the close levels
/// unless `on` names the returns.
pub proof fn lemma_ou_minimum(n: usize, p: Params)
    ensures
        p.spec_get(ParamKey::MinN) is None ==> min_n_rule(p) == Ok::<usize, ScanError>(30),
        forall|i: i64|
            p.spec_get(ParamKey::MinN) == Some(ParamValue::Int(i)) ==> (min_n_rule(p) is Ok <==> 3 <= i <= usize::MAX) && (
            min_n_rule(p) matches Ok(m) ==> m == i),
        ou_rule(n, p) is Ok <==> (on_rule(p) is Ok && min_n_rule(p) is Ok && n >= min_n_rule(p)->Ok_0),
        ou_rule(n, p) matches Ok(s) ==> s.min_n >= 3 && n >= s.min_n,
        (p.spec_get(ParamKey::On) is None && p.spec_get(ParamKey::MinN) is None && n >= 30) ==> ou_rule(n, p)
            == Ok::<OuSettings, ScanError>(OuSettings { on: SeriesBasis::Level, min_n: 30 }),
        (p.spec_get(ParamKey::On) is None && p.spec_get(ParamKey::MinN) is None && n < 30) ==> ou_rule(n, p)
            == Err::<OuSettings, ScanError>(ScanError::InsufficientData { needed: 30, got: n }),
{
}

} // verus!
