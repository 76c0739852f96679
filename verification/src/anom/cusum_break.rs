//! CUSUM structural-break scan: its declaration, its `target` and
//! `min_segment` parameters, and the labels of the breaks it reports.

use vstd::prelude::*;
use crate::params::{ParamKey, ParamValue, Params, ScanError};
use crate::resolve::{lemma_parse_label_cases, label_param, parse_label, int_param, int_rule, usize_of, i64_to_usize};
use crate::scan::{key_views, NullMethod, ScanArity, ScanFindingShape};
use crate::text::str_eq;

verus! {

/// Mean and volatility structural breaks by CUSUM binary segmentation.
pub struct CusumBreakScan;

/// Default minimum segment length, in returns.
pub const DEFAULT_MIN_SEGMENT: usize = 30;

/// Smallest accepted minimum segment length.
pub const MIN_SEGMENT_FLOOR: usize = 2;

/// Which structural breaks the scan detects.
#[derive(PartialEq, Eq, Structural, Clone, Copy, Debug)]
pub enum BreakTarget {
    /// Breaks in the mean of the returns.
    Mean,
    /// Breaks in the volatility of the returns.
    Vol,
    /// Both kinds, each segmented on its own.
    Both,
}

/// The variant of [`BreakTarget`] a label names.
pub open spec fn target_from_label(s: Seq<char>) -> Option<BreakTarget> {
    if s == "mean"@ {
        Some(BreakTarget::Mean)
    } else if s == "vol"@ {
        Some(BreakTarget::Vol)
    } else if s == "both"@ {
        Some(BreakTarget::Both)
    } else {
        None
    }
}

impl BreakTarget {
    /// The label of this variant.
    pub open spec fn spec_label(self) -> Seq<char> {
        match self {
            BreakTarget::Mean => "mean"@,
            BreakTarget::Vol => "vol"@,
            BreakTarget::Both => "both"@,
        }
    }

    /// The label of this variant.
    pub fn label(self) -> (r: &'static str)
        ensures
            r@ == self.spec_label(),
            target_from_label(r@) == Some(self),
    {
        let r = match self {
            BreakTarget::Mean => "mean",
            BreakTarget::Vol => "vol",
            BreakTarget::Both => "both",
        };
        proof {
            reveal_strlit("mean");
            reveal_strlit("vol");
            reveal_strlit("both");
            assert("mean"@.len() == 4 && "vol"@.len() == 3 && "both"@.len() == 4);
            assert("mean"@[0] != "both"@[0]);
        }
        r
    }
}

/// The `target` parameter; `both` when absent.
pub open spec fn target_rule(p: Params) -> Result<BreakTarget, ScanError> {
    parse_label(p, ParamKey::Target, BreakTarget::Both, |s: Seq<char>| target_from_label(s))
}

/// Resolve the `target` parameter.
pub fn resolve_target(params: &Params) -> (r: Result<BreakTarget, ScanError>)
    ensures
        r == target_rule(*params),
{
    let label = match label_param(params, ParamKey::Target) {
        Err(e) => {
            return Err(e);
        },
        Ok(None) => {
            return Ok(BreakTarget::Both);
        },
        Ok(Some(s)) => s,
    };
    if str_eq(label.as_str(), "mean") {
        Ok(BreakTarget::Mean)
    } else if str_eq(label.as_str(), "vol") {
        Ok(BreakTarget::Vol)
    } else if str_eq(label.as_str(), "both") {
        Ok(BreakTarget::Both)
    } else {
        Err(ScanError::UnknownLabel { key: ParamKey::Target, label: label.clone() })
    }
}

impl BreakTarget {
    /// The target a label names.
    pub fn from_label(s: &str) -> (r: Option<BreakTarget>)
        ensures
            r == target_from_label(s@),
    {
        if str_eq(s, "mean") {
            Some(BreakTarget::Mean)
        } else if str_eq(s, "vol") {
            Some(BreakTarget::Vol)
        } else if str_eq(s, "both") {
            Some(BreakTarget::Both)
        } else {
            None
        }
    }

    /// Whether mean breaks are sought.
    pub fn detects_mean(self) -> (r: bool)
        ensures
            r == (self == BreakTarget::Mean || self == BreakTarget::Both),
    {
        match self {
            BreakTarget::Mean => true,
            BreakTarget::Vol => false,
            BreakTarget::Both => true,
        }
    }

    /// Whether volatility breaks are sought.
    pub fn detects_vol(self) -> (r: bool)
        ensures
            r == (self == BreakTarget::Vol || self == BreakTarget::Both),
    {
        match self {
            BreakTarget::Mean => false,
            BreakTarget::Vol => true,
            BreakTarget::Both => true,
        }
    }
}

/// A label names a target exactly when it is that target's label, and every
/// target seeks at least one kind of break.
pub proof fn lemma_target_labels(t: BreakTarget, s: Seq<char>)
    ensures
        target_from_label(s) == Some(t) <==> s == t.spec_label(),
        t == BreakTarget::Mean || t == BreakTarget::Vol || t == BreakTarget::Both,
{
    reveal_strlit("mean");
    reveal_strlit("vol");
    reveal_strlit("both");
    assert("mean"@.len() == 4 && "vol"@.len() == 3 && "both"@.len() == 4);
    assert("mean"@[0] != "both"@[0]);
}

/// The kind of one detected break.
#[derive(PartialEq, Eq, Structural, Clone, Copy, Debug)]
pub enum BreakKind {
    /// A break in the mean.
    Mean,
    /// A break in the volatility.
    Vol,
}

impl BreakKind {
    /// The label a finding carries for this kind.
    pub fn label(self) -> (r: &'static str)
        ensures
            r@ == (match self {
                BreakKind::Mean => "mean"@,
                BreakKind::Vol => "vol"@,
            }),
    {
        match self {
            BreakKind::Mean => "mean",
            BreakKind::Vol => "vol",
        }
    }

    /// Sort key of a kind: mean breaks come before volatility breaks at the
    /// same index.
    pub open spec fn spec_order(self) -> u8 {
        match self {
            BreakKind::Mean => 0u8,
            BreakKind::Vol => 1u8,
        }
    }

    /// Sort key of a kind: mean breaks come before volatility breaks at the
    /// same index.
    pub fn order(self) -> (r: u8)
        ensures
            r == self.spec_order(),
    {
        match self {
            BreakKind::Mean => 0,
            BreakKind::Vol => 1,
        }
    }
}

/// The `min_segment` parameter: an integer of at least 2; 30 when absent.
pub open spec fn min_segment_rule(p: Params) -> Result<usize, ScanError> {
    match int_rule(p, ParamKey::MinSegment) {
        Err(e) => Err(e),
        Ok(None) => Ok(DEFAULT_MIN_SEGMENT),
        Ok(Some(i)) => {
            if i < MIN_SEGMENT_FLOOR || usize_of(i) is None {
                Err(
                    ScanError::BelowMinimum {
                        key: ParamKey::MinSegment,
                        minimum: MIN_SEGMENT_FLOOR as i64,
                        given: i,
                    },
                )
            } else {
                Ok(i as usize)
            }
        },
    }
}

/// Resolve the `min_segment` parameter.
pub fn resolve_min_segment(params: &Params) -> (r: Result<usize, ScanError>)
    ensures
        r == min_segment_rule(*params),
{
    let i = match int_param(params, ParamKey::MinSegment) {
        Err(e) => {
            return Err(e);
        },
        Ok(None) => {
            return Ok(DEFAULT_MIN_SEGMENT);
        },
        Ok(Some(i)) => i,
    };
    let min_segment = match i64_to_usize(i) {
        Some(u) => u,
        None => {
            return Err(ScanError::BelowMinimum { key: ParamKey::MinSegment, minimum: 2, given: i });
        },
    };
    if min_segment < MIN_SEGMENT_FLOOR {
        return Err(ScanError::BelowMinimum { key: ParamKey::MinSegment, minimum: 2, given: i });
    }
    Ok(min_segment)
}

impl CusumBreakScan {
    /// The scan's identifier.
    pub fn id(&self) -> (r: &'static str)
        ensures
            r@ == "stats.regime.cusum_break"@,
    {
        "stats.regime.cusum_break"
    }

    /// The scan's version.
    pub fn version(&self) -> (r: u32)
        ensures
            r == 1,
    {
        1
    }

    /// The scan reads one instrument.
    pub fn arity(&self) -> (r: ScanArity)
        ensures
            r == ScanArity::Single,
    {
        ScanArity::Single
    }

    /// The keys of the scan's result findings.
    pub fn finding_fields(&self) -> (r: ScanFindingShape)
        ensures
            key_views(r.effect_extra_keys@) == seq!["break_index"@, "break_ts_ms"@, "post_mean"@, "post_median"@, "post_n"@, "post_std"@, "pre_mean"@, "pre_median"@, "pre_n"@, "pre_std"@, "regime_index"@, "target"@],
            key_views(r.raw_series_keys@) == seq!["closes"@, "timestamps_ms"@],
    {
        let r = ScanFindingShape {
            effect_extra_keys: vec!["break_index", "break_ts_ms", "post_mean", "post_median", "post_n", "post_std", "pre_mean", "pre_median", "pre_n", "pre_std", "regime_index", "target"],
            raw_series_keys: vec!["closes", "timestamps_ms"],
        };
        assert(key_views(r.effect_extra_keys@) =~= seq!["break_index"@, "break_ts_ms"@, "post_mean"@, "post_median"@, "post_n"@, "post_std"@, "pre_mean"@, "pre_median"@, "pre_n"@, "pre_std"@, "regime_index"@, "target"@]);
        assert(key_views(r.raw_series_keys@) =~= seq!["closes"@, "timestamps_ms"@]);
        r
    }

    /// Whether the engine may attach bootstrap confidence intervals.
    pub fn supports_bootstrap(&self) -> (r: bool)
        ensures
            r == false,
    {
        false
    }

    /// Whether the engine may run the scan under null method `m`.
    pub fn supports_null_method(&self, m: NullMethod) -> (r: bool)
        ensures
            r == false,
    {
        false
    }
}


/// How the `target` parameter: both kinds of break when absent; `mean`, `vol` and `both` select mean breaks, volatility breaks, or both; any other string is refused as an unknown label, naming it.
pub proof fn lemma_target_param(p: Params)
    ensures
        p.spec_get(ParamKey::Target) is None ==> target_rule(p) == Ok::<BreakTarget, ScanError>(BreakTarget::Both),
        forall|s: String|
            p.spec_get(ParamKey::Target) == Some(ParamValue::Str(s)) ==> {
                &&& (target_rule(p) == Ok::<BreakTarget, ScanError>(BreakTarget::Mean) <==> s@ == "mean"@)
                &&& (target_rule(p) == Ok::<BreakTarget, ScanError>(BreakTarget::Vol) <==> s@ == "vol"@)
                &&& (target_rule(p) == Ok::<BreakTarget, ScanError>(BreakTarget::Both) <==> s@ == "both"@)
                &&& (target_rule(p) == Err::<BreakTarget, ScanError>(ScanError::UnknownLabel { key: ParamKey::Target, label: s }) <==> (s@ != "mean"@ && s@ != "vol"@ && s@ != "both"@))
            },
{
    reveal_strlit("mean");
    reveal_strlit("vol");
    reveal_strlit("both");
    assert("mean"@.len() == 4 && "mean"@[0] == 'm' && "vol"@.len() == 3 && "vol"@[0] == 'v' && "both"@.len() == 4 && "both"@[0] == 'b');

    lemma_parse_label_cases(p, ParamKey::Target, BreakTarget::Both, |s: Seq<char>| target_from_label(s));
    assert forall|s: String| p.spec_get(ParamKey::Target) == Some(ParamValue::Str(s)) implies {
        &&& (target_rule(p) == Ok::<BreakTarget, ScanError>(BreakTarget::Mean) <==> s@ == "mean"@)
        &&& (target_rule(p) == Ok::<BreakTarget, ScanError>(BreakTarget::Vol) <==> s@ == "vol"@)
        &&& (target_rule(p) == Ok::<BreakTarget, ScanError>(BreakTarget::Both) <==> s@ == "both"@)
        &&& (target_rule(p) == Err::<BreakTarget, ScanError>(ScanError::UnknownLabel { key: ParamKey::Target, label: s }) <==> (s@ != "mean"@ && s@ != "vol"@ && s@ != "both"@))
    } by {
        assert(target_rule(p) == match target_from_label(s@) {
            Some(t) => Ok::<BreakTarget, ScanError>(t),
            None => Err(ScanError::UnknownLabel { key: ParamKey::Target, label: s }),
        });
    }
}


/// The minimum segment is 30 returns when `min_segment` is absent; a given
/// value is accepted exactly when it is an integer of at least 2 that fits
/// in `usize`, and is then the minimum used.
pub proof fn lemma_min_segment_param(p: Params)
    ensures
        p.spec_get(ParamKey::MinSegment) is None ==> min_segment_rule(p) == Ok::<usize, ScanError>(30),
        forall|i: i64|
            p.spec_get(ParamKey::MinSegment) == Some(ParamValue::Int(i)) ==> (min_segment_rule(p) is Ok <==> 2 <= i
                <= usize::MAX) && (min_segment_rule(p) matches Ok(m) ==> m == i),
        min_segment_rule(p) matches Ok(m) ==> m >= 2,
{
}

} // verus!
