//! The resolved parameters of a scan request, held as plain values, and the
//! typed errors a scan reports when its input or parameters are refused.

use vstd::prelude::*;
use crate::text::str_eq;

verus! {

/// One parameter value, with the kinds a JSON document can hold.
///
/// Numbers are held the way a JSON reader classifies them: an integer that
/// fits in `i64`, an integer above `i64::MAX`, or a number written with a
/// fraction or exponent, whose value none of the logic here reads.
pub enum ParamValue {
    Null,
    Bool(bool),
    Int(i64),
    LargeUint(u64),
    Real,
    Str(String),
    Array(Vec<ParamValue>),
    Object(Vec<(String, ParamValue)>),
}

/// The keys the anomaly scans read from their parameters.
#[derive(PartialEq, Eq, Structural, Clone, Copy, Debug)]
pub enum ParamKey {
    Regression,
    Autolag,
    MaxLag,
    Lag,
    Target,
    Threshold,
    MinSegment,
    Series,
    Nlags,
    Lags,
    On,
    MinN,
    Variant,
    KValues,
    Scaling,
    Robust,
    Window,
    ZThreshold,
    ModifiedZThreshold,
}

/// The kind of value a parameter was expected to hold.
#[derive(PartialEq, Eq, Structural, Clone, Copy, Debug)]
pub enum ValueKind {
    Label,
    Integer,
    Boolean,
    List,
    IntegerOrAuto,
}

/// Why a scan refused its input series or its parameters.
#[derive(PartialEq, Eq, Debug)]
pub enum ScanError {
    /// The close series is empty.
    EmptySeries,
    /// The close series holds `got` bars; the scan needs at least `needed`.
    InsufficientData { needed: usize, got: usize },
    /// The return series holds `got` values; the scan needs at least `needed`.
    TooFewReturns { needed: usize, got: usize },
    /// The series the scan runs on (returns or closes, as chosen) holds `got`
    /// values; the scan needs at least `needed`.
    SeriesTooShort { needed: usize, got: usize },
    /// A parameter holds a value of the wrong kind.
    WrongKind { key: ParamKey, expected: ValueKind },
    /// A label parameter holds a label the scan does not know.
    UnknownLabel { key: ParamKey, label: String },
    /// An integer parameter (or list entry) lies below its minimum.
    BelowMinimum { key: ParamKey, minimum: i64, given: i64 },
    /// An integer parameter does not fit in `usize`.
    OutOfUsizeRange { key: ParamKey, given: i64 },
    /// An integer parameter must lie strictly below `bound`.
    NotBelow { key: ParamKey, value: usize, bound: usize },
    /// An integer parameter must not exceed `bound`.
    Above { key: ParamKey, value: usize, bound: usize },
    /// A horizon `k` is too long for a return series of `n_returns` values.
    HorizonTooLong { k: usize, n_returns: usize },
    /// A required parameter is absent.
    Missing { key: ParamKey },
    /// A list parameter is empty.
    EmptyList { key: ParamKey },
}

impl ParamKey {
    /// The key's name in a request's parameters.
    pub open spec fn spec_name(self) -> Seq<char> {
        match self {
            ParamKey::Regression => "regression"@,
            ParamKey::Autolag => "autolag"@,
            ParamKey::MaxLag => "max_lag"@,
            ParamKey::Lag => "lag"@,
            ParamKey::Target => "target"@,
            ParamKey::Threshold => "threshold"@,
            ParamKey::MinSegment => "min_segment"@,
            ParamKey::Series => "series"@,
            ParamKey::Nlags => "nlags"@,
            ParamKey::Lags => "lags"@,
            ParamKey::On => "on"@,
            ParamKey::MinN => "min_n"@,
            ParamKey::Variant => "variant"@,
            ParamKey::KValues => "k_values"@,
            ParamKey::Scaling => "scaling"@,
            ParamKey::Robust => "robust"@,
            ParamKey::Window => "window"@,
            ParamKey::ZThreshold => "z_threshold"@,
            ParamKey::ModifiedZThreshold => "modified_z_threshold"@,
        }
    }

    /// The key's name in a request's parameters.
    pub fn name(&self) -> (r: &'static str)
        ensures
            r@ == self.spec_name(),
    {
        match self {
            ParamKey::Regression => "regression",
            ParamKey::Autolag => "autolag",
            ParamKey::MaxLag => "max_lag",
            ParamKey::Lag => "lag",
            ParamKey::Target => "target",
            ParamKey::Threshold => "threshold",
            ParamKey::MinSegment => "min_segment",
            ParamKey::Series => "series",
            ParamKey::Nlags => "nlags",
            ParamKey::Lags => "lags",
            ParamKey::On => "on",
            ParamKey::MinN => "min_n",
            ParamKey::Variant => "variant",
            ParamKey::KValues => "k_values",
            ParamKey::Scaling => "scaling",
            ParamKey::Robust => "robust",
            ParamKey::Window => "window",
            ParamKey::ZThreshold => "z_threshold",
            ParamKey::ModifiedZThreshold => "modified_z_threshold",
        }
    }
}

/// The parameters of one scan request: the entries of a JSON object, in
/// document order. A request whose parameters are not an object has none.
pub struct Params {
    pub entries: Vec<(String, ParamValue)>,
}

/// The value of the first entry of `entries` named `key`.
pub open spec fn lookup(entries: Seq<(String, ParamValue)>, key: Seq<char>) -> Option<ParamValue>
    decreases entries.len(),
{
    if entries.len() == 0 {
        None
    } else if entries[0].0@ == key {
        Some(entries[0].1)
    } else {
        lookup(entries.drop_first(), key)
    }
}

impl Params {
    /// The value stored under `key`, if any.
    pub open spec fn spec_get(self, key: ParamKey) -> Option<ParamValue> {
        lookup(self.entries@, key.spec_name())
    }

    /// Parameters with no entries.
    pub fn new() -> (r: Params)
        ensures
            r.entries@.len() == 0,
    {
        Params { entries: Vec::new() }
    }

    /// The value stored under `key`, if any (the first entry of that name).
    pub fn get(&self, key: ParamKey) -> (r: Option<&ParamValue>)
        ensures
            match r {
                Some(v) => self.spec_get(key) == Some(*v),
                None => self.spec_get(key) is None,
            },
    {
        let name = key.name();
        let mut i: usize = 0;
        assert(self.entries@.skip(0) =~= self.entries@);
        while i < self.entries.len()
            invariant
                i <= self.entries@.len(),
                name@ == key.spec_name(),
                lookup(self.entries@, name@) == lookup(self.entries@.skip(i as int), name@),
            decreases self.entries@.len() - i,
        {
            let ghost rest = self.entries@.skip(i as int);
            assert(rest.drop_first() =~= self.entries@.skip(i + 1));
            if str_eq(self.entries[i].0.as_str(), name) {
                return Some(&self.entries[i].1);
            }
            i = i + 1;
        }
        None
    }
}

/// The integer held by a value, as a JSON reader's `as_i64` gives it.
pub open spec fn int_of(v: ParamValue) -> Option<i64> {
    match v {
        ParamValue::Int(i) => Some(i),
        _ => None,
    }
}

impl ParamValue {
    /// The string held by this value, if it is a string.
    pub fn as_str(&self) -> (r: Option<&String>)
        ensures
            match r {
                Some(s) => *self == ParamValue::Str(*s),
                None => !(self is Str),
            },
    {
        match self {
            ParamValue::Str(s) => Some(s),
            _ => None,
        }
    }

    /// The integer held by this value, if it is an integer in `i64` range.
    pub fn as_i64(&self) -> (r: Option<i64>)
        ensures
            r == int_of(*self),
    {
        match self {
            ParamValue::Int(i) => Some(*i),
            _ => None,
        }
    }

    /// The boolean held by this value, if it is a boolean.
    pub fn as_bool(&self) -> (r: Option<bool>)
        ensures
            match r {
                Some(b) => *self == ParamValue::Bool(b),
                None => !(self is Bool),
            },
    {
        match self {
            ParamValue::Bool(b) => Some(*b),
            _ => None,
        }
    }

    /// The elements held by this value, if it is a list.
    pub fn as_array(&self) -> (r: Option<&Vec<ParamValue>>)
        ensures
            match r {
                Some(a) => *self == ParamValue::Array(*a),
                None => !(self is Array),
            },
    {
        match self {
            ParamValue::Array(a) => Some(a),
            _ => None,
        }
    }
}

} // verus!
