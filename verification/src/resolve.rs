//! The rules by which the scans read one parameter: a label, an integer, a
//! boolean or a list of integers, each with what its absence means.

use vstd::prelude::*;
use crate::params::{int_of, ParamKey, ParamValue, Params, ScanError, ValueKind};

verus! {

/// A label parameter: absent, or the string it holds.
pub open spec fn label_rule(p: Params, key: ParamKey) -> Result<Option<String>, ScanError> {
    match p.spec_get(key) {
        None => Ok(None),
        Some(ParamValue::Str(s)) => Ok(Some(s)),
        Some(_) => Err(ScanError::WrongKind { key, expected: ValueKind::Label }),
    }
}

/// A label parameter resolved by `parse`, with `default` when it is absent.
pub open spec fn parse_label<T>(
    p: Params,
    key: ParamKey,
    default: T,
    parse: spec_fn(Seq<char>) -> Option<T>,
) -> Result<T, ScanError> {
    match label_rule(p, key) {
        Err(e) => Err(e),
        Ok(None) => Ok(default),
        Ok(Some(s)) => match parse(s@) {
            Some(t) => Ok(t),
            None => Err(ScanError::UnknownLabel { key, label: s }),
        },
    }
}

/// An integer parameter: absent, or the `i64` it holds.
pub open spec fn int_rule(p: Params, key: ParamKey) -> Result<Option<i64>, ScanError> {
    match p.spec_get(key) {
        None => Ok(None),
        Some(v) => match int_of(v) {
            Some(i) => Ok(Some(i)),
            None => Err(ScanError::WrongKind { key, expected: ValueKind::Integer }),
        },
    }
}

/// A boolean parameter, with `default` when it is absent.
pub open spec fn bool_rule(p: Params, key: ParamKey, default: bool) -> Result<bool, ScanError> {
    match p.spec_get(key) {
        None => Ok(default),
        Some(ParamValue::Bool(b)) => Ok(b),
        Some(_) => Err(ScanError::WrongKind { key, expected: ValueKind::Boolean }),
    }
}

/// `i` as a `usize`, when it is one.
pub open spec fn usize_of(i: i64) -> Option<usize> {
    if 0 <= i && i <= usize::MAX {
        Some(i as usize)
    } else {
        None
    }
}

/// The entries of a list of integers, each at least `minimum`, read in order:
/// the first entry that is not an integer, lies below `minimum` or does not
/// fit in `usize` decides the error.
pub open spec fn int_entries(elems: Seq<ParamValue>, key: ParamKey, minimum: i64) -> Result<
    Seq<usize>,
    ScanError,
>
    decreases elems.len(),
{
    if elems.len() == 0 {
        Ok(seq![])
    } else {
        match int_of(elems[0]) {
            None => Err(ScanError::WrongKind { key, expected: ValueKind::Integer }),
            Some(i) => {
                if i < minimum {
                    Err(ScanError::BelowMinimum { key, minimum, given: i })
                } else if usize_of(i) is None {
                    Err(ScanError::OutOfUsizeRange { key, given: i })
                } else {
                    match int_entries(elems.drop_first(), key, minimum) {
                        Ok(rest) => Ok(seq![usize_of(i).unwrap()] + rest),
                        Err(e) => Err(e),
                    }
                }
            },
        }
    }
}

/// The entries a list rule accepts are each at least `minimum`.
pub proof fn lemma_int_entries_at_least(elems: Seq<ParamValue>, key: ParamKey, minimum: i64)
    ensures
        int_entries(elems, key, minimum) matches Ok(s) ==> forall|j: int|
            0 <= j < s.len() ==> s[j] >= minimum,
    decreases elems.len(),
{
    if elems.len() > 0 {
        lemma_int_entries_at_least(elems.drop_first(), key, minimum);
    }
}

/// A list-of-integers parameter: absent (`None`), or the list it holds,
/// which must be non-empty and whose entries must be at least `minimum`.
pub open spec fn int_list_rule(p: Params, key: ParamKey, minimum: i64) -> Option<
    Result<Seq<usize>, ScanError>,
> {
    match p.spec_get(key) {
        None => None,
        Some(ParamValue::Array(a)) => {
            if a@.len() == 0 {
                Some(Err(ScanError::EmptyList { key }))
            } else {
                Some(int_entries(a@, key, minimum))
            }
        },
        Some(_) => Some(Err(ScanError::WrongKind { key, expected: ValueKind::List })),
    }
}

/// Read a label parameter.
pub fn label_param(p: &Params, key: ParamKey) -> (r: Result<Option<&String>, ScanError>)
    ensures
        match r {
            Ok(Some(s)) => label_rule(*p, key) == Ok::<Option<String>, ScanError>(Some(*s)),
            Ok(None) => label_rule(*p, key) == Ok::<Option<String>, ScanError>(None),
            Err(e) => label_rule(*p, key) == Err::<Option<String>, ScanError>(e),
        },
{
    match p.get(key) {
        None => Ok(None),
        Some(v) => match v.as_str() {
            Some(s) => Ok(Some(s)),
            None => Err(ScanError::WrongKind { key, expected: ValueKind::Label }),
        },
    }
}

/// Read an integer parameter.
pub fn int_param(p: &Params, key: ParamKey) -> (r: Result<Option<i64>, ScanError>)
    ensures
        r == int_rule(*p, key),
{
    match p.get(key) {
        None => Ok(None),
        Some(v) => match v.as_i64() {
            Some(i) => Ok(Some(i)),
            None => Err(ScanError::WrongKind { key, expected: ValueKind::Integer }),
        },
    }
}

/// Read a boolean parameter, with `default` when it is absent.
pub fn bool_param(p: &Params, key: ParamKey, default: bool) -> (r: Result<bool, ScanError>)
    ensures
        r == bool_rule(*p, key, default),
{
    match p.get(key) {
        None => Ok(default),
        Some(v) => match v.as_bool() {
            Some(b) => Ok(b),
            None => Err(ScanError::WrongKind { key, expected: ValueKind::Boolean }),
        },
    }
}

/// `i` as a `usize`, when it is one.
pub fn i64_to_usize(i: i64) -> (r: Option<usize>)
    ensures
        r == usize_of(i),
{
    if i < 0 {
        None
    } else if (i as u64) > (usize::MAX as u64) {
        None
    } else {
        Some(i as usize)
    }
}

/// Read a list-of-integers parameter; `None` when it is absent.
pub fn int_list_param(p: &Params, key: ParamKey, minimum: i64) -> (r: Option<
    Result<Vec<usize>, ScanError>,
>)
    ensures
        match r {
            None => int_list_rule(*p, key, minimum) is None,
            Some(Ok(v)) => int_list_rule(*p, key, minimum) == Some(
                Ok::<Seq<usize>, ScanError>(v@),
            ),
            Some(Err(e)) => int_list_rule(*p, key, minimum) == Some(
                Err::<Seq<usize>, ScanError>(e),
            ),
        },
{
    let arr = match p.get(key) {
        None => {
            return None;
        },
        Some(v) => match v.as_array() {
            Some(a) => a,
            None => {
                return Some(Err(ScanError::WrongKind { key, expected: ValueKind::List }));
            },
        },
    };
    if arr.len() == 0 {
        return Some(Err(ScanError::EmptyList { key }));
    }
    let mut out: Vec<usize> = Vec::new();
    let mut i: usize = 0;
    assert(arr@.skip(0) =~= arr@);
    while i < arr.len()
        invariant
            i <= arr@.len(),
            arr@.len() > 0,
            p.spec_get(key) == Some(ParamValue::Array(*arr)),
            int_entries(arr@, key, minimum) == match int_entries(arr@.skip(i as int), key, minimum) {
                Ok(rest) => Ok(out@ + rest),
                Err(e) => Err(e),
            },
        decreases arr@.len() - i,
    {
        let ghost rest = arr@.skip(i as int);
        assert(rest.drop_first() =~= arr@.skip(i + 1));
        let v = match arr[i].as_i64() {
            Some(v) => v,
            None => {
                return Some(Err(ScanError::WrongKind { key, expected: ValueKind::Integer }));
            },
        };
        if v < minimum {
            return Some(Err(ScanError::BelowMinimum { key, minimum, given: v }));
        }
        let u = match i64_to_usize(v) {
            Some(u) => u,
            None => {
                return Some(Err(ScanError::OutOfUsizeRange { key, given: v }));
            },
        };
        let ghost before = out@;
        out.push(u);
        proof {
            match int_entries(arr@.skip(i + 1), key, minimum) {
                Ok(r2) => {
                    assert(before + (seq![u] + r2) =~= out@ + r2);
                },
                Err(_) => {},
            }
        }
        i = i + 1;
    }
    assert(arr@.skip(i as int) =~= Seq::<ParamValue>::empty());
    assert(out@ + seq![] =~= out@);
    Some(Ok(out))
}


/// A label parameter resolves to `default` when absent, and otherwise to
/// what `parse` makes of the string it holds (or refuses that string).
pub proof fn lemma_parse_label_cases<T>(
    p: Params,
    key: ParamKey,
    default: T,
    parse: spec_fn(Seq<char>) -> Option<T>,
)
    ensures
        p.spec_get(key) is None ==> parse_label(p, key, default, parse) == Ok::<T, ScanError>(default),
        forall|s: String|
            p.spec_get(key) == Some(ParamValue::Str(s)) ==> parse_label(p, key, default, parse) == match #[trigger] parse(s@) {
                Some(t) => Ok::<T, ScanError>(t),
                None => Err(ScanError::UnknownLabel { key, label: s }),
            },
{
}


/// A list rule refuses a list only for an entry of the wrong kind, below
/// the minimum or out of `usize` range, all under the list's own key.
pub proof fn lemma_int_entries_errors(elems: Seq<ParamValue>, key: ParamKey, minimum: i64)
    ensures
        int_entries(elems, key, minimum) matches Err(e) ==> (e matches ScanError::WrongKind { key: k, .. } && k
            == key) || (e matches ScanError::BelowMinimum { key: k, .. } && k == key) || (
        e matches ScanError::OutOfUsizeRange { key: k, .. } && k == key),
    decreases elems.len(),
{
    if elems.len() > 0 {
        lemma_int_entries_errors(elems.drop_first(), key, minimum);
    }
}

} // verus!
