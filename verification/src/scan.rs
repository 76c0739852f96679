//! What every scan declares about itself, and the array form in which a scan
//! packs a text label into its findings.

use vstd::prelude::*;
use vstd::utf8::*;
use vstd::string::StringSliceAdditionalSpecFns;

verus! {

/// How many instruments a scan reads.
#[derive(PartialEq, Eq, Structural, Clone, Copy, Debug)]
pub enum ScanArity {
    /// One instrument.
    Single,
    /// Two instruments.
    Pair,
}

impl ScanArity {
    /// The number of instruments a request for this arity names.
    pub fn expected_len(&self) -> (r: usize)
        ensures
            r == (match self {
                ScanArity::Single => 1usize,
                ScanArity::Pair => 2usize,
            }),
    {
        match self {
            ScanArity::Single => 1,
            ScanArity::Pair => 2,
        }
    }
}

/// The surrogate-series methods a scan may be asked to run under.
#[derive(PartialEq, Eq, Structural, Clone, Copy, Debug)]
pub enum NullMethod {
    PhaseScramble,
    CircularShift,
}

/// The keys a scan's result findings carry.
pub struct ScanFindingShape {
    /// Keys of `effect.extra`, in the order they are emitted.
    pub effect_extra_keys: Vec<&'static str>,
    /// Keys of `raw.series`, in the order they are emitted.
    pub raw_series_keys: Vec<&'static str>,
}

/// The characters of each key in a list of keys.
pub open spec fn key_views(keys: Seq<&'static str>) -> Seq<Seq<char>> {
    keys.map_values(|k: &'static str| k@)
}

/// Element type of a [`RawArray`].
#[derive(PartialEq, Eq, Structural, Clone, Copy, Debug)]
pub enum Dtype {
    F64,
}

/// An array carried in a finding: raw bytes, a shape and an element type.
pub struct RawArray {
    pub data: Vec<u8>,
    pub shape: Vec<u64>,
    pub dtype: Dtype,
}

/// Pack a text label into a [`RawArray`]: its UTF-8 bytes as the data, their
/// count as the one-dimensional shape, and the `F64` element type (the only
/// one the finding format offers); readers decode the data as UTF-8.
pub fn string_label_to_raw_array(label: &str) -> (r: RawArray)
    ensures
        r.data@ == label.spec_bytes(),
        r.shape@.len() == 1,
        r.shape@[0] == r.data@.len(),
        r.dtype == Dtype::F64,
{
    let bytes = label.as_bytes();
    let mut data: Vec<u8> = Vec::new();
    let mut i: usize = 0;
    while i < bytes.len()
        invariant
            i <= bytes@.len(),
            data@ == bytes@.take(i as int),
        decreases bytes@.len() - i,
    {
        data.push(bytes[i]);
        i = i + 1;
        assert(data@ =~= bytes@.take(i as int));
    }
    assert(data@ =~= bytes@);
    let mut shape: Vec<u64> = Vec::new();
    shape.push(bytes.len() as u64);
    RawArray { data, shape, dtype: Dtype::F64 }
}

/// Decoding the data of a packed label as UTF-8 gives the label back.
pub proof fn lemma_label_array_round_trip(label: &str, r: RawArray)
    requires
        r.data@ == label.spec_bytes(),
    ensures
        valid_utf8(r.data@),
        decode_utf8(r.data@) == label@,
{
    encode_utf8_valid_utf8(label@);
    encode_utf8_decode_utf8(label@);
}

} // verus!
