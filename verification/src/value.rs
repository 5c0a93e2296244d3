//! Partition values: what one partition field holds for one data file.

use vstd::prelude::*;

verus! {

/// A primitive partition value.
///
/// `Float` and `Double` carry the IEEE-754 bit pattern of the number, and two
/// of them are the same value when their bit patterns are equal.
/// [`Scalar::single`] and [`Scalar::double`] make them from any bit pattern
/// with one pattern for all that is not a number and one for both zeros.
#[derive(Debug, PartialEq, Eq, Hash)]
pub enum Scalar {
    Boolean(bool),
    Int(i32),
    Long(i64),
    Float(u32),
    Double(u64),
    Text(String),
    Binary(Vec<u8>),
    Int128(i128),
    UInt128(u128),
    /// A number above what its type can hold.
    AboveMax,
    /// A number below what its type can hold.
    BelowMin,
}

/// The mathematical content of a [`Scalar`].
pub enum ScalarModel {
    Boolean(bool),
    Int(i32),
    Long(i64),
    Float(u32),
    Double(u64),
    Text(Seq<char>),
    Binary(Seq<u8>),
    Int128(i128),
    UInt128(u128),
    AboveMax,
    BelowMin,
}

impl View for Scalar {
    type V = ScalarModel;

    open spec fn view(&self) -> ScalarModel {
        match self {
            Scalar::Boolean(b) => ScalarModel::Boolean(*b),
            Scalar::Int(n) => ScalarModel::Int(*n),
            Scalar::Long(n) => ScalarModel::Long(*n),
            Scalar::Float(bits) => ScalarModel::Float(*bits),
            Scalar::Double(bits) => ScalarModel::Double(*bits),
            Scalar::Text(s) => ScalarModel::Text(s@),
            Scalar::Binary(b) => ScalarModel::Binary(b@),
            Scalar::Int128(n) => ScalarModel::Int128(*n),
            Scalar::UInt128(n) => ScalarModel::UInt128(*n),
            Scalar::AboveMax => ScalarModel::AboveMax,
            Scalar::BelowMin => ScalarModel::BelowMin,
        }
    }
}

/// Whether `bits` is the pattern of a single-precision NaN: all exponent bits
/// set, and a fraction that is not zero.
pub open spec fn single_is_nan(bits: u32) -> bool {
    bits & 0x7f80_0000 == 0x7f80_0000 && bits & 0x007f_ffff != 0
}

/// The pattern that stands for `bits`: one pattern for every NaN, the pattern
/// of zero for minus zero, and `bits` itself otherwise.
pub open spec fn canonical_single(bits: u32) -> u32 {
    if single_is_nan(bits) {
        0x7fc0_0000
    } else if bits == 0x8000_0000 {
        0
    } else {
        bits
    }
}

/// Whether `bits` is the pattern of a double-precision NaN: all exponent bits
/// set, and a fraction that is not zero.
pub open spec fn double_is_nan(bits: u64) -> bool {
    bits & 0x7ff0_0000_0000_0000 == 0x7ff0_0000_0000_0000 && bits & 0x000f_ffff_ffff_ffff != 0
}

/// The pattern that stands for `bits`: one pattern for every NaN, the pattern
/// of zero for minus zero, and `bits` itself otherwise.
pub open spec fn canonical_double(bits: u64) -> u64 {
    if double_is_nan(bits) {
        0x7ff8_0000_0000_0000
    } else if bits == 0x8000_0000_0000_0000 {
        0
    } else {
        bits
    }
}

/// Two single-precision patterns stand for one value exactly when both are
/// NaN, both are a zero, or they are the same pattern; and what stands for a
/// pattern stands for itself.
pub proof fn lemma_canonical_single(a: u32, b: u32)
    ensures
        canonical_single(a) == canonical_single(b) <==> (single_is_nan(a) && single_is_nan(b))
            || (a & 0x7fff_ffff == 0 && b & 0x7fff_ffff == 0) || a == b,
        canonical_single(canonical_single(a)) == canonical_single(a),
{
    assert(0x7fc0_0000u32 & 0x7f80_0000 == 0x7f80_0000 && 0x7fc0_0000u32 & 0x007f_ffff != 0)
        by (bit_vector);
    assert(!(0u32 & 0x7f80_0000 == 0x7f80_0000)) by (bit_vector);
    assert(!(0x8000_0000u32 & 0x7f80_0000 == 0x7f80_0000)) by (bit_vector);
    assert(a & 0x7fff_ffff == 0 <==> a == 0 || a == 0x8000_0000) by (bit_vector);
    assert(b & 0x7fff_ffff == 0 <==> b == 0 || b == 0x8000_0000) by (bit_vector);
}

/// Two double-precision patterns stand for one value exactly when both are
/// NaN, both are a zero, or they are the same pattern; and what stands for a
/// pattern stands for itself.
pub proof fn lemma_canonical_double(a: u64, b: u64)
    ensures
        canonical_double(a) == canonical_double(b) <==> (double_is_nan(a) && double_is_nan(b))
            || (a & 0x7fff_ffff_ffff_ffff == 0 && b & 0x7fff_ffff_ffff_ffff == 0) || a == b,
        canonical_double(canonical_double(a)) == canonical_double(a),
{
    assert(0x7ff8_0000_0000_0000u64 & 0x7ff0_0000_0000_0000 == 0x7ff0_0000_0000_0000
        && 0x7ff8_0000_0000_0000u64 & 0x000f_ffff_ffff_ffff != 0) by (bit_vector);
    assert(!(0u64 & 0x7ff0_0000_0000_0000 == 0x7ff0_0000_0000_0000)) by (bit_vector);
    assert(!(0x8000_0000_0000_0000u64 & 0x7ff0_0000_0000_0000 == 0x7ff0_0000_0000_0000))
        by (bit_vector);
    assert(a & 0x7fff_ffff_ffff_ffff == 0 <==> a == 0 || a == 0x8000_0000_0000_0000)
        by (bit_vector);
    assert(b & 0x7fff_ffff_ffff_ffff == 0 <==> b == 0 || b == 0x8000_0000_0000_0000)
        by (bit_vector);
}

/// Whether two byte strings hold the same bytes.
pub fn same_bytes(a: &Vec<u8>, b: &Vec<u8>) -> (same: bool)
    ensures
        same == (a@ == b@),
{
    if a.len() != b.len() {
        return false;
    }
    let mut i: usize = 0;
    while i < a.len()
        invariant
            a.len() == b.len(),
            i <= a.len(),
            a@.take(i as int) == b@.take(i as int),
        decreases a.len() - i,
    {
        if a[i] != b[i] {
            return false;
        }
        i = i + 1;
    }
    assert(a@.take(a.len() as int) == a@);
    assert(b@.take(b.len() as int) == b@);
    true
}

impl Scalar {
    /// The single-precision number with the bit pattern `bits`, as a value
    /// that is the same for every NaN and the same for both zeros.
    pub fn single(bits: u32) -> (value: Scalar)
        ensures
            value@ == ScalarModel::Float(canonical_single(bits)),
    {
        if bits & 0x7f80_0000 == 0x7f80_0000 && bits & 0x007f_ffff != 0 {
            Scalar::Float(0x7fc0_0000)
        } else if bits == 0x8000_0000 {
            Scalar::Float(0)
        } else {
            Scalar::Float(bits)
        }
    }

    /// The double-precision number with the bit pattern `bits`, as a value
    /// that is the same for every NaN and the same for both zeros.
    pub fn double(bits: u64) -> (value: Scalar)
        ensures
            value@ == ScalarModel::Double(canonical_double(bits)),
    {
        if bits & 0x7ff0_0000_0000_0000 == 0x7ff0_0000_0000_0000 && bits & 0x000f_ffff_ffff_ffff
            != 0 {
            Scalar::Double(0x7ff8_0000_0000_0000)
        } else if bits == 0x8000_0000_0000_0000 {
            Scalar::Double(0)
        } else {
            Scalar::Double(bits)
        }
    }

    /// Whether `self` and `other` are the same value: the same variant holding
    /// the same content.
    pub fn same_as(&self, other: &Scalar) -> (same: bool)
        ensures
            same == (self@ == other@),
    {
        match (self, other) {
            (Scalar::Boolean(a), Scalar::Boolean(b)) => *a == *b,
            (Scalar::Int(a), Scalar::Int(b)) => *a == *b,
            (Scalar::Long(a), Scalar::Long(b)) => *a == *b,
            (Scalar::Float(a), Scalar::Float(b)) => *a == *b,
            (Scalar::Double(a), Scalar::Double(b)) => *a == *b,
            (Scalar::Text(a), Scalar::Text(b)) => *a == *b,
            (Scalar::Binary(a), Scalar::Binary(b)) => same_bytes(a, b),
            (Scalar::Int128(a), Scalar::Int128(b)) => *a == *b,
            (Scalar::UInt128(a), Scalar::UInt128(b)) => *a == *b,
            (Scalar::AboveMax, Scalar::AboveMax) => true,
            (Scalar::BelowMin, Scalar::BelowMin) => true,
            _ => false,
        }
    }
}

impl Clone for Scalar {
    fn clone(&self) -> (copy: Scalar)
        ensures
            copy@ == self@,
    {
        match self {
            Scalar::Boolean(b) => Scalar::Boolean(*b),
            Scalar::Int(n) => Scalar::Int(*n),
            Scalar::Long(n) => Scalar::Long(*n),
            Scalar::Float(bits) => Scalar::Float(*bits),
            Scalar::Double(bits) => Scalar::Double(*bits),
            Scalar::Text(s) => Scalar::Text(s.clone()),
            Scalar::Binary(b) => Scalar::Binary(b.clone()),
            Scalar::Int128(n) => Scalar::Int128(*n),
            Scalar::UInt128(n) => Scalar::UInt128(*n),
            Scalar::AboveMax => Scalar::AboveMax,
            Scalar::BelowMin => Scalar::BelowMin,
        }
    }
}

/// One partition field's value for one data file: null, a primitive, or a
/// nested value.
#[derive(Debug, PartialEq, Eq, Hash)]
pub enum PartitionValue {
    Null,
    Scalar(Scalar),
    /// A tuple of values, one per field.
    Struct(Vec<PartitionValue>),
    /// A list of elements.
    List(Vec<PartitionValue>),
    /// Key-value pairs, in the order in which they were entered.
    Mapping(Vec<(PartitionValue, PartitionValue)>),
}

/// The mathematical content of a [`PartitionValue`].
pub enum ValueModel {
    Null,
    Scalar(ScalarModel),
    Struct(Seq<ValueModel>),
    List(Seq<ValueModel>),
    Mapping(Seq<(ValueModel, ValueModel)>),
}

/// The content of `value`: the same shape, with sequences in place of vectors.
pub open spec fn value_model(value: PartitionValue) -> ValueModel
    decreases value,
{
    match value {
        PartitionValue::Null => ValueModel::Null,
        PartitionValue::Scalar(s) => ValueModel::Scalar(s@),
        PartitionValue::Struct(fields) => ValueModel::Struct(
            Seq::new(
                fields@.len(),
                |i: int|
                    if 0 <= i < fields@.len() {
                        value_model(fields@[i])
                    } else {
                        ValueModel::Null
                    },
            ),
        ),
        PartitionValue::List(elements) => ValueModel::List(
            Seq::new(
                elements@.len(),
                |i: int|
                    if 0 <= i < elements@.len() {
                        value_model(elements@[i])
                    } else {
                        ValueModel::Null
                    },
            ),
        ),
        PartitionValue::Mapping(pairs) => ValueModel::Mapping(
            Seq::new(
                pairs@.len(),
                |i: int|
                    if 0 <= i < pairs@.len() {
                        (value_model(pairs@[i].0), value_model(pairs@[i].1))
                    } else {
                        (ValueModel::Null, ValueModel::Null)
                    },
            ),
        ),
    }
}

impl View for PartitionValue {
    type V = ValueModel;

    open spec fn view(&self) -> ValueModel {
        value_model(*self)
    }
}

/// The models of a sequence of values, element by element.
pub open spec fn models_of(values: Seq<PartitionValue>) -> Seq<ValueModel> {
    Seq::new(values.len(), |i: int| values[i]@)
}

/// The models of a sequence of key-value pairs, pair by pair.
pub open spec fn pair_models_of(pairs: Seq<(PartitionValue, PartitionValue)>) -> Seq<
    (ValueModel, ValueModel),
> {
    Seq::new(pairs.len(), |i: int| (pairs[i].0@, pairs[i].1@))
}

/// The model of a nested value is built from the models of its parts.
pub proof fn lemma_model_of_nested(value: PartitionValue)
    ensures
        value matches PartitionValue::Struct(fields) ==> value@ == ValueModel::Struct(
            models_of(fields@),
        ),
        value matches PartitionValue::List(elements) ==> value@ == ValueModel::List(
            models_of(elements@),
        ),
        value matches PartitionValue::Mapping(pairs) ==> value@ == ValueModel::Mapping(
            pair_models_of(pairs@),
        ),
{
    reveal_with_fuel(value_model, 2);
    match value {
        PartitionValue::Struct(fields) => {
            assert(value@->Struct_0 =~= models_of(fields@));
        },
        PartitionValue::List(elements) => {
            assert(value@->List_0 =~= models_of(elements@));
        },
        PartitionValue::Mapping(pairs) => {
            assert(value@->Mapping_0 =~= pair_models_of(pairs@));
        },
        _ => {},
    }
}

impl PartitionValue {
    /// Whether `self` and `other` are the same value: the same variant holding
    /// the same content, nested values compared part by part and in order.
    pub fn same_as(&self, other: &PartitionValue) -> (same: bool)
        ensures
            same == (self@ == other@),
        decreases self,
    {
        proof {
            lemma_model_of_nested(*self);
            lemma_model_of_nested(*other);
        }
        match (self, other) {
            (PartitionValue::Null, PartitionValue::Null) => true,
            (PartitionValue::Scalar(a), PartitionValue::Scalar(b)) => a.same_as(b),
            (PartitionValue::Struct(a), PartitionValue::Struct(b)) => same_values(a, b),
            (PartitionValue::List(a), PartitionValue::List(b)) => same_values(a, b),
            (PartitionValue::Mapping(a), PartitionValue::Mapping(b)) => same_pairs(a, b),
            _ => false,
        }
    }
}

/// Whether two sequences of values are the same, position by position.
pub fn same_values(a: &Vec<PartitionValue>, b: &Vec<PartitionValue>) -> (same: bool)
    ensures
        same == (models_of(a@) == models_of(b@)),
    decreases a,
{
    if a.len() != b.len() {
        assert(models_of(a@).len() != models_of(b@).len());
        return false;
    }
    let mut i: usize = 0;
    while i < a.len()
        invariant
            a.len() == b.len(),
            i <= a.len(),
            forall|k: int| 0 <= k < i ==> a@[k]@ == b@[k]@,
        decreases a.len() - i,
    {
        if !a[i].same_as(&b[i]) {
            assert(models_of(a@)[i as int] != models_of(b@)[i as int]);
            return false;
        }
        i = i + 1;
    }
    assert(models_of(a@) =~= models_of(b@));
    true
}

/// Whether two sequences of key-value pairs are the same, position by position.
pub fn same_pairs(
    a: &Vec<(PartitionValue, PartitionValue)>,
    b: &Vec<(PartitionValue, PartitionValue)>,
) -> (same: bool)
    ensures
        same == (pair_models_of(a@) == pair_models_of(b@)),
    decreases a,
{
    if a.len() != b.len() {
        assert(pair_models_of(a@).len() != pair_models_of(b@).len());
        return false;
    }
    let mut i: usize = 0;
    while i < a.len()
        invariant
            a.len() == b.len(),
            i <= a.len(),
            forall|k: int| 0 <= k < i ==> a@[k].0@ == b@[k].0@ && a@[k].1@ == b@[k].1@,
        decreases a.len() - i,
    {
        if !a[i].0.same_as(&b[i].0) || !a[i].1.same_as(&b[i].1) {
            assert(pair_models_of(a@)[i as int] != pair_models_of(b@)[i as int]);
            return false;
        }
        i = i + 1;
    }
    assert(pair_models_of(a@) =~= pair_models_of(b@));
    true
}

impl Clone for PartitionValue {
    fn clone(&self) -> (copy: PartitionValue)
        ensures
            copy@ == self@,
        decreases self,
    {
        let copy = match self {
            PartitionValue::Null => PartitionValue::Null,
            PartitionValue::Scalar(s) => PartitionValue::Scalar(s.clone()),
            PartitionValue::Struct(fields) => PartitionValue::Struct(copy_values(fields)),
            PartitionValue::List(elements) => PartitionValue::List(copy_values(elements)),
            PartitionValue::Mapping(pairs) => PartitionValue::Mapping(copy_pairs(pairs)),
        };
        proof {
            lemma_model_of_nested(*self);
            lemma_model_of_nested(copy);
        }
        copy
    }
}

/// A copy of `values`, value by value.
pub fn copy_values(values: &Vec<PartitionValue>) -> (copy: Vec<PartitionValue>)
    ensures
        models_of(copy@) == models_of(values@),
    decreases values,
{
    let mut copy: Vec<PartitionValue> = Vec::new();
    let mut i: usize = 0;
    while i < values.len()
        invariant
            i <= values.len(),
            copy.len() == i,
            forall|k: int| 0 <= k < i ==> copy@[k]@ == values@[k]@,
        decreases values.len() - i,
    {
        copy.push(values[i].clone());
        i = i + 1;
    }
    copy
}

/// A copy of `pairs`, pair by pair.
pub fn copy_pairs(pairs: &Vec<(PartitionValue, PartitionValue)>) -> (copy: Vec<
    (PartitionValue, PartitionValue),
>)
    ensures
        pair_models_of(copy@) == pair_models_of(pairs@),
    decreases pairs,
{
    let mut copy: Vec<(PartitionValue, PartitionValue)> = Vec::new();
    let mut i: usize = 0;
    while i < pairs.len()
        invariant
            i <= pairs.len(),
            copy.len() == i,
            forall|k: int|
                0 <= k < i ==> copy@[k].0@ == pairs@[k].0@ && copy@[k].1@ == pairs@[k].1@,
        decreases pairs.len() - i,
    {
        let key = pairs[i].0.clone();
        let value = pairs[i].1.clone();
        copy.push((key, value));
        i = i + 1;
    }
    copy
}

} // verus!
