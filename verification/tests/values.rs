use partition_report::distinct::DistinctSet;
use partition_report::value::{
    copy_pairs, copy_values, same_bytes, same_pairs, same_values, PartitionValue, Scalar,
};

fn int32(n: i32) -> PartitionValue {
    PartitionValue::Scalar(Scalar::Int(n))
}

fn int64(n: i64) -> PartitionValue {
    PartitionValue::Scalar(Scalar::Long(n))
}

fn text(s: &str) -> PartitionValue {
    PartitionValue::Scalar(Scalar::Text(String::from(s)))
}

fn every_kind() -> Vec<PartitionValue> {
    vec![
        PartitionValue::Null,
        PartitionValue::Scalar(Scalar::Boolean(false)),
        PartitionValue::Scalar(Scalar::Boolean(true)),
        int32(0),
        int32(1),
        int64(0),
        int64(1),
        PartitionValue::Scalar(Scalar::Float(0)),
        PartitionValue::Scalar(Scalar::Float(0x3f80_0000)),
        PartitionValue::Scalar(Scalar::Double(0)),
        PartitionValue::Scalar(Scalar::Double(0x3ff0_0000_0000_0000)),
        text(""),
        text("a"),
        text("ab"),
        PartitionValue::Scalar(Scalar::Binary(vec![])),
        PartitionValue::Scalar(Scalar::Binary(vec![97])),
        PartitionValue::Scalar(Scalar::Binary(vec![97, 98])),
        PartitionValue::Scalar(Scalar::Int128(0)),
        PartitionValue::Scalar(Scalar::Int128(-1)),
        PartitionValue::Scalar(Scalar::UInt128(0)),
        PartitionValue::Scalar(Scalar::UInt128(u128::MAX)),
        PartitionValue::Scalar(Scalar::AboveMax),
        PartitionValue::Scalar(Scalar::BelowMin),
        PartitionValue::Struct(vec![]),
        PartitionValue::Struct(vec![int32(1)]),
        PartitionValue::Struct(vec![int32(1), PartitionValue::Null]),
        PartitionValue::Struct(vec![PartitionValue::Null, int32(1)]),
        PartitionValue::List(vec![]),
        PartitionValue::List(vec![int32(1)]),
        PartitionValue::List(vec![PartitionValue::List(vec![int32(1)])]),
        PartitionValue::Mapping(vec![]),
        PartitionValue::Mapping(vec![(text("k"), int32(1))]),
        PartitionValue::Mapping(vec![(text("k"), int32(2))]),
        PartitionValue::Mapping(vec![(text("k"), int32(1)), (text("l"), PartitionValue::Null)]),
        PartitionValue::Mapping(vec![(text("l"), PartitionValue::Null), (text("k"), int32(1))]),
    ]
}

#[test]
fn a_value_is_the_same_as_itself_and_as_no_other() {
    let values = every_kind();
    for (i, a) in values.iter().enumerate() {
        for (j, b) in values.iter().enumerate() {
            assert_eq!(a.same_as(b), i == j, "{:?} against {:?}", a, b);
            assert_eq!(a.same_as(b), a == b);
        }
    }
}

#[test]
fn a_copy_is_the_same_as_its_original() {
    for value in every_kind() {
        let copy = value.clone();
        assert!(copy.same_as(&value));
        assert_eq!(copy, value);
    }
    let scalar = Scalar::Text(String::from("x"));
    assert!(scalar.clone().same_as(&scalar));
    assert!(!scalar.same_as(&Scalar::Binary(vec![120])));
}

#[test]
fn sequences_are_compared_position_by_position() {
    assert!(same_values(&vec![], &vec![]));
    assert!(same_values(&vec![int32(1), int32(2)], &vec![int32(1), int32(2)]));
    assert!(!same_values(&vec![int32(1), int32(2)], &vec![int32(2), int32(1)]));
    assert!(!same_values(&vec![int32(1)], &vec![int32(1), int32(1)]));
    assert!(same_pairs(&vec![(int32(1), int32(2))], &vec![(int32(1), int32(2))]));
    assert!(!same_pairs(&vec![(int32(1), int32(2))], &vec![(int32(2), int32(1))]));
    assert!(!same_pairs(&vec![(int32(1), int32(2))], &vec![]));
    assert!(same_bytes(&vec![1, 2, 3], &vec![1, 2, 3]));
    assert!(!same_bytes(&vec![1, 2, 3], &vec![1, 2, 4]));
    assert!(!same_bytes(&vec![1, 2, 3], &vec![1, 2]));
    assert_eq!(copy_values(&vec![int32(1), text("a")]), vec![int32(1), text("a")]);
    assert_eq!(copy_pairs(&vec![(int32(1), text("a"))]), vec![(int32(1), text("a"))]);
}

#[test]
fn a_distinct_set_keeps_each_value_once() {
    let mut set = DistinctSet::new();
    assert_eq!(set.len(), 0);
    assert!(!set.contains(&int32(1)));
    assert!(set.insert(int32(1)));
    assert!(!set.insert(int32(1)));
    assert!(set.insert(int64(1)));
    assert!(set.insert(PartitionValue::Null));
    assert!(!set.insert(PartitionValue::Null));
    assert!(set.insert(text("a")));
    assert_eq!(set.len(), 4);
    assert!(set.contains(&int32(1)));
    assert!(set.contains(&PartitionValue::Null));
    assert!(!set.contains(&int32(2)));
    assert_eq!(set.values(), &vec![int32(1), int64(1), PartitionValue::Null, text("a")]);
}

#[test]
fn distinct_sets_unite() {
    let mut ours = DistinctSet::new();
    ours.insert(int32(1));
    ours.insert(int32(2));
    let mut theirs = DistinctSet::new();
    theirs.insert(int32(2));
    theirs.insert(int32(3));
    let kept = theirs.clone();
    ours.unite(&theirs);
    assert_eq!(ours.len(), 3);
    assert_eq!(ours.values(), &vec![int32(1), int32(2), int32(3)]);
    assert_eq!(kept.values(), theirs.values());
    ours.unite(&DistinctSet::new());
    assert_eq!(ours.len(), 3);
}

#[test]
fn every_kind_of_value_is_told_apart_in_a_set() {
    let mut set = DistinctSet::new();
    for value in every_kind() {
        assert!(set.insert(value));
    }
    for value in every_kind() {
        assert!(!set.insert(value));
    }
    assert_eq!(set.len(), every_kind().len());
}

#[test]
fn every_nan_is_one_value_and_both_zeros_are_one() {
    let quiet = Scalar::single(f32::NAN.to_bits());
    assert!(quiet.same_as(&Scalar::single(0x7f80_0001)));
    assert!(quiet.same_as(&Scalar::single(0xffc0_0000)));
    assert!(quiet.same_as(&Scalar::single(0xffff_ffff)));
    assert!(!quiet.same_as(&Scalar::single(f32::INFINITY.to_bits())));
    assert!(!quiet.same_as(&Scalar::single(f32::NEG_INFINITY.to_bits())));
    assert!(Scalar::single((0.0f32).to_bits()).same_as(&Scalar::single((-0.0f32).to_bits())));
    assert_eq!(Scalar::single((-0.0f32).to_bits()), Scalar::Float(0));
    assert_eq!(Scalar::single(0x7f80_0001), Scalar::Float(0x7fc0_0000));

    let quiet = Scalar::double(f64::NAN.to_bits());
    assert!(quiet.same_as(&Scalar::double(0x7ff0_0000_0000_0001)));
    assert!(quiet.same_as(&Scalar::double(0xfff8_0000_0000_0000)));
    assert!(!quiet.same_as(&Scalar::double(f64::INFINITY.to_bits())));
    assert!(Scalar::double((0.0f64).to_bits()).same_as(&Scalar::double((-0.0f64).to_bits())));
    assert_eq!(Scalar::double((-0.0f64).to_bits()), Scalar::Double(0));
    assert_eq!(Scalar::double(0xffff_ffff_ffff_ffff), Scalar::Double(0x7ff8_0000_0000_0000));
}

#[test]
fn numbers_are_the_same_value_exactly_when_they_are_equal() {
    let singles = [
        0.0f32,
        -0.0,
        1.0,
        -1.0,
        1.5,
        f32::MIN_POSITIVE,
        f32::MAX,
        f32::MIN,
        f32::INFINITY,
        f32::NEG_INFINITY,
        f32::EPSILON,
        1.0e-45,
    ];
    for a in singles {
        for b in singles {
            let same = Scalar::single(a.to_bits()).same_as(&Scalar::single(b.to_bits()));
            assert_eq!(same, a == b, "{} against {}", a, b);
        }
        assert_eq!(Scalar::single(a.to_bits()), Scalar::single(a.to_bits()).clone());
    }
    let doubles =
        [0.0f64, -0.0, 1.0, -1.0, 2.5, f64::MIN_POSITIVE, f64::MAX, f64::MIN, f64::INFINITY, 5e-324];
    for a in doubles {
        for b in doubles {
            let same = Scalar::double(a.to_bits()).same_as(&Scalar::double(b.to_bits()));
            assert_eq!(same, a == b, "{} against {}", a, b);
        }
    }
    assert!(!Scalar::single(0).same_as(&Scalar::double(0)));
}

#[test]
fn a_copy_is_added_only_when_the_value_is_new() {
    let mut set = DistinctSet::new();
    let value = PartitionValue::Struct(vec![int32(1), PartitionValue::Null]);
    assert!(set.insert_copy(&value));
    assert!(!set.insert_copy(&value));
    assert!(!set.insert(value.clone()));
    assert!(set.insert_copy(&int32(1)));
    assert_eq!(set.len(), 2);
    assert_eq!(set.values(), &vec![value, int32(1)]);
}
