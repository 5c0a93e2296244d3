use partition_report::aggregate::Aggregate;
use partition_report::aggregator::aggregate_manifests;
use partition_report::error::AggregationError;
use partition_report::manifest::{Manifest, ManifestEntry, ManifestStatus};
use partition_report::metadata::{PartitionField, PartitionSpec, TableMetadata, Transform};
use partition_report::report::{render_report, COLUMN_WIDTH};
use partition_report::text::{decimal_string, push_decimal, push_digits, push_padded, push_spaces};
use partition_report::value::{PartitionValue, Scalar};

fn int32(n: i32) -> PartitionValue {
    PartitionValue::Scalar(Scalar::Int(n))
}

fn field(field_id: i32, name: &str, transform: Transform) -> PartitionField {
    PartitionField { source_id: 1, field_id, name: String::from(name), transform }
}

fn table(specs: Vec<PartitionSpec>) -> TableMetadata {
    TableMetadata { partition_specs: specs, default_spec_id: 0, current_snapshot: None }
}

fn manifest(spec_id: i32, tuples: Vec<Vec<PartitionValue>>) -> Manifest {
    let mut entries = Vec::new();
    for partition in tuples {
        entries.push(ManifestEntry { status: ManifestStatus::Added, partition });
    }
    Manifest { partition_spec_id: spec_id, entries }
}

fn header() -> String {
    format!("{:<20}|{:<20}|{:<20}|{:<20}\n", "id", "name", "transform", "distinct_count")
}

#[test]
fn decimal_numbers_are_written_out() {
    assert_eq!(decimal_string(0), "0");
    assert_eq!(decimal_string(7), "7");
    assert_eq!(decimal_string(10), "10");
    assert_eq!(decimal_string(-1), "-1");
    assert_eq!(decimal_string(1234567890), "1234567890");
    assert_eq!(decimal_string(i64::MAX), "9223372036854775807");
    assert_eq!(decimal_string(i64::MIN), "-9223372036854775808");
    for n in [-1000i64, -999, -10, -9, 9, 99, 100, 101, 65535, 4294967296] {
        assert_eq!(decimal_string(n), n.to_string());
    }
}

#[test]
fn digits_and_decimals_are_appended() {
    let mut out = String::from("n=");
    push_digits(&mut out, 0);
    push_digits(&mut out, u64::MAX);
    assert_eq!(out, "n=018446744073709551615");
    push_decimal(&mut out, -42);
    assert_eq!(out, "n=018446744073709551615-42");
}

#[test]
fn short_text_is_padded_and_long_text_is_kept() {
    let mut out = String::new();
    push_padded(&mut out, "ab", 5);
    assert_eq!(out, "ab   ");
    push_padded(&mut out, "exact", 5);
    assert_eq!(out, "ab   exact");
    push_padded(&mut out, "longer than five", 5);
    assert_eq!(out, "ab   exactlonger than five");
    push_padded(&mut out, "", 2);
    assert_eq!(out, "ab   exactlonger than five  ");
    push_spaces(&mut out, 0);
    push_spaces(&mut out, 3);
    assert_eq!(out, "ab   exactlonger than five     ");
}

#[test]
fn padding_counts_characters_not_bytes() {
    let mut out = String::new();
    push_padded(&mut out, "día", 5);
    assert_eq!(out, "día  ");
    assert_eq!(out, format!("{:<5}", "día"));
}

#[test]
fn transforms_have_labels() {
    assert_eq!(Transform::Identity.label(), "Identity");
    assert_eq!(Transform::Bucket(16).label(), "Bucket(16)");
    assert_eq!(Transform::Bucket(0).label(), "Bucket(0)");
    assert_eq!(Transform::Truncate(4294967295).label(), "Truncate(4294967295)");
    assert_eq!(Transform::Year.label(), "Year");
    assert_eq!(Transform::Month.label(), "Month");
    assert_eq!(Transform::Day.label(), "Day");
    assert_eq!(Transform::Hour.label(), "Hour");
    assert_eq!(Transform::Void.label(), "Void");
    assert_eq!(Transform::Unknown.label(), "Unknown");
}

#[test]
fn the_column_width_is_twenty() {
    assert_eq!(COLUMN_WIDTH, 20);
}

#[test]
fn an_empty_aggregate_reports_the_title_alone() {
    let report = render_report(&Aggregate::new(), &table(vec![])).unwrap();
    assert_eq!(report, "Active partitions\n");
}

#[test]
fn a_block_lists_every_field_in_order() {
    let metadata = table(vec![PartitionSpec {
        spec_id: -7,
        fields: vec![
            field(1000, "date", Transform::Day),
            field(-1, "a_name_far_longer_than_a_column", Transform::Bucket(16)),
            field(1002, "día", Transform::Truncate(4)),
        ],
    }]);
    let manifests = vec![manifest(
        -7,
        vec![vec![int32(1), int32(1), int32(1)], vec![int32(2), int32(1), int32(1)], vec![int32(3), int32(2), int32(1)]],
    )];
    let aggregate = aggregate_manifests(&metadata, &manifests).unwrap();
    let report = render_report(&aggregate, &metadata).unwrap();
    let expected = String::from("Active partitions\n")
        + "partition spec id: -7\n"
        + "id                  |name                |transform           |distinct_count      \n"
        + "1000                |date                |Day                 |3                   \n"
        + "-1                  |a_name_far_longer_than_a_column|Bucket(16)          |2                   \n"
        + "1002                |día                 |Truncate(4)         |1                   \n"
        + "\n";
    assert_eq!(report, expected);
    assert!(report.contains(&header()));
}

#[test]
fn a_spec_without_fields_has_a_block_without_rows() {
    let metadata = table(vec![PartitionSpec { spec_id: 0, fields: vec![] }]);
    let aggregate = aggregate_manifests(&metadata, &vec![manifest(0, vec![vec![]])]).unwrap();
    let report = render_report(&aggregate, &metadata).unwrap();
    assert_eq!(report, String::from("Active partitions\npartition spec id: 0\n") + &header() + "\n");
}

#[test]
fn blocks_come_in_ascending_order_of_ids() {
    let metadata = table(vec![
        PartitionSpec { spec_id: 3, fields: vec![] },
        PartitionSpec { spec_id: i32::MIN, fields: vec![] },
        PartitionSpec { spec_id: i32::MAX, fields: vec![] },
    ]);
    let manifests =
        vec![manifest(i32::MAX, vec![]), manifest(3, vec![]), manifest(i32::MIN, vec![])];
    let aggregate = aggregate_manifests(&metadata, &manifests).unwrap();
    let report = render_report(&aggregate, &metadata).unwrap();
    let expected = String::from("Active partitions\n")
        + "partition spec id: -2147483648\n"
        + &header()
        + "\n"
        + "partition spec id: 3\n"
        + &header()
        + "\n"
        + "partition spec id: 2147483647\n"
        + &header()
        + "\n";
    assert_eq!(report, expected);
}

#[test]
fn reporting_with_other_metadata_can_fail() {
    let built_with = table(vec![
        PartitionSpec { spec_id: 1, fields: vec![field(1000, "date", Transform::Day)] },
        PartitionSpec { spec_id: 2, fields: vec![field(1000, "date", Transform::Day)] },
    ]);
    let manifests = vec![manifest(2, vec![vec![int32(1)]]), manifest(1, vec![vec![int32(1)]])];
    let aggregate = aggregate_manifests(&built_with, &manifests).unwrap();
    let lacks_two =
        table(vec![PartitionSpec { spec_id: 1, fields: vec![field(1000, "date", Transform::Day)] }]);
    assert_eq!(
        render_report(&aggregate, &lacks_two),
        Err(AggregationError::UnknownSpec { spec_id: 2 })
    );
    let widened = table(vec![
        PartitionSpec { spec_id: 1, fields: vec![] },
        PartitionSpec { spec_id: 2, fields: vec![] },
    ]);
    assert_eq!(
        render_report(&aggregate, &widened),
        Err(AggregationError::FieldCountMismatch { spec_id: 1, expected: 0, found: 1 })
    );
}
