use partition_report::aggregator::aggregate_manifests;
use partition_report::manifest::{Manifest, ManifestEntry, ManifestStatus};
use partition_report::metadata::{
    ManifestFile, PartitionField, PartitionSpec, Snapshot, TableMetadata, Transform,
};
use partition_report::report::render_report;
use partition_report::survey::{Event, Stage, Step, Survey};
use partition_report::value::{PartitionValue, Scalar};

/// Days from 1970-01-01 to 2024-01-01.
const DAY_2024_01_01: i32 = 19723;
/// Days from 1970-01-01 to 2024-01-02.
const DAY_2024_01_02: i32 = 19724;

fn date(days: i32) -> PartitionValue {
    PartitionValue::Scalar(Scalar::Int(days))
}

fn text(s: &str) -> PartitionValue {
    PartitionValue::Scalar(Scalar::Text(String::from(s)))
}

fn spec_s1() -> PartitionSpec {
    PartitionSpec {
        spec_id: 1,
        fields: vec![PartitionField {
            source_id: 1,
            field_id: 1000,
            name: String::from("date"),
            transform: Transform::Day,
        }],
    }
}

fn spec_s2() -> PartitionSpec {
    PartitionSpec {
        spec_id: 2,
        fields: vec![
            PartitionField {
                source_id: 1,
                field_id: 1000,
                name: String::from("date"),
                transform: Transform::Day,
            },
            PartitionField {
                source_id: 2,
                field_id: 1001,
                name: String::from("region"),
                transform: Transform::Identity,
            },
        ],
    }
}

fn table(specs: Vec<PartitionSpec>, snapshot: bool) -> TableMetadata {
    TableMetadata {
        partition_specs: specs,
        default_spec_id: 1,
        current_snapshot: if snapshot {
            Some(Snapshot {
                snapshot_id: 7,
                manifest_list: String::from("s3://warehouse/t/metadata/snap-7.avro"),
            })
        } else {
            None
        },
    }
}

fn manifest(spec_id: i32, entries: Vec<(ManifestStatus, Vec<PartitionValue>)>) -> Manifest {
    let mut converted = Vec::new();
    for (status, partition) in entries {
        converted.push(ManifestEntry { status, partition });
    }
    Manifest { partition_spec_id: spec_id, entries: converted }
}

fn row(id: i32, name: &str, transform: &str, count: usize) -> String {
    format!("{:<20}|{:<20}|{:<20}|{:<20}\n", id, name, transform, count)
}

fn header() -> String {
    format!("{:<20}|{:<20}|{:<20}|{:<20}\n", "id", "name", "transform", "distinct_count")
}

#[test]
fn two_added_values_under_one_spec_count_two() {
    let metadata = table(vec![spec_s1()], true);
    let manifests = vec![
        manifest(1, vec![(ManifestStatus::Added, vec![date(DAY_2024_01_01)])]),
        manifest(1, vec![(ManifestStatus::Added, vec![date(DAY_2024_01_02)])]),
    ];
    let aggregate = aggregate_manifests(&metadata, &manifests).unwrap();
    assert_eq!(aggregate.len(), 1);
    let bucket = aggregate.get(1).unwrap();
    assert_eq!(bucket.spec_id(), 1);
    assert_eq!(bucket.field_count(), 1);
    assert_eq!(bucket.distinct_count(0), Some(2));
    let report = render_report(&aggregate, &metadata).unwrap();
    let expected = String::from("Active partitions\npartition spec id: 1\n")
        + &header()
        + &row(1000, "date", "Day", 2)
        + "\n";
    assert_eq!(report, expected);
}

#[test]
fn deleted_entry_adds_nothing_and_equal_values_count_once() {
    let metadata = table(vec![spec_s1()], true);
    let manifests = vec![
        manifest(1, vec![(ManifestStatus::Added, vec![date(DAY_2024_01_01)])]),
        manifest(1, vec![(ManifestStatus::Deleted, vec![date(DAY_2024_01_01)])]),
        manifest(1, vec![(ManifestStatus::Added, vec![date(DAY_2024_01_01)])]),
    ];
    let aggregate = aggregate_manifests(&metadata, &manifests).unwrap();
    let bucket = aggregate.get(1).unwrap();
    assert_eq!(bucket.distinct_count(0), Some(1));
    assert!(bucket.has_value(0, &date(DAY_2024_01_01)));
}

#[test]
fn evolved_table_has_one_block_per_spec() {
    let metadata = table(vec![spec_s1(), spec_s2()], true);
    let manifests = vec![
        manifest(2, vec![(ManifestStatus::Added, vec![date(DAY_2024_01_02), text("eu")])]),
        manifest(1, vec![(ManifestStatus::Existing, vec![date(DAY_2024_01_01)])]),
        manifest(2, vec![(ManifestStatus::Added, vec![date(DAY_2024_01_02), text("us")])]),
    ];
    let aggregate = aggregate_manifests(&metadata, &manifests).unwrap();
    assert_eq!(aggregate.len(), 2);
    let first = aggregate.get(1).unwrap();
    assert_eq!(first.field_count(), 1);
    assert_eq!(first.distinct_count(0), Some(1));
    let second = aggregate.get(2).unwrap();
    assert_eq!(second.field_count(), 2);
    assert_eq!(second.distinct_count(0), Some(1));
    assert_eq!(second.distinct_count(1), Some(2));
    let ids: Vec<i32> = aggregate.buckets().iter().map(|bucket| bucket.spec_id()).collect();
    assert_eq!(ids, vec![1, 2]);
    let report = render_report(&aggregate, &metadata).unwrap();
    let expected = String::from("Active partitions\n")
        + "partition spec id: 1\n"
        + &header()
        + &row(1000, "date", "Day", 1)
        + "\n"
        + "partition spec id: 2\n"
        + &header()
        + &row(1000, "date", "Day", 1)
        + &row(1001, "region", "Identity", 2)
        + "\n";
    assert_eq!(report, expected);
}

#[test]
fn table_without_snapshot_has_nothing_to_report() {
    let metadata = table(vec![spec_s1()], false);
    let (survey, step) = Survey::begin(&metadata);
    assert_eq!(step, Step::Finished { report: String::new() });
    assert_eq!(survey.stage(), Stage::Closed);
    assert_eq!(survey.aggregate().len(), 0);
    assert!(survey.aggregate().buckets().is_empty());
    match step {
        Step::Finished { report } => assert!(!report.contains("partition spec id")),
        _ => unreachable!(),
    }
}

#[test]
fn survey_of_scenario_takes_in_every_manifest() {
    let metadata = table(vec![spec_s1()], true);
    let (mut survey, step) = Survey::begin(&metadata);
    assert_eq!(
        step,
        Step::LoadManifestList { location: String::from("s3://warehouse/t/metadata/snap-7.avro") }
    );
    let files = vec![
        ManifestFile {
            manifest_path: String::from("m0.avro"),
            manifest_length: 10,
            partition_spec_id: 1,
        },
        ManifestFile {
            manifest_path: String::from("m1.avro"),
            manifest_length: 11,
            partition_spec_id: 1,
        },
    ];
    let step = survey.advance(Event::ManifestList { files: files.clone() });
    assert_eq!(step, Step::LoadManifest { file: files[0].clone() });
    let step = survey.advance(Event::Manifest {
        manifest: manifest(1, vec![(ManifestStatus::Added, vec![date(DAY_2024_01_01)])]),
    });
    assert_eq!(step, Step::LoadManifest { file: files[1].clone() });
    let step = survey.advance(Event::Manifest {
        manifest: manifest(1, vec![(ManifestStatus::Added, vec![date(DAY_2024_01_02)])]),
    });
    let expected = String::from("Active partitions\npartition spec id: 1\n")
        + &header()
        + &row(1000, "date", "Day", 2)
        + "\n";
    assert_eq!(step, Step::Finished { report: expected });
    assert_eq!(survey.stage(), Stage::Closed);
    assert_eq!(survey.aggregate().get(1).unwrap().distinct_count(0), Some(2));
}
