use partition_report::error::AggregationError;
use partition_report::manifest::{Manifest, ManifestEntry, ManifestStatus};
use partition_report::metadata::{
    ManifestFile, PartitionField, PartitionSpec, Snapshot, TableMetadata, Transform,
};
use partition_report::survey::{Event, Stage, Step, Survey, SurveyError};
use partition_report::value::{PartitionValue, Scalar};

fn int32(n: i32) -> PartitionValue {
    PartitionValue::Scalar(Scalar::Int(n))
}

fn table() -> TableMetadata {
    TableMetadata {
        partition_specs: vec![PartitionSpec {
            spec_id: 1,
            fields: vec![PartitionField {
                source_id: 1,
                field_id: 1000,
                name: String::from("date"),
                transform: Transform::Day,
            }],
        }],
        default_spec_id: 1,
        current_snapshot: Some(Snapshot { snapshot_id: 3, manifest_list: String::from("list.avro") }),
    }
}

fn file(path: &str) -> ManifestFile {
    ManifestFile { manifest_path: String::from(path), manifest_length: 100, partition_spec_id: 1 }
}

fn manifest(spec_id: i32, tuples: Vec<Vec<PartitionValue>>) -> Manifest {
    let mut entries = Vec::new();
    for partition in tuples {
        entries.push(ManifestEntry { status: ManifestStatus::Added, partition });
    }
    Manifest { partition_spec_id: spec_id, entries }
}

fn row(count: usize) -> String {
    format!("{:<20}|{:<20}|{:<20}|{:<20}\n", 1000, "date", "Day", count)
}

fn header() -> String {
    format!("{:<20}|{:<20}|{:<20}|{:<20}\n", "id", "name", "transform", "distinct_count")
}

#[test]
fn a_survey_asks_for_the_manifest_list_first() {
    let metadata = table();
    let (survey, step) = Survey::begin(&metadata);
    assert_eq!(step, Step::LoadManifestList { location: String::from("list.avro") });
    assert_eq!(survey.stage(), Stage::AwaitingManifestList);
    assert_eq!(survey.aggregate().len(), 0);
}

#[test]
fn an_empty_manifest_list_ends_the_survey_with_the_title() {
    let metadata = table();
    let (mut survey, _) = Survey::begin(&metadata);
    let step = survey.advance(Event::ManifestList { files: vec![] });
    assert_eq!(step, Step::Finished { report: String::from("Active partitions\n") });
    assert_eq!(survey.stage(), Stage::Closed);
}

#[test]
fn all_three_manifests_are_asked_for_and_counted() {
    let metadata = table();
    let (mut survey, _) = Survey::begin(&metadata);
    let files = vec![file("a"), file("b"), file("c")];
    let mut step = survey.advance(Event::ManifestList { files: files.clone() });
    let mut asked = Vec::new();
    let mut day = 0;
    loop {
        match step {
            Step::LoadManifest { file } => {
                assert_eq!(survey.stage(), Stage::AwaitingManifest);
                asked.push(file.manifest_path.clone());
                day += 1;
                step = survey
                    .advance(Event::Manifest { manifest: manifest(1, vec![vec![int32(day)]]) });
            },
            other => {
                step = other;
                break;
            },
        }
    }
    assert_eq!(asked, vec!["a", "b", "c"]);
    let expected = String::from("Active partitions\npartition spec id: 1\n")
        + &header()
        + &row(3)
        + "\n";
    assert_eq!(step, Step::Finished { report: expected });
    assert_eq!(survey.aggregate().get(1).unwrap().distinct_count(0), Some(3));
}

#[test]
fn a_manifest_list_that_fails_to_load_ends_the_survey() {
    let metadata = table();
    let (mut survey, _) = Survey::begin(&metadata);
    let step = survey.advance(Event::LoadFailed { cause: String::from("access denied") });
    let error = SurveyError::ManifestListUnavailable {
        location: String::from("list.avro"),
        cause: String::from("access denied"),
    };
    assert_eq!(error.describe(), "Failed to load manifest list list.avro: access denied");
    assert_eq!(step, Step::Failed { error });
    assert_eq!(survey.stage(), Stage::Closed);
}

#[test]
fn a_manifest_that_fails_to_load_ends_the_survey() {
    let metadata = table();
    let (mut survey, _) = Survey::begin(&metadata);
    survey.advance(Event::ManifestList { files: vec![file("a"), file("b")] });
    survey.advance(Event::Manifest { manifest: manifest(1, vec![vec![int32(1)]]) });
    let step = survey.advance(Event::LoadFailed { cause: String::from("truncated file") });
    let error = SurveyError::ManifestUnavailable {
        location: String::from("b"),
        cause: String::from("truncated file"),
    };
    assert_eq!(error.describe(), "Failed to load manifest file b: truncated file");
    assert_eq!(step, Step::Failed { error });
    assert_eq!(survey.stage(), Stage::Closed);
}

#[test]
fn a_faulty_manifest_ends_the_survey_without_a_report() {
    let metadata = table();
    let (mut survey, _) = Survey::begin(&metadata);
    survey.advance(Event::ManifestList { files: vec![file("a"), file("b"), file("c")] });
    survey.advance(Event::Manifest { manifest: manifest(1, vec![vec![int32(1)]]) });
    let step = survey.advance(Event::Manifest { manifest: manifest(8, vec![vec![int32(1)]]) });
    let error = SurveyError::Inconsistent { fault: AggregationError::UnknownSpec { spec_id: 8 } };
    assert_eq!(
        error.describe(),
        "Inconsistent table metadata: partition spec 8 is not in the table metadata"
    );
    assert_eq!(step, Step::Failed { error });
    assert_eq!(survey.stage(), Stage::Closed);
    let step = survey.advance(Event::Manifest { manifest: manifest(1, vec![vec![int32(2)]]) });
    assert_eq!(step, Step::Failed { error: SurveyError::OutOfTurn });
}

#[test]
fn an_event_that_was_not_asked_for_ends_the_survey() {
    let metadata = table();
    let (mut survey, _) = Survey::begin(&metadata);
    let step = survey.advance(Event::Manifest { manifest: manifest(1, vec![]) });
    assert_eq!(step, Step::Failed { error: SurveyError::OutOfTurn });
    assert_eq!(
        SurveyError::OutOfTurn.describe(),
        "Unexpected event: the survey had not asked for it"
    );
    assert_eq!(survey.stage(), Stage::Closed);
    let step = survey.advance(Event::ManifestList { files: vec![] });
    assert_eq!(step, Step::Failed { error: SurveyError::OutOfTurn });

    let (mut survey, _) = Survey::begin(&metadata);
    survey.advance(Event::ManifestList { files: vec![file("a")] });
    let step = survey.advance(Event::ManifestList { files: vec![file("a")] });
    assert_eq!(step, Step::Failed { error: SurveyError::OutOfTurn });
}

#[test]
fn a_finished_survey_takes_no_more_events() {
    let metadata = TableMetadata { current_snapshot: None, ..table() };
    let (mut survey, step) = Survey::begin(&metadata);
    assert_eq!(step, Step::Finished { report: String::new() });
    let step = survey.advance(Event::ManifestList { files: vec![] });
    assert_eq!(step, Step::Failed { error: SurveyError::OutOfTurn });
}
