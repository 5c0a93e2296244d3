use partition_report::banner::{
    minutes_since, render_banner, table_banner, BannerError, FormatVersion, TableSummary,
};

fn summary() -> TableSummary {
    TableSummary {
        namespace: vec![String::from("sales"), String::from("eu")],
        name: String::from("orders"),
        last_updated_ms: 947_638_923_004,
        format_version: FormatVersion::V2,
        metadata_location: Some(String::from("s3://warehouse/orders/metadata/v3.json")),
    }
}

#[test]
fn whole_minutes_are_counted_towards_zero() {
    assert_eq!(minutes_since(0, 0), Some(0));
    assert_eq!(minutes_since(0, 59_999), Some(0));
    assert_eq!(minutes_since(0, 60_000), Some(1));
    assert_eq!(minutes_since(0, 120_000), Some(2));
    assert_eq!(minutes_since(1_000, 121_000), Some(2));
    assert_eq!(minutes_since(0, 179_999), Some(2));
    assert_eq!(minutes_since(59_999, 0), Some(0));
    assert_eq!(minutes_since(60_000, 0), Some(-1));
    assert_eq!(minutes_since(119_999, 0), Some(-1));
    assert_eq!(minutes_since(0, i64::MAX), Some(153_722_867_280_912));
    assert_eq!(minutes_since(i64::MAX, 0), Some(-153_722_867_280_912));
}

#[test]
fn a_span_out_of_range_has_no_minutes() {
    assert_eq!(minutes_since(0, i64::MIN), None);
    assert_eq!(minutes_since(-1, i64::MAX), None);
    assert_eq!(minutes_since(i64::MAX, i64::MIN), None);
    assert_eq!(minutes_since(1, i64::MIN + 1), None);
    assert_eq!(minutes_since(1, i64::MIN + 2), Some(-153_722_867_280_912));
}

#[test]
fn a_banner_is_made_of_five_lines() {
    let text = render_banner(&summary(), "yesterday", 1440, "here");
    assert_eq!(
        text,
        "table: sales.eu.orders\nlast updated: yesterday (1440 minutes ago)\nversion: v2\nmetadata path: here\n\n"
    );
}

#[test]
fn a_namespace_of_one_level_or_none_is_written_without_inner_dots() {
    let one = TableSummary { namespace: vec![String::from("sales")], ..summary() };
    assert!(render_banner(&one, "t", 0, "p").starts_with("table: sales.orders\n"));
    let none = TableSummary { namespace: vec![], ..summary() };
    assert!(render_banner(&none, "t", -3, "p")
        .starts_with("table: .orders\nlast updated: t (-3 minutes ago)\nversion: v2\n"));
    let first = TableSummary { format_version: FormatVersion::V1, ..summary() };
    assert!(render_banner(&first, "t", 0, "p").contains("\nversion: v1\n"));
}

#[test]
fn the_banner_tells_the_time_of_the_last_update() {
    let now_ms = 947_638_923_004 + 5 * 60_000 + 59_000;
    let text = table_banner(&summary(), now_ms).unwrap();
    assert_eq!(
        text,
        "table: sales.eu.orders\nlast updated: 2000-01-12 01:02:03.004 UTC (5 minutes ago)\nversion: v2\nmetadata path: s3://warehouse/orders/metadata/v3.json\n\n"
    );
    let at_epoch = TableSummary { last_updated_ms: 0, ..summary() };
    assert!(table_banner(&at_epoch, 0)
        .unwrap()
        .contains("last updated: 1970-01-01 00:00:00 UTC (0 minutes ago)"));
}

#[test]
fn a_banner_needs_a_valid_time_a_span_in_range_and_a_location() {
    let timeless = TableSummary { last_updated_ms: i64::MAX, metadata_location: None, ..summary() };
    assert_eq!(table_banner(&timeless, 0), Err(BannerError::InvalidTimestamp));
    let far = TableSummary { last_updated_ms: 1, metadata_location: None, ..summary() };
    assert_eq!(table_banner(&far, i64::MIN), Err(BannerError::ElapsedOutOfRange));
    let homeless = TableSummary { metadata_location: None, ..summary() };
    assert_eq!(table_banner(&homeless, 0), Err(BannerError::MissingMetadataLocation));
}
