use iceberg::spec::{FormatVersion as SourceVersion, Literal, Transform as SourceTransform};
use partition_report::banner::{render_banner, FormatVersion, TableSummary};
use partition_report::metadata::Transform;
use partition_report::value::Scalar;

#[test]
fn transform_labels_are_those_of_the_table_format() {
    let pairs = [
        (SourceTransform::Identity, Transform::Identity),
        (SourceTransform::Bucket(16), Transform::Bucket(16)),
        (SourceTransform::Bucket(0), Transform::Bucket(0)),
        (SourceTransform::Bucket(u32::MAX), Transform::Bucket(u32::MAX)),
        (SourceTransform::Truncate(4), Transform::Truncate(4)),
        (SourceTransform::Truncate(1000), Transform::Truncate(1000)),
        (SourceTransform::Year, Transform::Year),
        (SourceTransform::Month, Transform::Month),
        (SourceTransform::Day, Transform::Day),
        (SourceTransform::Hour, Transform::Hour),
        (SourceTransform::Void, Transform::Void),
        (SourceTransform::Unknown, Transform::Unknown),
    ];
    for (source, ours) in pairs {
        assert_eq!(ours.label(), format!("{:?}", source));
    }
}

#[test]
fn version_names_are_those_of_the_table_format() {
    let summary = |format_version| TableSummary {
        namespace: vec![String::from("ns")],
        name: String::from("t"),
        last_updated_ms: 0,
        format_version,
        metadata_location: None,
    };
    for (source, ours) in [(SourceVersion::V1, FormatVersion::V1), (SourceVersion::V2, FormatVersion::V2)]
    {
        let banner = render_banner(&summary(ours), "now", 0, "here");
        assert!(banner.contains(&format!("\nversion: {}\n", source)));
    }
}

#[test]
fn floats_are_one_value_exactly_when_the_table_format_says_so() {
    let singles = [
        0.0f32,
        -0.0,
        1.0,
        -1.0,
        0.1,
        f32::NAN,
        -f32::NAN,
        f32::from_bits(0x7f80_0001),
        f32::from_bits(0xffff_ffff),
        f32::INFINITY,
        f32::NEG_INFINITY,
        f32::MIN_POSITIVE,
        f32::MAX,
    ];
    for a in singles {
        for b in singles {
            let ours = Scalar::single(a.to_bits()).same_as(&Scalar::single(b.to_bits()));
            assert_eq!(ours, Literal::float(a) == Literal::float(b), "{} against {}", a, b);
        }
    }
    let doubles = [
        0.0f64,
        -0.0,
        1.0,
        -1.0,
        0.1,
        f64::NAN,
        -f64::NAN,
        f64::from_bits(0x7ff0_0000_0000_0001),
        f64::from_bits(0xffff_ffff_ffff_ffff),
        f64::INFINITY,
        f64::NEG_INFINITY,
        f64::MIN_POSITIVE,
        f64::MAX,
    ];
    for a in doubles {
        for b in doubles {
            let ours = Scalar::double(a.to_bits()).same_as(&Scalar::double(b.to_bits()));
            assert_eq!(ours, Literal::double(a) == Literal::double(b), "{} against {}", a, b);
        }
    }
}
