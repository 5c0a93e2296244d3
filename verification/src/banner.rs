//! The banner: what is said of a table before its partitions are reported.

use vstd::prelude::*;
use crate::text::{decimal, push_decimal};

verus! {

/// The version of the table format.
#[derive(Debug, Clone, Copy, PartialEq, Eq, Structural)]
pub enum FormatVersion {
    V1,
    V2,
}

/// What identifies a loaded table and says how fresh it is.
#[derive(Debug, PartialEq, Eq)]
pub struct TableSummary {
    /// The levels of the namespace, outermost first.
    pub namespace: Vec<String>,
    /// The name of the table within its namespace.
    pub name: String,
    /// When the table was last updated, in milliseconds since 1970-01-01
    /// 00:00 UTC.
    pub last_updated_ms: i64,
    pub format_version: FormatVersion,
    /// Where the current metadata file lies, if that is known.
    pub metadata_location: Option<String>,
}

/// Why there is no banner.
#[derive(Debug, Clone, Copy, PartialEq, Eq, Structural)]
pub enum BannerError {
    /// The time of the last update is not a time that has a date.
    InvalidTimestamp,
    /// The time since the last update is more than can be told in
    /// milliseconds.
    ElapsedOutOfRange,
    /// The location of the metadata file is not known.
    MissingMetadataLocation,
}

/// The date and time, in UTC, of the moment `timestamp_ms` milliseconds after
/// 1970-01-01 00:00 UTC, as text; `None` where the moment lies outside the
/// range of dates.
pub uninterp spec fn utc_timestamp_text(timestamp_ms: i64) -> Option<Seq<char>>;

/// `n / d`, rounded towards zero.
pub open spec fn truncated_quotient(n: int, d: int) -> int
    recommends
        d > 0,
{
    if n >= 0 {
        n / d
    } else {
        -((-n) / d)
    }
}

/// The whole minutes in a span of `milliseconds`. A span of less than
/// `-i64::MAX` milliseconds has none.
pub open spec fn whole_minutes_of(milliseconds: i64) -> Option<i64> {
    if milliseconds < -i64::MAX {
        None
    } else {
        Some(truncated_quotient(milliseconds as int, 60_000) as i64)
    }
}

/// The whole minutes from `earlier_ms` to `later_ms`, negative if the second
/// lies before the first; `None` where the span between them is not in
/// `-i64::MAX ..= i64::MAX`.
pub open spec fn minutes_between(earlier_ms: i64, later_ms: i64) -> Option<i64> {
    if -i64::MAX <= later_ms - earlier_ms <= i64::MAX {
        Some(truncated_quotient(later_ms - earlier_ms, 60_000) as i64)
    } else {
        None
    }
}

/// `parts`, with `separator` between each two.
pub open spec fn joined(parts: Seq<Seq<char>>, separator: Seq<char>) -> Seq<char>
    decreases parts.len(),
{
    if parts.len() == 0 {
        Seq::empty()
    } else if parts.len() == 1 {
        parts[0]
    } else {
        joined(parts.drop_last(), separator) + separator + parts.last()
    }
}

/// The name of a format version.
pub open spec fn version_text(version: FormatVersion) -> Seq<char> {
    match version {
        FormatVersion::V1 => "v1"@,
        FormatVersion::V2 => "v2"@,
    }
}

/// The banner of a table: its qualified name, when it was last updated and
/// how many minutes ago that was, its format version, the location of its
/// metadata, and an empty line.
pub open spec fn banner_text(
    namespace: Seq<Seq<char>>,
    name: Seq<char>,
    last_updated: Seq<char>,
    minutes_ago: int,
    version: FormatVersion,
    metadata_location: Seq<char>,
) -> Seq<char> {
    "table: "@ + joined(namespace, "."@) + "."@ + name + "\n"@ + "last updated: "@ + last_updated
        + " ("@ + decimal(minutes_ago) + " minutes ago)\n"@ + "version: "@ + version_text(version)
        + "\n"@ + "metadata path: "@ + metadata_location + "\n"@ + "\n"@
}

/// The levels of a namespace as sequences of characters.
pub open spec fn level_texts(namespace: Seq<String>) -> Seq<Seq<char>> {
    Seq::new(namespace.len(), |i: int| namespace[i]@)
}

/// What `chrono::DateTime::<Utc>::from_timestamp_millis` makes of
/// `timestamp_ms`, written out by the `Display` impl of `DateTime<Utc>`.
///
/// Believed, not proved: the text depends on `timestamp_ms` alone, and there
/// is none exactly where chrono has no date for the moment.
#[verifier::external_body]
fn utc_timestamp(timestamp_ms: i64) -> (text: Option<String>)
    ensures
        match text {
            Some(written) => utc_timestamp_text(timestamp_ms) == Some(written@),
            None => utc_timestamp_text(timestamp_ms) is None,
        },
{
    match chrono::DateTime::from_timestamp_millis(timestamp_ms) {
        Some(moment) => Some(moment.to_string()),
        None => None,
    }
}

/// `chrono::TimeDelta::num_minutes` of the span that
/// `chrono::TimeDelta::try_milliseconds` makes of `milliseconds`.
///
/// Believed, not proved: chrono makes a span of every number of milliseconds
/// from `-i64::MAX` on and of no other, and counts its whole minutes by
/// rounding towards zero.
#[verifier::external_body]
fn whole_minutes(milliseconds: i64) -> (minutes: Option<i64>)
    ensures
        minutes == whole_minutes_of(milliseconds),
{
    match chrono::TimeDelta::try_milliseconds(milliseconds) {
        Some(span) => Some(span.num_minutes()),
        None => None,
    }
}

/// The whole minutes from `earlier_ms` to `later_ms`.
pub fn minutes_since(earlier_ms: i64, later_ms: i64) -> (minutes: Option<i64>)
    ensures
        minutes == minutes_between(earlier_ms, later_ms),
{
    match later_ms.checked_sub(earlier_ms) {
        Some(span) => whole_minutes(span),
        None => None,
    }
}

/// Appends `parts` to `out`, with a dot between each two.
fn push_dotted(out: &mut String, parts: &Vec<String>)
    ensures
        final(out)@ == old(out)@ + joined(level_texts(parts@), "."@),
{
    let ghost all = level_texts(parts@);
    let mut i: usize = 0;
    while i < parts.len()
        invariant
            i <= parts@.len(),
            all == level_texts(parts@),
            out@ == old(out)@ + joined(all.take(i as int), "."@),
        decreases parts@.len() - i,
    {
        proof {
            let longer = all.take(i + 1);
            assert(longer.drop_last() =~= all.take(i as int));
        }
        if i > 0 {
            out.append(".");
        }
        out.append(parts[i].as_str());
        i = i + 1;
    }
    assert(all.take(i as int) =~= all);
}

/// The banner of the table `summary`, given the time of its last update as
/// text, the minutes since then, and the location of its metadata.
pub fn render_banner(
    summary: &TableSummary,
    last_updated: &str,
    minutes_ago: i64,
    metadata_location: &str,
) -> (text: String)
    ensures
        text@ == banner_text(
            level_texts(summary.namespace@),
            summary.name@,
            last_updated@,
            minutes_ago as int,
            summary.format_version,
            metadata_location@,
        ),
{
    let mut text = String::new();
    text.append("table: ");
    push_dotted(&mut text, &summary.namespace);
    text.append(".");
    text.append(summary.name.as_str());
    text.append("\n");
    text.append("last updated: ");
    text.append(last_updated);
    text.append(" (");
    push_decimal(&mut text, minutes_ago);
    text.append(" minutes ago)\n");
    text.append("version: ");
    match summary.format_version {
        FormatVersion::V1 => text.append("v1"),
        FormatVersion::V2 => text.append("v2"),
    }
    text.append("\n");
    text.append("metadata path: ");
    text.append(metadata_location);
    text.append("\n");
    text.append("\n");
    text
}

/// The banner of the table `summary` at the moment `now_ms`, in milliseconds
/// since 1970-01-01 00:00 UTC.
///
/// Fails where the time of the last update has no date, where the span from
/// then to `now_ms` is out of range, or where the location of the metadata is
/// not known; the first of these that holds is the error.
pub fn table_banner(summary: &TableSummary, now_ms: i64) -> (outcome: Result<String, BannerError>)
    ensures
        match outcome {
            Ok(text) => {
                &&& utc_timestamp_text(summary.last_updated_ms) is Some
                &&& minutes_between(summary.last_updated_ms, now_ms) is Some
                &&& summary.metadata_location is Some
                &&& text@ == banner_text(
                    level_texts(summary.namespace@),
                    summary.name@,
                    utc_timestamp_text(summary.last_updated_ms)->Some_0,
                    minutes_between(summary.last_updated_ms, now_ms)->Some_0 as int,
                    summary.format_version,
                    summary.metadata_location->Some_0@,
                )
            },
            Err(BannerError::InvalidTimestamp) => utc_timestamp_text(summary.last_updated_ms)
                is None,
            Err(BannerError::ElapsedOutOfRange) => {
                &&& utc_timestamp_text(summary.last_updated_ms) is Some
                &&& minutes_between(summary.last_updated_ms, now_ms) is None
            },
            Err(BannerError::MissingMetadataLocation) => {
                &&& utc_timestamp_text(summary.last_updated_ms) is Some
                &&& minutes_between(summary.last_updated_ms, now_ms) is Some
                &&& summary.metadata_location is None
            },
        },
{
    let last_updated = match utc_timestamp(summary.last_updated_ms) {
        Some(written) => written,
        None => {
            return Err(BannerError::InvalidTimestamp);
        },
    };
    let minutes_ago = match minutes_since(summary.last_updated_ms, now_ms) {
        Some(minutes) => minutes,
        None => {
            return Err(BannerError::ElapsedOutOfRange);
        },
    };
    match &summary.metadata_location {
        Some(location) => Ok(
            render_banner(summary, last_updated.as_str(), minutes_ago, location.as_str()),
        ),
        None => Err(BannerError::MissingMetadataLocation),
    }
}

} // verus!
