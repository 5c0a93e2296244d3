//! The report: a plain-text table of distinct-value counts, one block per
//! partition specification id, in ascending order of the ids.

use vstd::prelude::*;
use crate::aggregate::{Aggregate, SpecBucket};
use crate::error::AggregationError;
use crate::metadata::{
    PartitionField, PartitionFieldModel, PartitionSpec, PartitionSpecModel, TableMetadata,
    TableMetadataModel, Transform,
};
use crate::rules::{holds_id, AggregateModel};
use crate::text::{decimal, digits, padded, push_decimal, push_digits, push_padded};
use crate::value::ValueModel;

verus! {

/// The least width of a column, in characters.
pub const COLUMN_WIDTH: usize = 20;

/// The name of a transform, with its parameter in parentheses if it has one.
pub open spec fn transform_text(transform: Transform) -> Seq<char> {
    match transform {
        Transform::Identity => "Identity"@,
        Transform::Bucket(buckets) => "Bucket("@ + digits(buckets as nat) + ")"@,
        Transform::Truncate(width) => "Truncate("@ + digits(width as nat) + ")"@,
        Transform::Year => "Year"@,
        Transform::Month => "Month"@,
        Transform::Day => "Day"@,
        Transform::Hour => "Hour"@,
        Transform::Void => "Void"@,
        Transform::Unknown => "Unknown"@,
    }
}

/// The line of column titles.
pub open spec fn header_text() -> Seq<char> {
    padded("id"@, COLUMN_WIDTH as nat) + "|"@ + padded("name"@, COLUMN_WIDTH as nat) + "|"@
        + padded("transform"@, COLUMN_WIDTH as nat) + "|"@ + padded(
        "distinct_count"@,
        COLUMN_WIDTH as nat,
    ) + "\n"@
}

/// The line of one field: its id, its name, its transform and the number of
/// distinct values seen for it.
pub open spec fn row_text(field: PartitionFieldModel, count: nat) -> Seq<char> {
    padded(decimal(field.field_id as int), COLUMN_WIDTH as nat) + "|"@ + padded(
        field.name,
        COLUMN_WIDTH as nat,
    ) + "|"@ + padded(transform_text(field.transform), COLUMN_WIDTH as nat) + "|"@ + padded(
        digits(count),
        COLUMN_WIDTH as nat,
    ) + "\n"@
}

/// The lines of the first `n` fields, in field order.
pub open spec fn rows_text(
    fields: Seq<PartitionFieldModel>,
    sets: Seq<Set<ValueModel>>,
    n: nat,
) -> Seq<char>
    decreases n,
{
    if n == 0 {
        Seq::empty()
    } else {
        rows_text(fields, sets, (n - 1) as nat) + row_text(fields[n - 1], sets[n - 1].len())
    }
}

/// The block of one specification: a heading with its id, the column titles,
/// one line per field, and an empty line.
pub open spec fn block_text(spec: PartitionSpecModel, sets: Seq<Set<ValueModel>>) -> Seq<char> {
    "partition spec id: "@ + decimal(spec.spec_id as int) + "\n"@ + header_text() + rows_text(
        spec.fields,
        sets,
        sets.len(),
    ) + "\n"@
}

/// What keeps the sets under `spec_id` from being reported, if anything: the
/// metadata does not hold the specification, or it has another number of
/// fields than there are sets.
pub open spec fn bucket_fault(
    metadata: TableMetadataModel,
    spec_id: i32,
    sets: Seq<Set<ValueModel>>,
) -> Option<AggregationError> {
    match metadata.spec_by_id(spec_id) {
        None => Some(AggregationError::UnknownSpec { spec_id }),
        Some(spec) => if spec.fields.len() != sets.len() {
            Some(
                AggregationError::FieldCountMismatch {
                    spec_id,
                    expected: spec.fields.len() as usize,
                    found: sets.len() as usize,
                },
            )
        } else {
            None
        },
    }
}

/// The blocks of the ids of `aggregate` from `from` up to, not including,
/// `to`, in ascending order.
pub open spec fn blocks_text(
    aggregate: AggregateModel,
    metadata: TableMetadataModel,
    from: int,
    to: int,
) -> Seq<char>
    decreases to - from,
{
    if from >= to {
        Seq::empty()
    } else if holds_id(aggregate, from) {
        block_text(metadata.spec_by_id(from as i32)->Some_0, aggregate[from as i32]) + blocks_text(
            aggregate,
            metadata,
            from + 1,
            to,
        )
    } else {
        blocks_text(aggregate, metadata, from + 1, to)
    }
}

/// The fault of the least id of `aggregate` from `from` up to, not including,
/// `to`, that has one.
pub open spec fn blocks_fault(
    aggregate: AggregateModel,
    metadata: TableMetadataModel,
    from: int,
    to: int,
) -> Option<AggregationError>
    decreases to - from,
{
    if from >= to {
        None
    } else if holds_id(aggregate, from) && bucket_fault(
        metadata,
        from as i32,
        aggregate[from as i32],
    ) is Some {
        bucket_fault(metadata, from as i32, aggregate[from as i32])
    } else {
        blocks_fault(aggregate, metadata, from + 1, to)
    }
}

/// The report of `aggregate`: a title line, then the blocks of all its ids.
pub open spec fn report_text(aggregate: AggregateModel, metadata: TableMetadataModel) -> Seq<char> {
    "Active partitions\n"@ + blocks_text(aggregate, metadata, i32::MIN as int, i32::MAX + 1)
}

/// The fault of the least id of `aggregate` that cannot be reported.
pub open spec fn report_fault(aggregate: AggregateModel, metadata: TableMetadataModel) -> Option<
    AggregationError,
> {
    blocks_fault(aggregate, metadata, i32::MIN as int, i32::MAX + 1)
}

/// The result of reporting `aggregate`: the fault of the least id that cannot
/// be reported, or else the text.
pub open spec fn report(aggregate: AggregateModel, metadata: TableMetadataModel) -> Result<
    Seq<char>,
    AggregationError,
> {
    match report_fault(aggregate, metadata) {
        Some(fault) => Err(fault),
        None => Ok(report_text(aggregate, metadata)),
    }
}

/// The blocks of a range are those of its lower part followed by those of its
/// upper part, and its fault is that of the lower part or else that of the
/// upper part.
pub proof fn lemma_blocks_split(
    aggregate: AggregateModel,
    metadata: TableMetadataModel,
    from: int,
    mid: int,
    to: int,
)
    requires
        from <= mid <= to,
    ensures
        blocks_text(aggregate, metadata, from, to) == blocks_text(aggregate, metadata, from, mid)
            + blocks_text(aggregate, metadata, mid, to),
        blocks_fault(aggregate, metadata, from, to) == match blocks_fault(
            aggregate,
            metadata,
            from,
            mid,
        ) {
            Some(fault) => Some(fault),
            None => blocks_fault(aggregate, metadata, mid, to),
        },
    decreases mid - from,
{
    if from < mid {
        lemma_blocks_split(aggregate, metadata, from + 1, mid, to);
    }
}

/// A range without ids of the aggregate has no blocks and no fault.
pub proof fn lemma_blocks_of_gap(
    aggregate: AggregateModel,
    metadata: TableMetadataModel,
    from: int,
    to: int,
)
    requires
        forall|id: int| from <= id < to ==> !holds_id(aggregate, id),
    ensures
        blocks_text(aggregate, metadata, from, to) == Seq::<char>::empty(),
        blocks_fault(aggregate, metadata, from, to) is None,
    decreases to - from,
{
    if from < to {
        lemma_blocks_of_gap(aggregate, metadata, from + 1, to);
    }
}

/// Appends the name of `transform` to `out`.
fn push_transform(out: &mut String, transform: Transform)
    ensures
        final(out)@ == old(out)@ + transform_text(transform),
{
    match transform {
        Transform::Identity => out.append("Identity"),
        Transform::Bucket(buckets) => {
            out.append("Bucket(");
            push_digits(out, buckets as u64);
            out.append(")");
        },
        Transform::Truncate(width) => {
            out.append("Truncate(");
            push_digits(out, width as u64);
            out.append(")");
        },
        Transform::Year => out.append("Year"),
        Transform::Month => out.append("Month"),
        Transform::Day => out.append("Day"),
        Transform::Hour => out.append("Hour"),
        Transform::Void => out.append("Void"),
        Transform::Unknown => out.append("Unknown"),
    }
}

impl Transform {
    /// The name of the transform, with its parameter in parentheses if it has
    /// one.
    pub fn label(&self) -> (text: String)
        ensures
            text@ == transform_text(*self),
    {
        let mut text = String::new();
        push_transform(&mut text, *self);
        text
    }
}

/// Appends the line of column titles to `out`.
fn push_header(out: &mut String)
    ensures
        final(out)@ == old(out)@ + header_text(),
{
    push_padded(out, "id", COLUMN_WIDTH);
    out.append("|");
    push_padded(out, "name", COLUMN_WIDTH);
    out.append("|");
    push_padded(out, "transform", COLUMN_WIDTH);
    out.append("|");
    push_padded(out, "distinct_count", COLUMN_WIDTH);
    out.append("\n");
}

/// Appends the line of `field` with the count `count` to `out`.
fn push_row(out: &mut String, field: &PartitionField, count: usize)
    ensures
        final(out)@ == old(out)@ + row_text(field@, count as nat),
{
    let id = crate::text::decimal_string(field.field_id as i64);
    push_padded(out, id.as_str(), COLUMN_WIDTH);
    out.append("|");
    push_padded(out, field.name.as_str(), COLUMN_WIDTH);
    out.append("|");
    let transform = field.transform.label();
    push_padded(out, transform.as_str(), COLUMN_WIDTH);
    out.append("|");
    let mut number = String::new();
    push_digits(&mut number, count as u64);
    push_padded(out, number.as_str(), COLUMN_WIDTH);
    out.append("\n");
}

/// Appends the block of `spec` with the sets of `bucket` to `out`.
fn push_block(out: &mut String, spec: &PartitionSpec, bucket: &SpecBucket)
    requires
        spec@.fields.len() == bucket@.len(),
    ensures
        final(out)@ == old(out)@ + block_text(spec@, bucket@),
{
    out.append("partition spec id: ");
    push_decimal(out, spec.spec_id as i64);
    out.append("\n");
    push_header(out);
    let ghost start = out@;
    let count = bucket.field_count();
    let mut i: usize = 0;
    while i < count
        invariant
            i <= count,
            count == bucket@.len(),
            spec@.fields.len() == bucket@.len(),
            spec.fields@.len() == count,
            out@ == start + rows_text(spec@.fields, bucket@, i as nat),
        decreases count - i,
    {
        let distinct = match bucket.distinct_count(i) {
            Some(distinct) => distinct,
            None => unreached(),
        };
        push_row(out, &spec.fields[i], distinct);
        i = i + 1;
    }
    out.append("\n");
}

/// Renders the report of `aggregate`, with the field names and transforms of
/// `metadata`: a title line, then one block per specification id in ascending
/// order of the ids, each row showing a field's id, name and transform and the
/// number of distinct values seen for it.
///
/// Fails at the least id whose specification `metadata` does not hold, or
/// holds with another number of fields than the aggregate has sets.
pub fn render_report(aggregate: &Aggregate, metadata: &TableMetadata) -> (outcome: Result<
    String,
    AggregationError,
>)
    ensures
        match outcome {
            Ok(text) => report(aggregate@, metadata@) == Ok::<Seq<char>, AggregationError>(text@),
            Err(fault) => report(aggregate@, metadata@) == Err::<Seq<char>, AggregationError>(
                fault,
            ),
        },
{
    let buckets = aggregate.buckets();
    let mut out = String::new();
    out.append("Active partitions\n");
    let ghost title = out@;
    let ghost mut done: int = i32::MIN as int;
    let mut k: usize = 0;
    while k < buckets.len()
        invariant
            k <= buckets@.len(),
            title == "Active partitions\n"@,
            i32::MIN <= done <= i32::MAX + 1,
            k == 0 ==> done == i32::MIN,
            k > 0 ==> done == buckets@[k - 1].id() + 1,
            forall|i: int, j: int|
                0 <= i < j < buckets@.len() ==> (#[trigger] buckets@[i]).id() < (
                #[trigger] buckets@[j]).id(),
            forall|n: int|
                0 <= n < buckets@.len() ==> aggregate@.dom().contains(
                    (#[trigger] buckets@[n]).id(),
                ) && aggregate@[buckets@[n].id()] == buckets@[n]@,
            forall|spec_id: i32|
                aggregate@.dom().contains(spec_id) ==> exists|n: int|
                    0 <= n < buckets@.len() && (#[trigger] buckets@[n]).id() == spec_id,
            out@ == title + blocks_text(aggregate@, metadata@, i32::MIN as int, done),
            blocks_fault(aggregate@, metadata@, i32::MIN as int, done) is None,
        decreases buckets@.len() - k,
    {
        let bucket = &buckets[k];
        let spec_id = bucket.spec_id();
        proof {
            lemma_blocks_of_gap(aggregate@, metadata@, done, spec_id as int);
            lemma_blocks_split(aggregate@, metadata@, i32::MIN as int, done, spec_id as int);
            lemma_blocks_split(
                aggregate@,
                metadata@,
                i32::MIN as int,
                spec_id as int,
                spec_id + 1,
            );
            lemma_blocks_split(
                aggregate@,
                metadata@,
                i32::MIN as int,
                spec_id + 1,
                i32::MAX + 1,
            );
            assert(blocks_text(aggregate@, metadata@, spec_id + 1, spec_id + 1) =~= Seq::<
                char,
            >::empty());
        }
        let spec = match metadata.partition_spec_by_id(spec_id) {
            Some(spec) => spec,
            None => {
                return Err(AggregationError::UnknownSpec { spec_id });
            },
        };
        if spec.fields.len() != bucket.field_count() {
            return Err(
                AggregationError::FieldCountMismatch {
                    spec_id,
                    expected: spec.fields.len(),
                    found: bucket.field_count(),
                },
            );
        }
        push_block(&mut out, spec, bucket);
        proof {
            assert(blocks_fault(aggregate@, metadata@, spec_id + 1, spec_id + 1) is None);
            done = spec_id + 1;
        }
        k = k + 1;
    }
    proof {
        lemma_blocks_of_gap(aggregate@, metadata@, done, i32::MAX + 1);
        lemma_blocks_split(aggregate@, metadata@, i32::MIN as int, done, i32::MAX + 1);
    }
    Ok(out)
}

} // verus!
