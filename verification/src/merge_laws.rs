//! Laws of merging aggregates.

use vstd::prelude::*;
use crate::manifest::ManifestModel;
use crate::metadata::TableMetadataModel;
use crate::rules::{
    aggregate_of, clash_at, holds_id, live_values, manifest_gives, merge_fault, merge_fault_in,
    merged, united, written_under, AggregateModel,
};
use crate::value::ValueModel;

verus! {

/// The merge fault of a range is that of its lower part, or else that of its
/// upper part.
pub proof fn lemma_merge_fault_split(
    ours: AggregateModel,
    theirs: AggregateModel,
    from: int,
    mid: int,
    to: int,
)
    requires
        from <= mid <= to,
    ensures
        merge_fault_in(ours, theirs, from, to) == match merge_fault_in(ours, theirs, from, mid) {
            Some(fault) => Some(fault),
            None => merge_fault_in(ours, theirs, mid, to),
        },
    decreases mid - from,
{
    if from < mid {
        lemma_merge_fault_split(ours, theirs, from + 1, mid, to);
    }
}

/// A range without ids of `theirs` has no merge fault.
pub proof fn lemma_merge_fault_of_gap(
    ours: AggregateModel,
    theirs: AggregateModel,
    from: int,
    to: int,
)
    requires
        forall|id: int| from <= id < to ==> !holds_id(theirs, id),
    ensures
        merge_fault_in(ours, theirs, from, to) is None,
    decreases to - from,
{
    if from < to {
        lemma_merge_fault_of_gap(ours, theirs, from + 1, to);
    }
}

/// A range has no merge fault exactly when no id in it clashes.
pub proof fn lemma_no_merge_fault(
    ours: AggregateModel,
    theirs: AggregateModel,
    from: int,
    to: int,
)
    ensures
        merge_fault_in(ours, theirs, from, to) is None <==> forall|id: int|
            from <= id < to ==> !clash_at(ours, theirs, id),
    decreases to - from,
{
    if from < to {
        lemma_no_merge_fault(ours, theirs, from + 1, to);
    }
}

/// The live values of two lists put together are those of the one and those
/// of the other.
pub proof fn lemma_live_values_of_both(
    a: Seq<ManifestModel>,
    b: Seq<ManifestModel>,
    spec_id: i32,
    index: int,
)
    ensures
        live_values(a + b, spec_id, index) == live_values(a, spec_id, index).union(
            live_values(b, spec_id, index),
        ),
        written_under(a + b, spec_id) <==> written_under(a, spec_id) || written_under(b, spec_id),
{
    let both = a + b;
    let left = live_values(both, spec_id, index);
    let right = live_values(a, spec_id, index).union(live_values(b, spec_id, index));
    assert forall|v: ValueModel| left.contains(v) <==> right.contains(v) by {
        if left.contains(v) {
            let m = choose|m: int| manifest_gives(both, spec_id, index, m, v);
            if m < a.len() {
                assert(manifest_gives(a, spec_id, index, m, v));
            } else {
                assert(manifest_gives(b, spec_id, index, m - a.len(), v));
            }
        }
        if live_values(a, spec_id, index).contains(v) {
            let m = choose|m: int| manifest_gives(a, spec_id, index, m, v);
            assert(manifest_gives(both, spec_id, index, m, v));
        }
        if live_values(b, spec_id, index).contains(v) {
            let m = choose|m: int| manifest_gives(b, spec_id, index, m, v);
            assert(manifest_gives(both, spec_id, index, m + a.len(), v));
        }
    }
    if written_under(a, spec_id) {
        let m = choose|m: int| 0 <= m < a.len() && #[trigger] a[m].partition_spec_id == spec_id;
        assert(both[m].partition_spec_id == spec_id);
    }
    if written_under(b, spec_id) {
        let m = choose|m: int| 0 <= m < b.len() && #[trigger] b[m].partition_spec_id == spec_id;
        assert(both[m + a.len()].partition_spec_id == spec_id);
    }
}

/// Aggregates of parts of a manifest list, built apart from one another with
/// the same metadata, merge without fault into the aggregate of the parts
/// put together.
pub proof fn lemma_partial_aggregates_merge(
    metadata: TableMetadataModel,
    a: Seq<ManifestModel>,
    b: Seq<ManifestModel>,
)
    ensures
        merge_fault(aggregate_of(metadata, a), aggregate_of(metadata, b)) is None,
        merged(aggregate_of(metadata, a), aggregate_of(metadata, b)) == aggregate_of(
            metadata,
            a + b,
        ),
{
    let ours = aggregate_of(metadata, a);
    let theirs = aggregate_of(metadata, b);
    lemma_no_merge_fault(ours, theirs, i32::MIN as int, i32::MAX + 1);
    let left = merged(ours, theirs);
    let right = aggregate_of(metadata, a + b);
    assert forall|spec_id: i32| left.dom().contains(spec_id) <==> right.dom().contains(
        spec_id,
    ) by {
        lemma_live_values_of_both(a, b, spec_id, 0);
    }
    assert forall|spec_id: i32| left.dom().contains(spec_id) implies left[spec_id]
        =~= right[spec_id] by {
        assert forall|i: int| 0 <= i < metadata.field_count(spec_id) implies left[spec_id][i]
            == right[spec_id][i] by {
            lemma_live_values_of_both(a, b, spec_id, i);
        }
    }
}

/// Merging is commutative: where two aggregates merge without fault, they do
/// so in either order, and to the same aggregate.
pub proof fn lemma_merge_is_commutative(ours: AggregateModel, theirs: AggregateModel)
    requires
        merge_fault(ours, theirs) is None,
    ensures
        merge_fault(theirs, ours) is None,
        merged(theirs, ours) == merged(ours, theirs),
{
    lemma_no_merge_fault(ours, theirs, i32::MIN as int, i32::MAX + 1);
    lemma_no_merge_fault(theirs, ours, i32::MIN as int, i32::MAX + 1);
    assert forall|id: int| i32::MIN <= id < i32::MAX + 1 implies !clash_at(theirs, ours, id) by {
        assert(!clash_at(ours, theirs, id));
    }
    let left = merged(theirs, ours);
    let right = merged(ours, theirs);
    assert forall|spec_id: i32| left.dom().contains(spec_id) implies left[spec_id]
        =~= right[spec_id] by {
        if ours.dom().contains(spec_id) && theirs.dom().contains(spec_id) {
            assert(!clash_at(ours, theirs, spec_id as int));
            assert forall|i: int| 0 <= i < ours[spec_id].len() implies united(
                theirs[spec_id],
                ours[spec_id],
            )[i] == united(ours[spec_id], theirs[spec_id])[i] by {}
        }
    }
}

} // verus!
