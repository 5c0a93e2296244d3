//! What aggregation means, stated over the models of manifests and metadata.
//!
//! The aggregate of a list of manifests is defined here without reference to
//! the order in which they are processed: under each specification id that a
//! manifest was written under stands one set per field of that specification,
//! and a value is in the set of a field exactly when a live entry of such a
//! manifest holds it at the field's position.

use vstd::prelude::*;
use crate::error::AggregationError;
use crate::manifest::{EntryModel, ManifestModel};
use crate::metadata::TableMetadataModel;
use crate::value::ValueModel;

verus! {

/// What an aggregate is, mathematically: for each specification id met, the
/// sets of distinct values of its fields, in field order.
pub type AggregateModel = Map<i32, Seq<Set<ValueModel>>>;

/// `count` empty sets.
pub open spec fn empty_sets(count: nat) -> Seq<Set<ValueModel>> {
    Seq::new(count, |i: int| Set::<ValueModel>::empty())
}

/// `sets` with each value of `tuple` added to the set at its position.
pub open spec fn with_tuple(sets: Seq<Set<ValueModel>>, tuple: Seq<ValueModel>) -> Seq<
    Set<ValueModel>,
> {
    Seq::new(sets.len(), |i: int| if i < tuple.len() { sets[i].insert(tuple[i]) } else { sets[i] })
}

/// `ours`, each set united with the set of `theirs` at its position.
pub open spec fn united(ours: Seq<Set<ValueModel>>, theirs: Seq<Set<ValueModel>>) -> Seq<
    Set<ValueModel>,
> {
    Seq::new(ours.len(), |i: int| if i < theirs.len() { ours[i].union(theirs[i]) } else { ours[i] })
}

/// Whether the entry at position `e` is live and holds `value` at field
/// position `index`.
pub open spec fn entry_gives(
    entries: Seq<EntryModel>,
    index: int,
    e: int,
    value: ValueModel,
) -> bool {
    &&& 0 <= e < entries.len()
    &&& entries[e].status.is_live()
    &&& 0 <= index < entries[e].partition.len()
    &&& entries[e].partition[index] == value
}

/// The values that the live entries among `entries` hold at field position
/// `index`.
pub open spec fn entry_values(entries: Seq<EntryModel>, index: int) -> Set<ValueModel> {
    Set::new(|value: ValueModel| exists|e: int| entry_gives(entries, index, e, value))
}

/// `sets`, each united with what the live entries hold at its position.
pub open spec fn with_entries(sets: Seq<Set<ValueModel>>, entries: Seq<EntryModel>) -> Seq<
    Set<ValueModel>,
> {
    Seq::new(sets.len(), |i: int| sets[i].union(entry_values(entries, i)))
}

/// Whether the manifest at position `m` was written under `spec_id` and one of
/// its live entries holds `value` at field position `index`.
pub open spec fn manifest_gives(
    manifests: Seq<ManifestModel>,
    spec_id: i32,
    index: int,
    m: int,
    value: ValueModel,
) -> bool {
    &&& 0 <= m < manifests.len()
    &&& manifests[m].partition_spec_id == spec_id
    &&& entry_values(manifests[m].entries, index).contains(value)
}

/// The values that live entries of the manifests written under `spec_id` hold
/// at field position `index`.
pub open spec fn live_values(manifests: Seq<ManifestModel>, spec_id: i32, index: int) -> Set<
    ValueModel,
> {
    Set::new(|value: ValueModel| exists|m: int| manifest_gives(manifests, spec_id, index, m, value))
}

/// Whether one of `manifests` was written under `spec_id`.
pub open spec fn written_under(manifests: Seq<ManifestModel>, spec_id: i32) -> bool {
    exists|m: int| 0 <= m < manifests.len() && #[trigger] manifests[m].partition_spec_id == spec_id
}

/// The aggregate of `manifests`: under each specification id that one of them
/// was written under stand as many sets as the specification has fields in
/// `metadata`, and the set at a position holds the live values of that
/// position.
pub open spec fn aggregate_of(
    metadata: TableMetadataModel,
    manifests: Seq<ManifestModel>,
) -> AggregateModel {
    Map::new(
        |spec_id: i32| written_under(manifests, spec_id),
        |spec_id: i32|
            Seq::new(
                metadata.field_count(spec_id),
                |i: int| live_values(manifests, spec_id, i),
            ),
    )
}

/// The length of the partition tuple of the first live entry whose tuple has
/// not `count` values.
pub open spec fn first_misfit(entries: Seq<EntryModel>, count: nat) -> Option<nat>
    decreases entries.len(),
{
    if entries.len() == 0 {
        None
    } else if entries[0].status.is_live() && entries[0].partition.len() != count {
        Some(entries[0].partition.len())
    } else {
        first_misfit(entries.drop_first(), count)
    }
}

/// What is wrong with `manifest`, if anything: its specification id is not in
/// the metadata's history, or a live entry's partition tuple has another
/// length than the specification has fields.
pub open spec fn manifest_fault(metadata: TableMetadataModel, manifest: ManifestModel) -> Option<
    AggregationError,
> {
    match metadata.spec_by_id(manifest.partition_spec_id) {
        None => Some(AggregationError::UnknownSpec { spec_id: manifest.partition_spec_id }),
        Some(spec) => match first_misfit(manifest.entries, spec.fields.len()) {
            Some(found) => Some(
                AggregationError::FieldCountMismatch {
                    spec_id: manifest.partition_spec_id,
                    expected: spec.fields.len() as usize,
                    found: found as usize,
                },
            ),
            None => None,
        },
    }
}

/// The fault of the first faulty manifest.
pub open spec fn first_fault(metadata: TableMetadataModel, manifests: Seq<ManifestModel>) -> Option<
    AggregationError,
>
    decreases manifests.len(),
{
    if manifests.len() == 0 {
        None
    } else {
        match manifest_fault(metadata, manifests[0]) {
            Some(fault) => Some(fault),
            None => first_fault(metadata, manifests.drop_first()),
        }
    }
}

/// The result of aggregating `manifests`: the fault of the first faulty
/// manifest, or else the aggregate.
pub open spec fn aggregation(metadata: TableMetadataModel, manifests: Seq<ManifestModel>) -> Result<
    AggregateModel,
    AggregationError,
> {
    match first_fault(metadata, manifests) {
        Some(fault) => Err(fault),
        None => Ok(aggregate_of(metadata, manifests)),
    }
}

/// The sets that stand under `spec_id` before a manifest written under it is
/// taken in: those of `aggregate`, or empty ones if the id is new.
pub open spec fn sets_before(
    aggregate: AggregateModel,
    metadata: TableMetadataModel,
    spec_id: i32,
) -> Seq<Set<ValueModel>> {
    if aggregate.dom().contains(spec_id) {
        aggregate[spec_id]
    } else {
        empty_sets(metadata.field_count(spec_id))
    }
}

/// What keeps `manifest` from being taken into `aggregate`, if anything: a
/// fault of the manifest, or sets under its id that are not as many as the
/// specification has fields.
pub open spec fn absorb_fault(
    aggregate: AggregateModel,
    metadata: TableMetadataModel,
    manifest: ManifestModel,
) -> Option<AggregationError> {
    let spec_id = manifest.partition_spec_id;
    match metadata.spec_by_id(spec_id) {
        None => Some(AggregationError::UnknownSpec { spec_id }),
        Some(spec) => if aggregate.dom().contains(spec_id) && aggregate[spec_id].len()
            != spec.fields.len() {
            Some(
                AggregationError::FieldCountMismatch {
                    spec_id,
                    expected: aggregate[spec_id].len() as usize,
                    found: spec.fields.len() as usize,
                },
            )
        } else {
            manifest_fault(metadata, manifest)
        },
    }
}

/// `aggregate` after `manifest` has been taken in.
pub open spec fn absorbed(
    aggregate: AggregateModel,
    metadata: TableMetadataModel,
    manifest: ManifestModel,
) -> AggregateModel {
    let spec_id = manifest.partition_spec_id;
    aggregate.insert(
        spec_id,
        with_entries(sets_before(aggregate, metadata, spec_id), manifest.entries),
    )
}

/// Whether `id` is a specification id of `aggregate`.
pub open spec fn holds_id(aggregate: AggregateModel, id: int) -> bool {
    i32::MIN <= id <= i32::MAX && aggregate.dom().contains(id as i32)
}

/// Whether `ours` and `theirs` both hold `id`, with different numbers of sets.
pub open spec fn clash_at(ours: AggregateModel, theirs: AggregateModel, id: int) -> bool {
    holds_id(ours, id) && holds_id(theirs, id) && ours[id as i32].len() != theirs[id as i32].len()
}

/// The fault of the least id from `from` up to, not including, `to`, under
/// which `ours` and `theirs` hold different numbers of sets.
pub open spec fn merge_fault_in(
    ours: AggregateModel,
    theirs: AggregateModel,
    from: int,
    to: int,
) -> Option<AggregationError>
    decreases to - from,
{
    if from >= to {
        None
    } else if clash_at(ours, theirs, from) {
        Some(
            AggregationError::FieldCountMismatch {
                spec_id: from as i32,
                expected: ours[from as i32].len() as usize,
                found: theirs[from as i32].len() as usize,
            },
        )
    } else {
        merge_fault_in(ours, theirs, from + 1, to)
    }
}

/// What keeps `theirs` from being merged into `ours`, if anything: the fault
/// of the least id under which the two hold different numbers of sets.
pub open spec fn merge_fault(ours: AggregateModel, theirs: AggregateModel) -> Option<
    AggregationError,
> {
    merge_fault_in(ours, theirs, i32::MIN as int, i32::MAX + 1)
}

/// `ours` and `theirs` as one aggregate: under each id that either holds, the
/// sets of the one that holds it, or the sets of both united position by
/// position.
pub open spec fn merged(ours: AggregateModel, theirs: AggregateModel) -> AggregateModel {
    Map::new(
        |spec_id: i32| ours.dom().contains(spec_id) || theirs.dom().contains(spec_id),
        |spec_id: i32|
            if ours.dom().contains(spec_id) && theirs.dom().contains(spec_id) {
                united(ours[spec_id], theirs[spec_id])
            } else if ours.dom().contains(spec_id) {
                ours[spec_id]
            } else {
                theirs[spec_id]
            },
    )
}

/// The part of `aggregate` under the ids below `bound`.
pub open spec fn below(aggregate: AggregateModel, bound: int) -> AggregateModel {
    aggregate.restrict(Set::new(|spec_id: i32| spec_id < bound))
}

} // verus!
