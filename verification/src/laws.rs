//! Laws of aggregation, proved from its definition.

use vstd::prelude::*;
use crate::manifest::{EntryModel, ManifestModel, ManifestStatus};
use crate::metadata::TableMetadataModel;
use crate::rules::{
    absorb_fault, absorbed, aggregate_of, aggregation, entry_gives, entry_values, first_fault,
    first_misfit, live_values, manifest_fault, manifest_gives, written_under,
};
use crate::value::ValueModel;

verus! {

/// The aggregate of no manifests is empty.
pub proof fn lemma_aggregate_of_nothing(metadata: TableMetadataModel)
    ensures
        aggregate_of(metadata, Seq::<ManifestModel>::empty()) == Map::<
            i32,
            Seq<Set<ValueModel>>,
        >::empty(),
        first_fault(metadata, Seq::<ManifestModel>::empty()) is None,
{
}

/// Taking one more manifest into an aggregate gives the aggregate of the
/// longer list: aggregation can be done manifest by manifest.
pub proof fn lemma_absorbed_extends(
    metadata: TableMetadataModel,
    manifests: Seq<ManifestModel>,
    manifest: ManifestModel,
)
    ensures
        absorbed(aggregate_of(metadata, manifests), metadata, manifest) == aggregate_of(
            metadata,
            manifests.push(manifest),
        ),
{
    let longer = manifests.push(manifest);
    let id = manifest.partition_spec_id;
    let left = absorbed(aggregate_of(metadata, manifests), metadata, manifest);
    let right = aggregate_of(metadata, longer);
    assert forall|spec_id: i32| left.dom().contains(spec_id) <==> right.dom().contains(
        spec_id,
    ) by {
        if written_under(manifests, spec_id) {
            let m = choose|m: int|
                0 <= m < manifests.len() && #[trigger] manifests[m].partition_spec_id == spec_id;
            assert(longer[m].partition_spec_id == spec_id);
        }
        if spec_id == id {
            assert(longer[manifests.len() as int].partition_spec_id == spec_id);
        }
    }
    assert forall|spec_id: i32| left.dom().contains(spec_id) implies left[spec_id]
        =~= right[spec_id] by {
        let count = metadata.field_count(spec_id);
        assert forall|i: int| 0 <= i < count implies left[spec_id][i] == right[spec_id][i] by {
            lemma_live_values_extend(manifests, manifest, spec_id, i);
        }
    }
}

/// What one more manifest adds to the live values of a field: the values of
/// its live entries, if it was written under the specification asked for.
pub proof fn lemma_live_values_extend(
    manifests: Seq<ManifestModel>,
    manifest: ManifestModel,
    spec_id: i32,
    index: int,
)
    ensures
        live_values(manifests.push(manifest), spec_id, index) == if manifest.partition_spec_id
            == spec_id {
            live_values(manifests, spec_id, index).union(entry_values(manifest.entries, index))
        } else {
            live_values(manifests, spec_id, index)
        },
{
    let longer = manifests.push(manifest);
    let left = live_values(longer, spec_id, index);
    let right = if manifest.partition_spec_id == spec_id {
        live_values(manifests, spec_id, index).union(entry_values(manifest.entries, index))
    } else {
        live_values(manifests, spec_id, index)
    };
    assert forall|v: ValueModel| left.contains(v) <==> right.contains(v) by {
        if left.contains(v) {
            let m = choose|m: int| manifest_gives(longer, spec_id, index, m, v);
            if m < manifests.len() {
                assert(manifest_gives(manifests, spec_id, index, m, v));
            }
        }
        if live_values(manifests, spec_id, index).contains(v) {
            let m = choose|m: int| manifest_gives(manifests, spec_id, index, m, v);
            assert(manifest_gives(longer, spec_id, index, m, v));
        }
        if manifest.partition_spec_id == spec_id && entry_values(manifest.entries, index).contains(
            v,
        ) {
            assert(manifest_gives(longer, spec_id, index, manifests.len() as int, v));
        }
    }
}

/// An aggregate built from `metadata` never holds sets that the specification
/// disagrees with: what keeps a manifest out is a fault of the manifest alone.
pub proof fn lemma_absorb_fault_is_manifest_fault(
    metadata: TableMetadataModel,
    manifests: Seq<ManifestModel>,
    manifest: ManifestModel,
)
    ensures
        absorb_fault(aggregate_of(metadata, manifests), metadata, manifest) == manifest_fault(
            metadata,
            manifest,
        ),
{
}

/// The first fault of a list that has grown by one manifest: that of the
/// shorter list, or else that of the new manifest.
pub proof fn lemma_first_fault_extends(
    metadata: TableMetadataModel,
    manifests: Seq<ManifestModel>,
    manifest: ManifestModel,
)
    ensures
        first_fault(metadata, manifests.push(manifest)) == match first_fault(metadata, manifests) {
            Some(fault) => Some(fault),
            None => manifest_fault(metadata, manifest),
        },
    decreases manifests.len(),
{
    let longer = manifests.push(manifest);
    if manifests.len() == 0 {
        assert(first_fault(metadata, longer.drop_first()) is None);
    } else {
        assert(longer.drop_first() =~= manifests.drop_first().push(manifest));
        lemma_first_fault_extends(metadata, manifests.drop_first(), manifest);
    }
}

/// A list of manifests has no fault exactly when none of its manifests has
/// one.
pub proof fn lemma_no_fault_means_all_sound(
    metadata: TableMetadataModel,
    manifests: Seq<ManifestModel>,
)
    ensures
        first_fault(metadata, manifests) is None <==> forall|m: int|
            0 <= m < manifests.len() ==> manifest_fault(metadata, #[trigger] manifests[m]) is None,
    decreases manifests.len(),
{
    if manifests.len() > 0 {
        let rest = manifests.drop_first();
        lemma_no_fault_means_all_sound(metadata, rest);
        if first_fault(metadata, manifests) is None {
            assert forall|m: int| 0 <= m < manifests.len() implies manifest_fault(
                metadata,
                #[trigger] manifests[m],
            ) is None by {
                if m > 0 {
                    assert(rest[m - 1] == manifests[m]);
                }
            }
        }
    }
}

/// A fault among the first `n` manifests is the first fault of the whole list.
pub proof fn lemma_fault_stays(metadata: TableMetadataModel, manifests: Seq<ManifestModel>, n: int)
    requires
        0 <= n <= manifests.len(),
        first_fault(metadata, manifests.take(n)) is Some,
    ensures
        first_fault(metadata, manifests) == first_fault(metadata, manifests.take(n)),
    decreases manifests.len() - n,
{
    if n < manifests.len() {
        assert(manifests.take(n + 1) =~= manifests.take(n).push(manifests[n]));
        lemma_first_fault_extends(metadata, manifests.take(n), manifests[n]);
        lemma_fault_stays(metadata, manifests, n + 1);
    } else {
        assert(manifests.take(n) =~= manifests);
    }
}

/// Two lists that hold the same manifests, in whatever order and however
/// often, have the same aggregate, and one has a fault exactly when the other
/// has one.
pub proof fn lemma_same_manifests_same_aggregate(
    metadata: TableMetadataModel,
    a: Seq<ManifestModel>,
    b: Seq<ManifestModel>,
)
    requires
        forall|manifest: ManifestModel| a.contains(manifest) <==> b.contains(manifest),
    ensures
        aggregate_of(metadata, a) == aggregate_of(metadata, b),
        first_fault(metadata, a) is None <==> first_fault(metadata, b) is None,
{
    lemma_covered_aggregate(metadata, a, b);
    lemma_covered_aggregate(metadata, b, a);
    let left = aggregate_of(metadata, a);
    let right = aggregate_of(metadata, b);
    assert forall|spec_id: i32| left.dom().contains(spec_id) implies left[spec_id]
        =~= right[spec_id] by {
        assert forall|i: int| 0 <= i < metadata.field_count(spec_id) implies left[spec_id][i]
            =~= right[spec_id][i] by {
            assert(live_values(a, spec_id, i).subset_of(live_values(b, spec_id, i)));
            assert(live_values(b, spec_id, i).subset_of(live_values(a, spec_id, i)));
        }
    }
    lemma_no_fault_means_all_sound(metadata, a);
    lemma_no_fault_means_all_sound(metadata, b);
    if first_fault(metadata, a) is None {
        assert forall|m: int| 0 <= m < b.len() implies manifest_fault(
            metadata,
            #[trigger] b[m],
        ) is None by {
            assert(b.contains(b[m]));
        }
    }
    if first_fault(metadata, b) is None {
        assert forall|m: int| 0 <= m < a.len() implies manifest_fault(
            metadata,
            #[trigger] a[m],
        ) is None by {
            assert(a.contains(a[m]));
        }
    }
}

/// Where every manifest of `a` is among those of `b`, the ids met in `a` are
/// met in `b`, and each live value of `a` is one of `b`.
proof fn lemma_covered_aggregate(
    metadata: TableMetadataModel,
    a: Seq<ManifestModel>,
    b: Seq<ManifestModel>,
)
    requires
        forall|manifest: ManifestModel| a.contains(manifest) ==> b.contains(manifest),
    ensures
        forall|spec_id: i32| written_under(a, spec_id) ==> written_under(b, spec_id),
        forall|spec_id: i32, i: int| #[trigger]
            live_values(a, spec_id, i).subset_of(live_values(b, spec_id, i)),
{
    assert forall|spec_id: i32| written_under(a, spec_id) implies written_under(b, spec_id) by {
        let m = choose|m: int| 0 <= m < a.len() && #[trigger] a[m].partition_spec_id == spec_id;
        assert(a.contains(a[m]));
    }
    assert forall|spec_id: i32, i: int| #[trigger]
        live_values(a, spec_id, i).subset_of(live_values(b, spec_id, i)) by {
        assert forall|v: ValueModel| live_values(a, spec_id, i).contains(v) implies live_values(
            b,
            spec_id,
            i,
        ).contains(v) by {
            let m = choose|m: int| manifest_gives(a, spec_id, i, m, v);
            assert(a.contains(a[m]));
            let k = choose|k: int| 0 <= k < b.len() && b[k] == a[m];
            assert(manifest_gives(b, spec_id, i, k, v));
        }
    }
}

/// The order in which the manifests are processed does not matter: a
/// reordered list aggregates without fault exactly when the list itself does, and
/// then to the same aggregate.
pub proof fn lemma_order_is_irrelevant(
    metadata: TableMetadataModel,
    manifests: Seq<ManifestModel>,
    reordered: Seq<ManifestModel>,
)
    requires
        manifests.to_multiset() == reordered.to_multiset(),
    ensures
        aggregate_of(metadata, manifests) == aggregate_of(metadata, reordered),
        aggregation(metadata, manifests) is Ok <==> aggregation(metadata, reordered) is Ok,
        aggregation(metadata, manifests) is Ok ==> aggregation(metadata, manifests) == aggregation(
            metadata,
            reordered,
        ),
{
    manifests.to_multiset_ensures();
    reordered.to_multiset_ensures();
    assert forall|manifest: ManifestModel| manifests.contains(manifest) <==> reordered.contains(
        manifest,
    ) by {
        assert(manifests.contains(manifest) <==> manifests.to_multiset().count(manifest) > 0);
    }
    lemma_same_manifests_same_aggregate(metadata, manifests, reordered);
}

/// Aggregating the manifests of a snapshot a second time on top of the first
/// changes nothing: the result for the list repeated is the result for the
/// list.
pub proof fn lemma_repeating_changes_nothing(
    metadata: TableMetadataModel,
    manifests: Seq<ManifestModel>,
)
    ensures
        aggregation(metadata, manifests + manifests) == aggregation(metadata, manifests),
{
    let twice = manifests + manifests;
    lemma_same_manifests_same_aggregate(metadata, twice, manifests);
    if first_fault(metadata, manifests) is Some {
        assert(twice.take(manifests.len() as int) =~= manifests);
        lemma_fault_stays(metadata, twice, manifests.len() as int);
    }
}

/// Under every specification id of the aggregate of a list without fault
/// stand as many sets as the specification has fields, and the metadata holds
/// that specification.
pub proof fn lemma_one_set_per_field(metadata: TableMetadataModel, manifests: Seq<ManifestModel>)
    requires
        aggregation(metadata, manifests) is Ok,
    ensures
        forall|spec_id: i32| #[trigger]
            aggregate_of(metadata, manifests).dom().contains(spec_id) ==> {
                &&& metadata.spec_by_id(spec_id) is Some
                &&& aggregate_of(metadata, manifests)[spec_id].len() == metadata.spec_by_id(
                    spec_id,
                )->Some_0.fields.len()
            },
{
    lemma_no_fault_means_all_sound(metadata, manifests);
}

/// Every value in the aggregate is held by a live entry: for each value in
/// the set of a field there is a manifest written under the set's
/// specification id with an entry that is not `Deleted` and holds the value at
/// the field's position.
pub proof fn lemma_values_come_from_live_entries(
    metadata: TableMetadataModel,
    manifests: Seq<ManifestModel>,
    spec_id: i32,
    index: int,
    value: ValueModel,
)
    requires
        aggregate_of(metadata, manifests).dom().contains(spec_id),
        0 <= index < aggregate_of(metadata, manifests)[spec_id].len(),
        aggregate_of(metadata, manifests)[spec_id][index].contains(value),
    ensures
        exists|m: int, e: int|
            {
                &&& 0 <= m < manifests.len()
                &&& (#[trigger] manifests[m]).partition_spec_id == spec_id
                &&& 0 <= e < manifests[m].entries.len()
                &&& (#[trigger] manifests[m].entries[e]).status != ManifestStatus::Deleted
                &&& index < manifests[m].entries[e].partition.len()
                &&& manifests[m].entries[e].partition[index] == value
            },
{
    let m = choose|m: int| manifest_gives(manifests, spec_id, index, m, value);
    let e = choose|e: int| entry_gives(manifests[m].entries, index, e, value);
}

/// The partition values of an entry of status `Deleted` are not in the
/// aggregate on that entry's account: a value that it holds at a position is
/// absent from the set of that position under its manifest's specification id,
/// unless a live entry of a manifest written under the same id holds the same
/// value at the same position.
pub proof fn lemma_deleted_values_are_absent(
    metadata: TableMetadataModel,
    manifests: Seq<ManifestModel>,
    m: int,
    e: int,
    index: int,
)
    requires
        0 <= m < manifests.len(),
        0 <= e < manifests[m].entries.len(),
        manifests[m].entries[e].status == ManifestStatus::Deleted,
        0 <= index < manifests[m].entries[e].partition.len(),
        forall|n: int, f: int|
            0 <= n < manifests.len() && (#[trigger] manifests[n]).partition_spec_id
                == manifests[m].partition_spec_id && 0 <= f < manifests[n].entries.len() && (
            #[trigger] manifests[n].entries[f]).status != ManifestStatus::Deleted && index
                < manifests[n].entries[f].partition.len()
                ==> manifests[n].entries[f].partition[index]
                != manifests[m].entries[e].partition[index],
    ensures
        index < aggregate_of(metadata, manifests)[manifests[m].partition_spec_id].len()
            ==> !aggregate_of(metadata, manifests)[manifests[m].partition_spec_id][index].contains(
            manifests[m].entries[e].partition[index],
        ),
{
}

/// Every value of a live entry is in the aggregate, in the set of its
/// position under the manifest's specification id, as far as the
/// specification has fields.
pub proof fn lemma_live_entries_are_counted(
    metadata: TableMetadataModel,
    manifests: Seq<ManifestModel>,
    m: int,
    e: int,
    index: int,
)
    requires
        0 <= m < manifests.len(),
        0 <= e < manifests[m].entries.len(),
        manifests[m].entries[e].status != ManifestStatus::Deleted,
        0 <= index < manifests[m].entries[e].partition.len(),
        index < metadata.field_count(manifests[m].partition_spec_id),
    ensures
        aggregate_of(metadata, manifests).dom().contains(manifests[m].partition_spec_id),
        aggregate_of(metadata, manifests)[manifests[m].partition_spec_id][index].contains(
            manifests[m].entries[e].partition[index],
        ),
{
    let value = manifests[m].entries[e].partition[index];
    assert(entry_gives(manifests[m].entries, index, e, value));
    assert(manifest_gives(manifests, manifests[m].partition_spec_id, index, m, value));
}

/// What one more entry adds to the values of a field: its value at the
/// field's position, if it is live and has one there.
pub proof fn lemma_entry_values_extend(entries: Seq<EntryModel>, entry: EntryModel, index: int)
    ensures
        entry_values(entries.push(entry), index) == if entry.status.is_live() && 0 <= index
            < entry.partition.len() {
            entry_values(entries, index).insert(entry.partition[index])
        } else {
            entry_values(entries, index)
        },
{
    let longer = entries.push(entry);
    let target = if entry.status.is_live() && 0 <= index < entry.partition.len() {
        entry_values(entries, index).insert(entry.partition[index])
    } else {
        entry_values(entries, index)
    };
    assert forall|v: ValueModel| entry_values(longer, index).contains(v) <==> target.contains(
        v,
    ) by {
        if entry_values(longer, index).contains(v) {
            let e = choose|e: int| entry_gives(longer, index, e, v);
            if e < entries.len() {
                assert(entry_gives(entries, index, e, v));
            }
        }
        if entry_values(entries, index).contains(v) {
            let e = choose|e: int| entry_gives(entries, index, e, v);
            assert(entry_gives(longer, index, e, v));
        }
        if entry.status.is_live() && 0 <= index < entry.partition.len() && v
            == entry.partition[index] {
            assert(entry_gives(longer, index, entries.len() as int, v));
        }
    }
}

/// The entries of a manifest hold finitely many values at a position.
pub proof fn lemma_entry_values_are_finite(entries: Seq<EntryModel>, index: int)
    ensures
        entry_values(entries, index).finite(),
    decreases entries.len(),
{
    if entries.len() == 0 {
        assert(entry_values(entries, index) =~= Set::<ValueModel>::empty());
    } else {
        let shorter = entries.drop_last();
        assert(shorter.push(entries.last()) =~= entries);
        lemma_entry_values_are_finite(shorter, index);
        lemma_entry_values_extend(shorter, entries.last(), index);
    }
}

/// Every set of an aggregate is finite: the number of distinct values of a
/// field is a number.
pub proof fn lemma_live_values_are_finite(manifests: Seq<ManifestModel>, spec_id: i32, index: int)
    ensures
        live_values(manifests, spec_id, index).finite(),
    decreases manifests.len(),
{
    if manifests.len() == 0 {
        assert(live_values(manifests, spec_id, index) =~= Set::<ValueModel>::empty());
    } else {
        let shorter = manifests.drop_last();
        assert(shorter.push(manifests.last()) =~= manifests);
        lemma_live_values_are_finite(shorter, spec_id, index);
        lemma_live_values_extend(shorter, manifests.last(), spec_id, index);
        lemma_entry_values_are_finite(manifests.last().entries, index);
    }
}

/// The first misfit of a list that has grown by one entry: that of the shorter
/// list, or else the new entry if it is one.
pub proof fn lemma_first_misfit_extends(entries: Seq<EntryModel>, entry: EntryModel, count: nat)
    ensures
        first_misfit(entries.push(entry), count) == match first_misfit(entries, count) {
            Some(length) => Some(length),
            None => if entry.status.is_live() && entry.partition.len() != count {
                Some(entry.partition.len())
            } else {
                None
            },
        },
    decreases entries.len(),
{
    let longer = entries.push(entry);
    if entries.len() == 0 {
        assert(longer.drop_first() =~= entries);
    } else {
        assert(longer.drop_first() =~= entries.drop_first().push(entry));
        lemma_first_misfit_extends(entries.drop_first(), entry, count);
    }
}

/// `entries` without those of status `Deleted`.
pub open spec fn live_only(entries: Seq<EntryModel>) -> Seq<EntryModel> {
    entries.filter(|entry: EntryModel| entry.status.is_live())
}

/// `manifests`, each without its entries of status `Deleted`.
pub open spec fn without_deleted(manifests: Seq<ManifestModel>) -> Seq<ManifestModel> {
    Seq::new(
        manifests.len(),
        |m: int|
            ManifestModel {
                partition_spec_id: manifests[m].partition_spec_id,
                entries: live_only(manifests[m].entries),
            },
    )
}

/// The entries of status `Deleted` neither add a value nor count as misfits.
pub proof fn lemma_live_entries_suffice(entries: Seq<EntryModel>, count: nat, index: int)
    ensures
        first_misfit(live_only(entries), count) == first_misfit(entries, count),
        entry_values(live_only(entries), index) == entry_values(entries, index),
    decreases entries.len(),
{
    reveal(Seq::filter);
    if entries.len() > 0 {
        let shorter = entries.drop_last();
        let last = entries.last();
        assert(shorter.push(last) =~= entries);
        lemma_live_entries_suffice(shorter, count, index);
        lemma_first_misfit_extends(shorter, last, count);
        lemma_entry_values_extend(shorter, last, index);
        if last.status.is_live() {
            lemma_first_misfit_extends(live_only(shorter), last, count);
            lemma_entry_values_extend(live_only(shorter), last, index);
        }
    }
}

/// Entries of status `Deleted` contribute nothing: with all of them removed,
/// aggregation has the same result.
pub proof fn lemma_deleted_entries_add_nothing(
    metadata: TableMetadataModel,
    manifests: Seq<ManifestModel>,
)
    ensures
        aggregation(metadata, without_deleted(manifests)) == aggregation(metadata, manifests),
{
    let live = without_deleted(manifests);
    assert forall|m: int| 0 <= m < manifests.len() implies manifest_fault(metadata, live[m])
        == manifest_fault(metadata, manifests[m]) by {
        lemma_live_entries_suffice(
            manifests[m].entries,
            metadata.field_count(manifests[m].partition_spec_id),
            0,
        );
    }
    lemma_same_faults(metadata, live, manifests);
    let left = aggregate_of(metadata, live);
    let right = aggregate_of(metadata, manifests);
    assert forall|spec_id: i32| left.dom().contains(spec_id) implies left[spec_id]
        =~= right[spec_id] by {
        assert forall|i: int| 0 <= i < metadata.field_count(spec_id) implies left[spec_id][i]
            =~= right[spec_id][i] by {
            assert forall|v: ValueModel| live_values(live, spec_id, i).contains(v)
                <==> live_values(manifests, spec_id, i).contains(v) by {
                if live_values(live, spec_id, i).contains(v) {
                    let m = choose|m: int| manifest_gives(live, spec_id, i, m, v);
                    lemma_live_entries_suffice(manifests[m].entries, 0, i);
                    assert(manifest_gives(manifests, spec_id, i, m, v));
                }
                if live_values(manifests, spec_id, i).contains(v) {
                    let m = choose|m: int| manifest_gives(manifests, spec_id, i, m, v);
                    lemma_live_entries_suffice(manifests[m].entries, 0, i);
                    assert(manifest_gives(live, spec_id, i, m, v));
                }
            }
        }
    }
    assert(left =~= right);
}

/// Two lists whose manifests have, position by position, the same fault have
/// the same first fault.
proof fn lemma_same_faults(
    metadata: TableMetadataModel,
    a: Seq<ManifestModel>,
    b: Seq<ManifestModel>,
)
    requires
        a.len() == b.len(),
        forall|m: int|
            0 <= m < a.len() ==> manifest_fault(metadata, #[trigger] a[m]) == manifest_fault(
                metadata,
                b[m],
            ),
    ensures
        first_fault(metadata, a) == first_fault(metadata, b),
    decreases a.len(),
{
    if a.len() > 0 {
        lemma_same_faults(metadata, a.drop_first(), b.drop_first());
    }
}

} // verus!
