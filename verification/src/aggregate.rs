//! The aggregate: for each partition specification id, one set of distinct
//! values per partition field.

use vstd::prelude::*;
use crate::distinct::DistinctSet;
use crate::error::AggregationError;
use crate::laws::lemma_entry_values_extend;
use crate::merge_laws::{
    lemma_merge_fault_of_gap, lemma_merge_fault_split, lemma_no_merge_fault,
};
use crate::manifest::{entry_models, EntryModel, Manifest, ManifestEntry, ManifestStatus};
use crate::metadata::TableMetadata;
use crate::rules::{
    absorb_fault, absorbed, below, clash_at, empty_sets, first_misfit, merge_fault,
    merge_fault_in, merged, sets_before, united, with_entries, with_tuple,
};
use crate::value::{models_of, PartitionValue, ValueModel};

verus! {

/// The distinct values seen under one partition specification: one set per
/// field, in field order.
#[derive(Debug)]
pub struct SpecBucket {
    spec_id: i32,
    sets: Vec<DistinctSet>,
}

impl View for SpecBucket {
    type V = Seq<Set<ValueModel>>;

    closed spec fn view(&self) -> Seq<Set<ValueModel>> {
        Seq::new(self.sets@.len(), |i: int| self.sets@[i]@)
    }
}

impl SpecBucket {
    /// The id of the specification that the bucket belongs to.
    pub closed spec fn id(&self) -> i32 {
        self.spec_id
    }

    /// A bucket of `field_count` empty sets for the specification `spec_id`.
    pub fn new(spec_id: i32, field_count: usize) -> (bucket: SpecBucket)
        ensures
            bucket.id() == spec_id,
            bucket@ == empty_sets(field_count as nat),
    {
        let mut sets: Vec<DistinctSet> = Vec::new();
        let mut i: usize = 0;
        while i < field_count
            invariant
                i <= field_count,
                sets.len() == i,
                forall|k: int| 0 <= k < i ==> sets@[k]@ == Set::<ValueModel>::empty(),
            decreases field_count - i,
        {
            sets.push(DistinctSet::new());
            i = i + 1;
        }
        let bucket = SpecBucket { spec_id, sets };
        bucket
    }

    /// The id of the specification that the bucket belongs to.
    pub fn spec_id(&self) -> (id: i32)
        ensures
            id == self.id(),
    {
        self.spec_id
    }

    /// The number of fields, which is the number of sets.
    pub fn field_count(&self) -> (count: usize)
        ensures
            count == self@.len(),
    {
        self.sets.len()
    }

    /// The number of distinct values seen for the field at `index`; `None` if
    /// there is no such field.
    pub fn distinct_count(&self, index: usize) -> (count: Option<usize>)
        ensures
            match count {
                Some(n) => index < self@.len() && self@[index as int].finite() && n
                    == self@[index as int].len(),
                None => index >= self@.len(),
            },
    {
        if index < self.sets.len() {
            Some(self.sets[index].len())
        } else {
            None
        }
    }

    /// Whether `value` was seen for the field at `index`.
    pub fn has_value(&self, index: usize, value: &PartitionValue) -> (found: bool)
        ensures
            found == (index < self@.len() && self@[index as int].contains(value@)),
    {
        index < self.sets.len() && self.sets[index].contains(value)
    }

    /// The set of distinct values seen for the field at `index`; `None` if
    /// there is no such field.
    pub fn distinct_values(&self, index: usize) -> (set: Option<&DistinctSet>)
        ensures
            match set {
                Some(values) => index < self@.len() && values@ == self@[index as int],
                None => index >= self@.len(),
            },
    {
        if index < self.sets.len() {
            Some(&self.sets[index])
        } else {
            None
        }
    }

    /// Adds the values of `other`, set by set.
    fn unite(&mut self, other: &SpecBucket)
        requires
            old(self)@.len() == other@.len(),
        ensures
            final(self).id() == old(self).id(),
            final(self)@ == united(old(self)@, other@),
    {
        let mut i: usize = 0;
        while i < self.sets.len()
            invariant
                i <= self.sets@.len(),
                self.spec_id == old(self).spec_id,
                self.sets@.len() == old(self).sets@.len(),
                self.sets@.len() == other.sets@.len(),
                forall|k: int|
                    0 <= k < i ==> self.sets@[k]@ == old(self).sets@[k]@.union(other.sets@[k]@),
                forall|k: int| i <= k < self.sets@.len() ==> self.sets@[k]@ == old(self).sets@[k]@,
            decreases self.sets@.len() - i,
        {
            self.sets[i].unite(&other.sets[i]);
            i = i + 1;
        }
    }

    /// Adds the values of `tuple`, each to the set at its position.
    fn record(&mut self, tuple: &Vec<PartitionValue>)
        requires
            tuple@.len() == old(self)@.len(),
        ensures
            final(self).id() == old(self).id(),
            final(self)@ == with_tuple(old(self)@, models_of(tuple@)),
    {
        let mut i: usize = 0;
        while i < tuple.len()
            invariant
                i <= tuple@.len(),
                tuple@.len() == old(self)@.len(),
                self.spec_id == old(self).spec_id,
                self.sets@.len() == old(self).sets@.len(),
                forall|k: int|
                    0 <= k < i ==> self.sets@[k]@ == old(self).sets@[k]@.insert(tuple@[k]@),
                forall|k: int| i <= k < self.sets@.len() ==> self.sets@[k]@ == old(self).sets@[k]@,
            decreases tuple@.len() - i,
        {
            self.sets[i].insert_copy(&tuple[i]);
            i = i + 1;
        }
    }
}

impl Clone for SpecBucket {
    fn clone(&self) -> (copy: SpecBucket)
        ensures
            copy.id() == self.id(),
            copy@ == self@,
    {
        let mut sets: Vec<DistinctSet> = Vec::new();
        let mut i: usize = 0;
        while i < self.sets.len()
            invariant
                i <= self.sets@.len(),
                sets@.len() == i,
                forall|k: int| 0 <= k < i ==> sets@[k]@ == self.sets@[k]@,
            decreases self.sets@.len() - i,
        {
            sets.push(self.sets[i].clone());
            i = i + 1;
        }
        let copy = SpecBucket { spec_id: self.spec_id, sets };
        copy
    }
}

/// Whether one of `buckets` belongs to the specification `spec_id`.
spec fn has_bucket(buckets: Seq<SpecBucket>, spec_id: i32) -> bool {
    exists|k: int| 0 <= k < buckets.len() && #[trigger] buckets[k].spec_id == spec_id
}

/// The position in `buckets` of a bucket of the specification `spec_id`.
spec fn slot_of(buckets: Seq<SpecBucket>, spec_id: i32) -> int {
    choose|k: int| 0 <= k < buckets.len() && #[trigger] buckets[k].spec_id == spec_id
}

/// Whether the ids of `buckets` grow strictly from each bucket to the next.
spec fn ascending(buckets: Seq<SpecBucket>) -> bool {
    forall|i: int, j: int|
        0 <= i < j < buckets.len() ==> #[trigger] buckets[i].spec_id < #[trigger] buckets[j].spec_id
}

/// The map that `buckets` stands for: from each bucket's id to its sets.
spec fn buckets_map(buckets: Seq<SpecBucket>) -> Map<i32, Seq<Set<ValueModel>>> {
    Map::new(
        |spec_id: i32| has_bucket(buckets, spec_id),
        |spec_id: i32| buckets[slot_of(buckets, spec_id)]@,
    )
}

/// In an ascending sequence each id has one position.
proof fn lemma_slot_is_unique(buckets: Seq<SpecBucket>, k: int)
    requires
        ascending(buckets),
        0 <= k < buckets.len(),
    ensures
        has_bucket(buckets, buckets[k].spec_id),
        slot_of(buckets, buckets[k].spec_id) == k,
        buckets_map(buckets).dom().contains(buckets[k].spec_id),
        buckets_map(buckets)[buckets[k].spec_id] == buckets[k]@,
{
}

/// Putting a bucket with a new id at its place in an ascending sequence adds
/// one entry to the map and keeps the sequence ascending.
proof fn lemma_insert_bucket(buckets: Seq<SpecBucket>, at: int, bucket: SpecBucket)
    requires
        ascending(buckets),
        0 <= at <= buckets.len(),
        forall|k: int| 0 <= k < at ==> (#[trigger] buckets[k]).spec_id < bucket.spec_id,
        forall|k: int| at <= k < buckets.len() ==> (#[trigger] buckets[k]).spec_id > bucket.spec_id,
    ensures
        ascending(buckets.insert(at, bucket)),
        buckets_map(buckets.insert(at, bucket)) == buckets_map(buckets).insert(
            bucket.spec_id,
            bucket@,
        ),
{
    let after = buckets.insert(at, bucket);
    let left = buckets_map(after);
    let right = buckets_map(buckets).insert(bucket.spec_id, bucket@);
    assert forall|id: i32| left.dom().contains(id) <==> right.dom().contains(id) by {
        if has_bucket(buckets, id) {
            let k = slot_of(buckets, id);
            if k < at {
                assert(after[k].spec_id == id);
            } else {
                assert(after[k + 1].spec_id == id);
            }
        }
        if id == bucket.spec_id {
            assert(after[at].spec_id == id);
        }
    }
}

/// Replacing a bucket by one of the same id replaces one entry of the map and
/// keeps the sequence ascending.
proof fn lemma_update_bucket(buckets: Seq<SpecBucket>, at: int, bucket: SpecBucket)
    requires
        ascending(buckets),
        0 <= at < buckets.len(),
        buckets[at].spec_id == bucket.spec_id,
    ensures
        ascending(buckets.update(at, bucket)),
        buckets_map(buckets.update(at, bucket)) == buckets_map(buckets).insert(
            bucket.spec_id,
            bucket@,
        ),
{
    let after = buckets.update(at, bucket);
    let left = buckets_map(after);
    let right = buckets_map(buckets).insert(bucket.spec_id, bucket@);
    assert forall|id: i32| left.dom().contains(id) <==> right.dom().contains(id) by {
        if has_bucket(buckets, id) {
            let k = slot_of(buckets, id);
            assert(after[k].spec_id == id);
        }
    }
}

/// For each partition specification id met, one set of distinct values per
/// partition field.
///
/// The number of sets under an id is fixed when the id is first met. The
/// buckets are kept in ascending order of their ids.
#[derive(Debug)]
pub struct Aggregate {
    buckets: Vec<SpecBucket>,
}

impl View for Aggregate {
    type V = Map<i32, Seq<Set<ValueModel>>>;

    closed spec fn view(&self) -> Map<i32, Seq<Set<ValueModel>>> {
        buckets_map(self.buckets@)
    }
}

impl Aggregate {
    #[verifier::type_invariant]
    spec fn ids_ascend(self) -> bool {
        ascending(self.buckets@)
    }

    /// The aggregate of nothing.
    pub fn new() -> (aggregate: Aggregate)
        ensures
            aggregate@ == Map::<i32, Seq<Set<ValueModel>>>::empty(),
    {
        Aggregate { buckets: Vec::new() }
    }

    /// Where the bucket of `spec_id` stands, or where it would have to stand.
    fn locate(&self, spec_id: i32) -> (place: (bool, usize))
        ensures
            place.1 <= self.buckets@.len(),
            place.0 ==> place.1 < self.buckets@.len() && self.buckets@[place.1 as int].spec_id
                == spec_id,
            !place.0 ==> !has_bucket(self.buckets@, spec_id),
            forall|k: int| 0 <= k < place.1 ==> (#[trigger] self.buckets@[k]).spec_id < spec_id,
            !place.0 ==> forall|k: int|
                place.1 <= k < self.buckets@.len() ==> (#[trigger] self.buckets@[k]).spec_id
                    > spec_id,
    {
        proof {
            use_type_invariant(self);
        }
        locate_in(&self.buckets, spec_id)
    }

    /// The bucket of the specification `spec_id`, if that id was met.
    pub fn get(&self, spec_id: i32) -> (found: Option<&SpecBucket>)
        ensures
            match found {
                Some(bucket) => self@.dom().contains(spec_id) && bucket.id() == spec_id
                    && bucket@ == self@[spec_id],
                None => !self@.dom().contains(spec_id),
            },
    {
        proof {
            use_type_invariant(self);
        }
        let (found, at) = self.locate(spec_id);
        if found {
            Some(&self.buckets[at])
        } else {
            None
        }
    }

    /// The buckets, in ascending order of their ids: one for each id met.
    pub fn buckets(&self) -> (all: &Vec<SpecBucket>)
        ensures
            forall|i: int, j: int|
                0 <= i < j < all@.len() ==> (#[trigger] all@[i]).id() < (#[trigger] all@[j]).id(),
            forall|k: int|
                0 <= k < all@.len() ==> self@.dom().contains((#[trigger] all@[k]).id())
                    && self@[all@[k].id()] == all@[k]@,
            forall|spec_id: i32|
                self@.dom().contains(spec_id) ==> exists|k: int|
                    0 <= k < all@.len() && (#[trigger] all@[k]).id() == spec_id,
    {
        proof {
            use_type_invariant(self);
        }
        &self.buckets
    }

    /// Takes in one manifest: its live entries add their partition values to
    /// the sets under the manifest's specification id, each value to the set
    /// at its position. Entries with status `Deleted` add nothing.
    ///
    /// Sets for an id that is new are made first, as many as the specification
    /// has fields in `metadata`. Fails, and leaves the aggregate as it was,
    /// when `metadata` does not hold the id, when the sets under the id are not
    /// as many as the specification has fields, or when a live entry's tuple
    /// has another length.
    pub fn absorb(&mut self, metadata: &TableMetadata, manifest: &Manifest) -> (outcome: Result<
        (),
        AggregationError,
    >)
        ensures
            match outcome {
                Ok(_) => absorb_fault(old(self)@, metadata@, manifest@) is None && final(self)@
                    == absorbed(old(self)@, metadata@, manifest@),
                Err(fault) => absorb_fault(old(self)@, metadata@, manifest@) == Some(fault)
                    && final(self)@ == old(self)@,
            },
    {
        proof {
            use_type_invariant(&*self);
        }
        let spec_id = manifest.partition_spec_id;
        let spec = match metadata.partition_spec_by_id(spec_id) {
            Some(spec) => spec,
            None => {
                return Err(AggregationError::UnknownSpec { spec_id });
            },
        };
        let count = spec.fields.len();
        let (found, at) = self.locate(spec_id);
        if found {
            let held = self.buckets[at].field_count();
            if held != count {
                return Err(
                    AggregationError::FieldCountMismatch { spec_id, expected: held, found: count },
                );
            }
        }
        match first_misfit_length(&manifest.entries, count) {
            Some(length) => {
                return Err(
                    AggregationError::FieldCountMismatch {
                        spec_id,
                        expected: count,
                        found: length,
                    },
                );
            },
            None => {},
        }
        let ghost before = sets_before(self@, metadata@, spec_id);
        let mut buckets: Vec<SpecBucket> = Vec::new();
        std::mem::swap(&mut buckets, &mut self.buckets);
        if !found {
            let bucket = SpecBucket::new(spec_id, count);
            proof {
                lemma_insert_bucket(buckets@, at as int, bucket);
            }
            buckets.insert(at, bucket);
        }
        let ghost base = buckets@;
        proof {
            let none = manifest@.entries.take(0);
            assert forall|i: int| 0 <= i < before.len() implies with_entries(before, none)[i]
                == before[i] by {}
        }
        let mut j: usize = 0;
        while j < manifest.entries.len()
            invariant
                j <= manifest.entries@.len(),
                at < base.len(),
                base[at as int].spec_id == spec_id,
                buckets@.len() == base.len(),
                buckets@[at as int].spec_id == spec_id,
                buckets@ == base.update(at as int, buckets@[at as int]),
                before.len() == count,
                first_misfit(manifest@.entries, count as nat) is None,
                buckets@[at as int]@ == with_entries(before, manifest@.entries.take(j as int)),
            decreases manifest.entries@.len() - j,
        {
            let entry = &manifest.entries[j];
            proof {
                lemma_no_misfit(manifest@.entries, count as nat, j as int);
                lemma_one_more_entry(before, manifest@.entries, j as int);
            }
            match entry.status {
                ManifestStatus::Deleted => {},
                _ => {
                    buckets[at].record(&entry.partition);
                },
            }
            j = j + 1;
        }
        proof {
            assert(manifest@.entries.take(j as int) == manifest@.entries);
            lemma_update_bucket(base, at as int, buckets@[at as int]);
        }
        self.buckets = buckets;
        Ok(())
    }

    /// Merges `other` into this aggregate: ids that only `other` holds are
    /// taken over with their sets, and under an id that both hold each set is
    /// united with the set of `other` at its position.
    ///
    /// Fails, and leaves the aggregate as it was, when the two hold different
    /// numbers of sets under one id; the least such id is reported.
    pub fn merge(&mut self, other: &Aggregate) -> (outcome: Result<(), AggregationError>)
        ensures
            match outcome {
                Ok(_) => merge_fault(old(self)@, other@) is None && final(self)@ == merged(
                    old(self)@,
                    other@,
                ),
                Err(fault) => merge_fault(old(self)@, other@) == Some(fault) && final(self)@
                    == old(self)@,
            },
    {
        proof {
            use_type_invariant(&*self);
        }
        let theirs = other.buckets();
        let ghost start = self@;
        let ghost mut done: int = i32::MIN as int;
        let mut k: usize = 0;
        while k < theirs.len()
            invariant
                k <= theirs@.len(),
                self@ == start,
                ascending(self.buckets@),
                i32::MIN <= done <= i32::MAX + 1,
                k == 0 ==> done == i32::MIN,
                k > 0 ==> done == theirs@[k - 1].id() + 1,
                forall|i: int, j: int|
                    0 <= i < j < theirs@.len() ==> (#[trigger] theirs@[i]).id() < (
                    #[trigger] theirs@[j]).id(),
                forall|n: int|
                    0 <= n < theirs@.len() ==> other@.dom().contains((#[trigger] theirs@[n]).id())
                        && other@[theirs@[n].id()] == theirs@[n]@,
                forall|spec_id: i32|
                    other@.dom().contains(spec_id) ==> exists|n: int|
                        0 <= n < theirs@.len() && (#[trigger] theirs@[n]).id() == spec_id,
                merge_fault_in(start, other@, i32::MIN as int, done) is None,
            decreases theirs@.len() - k,
        {
            let spec_id = theirs[k].spec_id();
            proof {
                lemma_merge_fault_of_gap(start, other@, done, spec_id as int);
                lemma_merge_fault_split(start, other@, i32::MIN as int, done, spec_id as int);
                lemma_merge_fault_split(
                    start,
                    other@,
                    i32::MIN as int,
                    spec_id as int,
                    spec_id + 1,
                );
                lemma_merge_fault_split(
                    start,
                    other@,
                    i32::MIN as int,
                    spec_id + 1,
                    i32::MAX + 1,
                );
                assert(merge_fault_in(start, other@, spec_id + 1, spec_id + 1) is None);
            }
            let (found, at) = self.locate(spec_id);
            if found {
                let ours = self.buckets[at].field_count();
                let others = theirs[k].field_count();
                if ours != others {
                    return Err(
                        AggregationError::FieldCountMismatch {
                            spec_id,
                            expected: ours,
                            found: others,
                        },
                    );
                }
            }
            proof {
                done = spec_id + 1;
            }
            k = k + 1;
        }
        proof {
            lemma_merge_fault_of_gap(start, other@, done, i32::MAX + 1);
            lemma_merge_fault_split(start, other@, i32::MIN as int, done, i32::MAX + 1);
            lemma_no_merge_fault(start, other@, i32::MIN as int, i32::MAX + 1);
        }
        let mut buckets: Vec<SpecBucket> = Vec::new();
        std::mem::swap(&mut buckets, &mut self.buckets);
        proof {
            done = i32::MIN as int;
        }
        let mut k: usize = 0;
        while k < theirs.len()
            invariant
                k <= theirs@.len(),
                ascending(buckets@),
                i32::MIN <= done <= i32::MAX + 1,
                k == 0 ==> done == i32::MIN,
                k > 0 ==> done == theirs@[k - 1].id() + 1,
                forall|i: int, j: int|
                    0 <= i < j < theirs@.len() ==> (#[trigger] theirs@[i]).id() < (
                    #[trigger] theirs@[j]).id(),
                forall|n: int|
                    0 <= n < theirs@.len() ==> other@.dom().contains((#[trigger] theirs@[n]).id())
                        && other@[theirs@[n].id()] == theirs@[n]@,
                forall|spec_id: i32|
                    other@.dom().contains(spec_id) ==> exists|n: int|
                        0 <= n < theirs@.len() && (#[trigger] theirs@[n]).id() == spec_id,
                forall|id: int| i32::MIN <= id <= i32::MAX ==> !clash_at(start, other@, id),
                buckets_map(buckets@) == merged(start, below(other@, done)),
            decreases theirs@.len() - k,
        {
            let spec_id = theirs[k].spec_id();
            let ghost before = buckets@;
            proof {
                assert(!clash_at(start, other@, spec_id as int));
            }
            let (found, at) = locate_in(&buckets, spec_id);
            if found {
                proof {
                    lemma_slot_is_unique(before, at as int);
                }
                buckets[at].unite(&theirs[k]);
                proof {
                    lemma_update_bucket(before, at as int, buckets@[at as int]);
                }
            } else {
                let copy = theirs[k].clone();
                proof {
                    lemma_insert_bucket(before, at as int, copy);
                    assert(!buckets_map(before).dom().contains(spec_id));
                }
                buckets.insert(at, copy);
            }
            proof {
                done = spec_id + 1;
            }
            k = k + 1;
        }
        self.buckets = buckets;
        Ok(())
    }

    /// The number of specification ids met.
    pub fn len(&self) -> (count: usize)
        ensures
            self@.dom().finite(),
            count == self@.dom().len(),
    {
        proof {
            use_type_invariant(self);
            lemma_domain_size(self.buckets@);
        }
        self.buckets.len()
    }
}

impl Clone for Aggregate {
    fn clone(&self) -> (copy: Aggregate)
        ensures
            copy@ == self@,
    {
        proof {
            use_type_invariant(self);
        }
        let mut buckets: Vec<SpecBucket> = Vec::new();
        let mut i: usize = 0;
        while i < self.buckets.len()
            invariant
                i <= self.buckets@.len(),
                buckets@.len() == i,
                forall|k: int|
                    0 <= k < i ==> (#[trigger] buckets@[k]).spec_id == self.buckets@[k].spec_id
                        && buckets@[k]@ == self.buckets@[k]@,
            decreases self.buckets@.len() - i,
        {
            buckets.push(self.buckets[i].clone());
            i = i + 1;
        }
        proof {
            lemma_same_buckets(self.buckets@, buckets@);
        }
        Aggregate { buckets }
    }
}

/// Two sequences of buckets that agree, position by position, on ids and sets
/// stand for the same map, and one is ascending if the other is.
proof fn lemma_same_buckets(a: Seq<SpecBucket>, b: Seq<SpecBucket>)
    requires
        a.len() == b.len(),
        forall|k: int|
            0 <= k < a.len() ==> (#[trigger] b[k]).spec_id == a[k].spec_id && b[k]@ == a[k]@,
        ascending(a),
    ensures
        ascending(b),
        buckets_map(b) == buckets_map(a),
{
    assert forall|id: i32| buckets_map(a).dom().contains(id) <==> buckets_map(b).dom().contains(
        id,
    ) by {
        if has_bucket(a, id) {
            let k = slot_of(a, id);
            assert(b[k].spec_id == id);
        }
    }
}

/// Where in `buckets` the bucket of `spec_id` stands, or where it would have
/// to stand.
fn locate_in(buckets: &Vec<SpecBucket>, spec_id: i32) -> (place: (bool, usize))
    requires
        ascending(buckets@),
    ensures
        place.1 <= buckets@.len(),
        place.0 ==> place.1 < buckets@.len() && buckets@[place.1 as int].spec_id == spec_id,
        !place.0 ==> !has_bucket(buckets@, spec_id),
        forall|k: int| 0 <= k < place.1 ==> (#[trigger] buckets@[k]).spec_id < spec_id,
        !place.0 ==> forall|k: int|
            place.1 <= k < buckets@.len() ==> (#[trigger] buckets@[k]).spec_id > spec_id,
{
    let mut i: usize = 0;
    while i < buckets.len()
        invariant
            i <= buckets@.len(),
            ascending(buckets@),
            forall|k: int| 0 <= k < i ==> (#[trigger] buckets@[k]).spec_id < spec_id,
        decreases buckets@.len() - i,
    {
        let id = buckets[i].spec_id;
        if id == spec_id {
            return (true, i);
        }
        if id > spec_id {
            return (false, i);
        }
        i = i + 1;
    }
    (false, i)
}

/// The length of the partition tuple of the first live entry whose tuple has
/// not `count` values.
pub fn first_misfit_length(entries: &Vec<ManifestEntry>, count: usize) -> (length: Option<usize>)
    ensures
        match length {
            Some(n) => first_misfit(entry_models(entries@), count as nat) == Some(n as nat),
            None => first_misfit(entry_models(entries@), count as nat) is None,
        },
{
    let ghost all = entry_models(entries@);
    assert(all.skip(0) == all);
    let mut i: usize = 0;
    while i < entries.len()
        invariant
            i <= entries@.len(),
            all == entry_models(entries@),
            first_misfit(all, count as nat) == first_misfit(all.skip(i as int), count as nat),
        decreases entries@.len() - i,
    {
        let ghost rest = all.skip(i as int);
        assert(rest.drop_first() == all.skip(i + 1));
        let entry = &entries[i];
        match entry.status {
            ManifestStatus::Deleted => {},
            _ => {
                if entry.partition.len() != count {
                    return Some(entry.partition.len());
                }
            },
        }
        i = i + 1;
    }
    None
}

/// Where no entry is a misfit, each live entry's tuple has `count` values.
proof fn lemma_no_misfit(entries: Seq<EntryModel>, count: nat, e: int)
    requires
        first_misfit(entries, count) is None,
        0 <= e < entries.len(),
    ensures
        entries[e].status.is_live() ==> entries[e].partition.len() == count,
    decreases entries.len(),
{
    if e > 0 {
        lemma_no_misfit(entries.drop_first(), count, e - 1);
    }
}

/// Taking one more entry into account adds the values of its tuple, if it is
/// live, and nothing otherwise.
proof fn lemma_one_more_entry(sets: Seq<Set<ValueModel>>, entries: Seq<EntryModel>, j: int)
    requires
        0 <= j < entries.len(),
        entries[j].status.is_live() ==> entries[j].partition.len() == sets.len(),
    ensures
        with_entries(sets, entries.take(j + 1)) == if entries[j].status.is_live() {
            with_tuple(with_entries(sets, entries.take(j)), entries[j].partition)
        } else {
            with_entries(sets, entries.take(j))
        },
{
    let shorter = entries.take(j);
    let entry = entries[j];
    assert(entries.take(j + 1) =~= shorter.push(entry));
    let target = if entry.status.is_live() {
        with_tuple(with_entries(sets, shorter), entry.partition)
    } else {
        with_entries(sets, shorter)
    };
    assert forall|i: int| 0 <= i < sets.len() implies with_entries(sets, shorter.push(entry))[i]
        == target[i] by {
        lemma_entry_values_extend(shorter, entry, i);
    }
}

/// An ascending sequence of buckets stands for a map with as many entries.
proof fn lemma_domain_size(buckets: Seq<SpecBucket>)
    requires
        ascending(buckets),
    ensures
        buckets_map(buckets).dom().finite(),
        buckets_map(buckets).dom().len() == buckets.len(),
    decreases buckets.len(),
{
    if buckets.len() == 0 {
        assert(buckets_map(buckets).dom() =~= Set::<i32>::empty());
    } else {
        let rest = buckets.drop_last();
        let last = buckets.last();
        lemma_domain_size(rest);
        lemma_insert_bucket(rest, rest.len() as int, last);
        assert(rest.insert(rest.len() as int, last) =~= buckets);
    }
}

} // verus!
