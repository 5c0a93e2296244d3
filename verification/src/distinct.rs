//! A set of distinct partition values.

use vstd::prelude::*;
use crate::value::{copy_values, models_of, PartitionValue, ValueModel};

verus! {

/// The distinct values seen for one partition field.
///
/// Two values are one element when their models are equal; each element is
/// kept once. A value is looked up by comparing it with the elements one
/// after the other.
#[derive(Debug)]
pub struct DistinctSet {
    items: Vec<PartitionValue>,
}

impl View for DistinctSet {
    type V = Set<ValueModel>;

    closed spec fn view(&self) -> Set<ValueModel> {
        models_of(self.items@).to_set()
    }
}

impl DistinctSet {
    #[verifier::type_invariant]
    spec fn each_value_once(self) -> bool {
        models_of(self.items@).no_duplicates()
    }

    /// The set without elements.
    pub fn new() -> (set: DistinctSet)
        ensures
            set@ == Set::<ValueModel>::empty(),
    {
        DistinctSet { items: Vec::new() }
    }

    /// The number of distinct values.
    pub fn len(&self) -> (count: usize)
        ensures
            self@.finite(),
            count == self@.len(),
    {
        proof {
            use_type_invariant(self);
            models_of(self.items@).unique_seq_to_set();
        }
        self.items.len()
    }

    /// Whether `value` is an element.
    pub fn contains(&self, value: &PartitionValue) -> (found: bool)
        ensures
            found == self@.contains(value@),
    {
        let mut i: usize = 0;
        while i < self.items.len()
            invariant
                i <= self.items.len(),
                forall|k: int| 0 <= k < i ==> self.items@[k]@ != value@,
            decreases self.items.len() - i,
        {
            if self.items[i].same_as(value) {
                assert(models_of(self.items@)[i as int] == value@);
                return true;
            }
            i = i + 1;
        }
        false
    }

    /// The elements, each once.
    pub fn values(&self) -> (items: &Vec<PartitionValue>)
        ensures
            models_of(items@).no_duplicates(),
            models_of(items@).to_set() == self@,
    {
        proof {
            use_type_invariant(self);
        }
        &self.items
    }

    /// Adds every element of `other`.
    pub fn unite(&mut self, other: &DistinctSet)
        ensures
            final(self)@ == old(self)@.union(other@),
    {
        let ghost theirs = models_of(other.items@);
        let mut i: usize = 0;
        while i < other.items.len()
            invariant
                i <= other.items@.len(),
                theirs == models_of(other.items@),
                self@ == old(self)@.union(theirs.take(i as int).to_set()),
            decreases other.items@.len() - i,
        {
            proof {
                let shorter = theirs.take(i as int);
                let longer = theirs.take(i + 1);
                assert forall|v: ValueModel| #[trigger] longer.contains(v) <==> shorter.contains(v)
                    || v == other.items@[i as int]@ by {
                    if v == other.items@[i as int]@ {
                        assert(longer[i as int] == v);
                    }
                }
            }
            self.insert_copy(&other.items[i]);
            i = i + 1;
        }
        assert(theirs.take(i as int) =~= theirs);
    }

    /// Adds `value`. Returns whether it was new.
    pub fn insert(&mut self, value: PartitionValue) -> (added: bool)
        ensures
            final(self)@ == old(self)@.insert(value@),
            added == !old(self)@.contains(value@),
    {
        if self.contains(&value) {
            false
        } else {
            self.push_new(value);
            true
        }
    }

    /// Adds a copy of `value`, unless it is an element already. Returns
    /// whether it was new.
    pub fn insert_copy(&mut self, value: &PartitionValue) -> (added: bool)
        ensures
            final(self)@ == old(self)@.insert(value@),
            added == !old(self)@.contains(value@),
    {
        if self.contains(value) {
            false
        } else {
            self.push_new(value.clone());
            true
        }
    }

    /// Adds `value`, which is no element yet.
    fn push_new(&mut self, value: PartitionValue)
        requires
            !old(self)@.contains(value@),
        ensures
            final(self)@ == old(self)@.insert(value@),
    {
        proof {
            use_type_invariant(&*self);
        }
        let ghost before = models_of(self.items@);
        let mut items: Vec<PartitionValue> = Vec::new();
        std::mem::swap(&mut items, &mut self.items);
        items.push(value);
        proof {
            assert(models_of(items@) =~= before.push(value@));
            lemma_push_new_element(before, value@);
        }
        self.items = items;
    }
}

impl Clone for DistinctSet {
    fn clone(&self) -> (copy: DistinctSet)
        ensures
            copy@ == self@,
    {
        proof {
            use_type_invariant(self);
        }
        DistinctSet { items: copy_values(&self.items) }
    }
}

/// Appending an element that a duplicate-free sequence lacks keeps it
/// duplicate-free and adds that element to its set.
proof fn lemma_push_new_element(s: Seq<ValueModel>, v: ValueModel)
    requires
        s.no_duplicates(),
        !s.contains(v),
    ensures
        s.push(v).no_duplicates(),
        s.push(v).to_set() == s.to_set().insert(v),
{
    let t = s.push(v);
    assert forall|x: ValueModel| t.to_set().contains(x) <==> s.to_set().insert(v).contains(x) by {
        if s.contains(x) {
            let k = choose|k: int| 0 <= k < s.len() && s[k] == x;
            assert(t[k] == x);
        }
        if x == v {
            assert(t[s.len() as int] == x);
        }
    }
}

} // verus!
