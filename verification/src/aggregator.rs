//! The partition aggregator: folds the manifests reachable from a snapshot
//! into one aggregate.

use vstd::prelude::*;
use crate::aggregate::Aggregate;
use crate::error::AggregationError;
use crate::laws::{
    lemma_absorbed_extends, lemma_fault_stays, lemma_first_fault_extends, lemma_one_set_per_field,
};
use crate::manifest::{manifest_models, Manifest};
use crate::metadata::TableMetadata;
use crate::rules::{aggregate_of, aggregation, first_fault, AggregateModel};

verus! {

/// Aggregates every manifest of `manifests`, in order: under each
/// specification id that a manifest was written under stand as many sets as
/// the specification has fields, and each set holds the values that entries
/// of status `Added` or `Existing` hold at its position. Entries of status
/// `Deleted` add nothing.
///
/// Fails with the fault of the first faulty manifest; no aggregate is handed
/// out then.
pub fn aggregate_manifests(metadata: &TableMetadata, manifests: &Vec<Manifest>) -> (outcome: Result<
    Aggregate,
    AggregationError,
>)
    ensures
        match outcome {
            Ok(aggregate) => aggregation(metadata@, manifest_models(manifests@)) == Ok::<
                AggregateModel,
                AggregationError,
            >(aggregate@),
            Err(fault) => aggregation(metadata@, manifest_models(manifests@)) == Err::<
                AggregateModel,
                AggregationError,
            >(fault),
        },
        outcome matches Ok(aggregate) ==> forall|spec_id: i32| #[trigger]
            aggregate@.dom().contains(spec_id) ==> metadata@.knows(spec_id)
                && aggregate@[spec_id].len() == metadata@.field_count(spec_id),
{
    let ghost all = manifest_models(manifests@);
    let mut aggregate = Aggregate::new();
    let mut i: usize = 0;
    while i < manifests.len()
        invariant
            i <= manifests@.len(),
            all == manifest_models(manifests@),
            first_fault(metadata@, all.take(i as int)) is None,
            aggregate@ == aggregate_of(metadata@, all.take(i as int)),
        decreases manifests@.len() - i,
    {
        proof {
            let done = all.take(i as int);
            assert(all.take(i + 1) =~= done.push(manifests@[i as int]@));
            lemma_absorbed_extends(metadata@, done, manifests@[i as int]@);
            lemma_first_fault_extends(metadata@, done, manifests@[i as int]@);
        }
        match aggregate.absorb(metadata, &manifests[i]) {
            Ok(_) => {},
            Err(fault) => {
                proof {
                    lemma_fault_stays(metadata@, all, i + 1);
                }
                return Err(fault);
            },
        }
        i = i + 1;
    }
    proof {
        assert(all.take(i as int) == all);
        lemma_one_set_per_field(metadata@, all);
    }
    Ok(aggregate)
}

} // verus!
