//! Laws of the survey: what a run over a whole manifest list comes to.

use vstd::prelude::*;
use crate::error::AggregationError;
use crate::laws::{
    lemma_absorbed_extends, lemma_first_fault_extends, lemma_one_set_per_field,
    lemma_order_is_irrelevant,
};
use crate::manifest::ManifestModel;
use crate::metadata::{ManifestFileModel, TableMetadataModel};
use crate::report::{blocks_fault, bucket_fault, report, report_text};
use crate::rules::{aggregate_of, aggregation, manifest_fault, AggregateModel};
use crate::survey::{
    begin_model, step_model, EventModel, Stage, StepModel, SurveyErrorModel, SurveyModel,
};
use crate::value::ValueModel;

verus! {

/// An aggregate whose every id can be reported has no fault in any range of
/// ids.
pub proof fn lemma_sound_buckets_report(
    aggregate: AggregateModel,
    metadata: TableMetadataModel,
    from: int,
    to: int,
)
    requires
        forall|spec_id: i32| #[trigger]
            aggregate.dom().contains(spec_id) ==> bucket_fault(
                metadata,
                spec_id,
                aggregate[spec_id],
            ) is None,
    ensures
        blocks_fault(aggregate, metadata, from, to) is None,
    decreases to - from,
{
    if from < to {
        lemma_sound_buckets_report(aggregate, metadata, from + 1, to);
    }
}

/// The aggregate of a list without fault can always be reported with the
/// metadata it was built from.
pub proof fn lemma_aggregate_can_be_reported(
    metadata: TableMetadataModel,
    manifests: Seq<ManifestModel>,
)
    requires
        aggregation(metadata, manifests) is Ok,
    ensures
        report(aggregate_of(metadata, manifests), metadata) == Ok::<Seq<char>, AggregationError>(
            report_text(aggregate_of(metadata, manifests), metadata),
        ),
{
    let aggregate = aggregate_of(metadata, manifests);
    lemma_one_set_per_field(metadata, manifests);
    lemma_sound_buckets_report(aggregate, metadata, i32::MIN as int, i32::MAX + 1);
}

/// The report does not depend on the order in which the manifests were
/// processed, nor on how often the aggregation was run: lists that hold the
/// same manifests in another order give, where they aggregate without fault,
/// the same report, with the same count in every row.
pub proof fn lemma_order_leaves_report_unchanged(
    metadata: TableMetadataModel,
    manifests: Seq<ManifestModel>,
    reordered: Seq<ManifestModel>,
)
    requires
        manifests.to_multiset() == reordered.to_multiset(),
        aggregation(metadata, manifests) is Ok,
    ensures
        aggregation(metadata, reordered) is Ok,
        report(aggregate_of(metadata, reordered), metadata) == report(
            aggregate_of(metadata, manifests),
            metadata,
        ),
        report(aggregate_of(metadata, manifests), metadata) is Ok,
{
    lemma_order_is_irrelevant(metadata, manifests, reordered);
    lemma_aggregate_can_be_reported(metadata, manifests);
}

/// A table without a current snapshot has nothing to report, and that is no
/// failure: its survey is over as it starts, with an empty aggregate and a
/// report without a single block.
pub proof fn lemma_no_snapshot_nothing_to_report(metadata: TableMetadataModel)
    requires
        metadata.current_snapshot is None,
    ensures
        begin_model(metadata).0.stage == Stage::Closed,
        begin_model(metadata).0.aggregate == Map::<i32, Seq<Set<ValueModel>>>::empty(),
        begin_model(metadata).1 == (StepModel::Finished { report: Seq::<char>::empty() }),
{
}

/// The state of a survey, and what it asks for, after it was handed the
/// manifest list `files` and then the manifests `manifests`, one by one.
pub open spec fn after_manifests(
    metadata: TableMetadataModel,
    files: Seq<ManifestFileModel>,
    manifests: Seq<ManifestModel>,
) -> (SurveyModel, StepModel)
    decreases manifests.len(),
{
    if manifests.len() == 0 {
        step_model(metadata, begin_model(metadata).0, EventModel::ManifestList { files })
    } else {
        step_model(
            metadata,
            after_manifests(metadata, files, manifests.drop_last()).0,
            EventModel::Manifest { manifest: manifests.last() },
        )
    }
}

/// A survey takes in every manifest of the list, not a part of it: while
/// manifests of the list are outstanding it asks for the next one, holding the
/// aggregate of those handed in so far; when the last one is in, it ends with
/// the report of the aggregate of all of them.
pub proof fn lemma_survey_covers_the_list(
    metadata: TableMetadataModel,
    files: Seq<ManifestFileModel>,
    manifests: Seq<ManifestModel>,
)
    requires
        metadata.current_snapshot is Some,
        manifests.len() <= files.len(),
        aggregation(metadata, manifests) is Ok,
    ensures
        ({
            let (state, step) = after_manifests(metadata, files, manifests);
            let aggregate = aggregate_of(metadata, manifests);
            &&& state.files == files
            &&& state.taken == manifests.len()
            &&& state.aggregate == aggregate
            &&& manifests.len() < files.len() ==> state.stage == Stage::AwaitingManifest && step
                == (StepModel::LoadManifest { file: files[manifests.len() as int] })
            &&& manifests.len() == files.len() ==> state.stage == Stage::Closed && step
                == (StepModel::Finished { report: report_text(aggregate, metadata) })
        }),
    decreases manifests.len(),
{
    lemma_aggregate_can_be_reported(metadata, manifests);
    if manifests.len() > 0 {
        let shorter = manifests.drop_last();
        let last = manifests.last();
        assert(shorter.push(last) =~= manifests);
        lemma_first_fault_extends(metadata, shorter, last);
        lemma_survey_covers_the_list(metadata, files, shorter);
        lemma_absorbed_extends(metadata, shorter, last);
    }
}

/// A survey ends at the first faulty manifest, with its fault and without a
/// report.
pub proof fn lemma_survey_stops_at_fault(
    metadata: TableMetadataModel,
    files: Seq<ManifestFileModel>,
    manifests: Seq<ManifestModel>,
    faulty: ManifestModel,
)
    requires
        metadata.current_snapshot is Some,
        manifests.len() < files.len(),
        aggregation(metadata, manifests) is Ok,
        manifest_fault(metadata, faulty) is Some,
    ensures
        ({
            let (state, step) = after_manifests(metadata, files, manifests.push(faulty));
            &&& state.stage == Stage::Closed
            &&& step == (StepModel::Failed {
                error: SurveyErrorModel::Inconsistent {
                    fault: manifest_fault(metadata, faulty)->Some_0,
                },
            })
            &&& aggregation(metadata, manifests.push(faulty)) == Err::<
                AggregateModel,
                AggregationError,
            >(manifest_fault(metadata, faulty)->Some_0)
        }),
{
    let longer = manifests.push(faulty);
    assert(longer.drop_last() =~= manifests);
    lemma_survey_covers_the_list(metadata, files, manifests);
    lemma_first_fault_extends(metadata, manifests, faulty);
}

} // verus!
