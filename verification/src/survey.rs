//! The survey of a table: which resource to load next, and what to do with
//! what was loaded.
//!
//! Loading is the caller's business. A survey only decides: it starts from the
//! table metadata, asks for the manifest list of the current snapshot, then for
//! every manifest of that list in turn, takes each one into its aggregate, and
//! ends with the report or with the first failure.

use vstd::prelude::*;
use crate::aggregate::Aggregate;
use crate::error::{fault_text, AggregationError};
use crate::manifest::{Manifest, ManifestModel};
use crate::metadata::{ManifestFile, ManifestFileModel, TableMetadata, TableMetadataModel};
use crate::report::{render_report, report};
use crate::rules::{absorb_fault, absorbed, AggregateModel};

verus! {

/// Why a survey ended without a report.
#[derive(Debug, PartialEq, Eq)]
pub enum SurveyError {
    /// The manifest list of the current snapshot could not be fetched or
    /// decoded.
    ManifestListUnavailable { location: String, cause: String },
    /// A manifest could not be fetched or decoded.
    ManifestUnavailable { location: String, cause: String },
    /// The manifests and the metadata contradict each other.
    Inconsistent { fault: AggregationError },
    /// An event arrived that the survey had not asked for.
    OutOfTurn,
}

/// The mathematical content of a [`SurveyError`].
pub enum SurveyErrorModel {
    ManifestListUnavailable { location: Seq<char>, cause: Seq<char> },
    ManifestUnavailable { location: Seq<char>, cause: Seq<char> },
    Inconsistent { fault: AggregationError },
    OutOfTurn,
}

impl View for SurveyError {
    type V = SurveyErrorModel;

    open spec fn view(&self) -> SurveyErrorModel {
        match self {
            SurveyError::ManifestListUnavailable { location, cause } => {
                SurveyErrorModel::ManifestListUnavailable { location: location@, cause: cause@ }
            },
            SurveyError::ManifestUnavailable { location, cause } => {
                SurveyErrorModel::ManifestUnavailable { location: location@, cause: cause@ }
            },
            SurveyError::Inconsistent { fault } => SurveyErrorModel::Inconsistent { fault: *fault },
            SurveyError::OutOfTurn => SurveyErrorModel::OutOfTurn,
        }
    }
}

/// What an operator is told of `error`: which resource failed, and why.
pub open spec fn error_text(error: SurveyErrorModel) -> Seq<char> {
    match error {
        SurveyErrorModel::ManifestListUnavailable { location, cause } => {
            "Failed to load manifest list "@ + location + ": "@ + cause
        },
        SurveyErrorModel::ManifestUnavailable { location, cause } => {
            "Failed to load manifest file "@ + location + ": "@ + cause
        },
        SurveyErrorModel::Inconsistent { fault } => "Inconsistent table metadata: "@ + fault_text(
            fault,
        ),
        SurveyErrorModel::OutOfTurn => "Unexpected event: the survey had not asked for it"@,
    }
}

impl SurveyError {
    /// What an operator is told of this error.
    pub fn describe(&self) -> (text: String)
        ensures
            text@ == error_text(self@),
    {
        let mut text = String::new();
        match self {
            SurveyError::ManifestListUnavailable { location, cause } => {
                text.append("Failed to load manifest list ");
                text.append(location.as_str());
                text.append(": ");
                text.append(cause.as_str());
            },
            SurveyError::ManifestUnavailable { location, cause } => {
                text.append("Failed to load manifest file ");
                text.append(location.as_str());
                text.append(": ");
                text.append(cause.as_str());
            },
            SurveyError::Inconsistent { fault } => {
                text.append("Inconsistent table metadata: ");
                let detail = fault.describe();
                text.append(detail.as_str());
            },
            SurveyError::OutOfTurn => {
                text.append("Unexpected event: the survey had not asked for it");
            },
        }
        text
    }
}

/// What the caller is to do next.
#[derive(Debug, PartialEq, Eq)]
pub enum Step {
    /// Load the manifest list at `location` and hand it back.
    LoadManifestList { location: String },
    /// Load the manifest that `file` points at and hand it back.
    LoadManifest { file: ManifestFile },
    /// The survey is over: print `report`.
    Finished { report: String },
    /// The survey is over: it failed, and there is no report.
    Failed { error: SurveyError },
}

/// The mathematical content of a [`Step`].
pub enum StepModel {
    LoadManifestList { location: Seq<char> },
    LoadManifest { file: ManifestFileModel },
    Finished { report: Seq<char> },
    Failed { error: SurveyErrorModel },
}

impl View for Step {
    type V = StepModel;

    open spec fn view(&self) -> StepModel {
        match self {
            Step::LoadManifestList { location } => StepModel::LoadManifestList {
                location: location@,
            },
            Step::LoadManifest { file } => StepModel::LoadManifest { file: file@ },
            Step::Finished { report } => StepModel::Finished { report: report@ },
            Step::Failed { error } => StepModel::Failed { error: error@ },
        }
    }
}

/// What the caller hands back.
#[derive(Debug, PartialEq, Eq)]
pub enum Event {
    /// The manifest list that was asked for: its manifest files, in order.
    ManifestList { files: Vec<ManifestFile> },
    /// The manifest that was asked for.
    Manifest { manifest: Manifest },
    /// What was asked for could not be fetched or decoded.
    LoadFailed { cause: String },
}

/// The mathematical content of an [`Event`].
pub enum EventModel {
    ManifestList { files: Seq<ManifestFileModel> },
    Manifest { manifest: ManifestModel },
    LoadFailed { cause: Seq<char> },
}

/// The models of a sequence of manifest files, file by file.
pub open spec fn file_models(files: Seq<ManifestFile>) -> Seq<ManifestFileModel> {
    Seq::new(files.len(), |i: int| files[i]@)
}

impl View for Event {
    type V = EventModel;

    open spec fn view(&self) -> EventModel {
        match self {
            Event::ManifestList { files } => EventModel::ManifestList {
                files: file_models(files@),
            },
            Event::Manifest { manifest } => EventModel::Manifest { manifest: manifest@ },
            Event::LoadFailed { cause } => EventModel::LoadFailed { cause: cause@ },
        }
    }
}

/// What a survey is waiting for.
#[derive(Debug, Clone, Copy, PartialEq, Eq, Structural)]
pub enum Stage {
    /// For the manifest list of the current snapshot.
    AwaitingManifestList,
    /// For the next manifest of the list.
    AwaitingManifest,
    /// For nothing: the survey is over.
    Closed,
}

/// The state of a survey.
pub struct SurveyModel {
    pub stage: Stage,
    /// The manifest files of the current snapshot, once they are known.
    pub files: Seq<ManifestFileModel>,
    /// How many manifests have been taken in.
    pub taken: nat,
    pub aggregate: AggregateModel,
}

impl SurveyModel {
    /// This state, with the survey over.
    pub open spec fn closed(self) -> SurveyModel {
        SurveyModel { stage: Stage::Closed, ..self }
    }
}

/// The location of the manifest list of the current snapshot; empty if there
/// is no current snapshot.
pub open spec fn manifest_list_location(metadata: TableMetadataModel) -> Seq<char> {
    match metadata.current_snapshot {
        Some(snapshot) => snapshot.manifest_list,
        None => Seq::empty(),
    }
}

/// How a survey starts: without a current snapshot it is over at once, with an
/// empty aggregate and an empty report; otherwise it asks for the snapshot's
/// manifest list.
pub open spec fn begin_model(metadata: TableMetadataModel) -> (SurveyModel, StepModel) {
    let start = SurveyModel {
        stage: Stage::AwaitingManifestList,
        files: Seq::empty(),
        taken: 0,
        aggregate: Map::empty(),
    };
    match metadata.current_snapshot {
        None => (start.closed(), StepModel::Finished { report: Seq::empty() }),
        Some(snapshot) => (start, StepModel::LoadManifestList { location: snapshot.manifest_list }),
    }
}

/// How a survey goes on once a manifest list or a manifest is in: it asks for
/// the next manifest of the list, or, when every manifest of the list has been
/// taken in, ends with the report.
pub open spec fn proceed_model(metadata: TableMetadataModel, state: SurveyModel) -> (
    SurveyModel,
    StepModel,
) {
    if state.taken < state.files.len() {
        (
            SurveyModel { stage: Stage::AwaitingManifest, ..state },
            StepModel::LoadManifest { file: state.files[state.taken as int] },
        )
    } else {
        match report(state.aggregate, metadata) {
            Ok(text) => (state.closed(), StepModel::Finished { report: text }),
            Err(fault) => (
                state.closed(),
                StepModel::Failed { error: SurveyErrorModel::Inconsistent { fault } },
            ),
        }
    }
}

/// The state after `event`, and what the caller is to do next.
pub open spec fn step_model(
    metadata: TableMetadataModel,
    state: SurveyModel,
    event: EventModel,
) -> (SurveyModel, StepModel) {
    match (state.stage, event) {
        (Stage::AwaitingManifestList, EventModel::ManifestList { files }) => proceed_model(
            metadata,
            SurveyModel { files, taken: 0, ..state },
        ),
        (Stage::AwaitingManifestList, EventModel::LoadFailed { cause }) => (
            state.closed(),
            StepModel::Failed {
                error: SurveyErrorModel::ManifestListUnavailable {
                    location: manifest_list_location(metadata),
                    cause,
                },
            },
        ),
        (Stage::AwaitingManifest, EventModel::Manifest { manifest }) => match absorb_fault(
            state.aggregate,
            metadata,
            manifest,
        ) {
            Some(fault) => (
                state.closed(),
                StepModel::Failed { error: SurveyErrorModel::Inconsistent { fault } },
            ),
            None => proceed_model(
                metadata,
                SurveyModel {
                    aggregate: absorbed(state.aggregate, metadata, manifest),
                    taken: state.taken + 1,
                    ..state
                },
            ),
        },
        (Stage::AwaitingManifest, EventModel::LoadFailed { cause }) => (
            state.closed(),
            StepModel::Failed {
                error: SurveyErrorModel::ManifestUnavailable {
                    location: state.files[state.taken as int].manifest_path,
                    cause,
                },
            },
        ),
        _ => (state.closed(), StepModel::Failed { error: SurveyErrorModel::OutOfTurn }),
    }
}

/// A survey of one table.
#[derive(Debug)]
pub struct Survey<'a> {
    metadata: &'a TableMetadata,
    stage: Stage,
    files: Vec<ManifestFile>,
    taken: usize,
    aggregate: Aggregate,
}

impl<'a> View for Survey<'a> {
    type V = SurveyModel;

    closed spec fn view(&self) -> SurveyModel {
        SurveyModel {
            stage: self.stage,
            files: file_models(self.files@),
            taken: self.taken as nat,
            aggregate: self.aggregate@,
        }
    }
}

impl<'a> Survey<'a> {
    #[verifier::type_invariant]
    spec fn awaited_manifest_exists(self) -> bool {
        self.stage == Stage::AwaitingManifest ==> self.taken < self.files@.len()
    }

    /// The metadata of the table under survey.
    pub closed spec fn metadata(&self) -> TableMetadataModel {
        self.metadata@
    }

    /// Starts a survey of the table that `metadata` describes.
    pub fn begin(metadata: &'a TableMetadata) -> (started: (Survey<'a>, Step))
        ensures
            started.0.metadata() == metadata@,
            (started.0@, started.1@) == begin_model(metadata@),
    {
        match &metadata.current_snapshot {
            None => {
                let survey = Survey {
                    metadata,
                    stage: Stage::Closed,
                    files: Vec::new(),
                    taken: 0,
                    aggregate: Aggregate::new(),
                };
                assert(file_models(survey.files@) =~= Seq::<ManifestFileModel>::empty());
                (survey, Step::Finished { report: String::new() })
            },
            Some(snapshot) => {
                let survey = Survey {
                    metadata,
                    stage: Stage::AwaitingManifestList,
                    files: Vec::new(),
                    taken: 0,
                    aggregate: Aggregate::new(),
                };
                assert(file_models(survey.files@) =~= Seq::<ManifestFileModel>::empty());
                (survey, Step::LoadManifestList { location: snapshot.manifest_list.clone() })
            },
        }
    }

    /// What the survey is waiting for.
    pub fn stage(&self) -> (stage: Stage)
        ensures
            stage == self@.stage,
    {
        self.stage
    }

    /// The aggregate of the manifests taken in so far.
    pub fn aggregate(&self) -> (aggregate: &Aggregate)
        ensures
            aggregate@ == self@.aggregate,
    {
        &self.aggregate
    }

    /// Asks for the next manifest, or ends the survey with the report.
    fn proceed(&mut self) -> (step: Step)
        requires
            old(self).stage != Stage::AwaitingManifest,
        ensures
            final(self).metadata() == old(self).metadata(),
            (final(self)@, step@) == proceed_model(old(self).metadata(), old(self)@),
    {
        if self.taken < self.files.len() {
            self.stage = Stage::AwaitingManifest;
            Step::LoadManifest { file: self.files[self.taken].clone() }
        } else {
            self.stage = Stage::Closed;
            match render_report(&self.aggregate, self.metadata) {
                Ok(text) => Step::Finished { report: text },
                Err(fault) => Step::Failed { error: SurveyError::Inconsistent { fault } },
            }
        }
    }

    /// Takes in what the caller hands back and says what to do next.
    ///
    /// Once a step was `Finished` or `Failed` the survey is over; so it is
    /// after an event that was not asked for.
    pub fn advance(&mut self, event: Event) -> (step: Step)
        ensures
            final(self).metadata() == old(self).metadata(),
            (final(self)@, step@) == step_model(old(self).metadata(), old(self)@, event@),
    {
        proof {
            use_type_invariant(&*self);
        }
        match (self.stage, event) {
            (Stage::AwaitingManifestList, Event::ManifestList { files }) => {
                self.files = files;
                self.taken = 0;
                self.proceed()
            },
            (Stage::AwaitingManifestList, Event::LoadFailed { cause }) => {
                self.stage = Stage::Closed;
                let location = match &self.metadata.current_snapshot {
                    Some(snapshot) => snapshot.manifest_list.clone(),
                    None => String::new(),
                };
                Step::Failed { error: SurveyError::ManifestListUnavailable { location, cause } }
            },
            (Stage::AwaitingManifest, Event::Manifest { manifest }) => {
                assert(self.taken < self.files.len());
                let taken = self.taken + 1;
                self.stage = Stage::Closed;
                let mut aggregate = Aggregate::new();
                std::mem::swap(&mut aggregate, &mut self.aggregate);
                let outcome = aggregate.absorb(self.metadata, &manifest);
                self.aggregate = aggregate;
                match outcome {
                    Err(fault) => Step::Failed { error: SurveyError::Inconsistent { fault } },
                    Ok(_) => {
                        self.taken = taken;
                        self.proceed()
                    },
                }
            },
            (Stage::AwaitingManifest, Event::LoadFailed { cause }) => {
                self.stage = Stage::Closed;
                let location = self.files[self.taken].manifest_path.clone();
                Step::Failed { error: SurveyError::ManifestUnavailable { location, cause } }
            },
            _ => {
                self.stage = Stage::Closed;
                Step::Failed { error: SurveyError::OutOfTurn }
            },
        }
    }
}

} // verus!
