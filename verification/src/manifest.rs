//! Manifests: registries of data files written under one partition
//! specification.

use vstd::prelude::*;
use crate::value::{models_of, PartitionValue, ValueModel};

verus! {

/// Whether a manifest entry registers live data.
#[derive(Debug, Clone, Copy, PartialEq, Eq, Structural)]
pub enum ManifestStatus {
    /// The file was added by the manifest's snapshot.
    Added,
    /// The file was carried over from an earlier snapshot and is still live.
    Existing,
    /// The file has been removed: a tombstone.
    Deleted,
}

impl ManifestStatus {
    /// Whether an entry of this status stands for live data.
    pub open spec fn is_live(self) -> bool {
        self != ManifestStatus::Deleted
    }
}

/// One data file registration: its status and its partition tuple, one value
/// per partition field, in the field order of the manifest's specification.
#[derive(Debug, PartialEq, Eq)]
pub struct ManifestEntry {
    pub status: ManifestStatus,
    pub partition: Vec<PartitionValue>,
}

/// The mathematical content of a [`ManifestEntry`].
pub struct EntryModel {
    pub status: ManifestStatus,
    pub partition: Seq<ValueModel>,
}

impl View for ManifestEntry {
    type V = EntryModel;

    open spec fn view(&self) -> EntryModel {
        EntryModel { status: self.status, partition: models_of(self.partition@) }
    }
}

/// The entries of one manifest file, in the order in which the manifest
/// declares them, and the id of the partition specification it was written
/// under.
#[derive(Debug, PartialEq, Eq)]
pub struct Manifest {
    pub partition_spec_id: i32,
    pub entries: Vec<ManifestEntry>,
}

/// The mathematical content of a [`Manifest`].
pub struct ManifestModel {
    pub partition_spec_id: i32,
    pub entries: Seq<EntryModel>,
}

/// The models of a sequence of entries, entry by entry.
pub open spec fn entry_models(entries: Seq<ManifestEntry>) -> Seq<EntryModel> {
    Seq::new(entries.len(), |i: int| entries[i]@)
}

impl View for Manifest {
    type V = ManifestModel;

    open spec fn view(&self) -> ManifestModel {
        ManifestModel {
            partition_spec_id: self.partition_spec_id,
            entries: entry_models(self.entries@),
        }
    }
}

/// The models of a sequence of manifests, manifest by manifest.
pub open spec fn manifest_models(manifests: Seq<Manifest>) -> Seq<ManifestModel> {
    Seq::new(manifests.len(), |i: int| manifests[i]@)
}

} // verus!
