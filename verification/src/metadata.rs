//! Table metadata: the history of partition specifications and the current
//! snapshot.

use vstd::prelude::*;

verus! {

/// How a source column's value becomes a partition value.
#[derive(Debug, Clone, Copy, PartialEq, Eq, Structural)]
pub enum Transform {
    /// The source value, unmodified.
    Identity,
    /// Hash of the value, modulo the number of buckets.
    Bucket(u32),
    /// The value truncated to a width.
    Truncate(u32),
    /// Years since 1970.
    Year,
    /// Months since 1970-01.
    Month,
    /// Days since 1970-01-01.
    Day,
    /// Hours since 1970-01-01 00:00.
    Hour,
    /// Always null.
    Void,
    /// A transform that is not recognised.
    Unknown,
}

/// One field of a partition specification.
#[derive(Debug, PartialEq, Eq)]
pub struct PartitionField {
    /// Id of the source column in the table's schema.
    pub source_id: i32,
    /// Id of the partition field.
    pub field_id: i32,
    /// Name of the partition field.
    pub name: String,
    /// Transform applied to the source column.
    pub transform: Transform,
}

/// The mathematical content of a [`PartitionField`].
pub struct PartitionFieldModel {
    pub source_id: i32,
    pub field_id: i32,
    pub name: Seq<char>,
    pub transform: Transform,
}

impl View for PartitionField {
    type V = PartitionFieldModel;

    open spec fn view(&self) -> PartitionFieldModel {
        PartitionFieldModel {
            source_id: self.source_id,
            field_id: self.field_id,
            name: self.name@,
            transform: self.transform,
        }
    }
}

/// A partition specification: an id and the ordered fields. The position of a
/// field is the position of its value in the partition tuples written under
/// the specification.
#[derive(Debug, PartialEq, Eq)]
pub struct PartitionSpec {
    pub spec_id: i32,
    pub fields: Vec<PartitionField>,
}

/// The mathematical content of a [`PartitionSpec`].
pub struct PartitionSpecModel {
    pub spec_id: i32,
    pub fields: Seq<PartitionFieldModel>,
}

impl View for PartitionSpec {
    type V = PartitionSpecModel;

    open spec fn view(&self) -> PartitionSpecModel {
        PartitionSpecModel {
            spec_id: self.spec_id,
            fields: Seq::new(self.fields@.len(), |i: int| self.fields@[i]@),
        }
    }
}

/// A commit of the table's state. It points at its manifest list.
#[derive(Debug, PartialEq, Eq)]
pub struct Snapshot {
    pub snapshot_id: i64,
    /// Location of the manifest list.
    pub manifest_list: String,
}

/// The mathematical content of a [`Snapshot`].
pub struct SnapshotModel {
    pub snapshot_id: i64,
    pub manifest_list: Seq<char>,
}

impl View for Snapshot {
    type V = SnapshotModel;

    open spec fn view(&self) -> SnapshotModel {
        SnapshotModel { snapshot_id: self.snapshot_id, manifest_list: self.manifest_list@ }
    }
}

/// A reference to a manifest file, as a manifest list holds it.
#[derive(Debug, PartialEq, Eq)]
pub struct ManifestFile {
    /// Location of the manifest.
    pub manifest_path: String,
    /// Length of the manifest in bytes.
    pub manifest_length: i64,
    /// Id of the partition specification used to write the manifest.
    pub partition_spec_id: i32,
}

/// The mathematical content of a [`ManifestFile`].
pub struct ManifestFileModel {
    pub manifest_path: Seq<char>,
    pub manifest_length: i64,
    pub partition_spec_id: i32,
}

impl View for ManifestFile {
    type V = ManifestFileModel;

    open spec fn view(&self) -> ManifestFileModel {
        ManifestFileModel {
            manifest_path: self.manifest_path@,
            manifest_length: self.manifest_length,
            partition_spec_id: self.partition_spec_id,
        }
    }
}

impl Clone for ManifestFile {
    fn clone(&self) -> (copy: ManifestFile)
        ensures
            copy@ == self@,
    {
        ManifestFile {
            manifest_path: self.manifest_path.clone(),
            manifest_length: self.manifest_length,
            partition_spec_id: self.partition_spec_id,
        }
    }
}

/// A table's structure at one point in time.
#[derive(Debug, PartialEq, Eq)]
pub struct TableMetadata {
    /// Every partition specification the table has had, in history order.
    pub partition_specs: Vec<PartitionSpec>,
    /// Id of the specification that new data is written under.
    pub default_spec_id: i32,
    /// The most recent commit, if the table has one.
    pub current_snapshot: Option<Snapshot>,
}

/// The mathematical content of a [`TableMetadata`].
pub struct TableMetadataModel {
    pub partition_specs: Seq<PartitionSpecModel>,
    pub default_spec_id: i32,
    pub current_snapshot: Option<SnapshotModel>,
}

impl View for TableMetadata {
    type V = TableMetadataModel;

    open spec fn view(&self) -> TableMetadataModel {
        TableMetadataModel {
            partition_specs: Seq::new(
                self.partition_specs@.len(),
                |i: int| self.partition_specs@[i]@,
            ),
            default_spec_id: self.default_spec_id,
            current_snapshot: match self.current_snapshot {
                Some(snapshot) => Some(snapshot@),
                None => None,
            },
        }
    }
}

/// The first specification in `specs` whose id is `spec_id`.
pub open spec fn find_spec(specs: Seq<PartitionSpecModel>, spec_id: i32) -> Option<
    PartitionSpecModel,
>
    decreases specs.len(),
{
    if specs.len() == 0 {
        None
    } else if specs[0].spec_id == spec_id {
        Some(specs[0])
    } else {
        find_spec(specs.drop_first(), spec_id)
    }
}

/// `find_spec` finds a specification exactly when one in `specs` carries the
/// id; what it finds carries the id and stands in `specs`.
pub proof fn lemma_find_spec(specs: Seq<PartitionSpecModel>, spec_id: i32)
    ensures
        find_spec(specs, spec_id) is Some <==> exists|i: int|
            0 <= i < specs.len() && #[trigger] specs[i].spec_id == spec_id,
        find_spec(specs, spec_id) matches Some(spec) ==> spec.spec_id == spec_id
            && specs.contains(spec),
    decreases specs.len(),
{
    if specs.len() > 0 && specs[0].spec_id != spec_id {
        let rest = specs.drop_first();
        lemma_find_spec(rest, spec_id);
        if exists|i: int| 0 <= i < specs.len() && #[trigger] specs[i].spec_id == spec_id {
            let i = choose|i: int| 0 <= i < specs.len() && #[trigger] specs[i].spec_id == spec_id;
            assert(rest[i - 1].spec_id == spec_id);
        }
    }
}

impl TableMetadataModel {
    /// The specification with id `spec_id`, if the history holds one.
    pub open spec fn spec_by_id(self, spec_id: i32) -> Option<PartitionSpecModel> {
        find_spec(self.partition_specs, spec_id)
    }

    /// Whether the history holds a specification with id `spec_id`.
    pub open spec fn knows(self, spec_id: i32) -> bool {
        self.spec_by_id(spec_id) is Some
    }

    /// The number of fields of the specification with id `spec_id`; 0 if the
    /// history holds none.
    pub open spec fn field_count(self, spec_id: i32) -> nat {
        match self.spec_by_id(spec_id) {
            Some(spec) => spec.fields.len(),
            None => 0,
        }
    }
}

impl TableMetadata {
    /// The specification with id `spec_id`: the first one in the history that
    /// carries the id.
    pub fn partition_spec_by_id(&self, spec_id: i32) -> (found: Option<&PartitionSpec>)
        ensures
            match found {
                Some(spec) => self@.spec_by_id(spec_id) == Some(spec@),
                None => self@.spec_by_id(spec_id) is None,
            },
    {
        let ghost all = self@.partition_specs;
        assert(all.skip(0) == all);
        let mut i: usize = 0;
        while i < self.partition_specs.len()
            invariant
                i <= self.partition_specs.len(),
                all == self@.partition_specs,
                find_spec(all, spec_id) == find_spec(all.skip(i as int), spec_id),
            decreases self.partition_specs.len() - i,
        {
            let ghost rest = all.skip(i as int);
            assert(rest.drop_first() == all.skip(i + 1));
            if self.partition_specs[i].spec_id == spec_id {
                return Some(&self.partition_specs[i]);
            }
            i = i + 1;
        }
        None
    }
}

} // verus!
