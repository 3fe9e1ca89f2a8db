//! Durable references from assets to rebuildable cache artifacts.

use vstd::prelude::*;

use crate::catalog::error::{other_error, CatalogError, CatalogErrorKind};
use crate::catalog::identity::AssetId;
use crate::content_hash::{
    hash_text_bytes, hex_text, is_hash_text, lemma_hash_text_round_trip, ContentHash,
};
use crate::text::same_text;

verus! {

/// Rebuildable artifact family owned by a producer workflow.
#[derive(Debug, Clone, Copy, PartialEq, Eq, Structural)]
pub enum DerivedArtifactKind {
    /// Multi-resolution min/max waveform pyramid.
    WaveformPyramid,
}

/// The stored text of an artifact kind.
pub fn kind_text(kind: DerivedArtifactKind) -> (r: &'static str)
    ensures
        r@ == "waveform_pyramid"@,
{
    match kind {
        DerivedArtifactKind::WaveformPyramid => "waveform_pyramid",
    }
}

/// Reads a stored artifact kind.
pub fn parse_kind(text: &str) -> (r: Result<DerivedArtifactKind, CatalogError>)
    ensures
        r is Ok <==> text@ == "waveform_pyramid"@,
        r matches Err(e) ==> e.kind == CatalogErrorKind::Other && e.message@
            == "malformed derived artifact kind"@,
{
    if same_text(text, "waveform_pyramid") {
        Ok(DerivedArtifactKind::WaveformPyramid)
    } else {
        Err(other_error("malformed derived artifact kind"))
    }
}

/// One catalog reference to content-addressed artifact bytes.
#[derive(Debug, Clone, Copy, PartialEq, Eq)]
pub struct DerivedArtifactRecord {
    pub asset_id: AssetId,
    pub kind: DerivedArtifactKind,
    pub schema_version: u32,
    pub content_hash: ContentHash,
    pub size_bytes: u64,
    pub created_at_millis: i64,
}

/// The stored columns `(kind, schema_version, content_hash, size, created_at)`
/// of one reference decode: known kind, version within `u32`, hash text, a
/// size that is not negative.
pub open spec fn artifact_row_ok(row: (String, i64, String, i64, i64)) -> bool {
    &&& row.0@ == "waveform_pyramid"@
    &&& 0 <= row.1 <= u32::MAX
    &&& is_hash_text(row.2@)
    &&& row.3 >= 0
}

/// `row` is what publishing `record` stores: its kind text, version,
/// canonical hash text, size and creation time.
pub open spec fn published_row_of(record: DerivedArtifactRecord, row: (String, i64, String, i64, i64)) -> bool {
    &&& row.0@ == "waveform_pyramid"@
    &&& row.1 == record.schema_version
    &&& row.2@ == hex_text(record.content_hash.bytes@)
    &&& row.3 == record.size_bytes
    &&& row.4 == record.created_at_millis
}

/// Decodes the current reference of `asset_id` read back from its row;
/// each malformed column is reported as `malformed derived artifact
/// <column>`.
pub fn find_derived_artifact(asset_id: AssetId, row: (String, i64, String, i64, i64)) -> (r: Result<
    DerivedArtifactRecord,
    CatalogError,
>)
    ensures
        r is Ok <==> artifact_row_ok(row),
        r matches Err(e) ==> e.kind == CatalogErrorKind::Other,
        r matches Err(e) ==> e.message@ == (if row.0@ != "waveform_pyramid"@ {
            "malformed derived artifact kind"@
        } else if !(0 <= row.1 <= u32::MAX) {
            "malformed derived artifact schema version"@
        } else if !is_hash_text(row.2@) {
            "malformed derived artifact content hash"@
        } else {
            "malformed derived artifact size"@
        }),
        r matches Ok(rec) ==> rec.asset_id == asset_id && rec.kind
            == DerivedArtifactKind::WaveformPyramid && rec.schema_version == row.1
            && rec.content_hash.bytes@ == hash_text_bytes(row.2@) && rec.size_bytes == row.3
            && rec.created_at_millis == row.4,
        r is Err ==> forall|record: DerivedArtifactRecord| !published_row_of(record, row),
        r matches Ok(rec) ==> forall|record: DerivedArtifactRecord|
            published_row_of(record, row) && record.asset_id == asset_id ==> rec.kind == record.kind
                && rec.schema_version == record.schema_version && rec.content_hash.bytes@
                == record.content_hash.bytes@ && rec.size_bytes == record.size_bytes
                && rec.created_at_millis == record.created_at_millis,
{
    proof {
        assert forall|record: DerivedArtifactRecord| published_row_of(record, row) implies is_hash_text(
            row.2@,
        ) && hash_text_bytes(row.2@) == record.content_hash.bytes@ by {
            lemma_hash_text_round_trip(record.content_hash.bytes@);
        }
    }
    let (kind_text, schema_version, content_hash, size_bytes, created_at_millis) = row;
    let kind = parse_kind(kind_text.as_str())?;
    if schema_version < 0 || schema_version > u32::MAX as i64 {
        return Err(other_error("malformed derived artifact schema version"));
    }
    let content_hash = match ContentHash::from_hex(content_hash.as_str()) {
        Some(h) => h,
        None => {
            return Err(other_error("malformed derived artifact content hash"));
        },
    };
    if size_bytes < 0 {
        return Err(other_error("malformed derived artifact size"));
    }
    Ok(
        DerivedArtifactRecord {
            asset_id,
            kind,
            schema_version: schema_version as u32,
            content_hash,
            size_bytes: size_bytes as u64,
            created_at_millis,
        },
    )
}

/// The stored size of a reference being published; a size beyond the
/// catalog's integers is `malformed derived artifact size`.
pub fn upsert_derived_artifact(record: &DerivedArtifactRecord) -> (r: Result<i64, CatalogError>)
    ensures
        r is Ok <==> record.size_bytes <= i64::MAX,
        r matches Ok(size) ==> size == record.size_bytes,
        r matches Err(e) ==> e.kind == CatalogErrorKind::Other && e.message@
            == "malformed derived artifact size"@,
{
    if record.size_bytes > i64::MAX as u64 {
        Err(other_error("malformed derived artifact size"))
    } else {
        Ok(record.size_bytes as i64)
    }
}

/// The identity a reference is stored under: one current reference per
/// asset, kind and schema version.
pub open spec fn artifact_key(record: DerivedArtifactRecord) -> (u128, DerivedArtifactKind, u32) {
    (record.asset_id.value, record.kind, record.schema_version)
}

/// No two references share an identity.
pub open spec fn distinct_keys(records: Seq<DerivedArtifactRecord>) -> bool {
    forall|i: int, j: int|
        0 <= i < j < records.len() ==> artifact_key(#[trigger] records[i]) != artifact_key(
            #[trigger] records[j],
        )
}

/// The references of the catalog, one per identity.
#[derive(Debug, Clone)]
pub struct ArtifactTable {
    pub records: Vec<DerivedArtifactRecord>,
}

impl ArtifactTable {
    /// The contents of the table.
    pub open spec fn contents(&self) -> Set<DerivedArtifactRecord> {
        self.records@.to_set()
    }

    /// No two references share an identity.
    pub open spec fn well_formed(&self) -> bool {
        distinct_keys(self.records@)
    }

    /// An empty table.
    pub fn new() -> (r: ArtifactTable)
        ensures
            r.well_formed(),
            r.contents() == Set::<DerivedArtifactRecord>::empty(),
    {
        let r = ArtifactTable { records: Vec::new() };
        assert(r.contents() =~= Set::<DerivedArtifactRecord>::empty());
        r
    }

    fn position(&self, asset_id: AssetId, kind: DerivedArtifactKind, schema_version: u32) -> (r:
        Option<usize>)
        ensures
            r matches Some(i) ==> i < self.records@.len() && artifact_key(self.records@[i as int])
                == (asset_id.value, kind, schema_version),
            r is None ==> forall|i: int|
                0 <= i < self.records@.len() ==> artifact_key(#[trigger] self.records@[i]) != (
                    asset_id.value,
                    kind,
                    schema_version,
                ),
    {
        let mut i: usize = 0;
        while i < self.records.len()
            invariant
                i <= self.records@.len(),
                forall|j: int|
                    0 <= j < i ==> artifact_key(#[trigger] self.records@[j]) != (
                        asset_id.value,
                        kind,
                        schema_version,
                    ),
            decreases self.records@.len() - i,
        {
            let r = &self.records[i];
            if r.asset_id.value == asset_id.value && r.kind == kind && r.schema_version
                == schema_version {
                return Some(i);
            }
            i = i + 1;
        }
        None
    }

    /// The current reference for one artifact schema of an asset.
    pub fn find_derived_artifact(&self, asset_id: AssetId, kind: DerivedArtifactKind, schema_version: u32) -> (r:
        Option<DerivedArtifactRecord>)
        requires
            self.well_formed(),
        ensures
            r matches Some(record) ==> self.contents().contains(record) && artifact_key(record) == (
                asset_id.value,
                kind,
                schema_version,
            ),
            r is None ==> forall|record: DerivedArtifactRecord|
                self.contents().contains(record) ==> artifact_key(record) != (
                    asset_id.value,
                    kind,
                    schema_version,
                ),
    {
        match self.position(asset_id, kind, schema_version) {
            Some(i) => {
                assert(self.records@.contains(self.records@[i as int]));
                Some(self.records[i])
            },
            None => None,
        }
    }

    /// Publishes or replaces the current reference for one artifact
    /// schema: the table then holds `record` and every reference of another
    /// identity it held before.
    pub fn upsert_derived_artifact(&mut self, record: DerivedArtifactRecord)
        requires
            old(self).well_formed(),
        ensures
            final(self).well_formed(),
            final(self).contents() == old(self).contents().filter(
                |r: DerivedArtifactRecord| artifact_key(r) != artifact_key(record),
            ).insert(record),
    {
        let ghost before = self.records@;
        match self.position(record.asset_id, record.kind, record.schema_version) {
            Some(i) => {
                self.records.set(i, record);
                proof {
                    assert(self.records@ == before.update(i as int, record));
                    assert forall|x: DerivedArtifactRecord| #[trigger] self.contents().contains(x)
                        == old(self).contents().filter(
                        |r: DerivedArtifactRecord| artifact_key(r) != artifact_key(record),
                    ).insert(record).contains(x) by {
                        if self.records@.contains(x) {
                            let j = choose|j: int| 0 <= j < self.records@.len() && self.records@[j] == x;
                            if j != i {
                                assert(before[j] == x);
                                assert(before.contains(x));
                            }
                        }
                        if x != record && before.contains(x) && artifact_key(x) != artifact_key(
                            record,
                        ) {
                            let j = choose|j: int| 0 <= j < before.len() && before[j] == x;
                            assert(j != i);
                            assert(self.records@[j] == x);
                        }
                        if x == record {
                            assert(self.records@[i as int] == x);
                        }
                    }
                    assert(self.contents() =~= old(self).contents().filter(
                        |r: DerivedArtifactRecord| artifact_key(r) != artifact_key(record),
                    ).insert(record));
                }
            },
            None => {
                self.records.push(record);
                proof {
                    assert forall|x: DerivedArtifactRecord| #[trigger] self.contents().contains(x)
                        == old(self).contents().filter(
                        |r: DerivedArtifactRecord| artifact_key(r) != artifact_key(record),
                    ).insert(record).contains(x) by {
                        if self.records@.contains(x) && x != record {
                            let j = choose|j: int| 0 <= j < self.records@.len() && self.records@[j] == x;
                            assert(j < before.len());
                            assert(before[j] == x);
                        }
                        if x != record && before.contains(x) {
                            let j = choose|j: int| 0 <= j < before.len() && before[j] == x;
                            assert(self.records@[j] == x);
                        }
                        if x == record {
                            assert(self.records@[before.len() as int] == x);
                        }
                    }
                    assert(self.contents() =~= old(self).contents().filter(
                        |r: DerivedArtifactRecord| artifact_key(r) != artifact_key(record),
                    ).insert(record));
                }
            },
        }
    }

    /// Removes the reference for one artifact schema of an asset, so the
    /// next read rebuilds the artifact; every other reference stays.
    pub fn remove_derived_artifact(&mut self, asset_id: AssetId, kind: DerivedArtifactKind, schema_version: u32)
        requires
            old(self).well_formed(),
        ensures
            final(self).well_formed(),
            final(self).contents() == old(self).contents().filter(
                |r: DerivedArtifactRecord| artifact_key(r) != (asset_id.value, kind, schema_version),
            ),
    {
        let ghost before = self.records@;
        let ghost k = (asset_id.value, kind, schema_version);
        match self.position(asset_id, kind, schema_version) {
            Some(i) => {
                self.records.remove(i);
                proof {
                    assert(self.records@ == before.remove(i as int));
                    assert forall|x: DerivedArtifactRecord| #[trigger] self.contents().contains(x)
                        == old(self).contents().filter(
                        |r: DerivedArtifactRecord| artifact_key(r) != k,
                    ).contains(x) by {
                        if self.records@.contains(x) {
                            let j = choose|j: int| 0 <= j < self.records@.len() && self.records@[j] == x;
                            if j < i {
                                assert(before[j] == x);
                            } else {
                                assert(before[j + 1] == x);
                            }
                        }
                        if before.contains(x) && artifact_key(x) != k {
                            let j = choose|j: int| 0 <= j < before.len() && before[j] == x;
                            if j < i {
                                assert(self.records@[j] == x);
                            } else {
                                assert(j != i);
                                assert(self.records@[j - 1] == x);
                            }
                        }
                    }
                    assert(self.contents() =~= old(self).contents().filter(
                        |r: DerivedArtifactRecord| artifact_key(r) != k,
                    ));
                }
            },
            None => {
                proof {
                    assert(self.contents() =~= old(self).contents().filter(
                        |r: DerivedArtifactRecord| artifact_key(r) != k,
                    ));
                }
            },
        }
    }
}

/// Publishing a reference makes it the current one: once `record` is
/// upserted into a table, the only reference the table holds under
/// `record`'s identity is `record` itself; a reference under another
/// identity is held exactly when it was held before.
pub proof fn lemma_upsert_reads_back(
    before: Set<DerivedArtifactRecord>,
    record: DerivedArtifactRecord,
    x: DerivedArtifactRecord,
)
    ensures
        before.filter(|r: DerivedArtifactRecord| artifact_key(r) != artifact_key(record)).insert(
            record,
        ).contains(x) && artifact_key(x) == artifact_key(record) ==> x == record,
        artifact_key(x) != artifact_key(record) ==> (before.filter(
            |r: DerivedArtifactRecord| artifact_key(r) != artifact_key(record),
        ).insert(record).contains(x) <==> before.contains(x)),
{
}

} // verus!
