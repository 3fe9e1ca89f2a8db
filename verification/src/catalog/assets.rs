//! Idempotent asset registration and stored asset rows.
//!
//! Registration is keyed by content hash: the same bytes import once, and a
//! later import of them refreshes the descriptive path of the existing
//! asset instead of creating another.

use vstd::prelude::*;

use crate::catalog::analysis::{level_with_ordinal, AnalysisLevel};
use crate::catalog::error::{
    conversion_error, conversion_failure, other_error, other_error_with, CatalogError,
    CatalogErrorKind, StoredType,
};
use crate::catalog::identity::{
    is_canonical_uuid_text, lemma_uuid_hyphenated_injective, uuid_hyphenated, uuid_parse, uuid_parse_failure, AssetId,
};
use crate::content_hash::{
    hash_text_bytes, hex_text, is_hash_text, lemma_hash_text_round_trip, ContentHash,
};
use crate::text::{
    concat, decimal, decimal_digit, decimal_text, lemma_text_lt_irreflexive, lemma_text_lt_total,
    lemma_text_lt_transitive, owned, push_char, same_text, text_less, text_lt,
};

verus! {

/// Path health of one asset.
#[derive(Debug, Clone, Copy, PartialEq, Eq, Structural)]
pub enum AssetPathStatus {
    Present,
    Missing,
}

/// The stored text of a path status.
pub open spec fn path_status_text(status: AssetPathStatus) -> Seq<char> {
    match status {
        AssetPathStatus::Present => "present"@,
        AssetPathStatus::Missing => "missing"@,
    }
}

impl AssetPathStatus {
    /// The stored text of this status.
    pub fn as_str(self) -> (r: &'static str)
        ensures
            r@ == path_status_text(self),
    {
        match self {
            AssetPathStatus::Present => "present",
            AssetPathStatus::Missing => "missing",
        }
    }
}

/// The immutable original behind an asset.
#[derive(Debug, Clone, PartialEq, Eq)]
pub struct OriginalRef {
    pub path: String,
    pub content_hash: ContentHash,
    pub path_status: AssetPathStatus,
    pub size_bytes: u64,
    pub codec: Option<String>,
    pub duration_millis: Option<u64>,
    pub recorded_at_millis: Option<i64>,
    pub imported_at_millis: i64,
}

/// One registered asset.
#[derive(Debug, Clone, PartialEq, Eq)]
pub struct AudioAsset {
    pub id: AssetId,
    pub original: OriginalRef,
    pub max_level: AnalysisLevel,
}

/// The stored columns of one asset row and its level.
#[derive(Debug, Clone, PartialEq, Eq)]
pub struct StoredAsset {
    pub id: String,
    pub content_hash: String,
    pub path: String,
    pub path_status: String,
    pub size_bytes: i64,
    pub codec: Option<String>,
    pub duration_millis: Option<i64>,
    pub recorded_at_millis: Option<i64>,
    pub imported_at_millis: i64,
    pub max_level: u8,
}

/// The duration a registration stores: a duration beyond the catalog's
/// integers is stored as unknown.
pub open spec fn stored_duration(duration_millis: Option<u64>) -> Option<i64> {
    match duration_millis {
        Some(d) => if d <= i64::MAX {
            Some(d as i64)
        } else {
            None
        },
        None => None,
    }
}

/// `row` is the row and level that registering `input` as new asset `id`
/// stores: hyphenated id, canonical hash text, `present`, level zero.
pub open spec fn registered_row_of(input: AssetRegistrationInput, id: u128, row: StoredAsset) -> bool {
    &&& row.id@ == uuid_hyphenated(id)
    &&& row.content_hash@ == hex_text(input.content_hash.bytes@)
    &&& row.path@ == input.path@
    &&& row.path_status@ == "present"@
    &&& row.size_bytes == input.size_bytes
    &&& row.codec == input.codec
    &&& row.duration_millis == stored_duration(input.duration_millis)
    &&& row.recorded_at_millis == input.recorded_at_millis
    &&& row.imported_at_millis == input.imported_at_millis
    &&& row.max_level == 0
}

/// What loading a registered row gives back: the registration's fields,
/// present, at the registered level.
pub open spec fn loads_as_registered(asset: AudioAsset, input: AssetRegistrationInput, id: u128) -> bool {
    &&& asset.id.value == id
    &&& asset.original.content_hash.bytes@ == input.content_hash.bytes@
    &&& asset.original.path@ == input.path@
    &&& asset.original.path_status == AssetPathStatus::Present
    &&& asset.original.size_bytes == input.size_bytes
    &&& asset.original.codec == input.codec
    &&& asset.original.duration_millis == (match stored_duration(input.duration_millis) {
        Some(d) => Some(d as u64),
        None => None,
    })
    &&& asset.original.recorded_at_millis == input.recorded_at_millis
    &&& asset.original.imported_at_millis == input.imported_at_millis
    &&& asset.max_level == AnalysisLevel::Registered
}

proof fn lemma_registered_row_facts(input: AssetRegistrationInput, id: u128, row: StoredAsset)
    requires
        registered_row_of(input, id, row),
    ensures
        is_hash_text(row.content_hash@),
        hash_text_bytes(row.content_hash@) == input.content_hash.bytes@,
        is_canonical_uuid_text(row.id@),
{
    lemma_hash_text_round_trip(input.content_hash.bytes@);
    assert(row.id@ == uuid_hyphenated(id));
}

/// A stored asset row decodes: hash text, sizes and durations that are not
/// negative, a known level, a UUID id and a known path status.
pub open spec fn stored_asset_ok(row: StoredAsset) -> bool {
    &&& is_hash_text(row.content_hash@)
    &&& row.size_bytes >= 0
    &&& (row.duration_millis matches Some(d) ==> d >= 0)
    &&& level_with_ordinal(row.max_level) is Some
    &&& uuid_parse(row.id@) is Some
    &&& (row.path_status@ == "present"@ || row.path_status@ == "missing"@)
}

/// `asset` is what the decodable stored row `row` reads as.
pub open spec fn loaded_from(row: StoredAsset, asset: AudioAsset) -> bool {
    &&& uuid_parse(row.id@) == Some(asset.id.value)
    &&& asset.original.path == row.path
    &&& asset.original.content_hash.bytes@ == hash_text_bytes(row.content_hash@)
    &&& path_status_text(asset.original.path_status) == row.path_status@
    &&& asset.original.size_bytes == row.size_bytes
    &&& (match row.duration_millis {
        Some(d) => asset.original.duration_millis == Some(d as u64),
        None => asset.original.duration_millis is None,
    })
    &&& asset.original.codec == row.codec
    &&& asset.original.recorded_at_millis == row.recorded_at_millis
    &&& asset.original.imported_at_millis == row.imported_at_millis
    &&& level_with_ordinal(row.max_level) == Some(asset.max_level)
}

/// Decodes one stored asset. Failures are reported in column order, each
/// as a conversion failure of its column: `invalid stored content hash
/// <h>`, `stored size_bytes is negative`, `stored duration_millis is
/// negative`, `invalid stored analysis level <n>`, the id parser's message,
/// `invalid stored path status <s>`.
pub fn load_asset(row: StoredAsset) -> (r: Result<AudioAsset, CatalogError>)
    ensures
        r is Ok <==> stored_asset_ok(row),
        r matches Err(e) ==> e.kind == CatalogErrorKind::Other,
        r matches Err(e) ==> !is_hash_text(row.content_hash@) ==> e.message@ == conversion_failure(
            1,
            StoredType::Text,
            "invalid stored content hash "@ + row.content_hash@,
        ),
        r matches Err(e) ==> is_hash_text(row.content_hash@) ==> row.size_bytes < 0 ==> e.message@
            == conversion_failure(4, StoredType::Integer, "stored size_bytes is negative"@),
        r matches Err(e) ==> is_hash_text(row.content_hash@) ==> row.size_bytes >= 0 ==> (
        row.duration_millis matches Some(d) && d < 0) ==> e.message@ == conversion_failure(
            6,
            StoredType::Integer,
            "stored duration_millis is negative"@,
        ),
        r matches Err(e) ==> is_hash_text(row.content_hash@) ==> row.size_bytes >= 0 ==> !(
        row.duration_millis matches Some(d) && d < 0) ==> level_with_ordinal(row.max_level) is None
            ==> e.message@ == conversion_failure(
            9,
            StoredType::Integer,
            "invalid stored analysis level "@ + decimal(row.max_level as nat),
        ),
        r matches Err(e) ==> is_hash_text(row.content_hash@) ==> row.size_bytes >= 0 ==> !(
        row.duration_millis matches Some(d) && d < 0) ==> level_with_ordinal(row.max_level) is Some
            ==> uuid_parse(row.id@) is None ==> e.message@ == conversion_failure(
            0,
            StoredType::Text,
            uuid_parse_failure(),
        ),
        r matches Err(e) ==> is_hash_text(row.content_hash@) ==> row.size_bytes >= 0 ==> !(
        row.duration_millis matches Some(d) && d < 0) ==> level_with_ordinal(row.max_level) is Some
            ==> uuid_parse(row.id@) is Some ==> e.message@ == conversion_failure(
            3,
            StoredType::Text,
            "invalid stored path status "@ + row.path_status@,
        ),
        r matches Ok(asset) ==> loaded_from(row, asset),
        r is Err ==> forall|input: AssetRegistrationInput, id: u128|
            !registered_row_of(input, id, row),
        r matches Ok(asset) ==> forall|input: AssetRegistrationInput, id: u128|
            registered_row_of(input, id, row) ==> loads_as_registered(asset, input, id),
{
    proof {
        reveal_strlit("present");
        reveal_strlit("missing");
        assert forall|input: AssetRegistrationInput, id: u128| registered_row_of(
            input,
            id,
            row,
        ) implies is_hash_text(row.content_hash@) && hash_text_bytes(row.content_hash@)
            == input.content_hash.bytes@ && is_canonical_uuid_text(row.id@) by {
            lemma_registered_row_facts(input, id, row);
        }
    }
    let content_hash = match ContentHash::from_hex(row.content_hash.as_str()) {
        Some(h) => h,
        None => {
            let detail = concat("invalid stored content hash ", row.content_hash.as_str());
            return Err(conversion_error(1, StoredType::Text, detail.as_str()));
        },
    };
    if row.size_bytes < 0 {
        return Err(conversion_error(4, StoredType::Integer, "stored size_bytes is negative"));
    }
    let duration_millis = match row.duration_millis {
        Some(d) => {
            if d < 0 {
                return Err(
                    conversion_error(6, StoredType::Integer, "stored duration_millis is negative"),
                );
            }
            Some(d as u64)
        },
        None => None,
    };
    let max_level = match AnalysisLevel::from_ordinal(row.max_level) {
        Some(level) => level,
        None => {
            let detail = concat(
                "invalid stored analysis level ",
                decimal_text(row.max_level as u64).as_str(),
            );
            return Err(conversion_error(9, StoredType::Integer, detail.as_str()));
        },
    };
    let id = match AssetId::parse(row.id.as_str()) {
        Ok(id) => id,
        Err(detail) => {
            return Err(conversion_error(0, StoredType::Text, detail.as_str()));
        },
    };
    proof {
        assert forall|input: AssetRegistrationInput, value: u128| registered_row_of(
            input,
            value,
            row,
        ) implies id.value == value by {
            lemma_uuid_hyphenated_injective(id.value, value);
        }
    }
    let path_status = if same_text(row.path_status.as_str(), "present") {
        AssetPathStatus::Present
    } else if same_text(row.path_status.as_str(), "missing") {
        AssetPathStatus::Missing
    } else {
        let detail = concat("invalid stored path status ", row.path_status.as_str());
        return Err(conversion_error(3, StoredType::Text, detail.as_str()));
    };
    Ok(
        AudioAsset {
            id,
            original: OriginalRef {
                path: row.path,
                content_hash,
                path_status,
                size_bytes: row.size_bytes as u64,
                codec: row.codec,
                duration_millis,
                recorded_at_millis: row.recorded_at_millis,
                imported_at_millis: row.imported_at_millis,
            },
            max_level,
        },
    )
}

/// Inputs for one registration write.
#[derive(Debug, Clone, PartialEq, Eq)]
pub struct AssetRegistrationInput {
    pub content_hash: ContentHash,
    pub path: String,
    pub size_bytes: u64,
    pub codec: Option<String>,
    pub duration_millis: Option<u64>,
    pub recorded_at_millis: Option<i64>,
    pub imported_at_millis: i64,
}

/// The columns of a newly registered asset.
#[derive(Debug, Clone, PartialEq, Eq)]
pub struct NewAssetColumns {
    pub content_hash: String,
    pub path: String,
    pub size_bytes: i64,
    pub codec: Option<String>,
    pub duration_millis: Option<i64>,
    pub recorded_at_millis: Option<i64>,
    pub imported_at_millis: i64,
}

/// What registering one source file does.
#[derive(Debug, Clone, PartialEq, Eq)]
pub enum RegistrationPlan {
    /// The content already exists: refresh its stored path and report the
    /// existing asset.
    RefreshPath(AudioAsset),
    /// The content is unknown: insert these columns as a new asset.
    Insert(NewAssetColumns),
}

/// Outcome of registering one source file.
#[derive(Debug, Clone, PartialEq, Eq)]
pub enum RegisterAsset {
    /// The content was unknown and a new asset was created.
    Created(AudioAsset),
    /// The content already existed; the existing asset's path was refreshed.
    Existed(AudioAsset),
}

/// The failure for a value beyond the catalog's integer range.
pub fn sqlite_integer_overflow() -> (r: CatalogError)
    ensures
        r.kind == CatalogErrorKind::Other,
        r.message@ == "value exceeds SQLite integer range: out of range integral type conversion attempted"@,
{
    other_error("value exceeds SQLite integer range: out of range integral type conversion attempted")
}

/// Decides one registration, given the asset already stored under the
/// input's content hash (if any): existing content is refreshed, never
/// duplicated; new content must have a size within the catalog's integers.
/// A duration beyond that range is stored as unknown.
pub fn register_asset(input: &AssetRegistrationInput, existing: Option<AudioAsset>) -> (r: Result<
    RegistrationPlan,
    CatalogError,
>)
    ensures
        existing matches Some(asset) ==> r == Ok::<RegistrationPlan, CatalogError>(
            RegistrationPlan::RefreshPath(asset),
        ),
        existing is None ==> (r is Ok <==> input.size_bytes <= i64::MAX),
        r matches Ok(plan) ==> existing is None ==> (plan matches RegistrationPlan::Insert(c) && {
            &&& c.content_hash@ == hex_text(input.content_hash.bytes@)
            &&& c.path == input.path
            &&& c.size_bytes == input.size_bytes
            &&& c.codec == input.codec
            &&& c.duration_millis == (match input.duration_millis {
                Some(d) => if d <= i64::MAX {
                    Some(d as i64)
                } else {
                    None
                },
                None => None,
            })
            &&& c.recorded_at_millis == input.recorded_at_millis
            &&& c.imported_at_millis == input.imported_at_millis
        }),
        r matches Err(e) ==> e.kind == CatalogErrorKind::Other,
{
    match existing {
        Some(asset) => Ok(RegistrationPlan::RefreshPath(asset)),
        None => {
            if input.size_bytes > i64::MAX as u64 {
                return Err(sqlite_integer_overflow());
            }
            let duration_millis = match input.duration_millis {
                Some(d) => if d <= i64::MAX as u64 {
                    Some(d as i64)
                } else {
                    None
                },
                None => None,
            };
            Ok(
                RegistrationPlan::Insert(
                    NewAssetColumns {
                        content_hash: input.content_hash.to_hex(),
                        path: input.path.clone(),
                        size_bytes: input.size_bytes as i64,
                        codec: input.codec.clone(),
                        duration_millis,
                        recorded_at_millis: input.recorded_at_millis,
                        imported_at_millis: input.imported_at_millis,
                    },
                ),
            )
        },
    }
}


/// Three decimal digits of `n` (`0..1000`), zero-padded.
pub open spec fn three_digits(n: nat) -> Seq<char> {
    seq![decimal_digit(n / 100), decimal_digit((n / 10) % 10), decimal_digit(n % 10)]
}

/// How a listing shows a duration: whole seconds, a point, three digits of
/// milliseconds and `s`; an unknown duration shows as `unknown`.
pub open spec fn duration_label(duration_millis: Option<u64>) -> Seq<char> {
    match duration_millis {
        Some(millis) => decimal((millis / 1000) as nat) + seq!['.'] + three_digits((millis % 1000) as nat)
            + seq!['s'],
        None => "unknown"@,
    }
}

/// The duration label of a listed asset.
pub fn duration_text(duration_millis: Option<u64>) -> (r: String)
    ensures
        r@ == duration_label(duration_millis),
{
    match duration_millis {
        None => owned("unknown"),
        Some(millis) => {
            let fraction = millis % 1000;
            let mut r = decimal_text(millis / 1000);
            push_char(&mut r, '.');
            push_char(&mut r, (((fraction / 100) as u8) + 48) as char);
            push_char(&mut r, ((((fraction / 10) % 10) as u8) + 48) as char);
            push_char(&mut r, (((fraction % 10) as u8) + 48) as char);
            push_char(&mut r, 's');
            r
        },
    }
}

/// Lookup of an asset by identity.
#[derive(Debug, Clone, PartialEq, Eq)]
pub enum AssetLookup {
    Found(AudioAsset),
    NotFound,
}

/// Row `i` is the first row that `matches` accepts.
pub open spec fn first_row_with(rows: Seq<StoredAsset>, i: int, matches: spec_fn(StoredAsset) -> bool) -> bool {
    &&& 0 <= i < rows.len()
    &&& matches(rows[i])
    &&& forall|j: int| 0 <= j < i ==> !matches(#[trigger] rows[j])
}

/// What a lookup that reaches the stored row `row` gives: the asset it
/// reads as, or the failure of reading it.
pub open spec fn lookup_of(row: StoredAsset, r: Result<AssetLookup, CatalogError>) -> bool {
    &&& (r is Ok <==> stored_asset_ok(row))
    &&& (r matches Ok(lookup) ==> lookup matches AssetLookup::Found(asset) && loaded_from(row, asset))
}

/// The rows of the asset table.
#[derive(Debug, Clone)]
pub struct AssetTable {
    pub rows: Vec<StoredAsset>,
}

impl AssetTable {
    /// No assets.
    pub fn new() -> (r: AssetTable)
        ensures
            r.rows@.len() == 0,
    {
        AssetTable { rows: Vec::new() }
    }

    fn lookup_row(&self, i: usize) -> (r: Result<AssetLookup, CatalogError>)
        requires
            i < self.rows@.len(),
        ensures
            lookup_of(self.rows@[i as int], r),
    {
        let row = StoredAsset {
            id: self.rows[i].id.clone(),
            content_hash: self.rows[i].content_hash.clone(),
            path: self.rows[i].path.clone(),
            path_status: self.rows[i].path_status.clone(),
            size_bytes: self.rows[i].size_bytes,
            codec: match &self.rows[i].codec {
                Some(c) => Some(c.clone()),
                None => None,
            },
            duration_millis: self.rows[i].duration_millis,
            recorded_at_millis: self.rows[i].recorded_at_millis,
            imported_at_millis: self.rows[i].imported_at_millis,
            max_level: self.rows[i].max_level,
        };
        assert(row == self.rows@[i as int]);
        match load_asset(row) {
            Ok(asset) => Ok(AssetLookup::Found(asset)),
            Err(error) => Err(error),
        }
    }

    /// Looks up an asset by content hash: `NotFound` when no row stores
    /// that hash, else the first such row as read.
    pub fn find_by_content_hash(&self, content_hash: &ContentHash) -> (r: Result<
        AssetLookup,
        CatalogError,
    >)
        ensures
            (forall|j: int|
                0 <= j < self.rows@.len() ==> (#[trigger] self.rows@[j]).content_hash@ != hex_text(
                    content_hash.bytes@,
                )) ==> r matches Ok(AssetLookup::NotFound),
            !(r matches Ok(AssetLookup::NotFound)) ==> exists|i: int|
                first_row_with(
                    self.rows@,
                    i,
                    |row: StoredAsset| row.content_hash@ == hex_text(content_hash.bytes@),
                ) && lookup_of(#[trigger] self.rows@[i], r),
            r matches Ok(AssetLookup::NotFound) ==> forall|j: int|
                0 <= j < self.rows@.len() ==> (#[trigger] self.rows@[j]).content_hash@ != hex_text(
                    content_hash.bytes@,
                ),
    {
        let text = content_hash.to_hex();
        let mut i: usize = 0;
        while i < self.rows.len()
            invariant
                i <= self.rows@.len(),
                text@ == hex_text(content_hash.bytes@),
                forall|j: int| 0 <= j < i ==> (#[trigger] self.rows@[j]).content_hash@ != text@,
            decreases self.rows@.len() - i,
        {
            if same_text(self.rows[i].content_hash.as_str(), text.as_str()) {
                let r = self.lookup_row(i);
                assert(first_row_with(
                    self.rows@,
                    i as int,
                    |row: StoredAsset| row.content_hash@ == hex_text(content_hash.bytes@),
                ));
                return r;
            }
            i = i + 1;
        }
        Ok(AssetLookup::NotFound)
    }

    /// Looks up an asset by id: `NotFound` when no row stores the id's
    /// text, else the first such row as read.
    pub fn find_by_id(&self, id: AssetId) -> (r: Result<AssetLookup, CatalogError>)
        ensures
            (forall|j: int|
                0 <= j < self.rows@.len() ==> (#[trigger] self.rows@[j]).id@ != uuid_hyphenated(
                    id.value,
                )) ==> r matches Ok(AssetLookup::NotFound),
            !(r matches Ok(AssetLookup::NotFound)) ==> exists|i: int|
                first_row_with(self.rows@, i, |row: StoredAsset| row.id@ == uuid_hyphenated(id.value))
                    && lookup_of(#[trigger] self.rows@[i], r),
            r matches Ok(AssetLookup::NotFound) ==> forall|j: int|
                0 <= j < self.rows@.len() ==> (#[trigger] self.rows@[j]).id@ != uuid_hyphenated(
                    id.value,
                ),
    {
        let text = id.to_text();
        let mut i: usize = 0;
        while i < self.rows.len()
            invariant
                i <= self.rows@.len(),
                text@ == uuid_hyphenated(id.value),
                forall|j: int| 0 <= j < i ==> (#[trigger] self.rows@[j]).id@ != text@,
            decreases self.rows@.len() - i,
        {
            if same_text(self.rows[i].id.as_str(), text.as_str()) {
                let r = self.lookup_row(i);
                assert(first_row_with(
                    self.rows@,
                    i as int,
                    |row: StoredAsset| row.id@ == uuid_hyphenated(id.value),
                ));
                return r;
            }
            i = i + 1;
        }
        Ok(AssetLookup::NotFound)
    }

    /// Marks an asset missing because its path no longer exists.
    pub fn mark_asset_missing(&mut self, asset_id: &str)
        ensures
            final(self).rows@.len() == old(self).rows@.len(),
            forall|j: int|
                0 <= j < old(self).rows@.len() ==> if (#[trigger] old(self).rows@[j]).id@ == asset_id@ {
                    final(self).rows@[j].path_status@ == "missing"@ && final(self).rows@[j]
                        == StoredAsset { path_status: final(self).rows@[j].path_status, ..old(self).rows@[j] }
                } else {
                    final(self).rows@[j] == old(self).rows@[j]
                },
    {
        let mut i: usize = 0;
        while i < self.rows.len()
            invariant
                i <= self.rows@.len(),
                self.rows@.len() == old(self).rows@.len(),
                forall|j: int|
                    0 <= j < i ==> if (#[trigger] old(self).rows@[j]).id@ == asset_id@ {
                        self.rows@[j].path_status@ == "missing"@ && self.rows@[j] == StoredAsset {
                            path_status: self.rows@[j].path_status,
                            ..old(self).rows@[j]
                        }
                    } else {
                        self.rows@[j] == old(self).rows@[j]
                    },
                forall|j: int| i <= j < self.rows@.len() ==> #[trigger] self.rows@[j] == old(self).rows@[j],
            decreases self.rows@.len() - i,
        {
            if same_text(self.rows[i].id.as_str(), asset_id) {
                self.rows[i].path_status = owned("missing");
            }
            i = i + 1;
        }
    }

    /// Relinks a missing asset to a freshly found file with the same
    /// content hash: the first missing row with that hash takes the new
    /// path and becomes present. Assets that are present keep their path.
    /// Returns whether a row was relinked.
    pub fn relink_asset_by_hash(&mut self, content_hash: &str, path: &str) -> (r: bool)
        ensures
            r <==> exists|j: int|
                0 <= j < old(self).rows@.len() && (#[trigger] old(self).rows@[j]).content_hash@
                    == content_hash@ && old(self).rows@[j].path_status@ == "missing"@,
            !r ==> final(self).rows@ == old(self).rows@,
            r ==> exists|i: int|
                {
                    &&& first_row_with(
                        old(self).rows@,
                        i,
                        |row: StoredAsset| row.content_hash@ == content_hash@ && row.path_status@
                            == "missing"@,
                    )
                    &&& final(self).rows@.len() == old(self).rows@.len()
                    &&& forall|j: int|
                        0 <= j < old(self).rows@.len() && j != i ==> #[trigger] final(self).rows@[j]
                            == old(self).rows@[j]
                    &&& (#[trigger] final(self).rows@[i]).path@ == path@
                    &&& final(self).rows@[i].path_status@ == "present"@
                    &&& final(self).rows@[i] == StoredAsset {
                        path: final(self).rows@[i].path,
                        path_status: final(self).rows@[i].path_status,
                        ..old(self).rows@[i]
                    }
                },
    {
        proof {
            reveal_strlit("missing");
        }
        let mut i: usize = 0;
        while i < self.rows.len()
            invariant
                i <= self.rows@.len(),
                self.rows@ == old(self).rows@,
                forall|j: int|
                    0 <= j < i ==> !((#[trigger] self.rows@[j]).content_hash@ == content_hash@
                        && self.rows@[j].path_status@ == "missing"@),
            decreases self.rows@.len() - i,
        {
            if same_text(self.rows[i].content_hash.as_str(), content_hash) && same_text(
                self.rows[i].path_status.as_str(),
                "missing",
            ) {
                let ghost before = self.rows@;
                self.rows[i].path = owned(path);
                self.rows[i].path_status = owned("present");
                assert(first_row_with(
                    before,
                    i as int,
                    |row: StoredAsset| row.content_hash@ == content_hash@ && row.path_status@
                        == "missing"@,
                ));
                assert(before[i as int].content_hash@ == content_hash@);
                assert(self.rows@[i as int].path@ == path@);
                assert(forall|j: int| 0 <= j < before.len() && j != i ==> #[trigger] self.rows@[j] == before[j]);
                return true;
            }
            i = i + 1;
        }
        false
    }

    /// Registers a file under its content hash; idempotent by content. For
    /// known content the first stored asset with that hash is read back and
    /// every row of that hash takes the new path; the row count does not
    /// change. For new content a row is inserted under `new_id` (present,
    /// level zero) and read back. A read or size failure changes nothing.
    pub fn register_asset(&mut self, input: &AssetRegistrationInput, new_id: AssetId) -> (r: Result<
        RegisterAsset,
        CatalogError,
    >)
        ensures
            (exists|j: int|
                0 <= j < old(self).rows@.len() && (#[trigger] old(self).rows@[j]).content_hash@
                    == hex_text(input.content_hash.bytes@)) ==> exists|i: int|
                {
                    &&& first_row_with(
                        old(self).rows@,
                        i,
                        |row: StoredAsset| row.content_hash@ == hex_text(input.content_hash.bytes@),
                    )
                    &&& (r is Ok <==> stored_asset_ok(#[trigger] old(self).rows@[i]))
                    &&& (r matches Ok(outcome) ==> outcome matches RegisterAsset::Existed(a)
                        && loaded_from(old(self).rows@[i], a))
                },
            (exists|j: int|
                0 <= j < old(self).rows@.len() && (#[trigger] old(self).rows@[j]).content_hash@
                    == hex_text(input.content_hash.bytes@)) && r is Ok ==> {
                &&& final(self).rows@.len() == old(self).rows@.len()
                &&& forall|j: int|
                    0 <= j < old(self).rows@.len() ==> if (#[trigger] old(self).rows@[j]).content_hash@
                        == hex_text(input.content_hash.bytes@) {
                        final(self).rows@[j].path@ == input.path@ && final(self).rows@[j]
                            == StoredAsset { path: final(self).rows@[j].path, ..old(self).rows@[j] }
                    } else {
                        final(self).rows@[j] == old(self).rows@[j]
                    }
            },
            (forall|j: int|
                0 <= j < old(self).rows@.len() ==> (#[trigger] old(self).rows@[j]).content_hash@
                    != hex_text(input.content_hash.bytes@)) ==> {
                &&& (r is Ok <==> input.size_bytes <= i64::MAX)
                &&& (r matches Err(e) ==> e.kind == CatalogErrorKind::Other)
                &&& (r is Ok ==> final(self).rows@.len() == old(self).rows@.len() + 1
                    && final(self).rows@.drop_last() == old(self).rows@ && registered_row_of(
                    *input,
                    new_id.value,
                    final(self).rows@.last(),
                ))
                &&& (r matches Ok(outcome) ==> outcome matches RegisterAsset::Created(a)
                    && loads_as_registered(a, *input, new_id.value))
            },
            r is Err ==> final(self).rows@ == old(self).rows@,
    {
        let text = input.content_hash.to_hex();
        let mut i: usize = 0;
        while i < self.rows.len()
            invariant
                i <= self.rows@.len(),
                self.rows@ == old(self).rows@,
                text@ == hex_text(input.content_hash.bytes@),
                forall|j: int| 0 <= j < i ==> (#[trigger] self.rows@[j]).content_hash@ != text@,
            decreases self.rows@.len() - i,
        {
            if same_text(self.rows[i].content_hash.as_str(), text.as_str()) {
                let looked = self.lookup_row(i);
                assert(first_row_with(
                    old(self).rows@,
                    i as int,
                    |row: StoredAsset| row.content_hash@ == hex_text(input.content_hash.bytes@),
                ));
                let existing = match looked {
                    Ok(AssetLookup::Found(asset)) => asset,
                    Ok(AssetLookup::NotFound) => {
                        proof {
                            assert(false);
                        }
                        return Err(other_error("stored asset row could not be read"));
                    },
                    Err(error) => {
                        return Err(error);
                    },
                };
                let mut k: usize = 0;
                while k < self.rows.len()
                    invariant
                        k <= self.rows@.len(),
                        self.rows@.len() == old(self).rows@.len(),
                        text@ == hex_text(input.content_hash.bytes@),
                        forall|j: int|
                            0 <= j < k ==> if (#[trigger] old(self).rows@[j]).content_hash@ == text@ {
                                self.rows@[j].path@ == input.path@ && self.rows@[j] == StoredAsset {
                                    path: self.rows@[j].path,
                                    ..old(self).rows@[j]
                                }
                            } else {
                                self.rows@[j] == old(self).rows@[j]
                            },
                        forall|j: int| k <= j < self.rows@.len() ==> #[trigger] self.rows@[j] == old(self).rows@[j],
                    decreases self.rows@.len() - k,
                {
                    if same_text(self.rows[k].content_hash.as_str(), text.as_str()) {
                        self.rows[k].path = owned(input.path.as_str());
                    }
                    k = k + 1;
                }
                return Ok(RegisterAsset::Existed(existing));
            }
            i = i + 1;
        }
        let columns = match register_asset(input, None) {
            Ok(RegistrationPlan::Insert(c)) => c,
            Ok(RegistrationPlan::RefreshPath(_)) => {
                proof {
                    assert(false);
                }
                return Err(other_error("stored asset row could not be read"));
            },
            Err(error) => {
                return Err(error);
            },
        };
        let row = StoredAsset {
            id: new_id.to_text(),
            content_hash: columns.content_hash,
            path: columns.path,
            path_status: owned("present"),
            size_bytes: columns.size_bytes,
            codec: columns.codec,
            duration_millis: columns.duration_millis,
            recorded_at_millis: columns.recorded_at_millis,
            imported_at_millis: columns.imported_at_millis,
            max_level: 0,
        };
        let stored = StoredAsset {
            id: row.id.clone(),
            content_hash: row.content_hash.clone(),
            path: row.path.clone(),
            path_status: row.path_status.clone(),
            size_bytes: row.size_bytes,
            codec: match &row.codec {
                Some(c) => Some(c.clone()),
                None => None,
            },
            duration_millis: row.duration_millis,
            recorded_at_millis: row.recorded_at_millis,
            imported_at_millis: row.imported_at_millis,
            max_level: row.max_level,
        };
        assert(registered_row_of(*input, new_id.value, stored));
        let ghost before = self.rows@;
        self.rows.push(row);
        assert(self.rows@.drop_last() =~= before);
        match load_asset(stored) {
            Ok(asset) => Ok(RegisterAsset::Created(asset)),
            Err(error) => {
                proof {
                    assert(false);
                }
                Err(error)
            },
        }
    }

    fn copy_row(&self, i: usize) -> (r: StoredAsset)
        requires
            i < self.rows@.len(),
        ensures
            r == self.rows@[i as int],
    {
        StoredAsset {
            id: self.rows[i].id.clone(),
            content_hash: self.rows[i].content_hash.clone(),
            path: self.rows[i].path.clone(),
            path_status: self.rows[i].path_status.clone(),
            size_bytes: self.rows[i].size_bytes,
            codec: match &self.rows[i].codec {
                Some(c) => Some(c.clone()),
                None => None,
            },
            duration_millis: self.rows[i].duration_millis,
            recorded_at_millis: self.rows[i].recorded_at_millis,
            imported_at_millis: self.rows[i].imported_at_millis,
            max_level: self.rows[i].max_level,
        }
    }

    /// Lists every registered asset, newest import first (ties by id,
    /// greatest first); the first row that does not read fails the listing.
    pub fn list_assets(&self) -> (r: Result<Vec<AudioAsset>, CatalogError>)
        ensures
            r is Ok <==> forall|i: int| 0 <= i < self.rows@.len() ==> stored_asset_ok(#[trigger] self.rows@[i]),
            r matches Ok(assets) ==> exists|listed: Seq<StoredAsset>|
                #![trigger newest_first(listed)]
                listed.to_multiset() == self.rows@.to_multiset() && newest_first(listed)
                    && assets@.len() == listed.len() && forall|k: int|
                    0 <= k < listed.len() ==> loaded_from(listed[k], #[trigger] assets@[k]),
            r matches Err(e) ==> e.kind == CatalogErrorKind::Other,
    {
        let mut listed: Vec<StoredAsset> = Vec::new();
        let mut i: usize = 0;
        proof {
            assert(self.rows@.take(0) =~= Seq::<StoredAsset>::empty());
        }
        while i < self.rows.len()
            invariant
                i <= self.rows@.len(),
                listed@.to_multiset() == self.rows@.take(i as int).to_multiset(),
                newest_first(listed@),
            decreases self.rows@.len() - i,
        {
            let row = self.copy_row(i);
            let mut p: usize = 0;
            while p < listed.len() && !listed_before(&row, &listed[p])
                invariant
                    p <= listed@.len(),
                    forall|q: int| 0 <= q < p ==> !imported_before(row, #[trigger] listed@[q]),
                decreases listed@.len() - p,
            {
                p = p + 1;
            }
            let ghost before = listed@;
            proof {
                if p < before.len() {
                    assert forall|q: int| p <= q < before.len() implies imported_before(
                        row,
                        #[trigger] before[q],
                    ) by {
                        if q > p {
                            lemma_imported_before_chain(row, before[p as int], before[q]);
                        }
                    }
                }
                assert forall|q: int| 0 <= q < p implies !imported_before(
                    row,
                    #[trigger] before[q],
                ) by {}
                vstd::seq_lib::to_multiset_insert(before, p as int, row);
                assert(self.rows@.take(i + 1) =~= self.rows@.take(i as int).push(row));
                vstd::seq_lib::to_multiset_build(self.rows@.take(i as int), row);
            }
            listed.insert(p, row);
            proof {
                assert(listed@ == before.insert(p as int, row));
                assert forall|a: int, b: int| 0 <= a < b < listed@.len() implies !imported_before(
                    #[trigger] listed@[b],
                    #[trigger] listed@[a],
                ) by {
                    if b == p {
                        if imported_before(row, listed@[a]) {
                            assert(listed@[a] == before[a]);
                        }
                    } else if a == p {
                        assert(listed@[b] == before[b - 1]);
                        lemma_imported_before_asymmetric(row, before[b - 1]);
                    } else {
                        let a0 = if a < p { a } else { a - 1 };
                        let b0 = if b < p { b } else { b - 1 };
                        assert(listed@[a] == before[a0]);
                        assert(listed@[b] == before[b0]);
                    }
                }
            }
            i = i + 1;
        }
        proof {
            assert(self.rows@.take(i as int) =~= self.rows@);
        }
        let mut assets: Vec<AudioAsset> = Vec::new();
        let mut k: usize = 0;
        while k < listed.len()
            invariant
                k <= listed@.len(),
                listed@.to_multiset() == self.rows@.to_multiset(),
                newest_first(listed@),
                assets@.len() == k,
                forall|m: int| 0 <= m < k ==> stored_asset_ok(#[trigger] listed@[m]),
                forall|m: int| 0 <= m < k ==> loaded_from(listed@[m], #[trigger] assets@[m]),
            decreases listed@.len() - k,
        {
            let row = StoredAsset {
                id: listed[k].id.clone(),
                content_hash: listed[k].content_hash.clone(),
                path: listed[k].path.clone(),
                path_status: listed[k].path_status.clone(),
                size_bytes: listed[k].size_bytes,
                codec: match &listed[k].codec {
                    Some(c) => Some(c.clone()),
                    None => None,
                },
                duration_millis: listed[k].duration_millis,
                recorded_at_millis: listed[k].recorded_at_millis,
                imported_at_millis: listed[k].imported_at_millis,
                max_level: listed[k].max_level,
            };
            assert(row == listed@[k as int]);
            match load_asset(row) {
                Ok(asset) => assets.push(asset),
                Err(e) => {
                    proof {
                        assert(listed@.contains(listed@[k as int]));
                        vstd::seq_lib::to_multiset_contains(listed@, listed@[k as int]);
                        vstd::seq_lib::to_multiset_contains(self.rows@, listed@[k as int]);
                        let j = choose|j: int| 0 <= j < self.rows@.len() && self.rows@[j] == listed@[k as int];
                        assert(!stored_asset_ok(self.rows@[j]));
                    }
                    return Err(e);
                },
            }
            k = k + 1;
        }
        proof {
            assert forall|i2: int| 0 <= i2 < self.rows@.len() implies stored_asset_ok(
                #[trigger] self.rows@[i2],
            ) by {
                assert(self.rows@.contains(self.rows@[i2]));
                vstd::seq_lib::to_multiset_contains(self.rows@, self.rows@[i2]);
                vstd::seq_lib::to_multiset_contains(listed@, self.rows@[i2]);
                let m = choose|m: int| 0 <= m < listed@.len() && listed@[m] == self.rows@[i2];
                assert(stored_asset_ok(listed@[m]));
            }
        }
        Ok(assets)
    }
}

/// Asset `a` is listed before asset `b`: imported later, or imported at the
/// same time with a greater id.
pub open spec fn imported_before(a: StoredAsset, b: StoredAsset) -> bool {
    a.imported_at_millis > b.imported_at_millis || (a.imported_at_millis == b.imported_at_millis
        && text_lt(b.id@, a.id@))
}

/// Assets in listing order: newest import first, then greatest id first.
pub open spec fn newest_first(rows: Seq<StoredAsset>) -> bool {
    forall|i: int, j: int|
        0 <= i < j < rows.len() ==> !imported_before(#[trigger] rows[j], #[trigger] rows[i])
}

fn listed_before(a: &StoredAsset, b: &StoredAsset) -> (r: bool)
    ensures
        r == imported_before(*a, *b),
{
    a.imported_at_millis > b.imported_at_millis || (a.imported_at_millis == b.imported_at_millis
        && text_less(b.id.as_str(), a.id.as_str()))
}

proof fn lemma_imported_before_asymmetric(a: StoredAsset, b: StoredAsset)
    requires
        imported_before(a, b),
    ensures
        !imported_before(b, a),
{
    if a.imported_at_millis == b.imported_at_millis && text_lt(a.id@, b.id@) {
        lemma_text_lt_transitive(b.id@, a.id@, b.id@);
        lemma_text_lt_irreflexive(b.id@);
    }
}

/// If `a` comes before `b` and `c` does not come before `b`, then `a`
/// comes before `c`.
proof fn lemma_imported_before_chain(a: StoredAsset, b: StoredAsset, c: StoredAsset)
    requires
        imported_before(a, b),
        !imported_before(c, b),
    ensures
        imported_before(a, c),
{
    if a.imported_at_millis == b.imported_at_millis && b.imported_at_millis == c.imported_at_millis {
        if b.id@ != c.id@ {
            lemma_text_lt_total(b.id@, c.id@);
            lemma_text_lt_transitive(c.id@, b.id@, a.id@);
        }
    }
}

} // verus!
