//! Rights-tracked impulse-response identity and preparation evidence.
//!
//! Exact source bytes and rebuildable prepared bytes live in their stores;
//! the catalog keeps immutable identities, append-only import declarations,
//! and the evidence that validates a prepared artifact. An import is
//! recorded in three steps against what is already stored: the import id
//! (replay or conflict), the source size, then the preparation evidence.

use vstd::prelude::*;

use crate::catalog::error::{
    fails_with, invalid_column_type_text, invalid_query_text, other_error, out_of_range_text,
    signed_decimal, stored_type_name, CatalogError, CatalogErrorKind, StoredType,
};
use crate::catalog::identity::{
    is_canonical_uuid_text, lemma_uuid_hyphenated_injective, parse_uuid, uuid_hyphenated, uuid_parse,
};
use crate::content_hash::{
    hash_text_bytes, hex_text, is_hash_text, lemma_hash_text_round_trip, ContentHash,
};
use crate::text::{
    decimal, lemma_text_lt_irreflexive, lemma_text_lt_total, lemma_text_lt_transitive, same_text,
    text_less, text_lt,
};

verus! {

/// Canonical plane interpretation of one prepared impulse response.
#[derive(Debug, Clone, Copy, PartialEq, Eq, Structural)]
pub enum ImpulseResponseLayout {
    Mono,
    StereoParallel,
    TrueStereoLlLrRlRr,
}

/// The stored text of a layout.
pub open spec fn layout_text(layout: ImpulseResponseLayout) -> Seq<char> {
    match layout {
        ImpulseResponseLayout::Mono => "mono"@,
        ImpulseResponseLayout::StereoParallel => "stereo_parallel"@,
        ImpulseResponseLayout::TrueStereoLlLrRlRr => "true_stereo_ll_lr_rl_rr"@,
    }
}

/// The layout a stored text names, if any.
pub open spec fn layout_named(text: Seq<char>) -> Option<ImpulseResponseLayout> {
    if text == "mono"@ {
        Some(ImpulseResponseLayout::Mono)
    } else if text == "stereo_parallel"@ {
        Some(ImpulseResponseLayout::StereoParallel)
    } else if text == "true_stereo_ll_lr_rl_rr"@ {
        Some(ImpulseResponseLayout::TrueStereoLlLrRlRr)
    } else {
        None
    }
}

impl ImpulseResponseLayout {
    /// The stored text of this layout.
    pub fn as_str(self) -> (r: &'static str)
        ensures
            r@ == layout_text(self),
    {
        match self {
            ImpulseResponseLayout::Mono => "mono",
            ImpulseResponseLayout::StereoParallel => "stereo_parallel",
            ImpulseResponseLayout::TrueStereoLlLrRlRr => "true_stereo_ll_lr_rl_rr",
        }
    }

    /// Reads a stored layout.
    pub fn from_stored(value: &str) -> (r: Result<ImpulseResponseLayout, CatalogError>)
        ensures
            r is Ok <==> layout_named(value@) is Some,
            r matches Ok(layout) ==> layout_named(value@) == Some(layout),
            r matches Err(e) ==> e.kind == CatalogErrorKind::Other && e.message@
                == invalid_query(),
    {
        if same_text(value, "mono") {
            Ok(ImpulseResponseLayout::Mono)
        } else if same_text(value, "stereo_parallel") {
            Ok(ImpulseResponseLayout::StereoParallel)
        } else if same_text(value, "true_stereo_ll_lr_rl_rr") {
            Ok(ImpulseResponseLayout::TrueStereoLlLrRlRr)
        } else {
            Err(invalid_query_error())
        }
    }
}

/// Every layout's stored text names that layout again.
pub proof fn lemma_layout_text_round_trip(layout: ImpulseResponseLayout)
    ensures
        layout_named(layout_text(layout)) == Some(layout),
{
    reveal_strlit("mono");
    reveal_strlit("stereo_parallel");
    reveal_strlit("true_stereo_ll_lr_rl_rr");
    assert("mono"@.len() == 4);
    assert("stereo_parallel"@.len() == 15);
    assert("true_stereo_ll_lr_rl_rr"@.len() == 23);
}

/// How one impulse response may be used.
#[derive(Debug, Clone, PartialEq, Eq)]
pub enum ImpulseResponseRights {
    Spdx { expression: String, license_url: Option<String> },
    UserOwnedNoRedistribution,
}

/// One already-published import.
#[derive(Debug, Clone, PartialEq, Eq)]
pub struct ImpulseResponseRecord {
    /// The import's UUID.
    pub import_id: u128,
    pub source_hash: ContentHash,
    pub source_size_bytes: u64,
    pub prepared_hash: ContentHash,
    pub prepared_size_bytes: u64,
    pub preparation_version: u32,
    pub source_sample_rate: u32,
    pub channel_count: u32,
    pub layout: ImpulseResponseLayout,
    pub source_frame_count: u64,
    pub prepared_frame_count: u64,
    pub avcodec_version: u32,
    pub swresample_version: u32,
    pub imported_at_millis: u64,
    pub original_path: String,
    pub display_name: String,
    pub creator: Option<String>,
    pub source_url: Option<String>,
    pub attribution: Option<String>,
    pub rights: ImpulseResponseRights,
}

/// Two optional texts are the same.
pub open spec fn same_optional_text(a: Option<String>, b: Option<String>) -> bool {
    match (a, b) {
        (Some(x), Some(y)) => x@ == y@,
        (None, None) => true,
        _ => false,
    }
}

/// Two rights declarations are the same.
pub open spec fn same_rights(a: ImpulseResponseRights, b: ImpulseResponseRights) -> bool {
    match (a, b) {
        (
            ImpulseResponseRights::Spdx { expression: e1, license_url: l1 },
            ImpulseResponseRights::Spdx { expression: e2, license_url: l2 },
        ) => e1@ == e2@ && same_optional_text(l1, l2),
        (
            ImpulseResponseRights::UserOwnedNoRedistribution,
            ImpulseResponseRights::UserOwnedNoRedistribution,
        ) => true,
        _ => false,
    }
}

/// Two records carry identical evidence, field by field.
pub open spec fn same_record(a: ImpulseResponseRecord, b: ImpulseResponseRecord) -> bool {
    &&& a.import_id == b.import_id
    &&& a.source_hash.bytes@ == b.source_hash.bytes@
    &&& a.source_size_bytes == b.source_size_bytes
    &&& a.prepared_hash.bytes@ == b.prepared_hash.bytes@
    &&& a.prepared_size_bytes == b.prepared_size_bytes
    &&& a.preparation_version == b.preparation_version
    &&& a.source_sample_rate == b.source_sample_rate
    &&& a.channel_count == b.channel_count
    &&& a.layout == b.layout
    &&& a.source_frame_count == b.source_frame_count
    &&& a.prepared_frame_count == b.prepared_frame_count
    &&& a.avcodec_version == b.avcodec_version
    &&& a.swresample_version == b.swresample_version
    &&& a.imported_at_millis == b.imported_at_millis
    &&& a.original_path@ == b.original_path@
    &&& a.display_name@ == b.display_name@
    &&& same_optional_text(a.creator, b.creator)
    &&& same_optional_text(a.source_url, b.source_url)
    &&& same_optional_text(a.attribution, b.attribution)
    &&& same_rights(a.rights, b.rights)
}

/// Two records are the same evidence exactly when every immutable field
/// agrees: the import id, the source and prepared content hashes and sizes,
/// the preparation's version, rate, channels, layout and frame counts, the
/// decoder versions, the import time, the path and name, the optional
/// attribution texts and the rights. Records that differ in any one of them,
/// the source content hash among them, are never the same evidence.
pub proof fn lemma_same_record_is_field_equality(a: ImpulseResponseRecord, b: ImpulseResponseRecord)
    ensures
        same_record(a, b) <==> {
            &&& a.import_id == b.import_id
            &&& a.source_hash.bytes@ == b.source_hash.bytes@
            &&& a.source_size_bytes == b.source_size_bytes
            &&& a.prepared_hash.bytes@ == b.prepared_hash.bytes@
            &&& a.prepared_size_bytes == b.prepared_size_bytes
            &&& a.preparation_version == b.preparation_version
            &&& a.source_sample_rate == b.source_sample_rate
            &&& a.channel_count == b.channel_count
            &&& a.layout == b.layout
            &&& a.source_frame_count == b.source_frame_count
            &&& a.prepared_frame_count == b.prepared_frame_count
            &&& a.avcodec_version == b.avcodec_version
            &&& a.swresample_version == b.swresample_version
            &&& a.imported_at_millis == b.imported_at_millis
            &&& a.original_path@ == b.original_path@
            &&& a.display_name@ == b.display_name@
            &&& (a.creator is Some <==> b.creator is Some)
            &&& (a.creator matches Some(x) ==> x@ == b.creator->0@)
            &&& (a.source_url is Some <==> b.source_url is Some)
            &&& (a.source_url matches Some(x) ==> x@ == b.source_url->0@)
            &&& (a.attribution is Some <==> b.attribution is Some)
            &&& (a.attribution matches Some(x) ==> x@ == b.attribution->0@)
            &&& (a.rights is UserOwnedNoRedistribution <==> b.rights is UserOwnedNoRedistribution)
            &&& (a.rights matches ImpulseResponseRights::Spdx { expression, license_url } ==> (
            b.rights matches ImpulseResponseRights::Spdx { expression: e2, license_url: l2 }
                && expression@ == e2@ && (license_url is Some <==> l2 is Some) && (
            license_url matches Some(x) ==> x@ == l2->0@)))
        },
{
}

/// Every record is the same evidence as itself.
pub proof fn lemma_same_record_reflexive(a: ImpulseResponseRecord)
    ensures
        same_record(a, a),
{
}

fn optional_text_equal(a: &Option<String>, b: &Option<String>) -> (r: bool)
    ensures
        r == same_optional_text(*a, *b),
{
    match (a, b) {
        (Some(x), Some(y)) => same_text(x.as_str(), y.as_str()),
        (None, None) => true,
        _ => false,
    }
}

fn rights_equal(a: &ImpulseResponseRights, b: &ImpulseResponseRights) -> (r: bool)
    ensures
        r == same_rights(*a, *b),
{
    match (a, b) {
        (
            ImpulseResponseRights::Spdx { expression: e1, license_url: l1 },
            ImpulseResponseRights::Spdx { expression: e2, license_url: l2 },
        ) => same_text(e1.as_str(), e2.as_str()) && optional_text_equal(l1, l2),
        (
            ImpulseResponseRights::UserOwnedNoRedistribution,
            ImpulseResponseRights::UserOwnedNoRedistribution,
        ) => true,
        _ => false,
    }
}

/// Whether two records carry identical evidence.
pub fn records_equal(a: &ImpulseResponseRecord, b: &ImpulseResponseRecord) -> (r: bool)
    ensures
        r == same_record(*a, *b),
        r ==> a.import_id == b.import_id && a.source_hash.bytes@ == b.source_hash.bytes@
            && a.prepared_hash.bytes@ == b.prepared_hash.bytes@,
{
    proof {
        lemma_same_record_is_field_equality(*a, *b);
    }
    a.import_id == b.import_id && a.source_hash.same_as(&b.source_hash) && a.source_size_bytes
        == b.source_size_bytes && a.prepared_hash.same_as(&b.prepared_hash)
        && a.prepared_size_bytes == b.prepared_size_bytes && a.preparation_version
        == b.preparation_version && a.source_sample_rate == b.source_sample_rate
        && a.channel_count == b.channel_count && a.layout == b.layout && a.source_frame_count
        == b.source_frame_count && a.prepared_frame_count == b.prepared_frame_count
        && a.avcodec_version == b.avcodec_version && a.swresample_version
        == b.swresample_version && a.imported_at_millis == b.imported_at_millis && same_text(
        a.original_path.as_str(),
        b.original_path.as_str(),
    ) && same_text(a.display_name.as_str(), b.display_name.as_str()) && optional_text_equal(
        &a.creator,
        &b.creator,
    ) && optional_text_equal(&a.source_url, &b.source_url) && optional_text_equal(
        &a.attribution,
        &b.attribution,
    ) && rights_equal(&a.rights, &b.rights)
}

/// The supported preparations: version 1 mono or parallel stereo, version
/// 2 true stereo over four planes.
pub open spec fn preparation_shape_ok(record: ImpulseResponseRecord) -> bool {
    ||| record.preparation_version == 1 && record.channel_count == 1 && record.layout
        == ImpulseResponseLayout::Mono
    ||| record.preparation_version == 1 && record.channel_count == 2 && record.layout
        == ImpulseResponseLayout::StereoParallel
    ||| record.preparation_version == 2 && record.channel_count == 4 && record.layout
        == ImpulseResponseLayout::TrueStereoLlLrRlRr
}

/// Rejects a preparation whose version, channel count and layout conflict.
pub fn validate_preparation_shape(record: &ImpulseResponseRecord) -> (r: Result<(), CatalogError>)
    ensures
        r is Ok <==> preparation_shape_ok(*record),
        r matches Err(e) ==> e.kind == CatalogErrorKind::Other && e.message@
            == "impulse response preparation version, channels, and layout conflict"@,
{
    let ok = (record.preparation_version == 1 && record.channel_count == 1 && record.layout
        == ImpulseResponseLayout::Mono) || (record.preparation_version == 1 && record.channel_count
        == 2 && record.layout == ImpulseResponseLayout::StereoParallel) || (
    record.preparation_version == 2 && record.channel_count == 4 && record.layout
        == ImpulseResponseLayout::TrueStereoLlLrRlRr);
    if ok {
        Ok(())
    } else {
        Err(other_error("impulse response preparation version, channels, and layout conflict"))
    }
}

/// The failure reported when a value does not fit the catalog's integers.
pub open spec fn range_message() -> Seq<char> {
    "out of range integral type conversion attempted"@
}

fn catalog_integer(value: u64) -> (r: Result<i64, CatalogError>)
    ensures
        r is Ok <==> value <= i64::MAX,
        r matches Ok(v) ==> v == value,
        r matches Err(e) ==> e.kind == CatalogErrorKind::Other && e.message@ == range_message(),
{
    if value > i64::MAX as u64 {
        Err(other_error("out of range integral type conversion attempted"))
    } else {
        Ok(value as i64)
    }
}

/// The columns of the immutable source row: `(size_bytes, created_at)`.
#[derive(Debug, Clone, Copy, PartialEq, Eq, Structural)]
pub struct SourceColumns {
    pub size_bytes: i64,
    pub created_at_millis: i64,
}

/// The first step of recording an import, against the imports already
/// listed: an import id that is already recorded with identical evidence is
/// a replay (`Ok(None)`, nothing to write); with different evidence it is a
/// conflict. A new import yields the source row to write. The preparation
/// shape is checked before anything else, and the source size and import
/// time must fit the catalog.
pub fn record_impulse_response(record: &ImpulseResponseRecord, existing: &[ImpulseResponseRecord]) -> (r:
    Result<Option<SourceColumns>, CatalogError>)
    ensures
        !preparation_shape_ok(*record) ==> fails_with(
            r,
            "impulse response preparation version, channels, and layout conflict"@,
        ),
        preparation_shape_ok(*record) && first_with_import_id(existing@, record.import_id) >= 0
            ==> (r is Ok <==> same_record(
            existing@[first_with_import_id(existing@, record.import_id)],
            *record,
        )),
        r matches Ok(columns) ==> preparation_shape_ok(*record) && first_with_import_id(
            existing@,
            record.import_id,
        ) >= 0 ==> columns is None,
        preparation_shape_ok(*record) && first_with_import_id(existing@, record.import_id) >= 0
            && !same_record(existing@[first_with_import_id(existing@, record.import_id)], *record)
            ==> fails_with(r, "impulse response import id already names different evidence"@),
        preparation_shape_ok(*record) && first_with_import_id(existing@, record.import_id) < 0
            ==> (r is Ok <==> record.source_size_bytes <= i64::MAX && record.imported_at_millis
            <= i64::MAX),
        r matches Ok(columns) ==> preparation_shape_ok(*record) && first_with_import_id(
            existing@,
            record.import_id,
        ) < 0 ==> (columns matches Some(c) && c.size_bytes == record.source_size_bytes
            && c.created_at_millis == record.imported_at_millis),
        r matches Err(e) ==> preparation_shape_ok(*record) && first_with_import_id(
            existing@,
            record.import_id,
        ) < 0 ==> e.message@ == range_message(),
        r matches Err(e) ==> e.kind == CatalogErrorKind::Other,
        first_with_import_id(existing@, record.import_id) >= 0 && (existing@[first_with_import_id(
            existing@,
            record.import_id,
        )].source_hash.bytes@ != record.source_hash.bytes@ || existing@[first_with_import_id(
            existing@,
            record.import_id,
        )].prepared_hash.bytes@ != record.prepared_hash.bytes@) ==> r is Err,
{
    proof {
        let f = first_with_import_id(existing@, record.import_id);
        if f >= 0 {
            lemma_same_record_is_field_equality(existing@[f], *record);
        }
    }
    validate_preparation_shape(record)?;
    let mut i: usize = 0;
    while i < existing.len()
        invariant
            preparation_shape_ok(*record),
            i <= existing@.len(),
            forall|k: int| 0 <= k < i ==> (#[trigger] existing@[k]).import_id != record.import_id,
        decreases existing@.len() - i,
    {
        if existing[i].import_id == record.import_id {
            proof {
                lemma_first_with_import_id(existing@, record.import_id, i as int);
            }
            if records_equal(&existing[i], record) {
                return Ok(None);
            }
            return Err(other_error("impulse response import id already names different evidence"));
        }
        i = i + 1;
    }
    proof {
        lemma_no_import_id(existing@, record.import_id);
    }
    let size_bytes = catalog_integer(record.source_size_bytes)?;
    let created_at_millis = catalog_integer(record.imported_at_millis)?;
    Ok(Some(SourceColumns { size_bytes, created_at_millis }))
}

/// Index of the first record with `import_id`, or `-1`.
pub open spec fn first_with_import_id(records: Seq<ImpulseResponseRecord>, import_id: u128) -> int
    decreases records.len(),
{
    if records.len() == 0 {
        -1
    } else if records[0].import_id == import_id {
        0
    } else {
        let rest = first_with_import_id(records.drop_first(), import_id);
        if rest < 0 {
            -1
        } else {
            rest + 1
        }
    }
}

proof fn lemma_first_with_import_id(records: Seq<ImpulseResponseRecord>, import_id: u128, i: int)
    requires
        0 <= i < records.len(),
        records[i].import_id == import_id,
        forall|k: int| 0 <= k < i ==> (#[trigger] records[k]).import_id != import_id,
    ensures
        first_with_import_id(records, import_id) == i,
    decreases i,
{
    if i > 0 {
        assert forall|k: int| 0 <= k < i - 1 implies (#[trigger] records.drop_first()[k]).import_id
            != import_id by {
            assert(records.drop_first()[k] == records[k + 1]);
        }
        lemma_first_with_import_id(records.drop_first(), import_id, i - 1);
    }
}

proof fn lemma_no_import_id(records: Seq<ImpulseResponseRecord>, import_id: u128)
    requires
        forall|k: int| 0 <= k < records.len() ==> (#[trigger] records[k]).import_id != import_id,
    ensures
        first_with_import_id(records, import_id) == -1,
    decreases records.len(),
{
    if records.len() > 0 {
        assert forall|k: int| 0 <= k < records.len() - 1 implies (
        #[trigger] records.drop_first()[k]).import_id != import_id by {
            assert(records.drop_first()[k] == records[k + 1]);
        }
        lemma_no_import_id(records.drop_first(), import_id);
    }
}

/// The preparation columns, in storage order: source hash text, size,
/// version, sample rate, channels, layout text, source frames, prepared
/// frames, avcodec version, swresample version.
#[derive(Debug, Clone, PartialEq, Eq)]
pub struct PreparationColumns {
    pub source_hash: String,
    pub size_bytes: i64,
    pub preparation_version: i64,
    pub source_sample_rate: i64,
    pub channel_count: i64,
    pub layout: String,
    pub source_frame_count: i64,
    pub prepared_frame_count: i64,
    pub avcodec_version: i64,
    pub swresample_version: i64,
}

/// The preparation columns a record stores.
pub open spec fn preparation_columns_of(
    record: ImpulseResponseRecord,
    columns: PreparationColumns,
) -> bool {
    &&& columns.source_hash@ == crate::content_hash::hex_text(record.source_hash.bytes@)
    &&& columns.size_bytes == record.prepared_size_bytes
    &&& columns.preparation_version == record.preparation_version
    &&& columns.source_sample_rate == record.source_sample_rate
    &&& columns.channel_count == record.channel_count
    &&& columns.layout@ == layout_text(record.layout)
    &&& columns.source_frame_count == record.source_frame_count
    &&& columns.prepared_frame_count == record.prepared_frame_count
    &&& columns.avcodec_version == record.avcodec_version
    &&& columns.swresample_version == record.swresample_version
}

/// All counts of the preparation fit the catalog's integers.
pub open spec fn preparation_fits(record: ImpulseResponseRecord) -> bool {
    &&& record.prepared_size_bytes <= i64::MAX
    &&& record.source_frame_count <= i64::MAX
    &&& record.prepared_frame_count <= i64::MAX
}

/// The columns of a record's preparation row.
pub fn preparation_columns(record: &ImpulseResponseRecord) -> (r: Result<PreparationColumns, CatalogError>)
    ensures
        r is Ok <==> preparation_fits(*record),
        r matches Ok(c) ==> preparation_columns_of(*record, c),
        r matches Err(e) ==> e.kind == CatalogErrorKind::Other && e.message@ == range_message(),
{
    let size_bytes = catalog_integer(record.prepared_size_bytes)?;
    let source_frame_count = catalog_integer(record.source_frame_count)?;
    let prepared_frame_count = catalog_integer(record.prepared_frame_count)?;
    Ok(
        PreparationColumns {
            source_hash: record.source_hash.to_hex(),
            size_bytes,
            preparation_version: record.preparation_version as i64,
            source_sample_rate: record.source_sample_rate as i64,
            channel_count: record.channel_count as i64,
            layout: crate::text::owned(record.layout.as_str()),
            source_frame_count,
            prepared_frame_count,
            avcodec_version: record.avcodec_version as i64,
            swresample_version: record.swresample_version as i64,
        },
    )
}

/// The second step: the size stored for the source hash must be the
/// record's; then the preparation row to write follows.
pub fn check_source_size(record: &ImpulseResponseRecord, stored_size: i64) -> (r: Result<
    PreparationColumns,
    CatalogError,
>)
    ensures
        r is Ok <==> stored_size == record.source_size_bytes && preparation_fits(*record),
        r matches Ok(c) ==> preparation_columns_of(*record, c),
        r matches Err(e) ==> e.kind == CatalogErrorKind::Other,
        stored_size >= 0 && stored_size != record.source_size_bytes ==> fails_with(
            r,
            "impulse response source hash has conflicting size evidence"@,
        ),
        stored_size < 0 ==> fails_with(r, stored_out_of_range(stored_size)),
{
    if stored_size < 0 {
        return Err(out_of_range(stored_size));
    }
    if stored_size as u64 != record.source_size_bytes {
        return Err(other_error("impulse response source hash has conflicting size evidence"));
    }
    preparation_columns(record)
}

fn preparation_columns_equal(a: &PreparationColumns, b: &PreparationColumns) -> (r: bool)
    ensures
        r == (a.source_hash@ == b.source_hash@ && a.size_bytes == b.size_bytes
            && a.preparation_version == b.preparation_version && a.source_sample_rate
            == b.source_sample_rate && a.channel_count == b.channel_count && a.layout@
            == b.layout@ && a.source_frame_count == b.source_frame_count
            && a.prepared_frame_count == b.prepared_frame_count && a.avcodec_version
            == b.avcodec_version && a.swresample_version == b.swresample_version),
{
    same_text(a.source_hash.as_str(), b.source_hash.as_str()) && a.size_bytes == b.size_bytes
        && a.preparation_version == b.preparation_version && a.source_sample_rate
        == b.source_sample_rate && a.channel_count == b.channel_count && same_text(
        a.layout.as_str(),
        b.layout.as_str(),
    ) && a.source_frame_count == b.source_frame_count && a.prepared_frame_count
        == b.prepared_frame_count && a.avcodec_version == b.avcodec_version
        && a.swresample_version == b.swresample_version
}

/// The rights columns of an import: `(kind, spdx expression, license url)`.
pub open spec fn rights_columns_of(
    rights: ImpulseResponseRights,
    kind: Seq<char>,
    expression: Option<String>,
    license_url: Option<String>,
) -> bool {
    match rights {
        ImpulseResponseRights::Spdx { expression: e, license_url: l } => kind == "spdx"@
            && (expression matches Some(x) && x@ == e@) && same_optional_text(license_url, l),
        ImpulseResponseRights::UserOwnedNoRedistribution => kind
            == "user_owned_no_redistribution"@ && expression is None && license_url is None,
    }
}

/// The rights that stored columns `(kind, spdx expression, license url)`
/// declare; the expression and url are read only for SPDX rights.
pub open spec fn rights_read_from(
    rights: ImpulseResponseRights,
    kind: Seq<char>,
    expression: Option<String>,
    license_url: Option<String>,
) -> bool {
    if kind == "spdx"@ {
        rights matches ImpulseResponseRights::Spdx { expression: e, license_url: l } && (
        expression matches Some(x) && x == e) && l == license_url
    } else {
        rights is UserOwnedNoRedistribution
    }
}

/// The import row's computed columns: import time and rights.
#[derive(Debug, Clone, PartialEq, Eq)]
pub struct ImportColumns {
    pub imported_at_millis: i64,
    pub rights_kind: &'static str,
    pub spdx_expression: Option<String>,
    pub license_url: Option<String>,
}

/// The third step: the preparation stored under the prepared hash must be
/// exactly the record's evidence; then the import row to write follows.
pub fn check_preparation(record: &ImpulseResponseRecord, stored: &PreparationColumns) -> (r: Result<
    ImportColumns,
    CatalogError,
>)
    ensures
        r is Ok <==> preparation_fits(*record) && preparation_columns_of(*record, *stored)
            && record.imported_at_millis <= i64::MAX,
        r matches Ok(c) ==> c.imported_at_millis == record.imported_at_millis
            && rights_columns_of(record.rights, c.rights_kind@, c.spdx_expression, c.license_url),
        r matches Err(e) ==> e.kind == CatalogErrorKind::Other,
        preparation_fits(*record) && !preparation_columns_of(*record, *stored) ==> fails_with(
            r,
            "prepared impulse response hash has conflicting evidence"@,
        ),
{
    let expected = preparation_columns(record)?;
    if !preparation_columns_equal(stored, &expected) {
        return Err(other_error("prepared impulse response hash has conflicting evidence"));
    }
    let imported_at_millis = catalog_integer(record.imported_at_millis)?;
    let (rights_kind, spdx_expression, license_url) = match &record.rights {
        ImpulseResponseRights::Spdx { expression, license_url } => (
            "spdx",
            Some(expression.clone()),
            license_url.clone(),
        ),
        ImpulseResponseRights::UserOwnedNoRedistribution => (
            "user_owned_no_redistribution",
            None,
            None,
        ),
    };
    Ok(ImportColumns { imported_at_millis, rights_kind, spdx_expression, license_url })
}

/// The stored columns of one listed import.
#[derive(Debug, Clone, PartialEq, Eq)]
pub struct StoredImpulseResponse {
    pub import_id: String,
    pub source_hash: String,
    pub source_size_bytes: i64,
    pub prepared_hash: String,
    pub prepared_size_bytes: i64,
    pub preparation_version: i64,
    pub source_sample_rate: i64,
    pub channel_count: i64,
    pub layout: String,
    pub source_frame_count: i64,
    pub prepared_frame_count: i64,
    pub avcodec_version: i64,
    pub swresample_version: i64,
    pub imported_at_millis: i64,
    pub original_path: String,
    pub display_name: String,
    pub creator: Option<String>,
    pub source_url: Option<String>,
    pub attribution: Option<String>,
    pub rights_kind: String,
    pub spdx_expression: Option<String>,
    pub license_url: Option<String>,
}

/// A stored import decodes: a known rights kind (with an expression for
/// SPDX), a UUID import id, hash texts, non-negative counts that fit their
/// types, and a known layout.
pub open spec fn stored_import_ok(row: StoredImpulseResponse) -> bool {
    &&& (row.rights_kind@ == "spdx"@ && row.spdx_expression is Some || row.rights_kind@
        == "user_owned_no_redistribution"@)
    &&& uuid_parse(row.import_id@) is Some
    &&& is_hash_text(row.source_hash@)
    &&& is_hash_text(row.prepared_hash@)
    &&& row.source_size_bytes >= 0
    &&& row.prepared_size_bytes >= 0
    &&& 0 <= row.preparation_version <= u32::MAX
    &&& 0 <= row.source_sample_rate <= u32::MAX
    &&& 0 <= row.channel_count <= u32::MAX
    &&& layout_named(row.layout@) is Some
    &&& row.source_frame_count >= 0
    &&& row.prepared_frame_count >= 0
    &&& 0 <= row.avcodec_version <= u32::MAX
    &&& 0 <= row.swresample_version <= u32::MAX
    &&& row.imported_at_millis >= 0
}

/// The storage engine's report of a value the listing query cannot read.
pub open spec fn invalid_query() -> Seq<char> {
    "Query is not read-only"@
}

/// The storage engine's report of an SPDX import without its expression.
pub open spec fn missing_spdx() -> Seq<char> {
    "Invalid column type "@ + stored_type_name(StoredType::Null) + " at index: "@ + decimal(20)
        + ", name: "@ + "spdx_expression"@
}

fn invalid_query_error() -> (r: CatalogError)
    ensures
        r.kind == CatalogErrorKind::Other,
        r.message@ == invalid_query(),
{
    CatalogError { kind: CatalogErrorKind::Other, message: invalid_query_text() }
}

fn missing_spdx_error() -> (r: CatalogError)
    ensures
        r.kind == CatalogErrorKind::Other,
        r.message@ == missing_spdx(),
{
    CatalogError {
        kind: CatalogErrorKind::Other,
        message: invalid_column_type_text(20, "spdx_expression", StoredType::Null),
    }
}

/// The storage engine's report of a stored integer out of range.
pub open spec fn stored_out_of_range(value: i64) -> Seq<char> {
    "Integer "@ + signed_decimal(value as int) + " out of range at index 0"@
}

fn out_of_range(value: i64) -> (r: CatalogError)
    ensures
        r.kind == CatalogErrorKind::Other,
        r.message@ == stored_out_of_range(value),
{
    proof {
        reveal_strlit(" out of range at index 0");
        reveal_strlit(" out of range at index ");
        assert(decimal(0) == seq!['0']);
    }
    let message = out_of_range_text(0, value);
    assert(message@ =~= stored_out_of_range(value));
    CatalogError { kind: CatalogErrorKind::Other, message }
}

fn stored_u64(value: i64) -> (r: Result<u64, CatalogError>)
    ensures
        r is Ok <==> value >= 0,
        r matches Ok(v) ==> v == value,
        r matches Err(e) ==> e.kind == CatalogErrorKind::Other && e.message@ == stored_out_of_range(
            value,
        ),
{
    if value < 0 {
        Err(out_of_range(value))
    } else {
        Ok(value as u64)
    }
}

fn stored_u32(value: i64) -> (r: Result<u32, CatalogError>)
    ensures
        r is Ok <==> 0 <= value <= u32::MAX,
        r matches Ok(v) ==> v == value,
        r matches Err(e) ==> e.kind == CatalogErrorKind::Other && e.message@ == stored_out_of_range(
            value,
        ),
{
    if value < 0 || value > u32::MAX as i64 {
        Err(out_of_range(value))
    } else {
        Ok(value as u32)
    }
}

fn stored_hash(text: &str) -> (r: Result<ContentHash, CatalogError>)
    ensures
        r is Ok <==> is_hash_text(text@),
        r matches Ok(h) ==> h.bytes@ == hash_text_bytes(text@),
        r matches Err(e) ==> e.kind == CatalogErrorKind::Other && e.message@ == invalid_query(),
{
    match ContentHash::from_hex(text) {
        Some(h) => Ok(h),
        None => Err(invalid_query_error()),
    }
}

/// The report for a stored `u64` count, if it does not fit.
pub open spec fn u64_failure(value: i64) -> Option<Seq<char>> {
    if value < 0 {
        Some(stored_out_of_range(value))
    } else {
        None
    }
}

/// The report for a stored `u32` count, if it does not fit.
pub open spec fn u32_failure(value: i64) -> Option<Seq<char>> {
    if value < 0 || value > u32::MAX {
        Some(stored_out_of_range(value))
    } else {
        None
    }
}

/// The first failure met decoding a listed import, in column order: the
/// rights, the import id, the source hash and size, the prepared hash and
/// size, the preparation version, sample rate and channel count, the
/// layout, the frame counts, the decoder versions and the import time.
pub open spec fn import_row_failure(row: StoredImpulseResponse) -> Option<Seq<char>> {
    if row.rights_kind@ == "spdx"@ && row.spdx_expression is None {
        Some(missing_spdx())
    } else if row.rights_kind@ != "spdx"@ && row.rights_kind@ != "user_owned_no_redistribution"@ {
        Some(invalid_query())
    } else if uuid_parse(row.import_id@) is None {
        Some(invalid_query())
    } else if !is_hash_text(row.source_hash@) {
        Some(invalid_query())
    } else if u64_failure(row.source_size_bytes) is Some {
        u64_failure(row.source_size_bytes)
    } else if !is_hash_text(row.prepared_hash@) {
        Some(invalid_query())
    } else if u64_failure(row.prepared_size_bytes) is Some {
        u64_failure(row.prepared_size_bytes)
    } else if u32_failure(row.preparation_version) is Some {
        u32_failure(row.preparation_version)
    } else if u32_failure(row.source_sample_rate) is Some {
        u32_failure(row.source_sample_rate)
    } else if u32_failure(row.channel_count) is Some {
        u32_failure(row.channel_count)
    } else if layout_named(row.layout@) is None {
        Some(invalid_query())
    } else if u64_failure(row.source_frame_count) is Some {
        u64_failure(row.source_frame_count)
    } else if u64_failure(row.prepared_frame_count) is Some {
        u64_failure(row.prepared_frame_count)
    } else if u32_failure(row.avcodec_version) is Some {
        u32_failure(row.avcodec_version)
    } else if u32_failure(row.swresample_version) is Some {
        u32_failure(row.swresample_version)
    } else {
        u64_failure(row.imported_at_millis)
    }
}

/// `row` is what the catalog lists for an import recorded from `record`:
/// the id in its hyphenated text, hashes in their canonical text, counts,
/// layout text, texts and rights columns as recorded.
pub open spec fn listed_row_of(record: ImpulseResponseRecord, row: StoredImpulseResponse) -> bool {
    &&& row.import_id@ == uuid_hyphenated(record.import_id)
    &&& row.source_hash@ == hex_text(record.source_hash.bytes@)
    &&& row.source_size_bytes == record.source_size_bytes
    &&& row.prepared_hash@ == hex_text(record.prepared_hash.bytes@)
    &&& row.prepared_size_bytes == record.prepared_size_bytes
    &&& row.preparation_version == record.preparation_version
    &&& row.source_sample_rate == record.source_sample_rate
    &&& row.channel_count == record.channel_count
    &&& row.layout@ == layout_text(record.layout)
    &&& row.source_frame_count == record.source_frame_count
    &&& row.prepared_frame_count == record.prepared_frame_count
    &&& row.avcodec_version == record.avcodec_version
    &&& row.swresample_version == record.swresample_version
    &&& row.imported_at_millis == record.imported_at_millis
    &&& row.original_path@ == record.original_path@
    &&& row.display_name@ == record.display_name@
    &&& same_optional_text(row.creator, record.creator)
    &&& same_optional_text(row.source_url, record.source_url)
    &&& same_optional_text(row.attribution, record.attribution)
    &&& rights_columns_of(record.rights, row.rights_kind@, row.spdx_expression, row.license_url)
}

/// What a listed row of `record` yields to its decoder.
pub open spec fn listed_row_facts(record: ImpulseResponseRecord, row: StoredImpulseResponse) -> bool {
    &&& is_hash_text(row.source_hash@)
    &&& hash_text_bytes(row.source_hash@) == record.source_hash.bytes@
    &&& is_hash_text(row.prepared_hash@)
    &&& hash_text_bytes(row.prepared_hash@) == record.prepared_hash.bytes@
    &&& layout_named(row.layout@) == Some(record.layout)
    &&& is_canonical_uuid_text(row.import_id@)
}

proof fn lemma_listed_row_facts(record: ImpulseResponseRecord, row: StoredImpulseResponse)
    requires
        listed_row_of(record, row),
    ensures
        listed_row_facts(record, row),
{
    lemma_hash_text_round_trip(record.source_hash.bytes@);
    lemma_hash_text_round_trip(record.prepared_hash.bytes@);
    lemma_layout_text_round_trip(record.layout);
    assert(row.import_id@ == uuid_hyphenated(record.import_id));
}

/// `rec` is the record that a decodable stored import reads as.
pub open spec fn decoded_import(row: StoredImpulseResponse, rec: ImpulseResponseRecord) -> bool {
    &&& uuid_parse(row.import_id@) == Some(rec.import_id)
    &&& rec.source_hash.bytes@ == hash_text_bytes(row.source_hash@)
    &&& rec.source_size_bytes == row.source_size_bytes
    &&& rec.prepared_hash.bytes@ == hash_text_bytes(row.prepared_hash@)
    &&& rec.prepared_size_bytes == row.prepared_size_bytes
    &&& rec.preparation_version == row.preparation_version
    &&& rec.source_sample_rate == row.source_sample_rate
    &&& rec.channel_count == row.channel_count
    &&& layout_named(row.layout@) == Some(rec.layout)
    &&& rec.source_frame_count == row.source_frame_count
    &&& rec.prepared_frame_count == row.prepared_frame_count
    &&& rec.avcodec_version == row.avcodec_version
    &&& rec.swresample_version == row.swresample_version
    &&& rec.imported_at_millis == row.imported_at_millis
    &&& rec.original_path == row.original_path
    &&& rec.display_name == row.display_name
    &&& rec.creator == row.creator
    &&& rec.source_url == row.source_url
    &&& rec.attribution == row.attribution
    &&& rights_read_from(rec.rights, row.rights_kind@, row.spdx_expression, row.license_url)
}

/// Decodes one listed import. A listed row of any recorded import decodes
/// to that import.
pub fn decode_impulse_response(row: &StoredImpulseResponse) -> (r: Result<
    ImpulseResponseRecord,
    CatalogError,
>)
    ensures
        r is Ok <==> stored_import_ok(*row),
        r matches Err(e) ==> e.kind == CatalogErrorKind::Other,
        r matches Err(e) ==> Some(e.message@) == import_row_failure(*row),
        r matches Ok(rec) ==> decoded_import(*row, rec),
        r is Err ==> forall|record: ImpulseResponseRecord| !listed_row_of(record, *row),
        r matches Ok(rec) ==> forall|record: ImpulseResponseRecord|
            listed_row_of(record, *row) ==> same_record(rec, record),
{
    proof {
        assert forall|record: ImpulseResponseRecord| listed_row_of(record, *row) implies listed_row_facts(
            record,
            *row,
        ) by {
            lemma_listed_row_facts(record, *row);
        }
        reveal_strlit("spdx");
        reveal_strlit("user_owned_no_redistribution");
        assert("spdx"@.len() != "user_owned_no_redistribution"@.len());
    }
    let rights = if same_text(row.rights_kind.as_str(), "spdx") {
        match &row.spdx_expression {
            Some(expression) => ImpulseResponseRights::Spdx {
                expression: expression.clone(),
                license_url: row.license_url.clone(),
            },
            None => {
                return Err(missing_spdx_error());
            },
        }
    } else if same_text(row.rights_kind.as_str(), "user_owned_no_redistribution") {
        ImpulseResponseRights::UserOwnedNoRedistribution
    } else {
        return Err(invalid_query_error());
    };
    let import_id = match parse_uuid(row.import_id.as_str()) {
        Ok(v) => v,
        Err(_) => {
            return Err(invalid_query_error());
        },
    };
    proof {
        assert forall|record: ImpulseResponseRecord| listed_row_of(record, *row) implies import_id
            == record.import_id by {
            lemma_uuid_hyphenated_injective(import_id, record.import_id);
        }
    }
    let source_hash = stored_hash(row.source_hash.as_str())?;
    let source_size_bytes = stored_u64(row.source_size_bytes)?;
    let prepared_hash = stored_hash(row.prepared_hash.as_str())?;
    let prepared_size_bytes = stored_u64(row.prepared_size_bytes)?;
    let preparation_version = stored_u32(row.preparation_version)?;
    let source_sample_rate = stored_u32(row.source_sample_rate)?;
    let channel_count = stored_u32(row.channel_count)?;
    let layout = ImpulseResponseLayout::from_stored(row.layout.as_str())?;
    let source_frame_count = stored_u64(row.source_frame_count)?;
    let prepared_frame_count = stored_u64(row.prepared_frame_count)?;
    let avcodec_version = stored_u32(row.avcodec_version)?;
    let swresample_version = stored_u32(row.swresample_version)?;
    let imported_at_millis = stored_u64(row.imported_at_millis)?;
    Ok(
        ImpulseResponseRecord {
            import_id,
            source_hash,
            source_size_bytes,
            prepared_hash,
            prepared_size_bytes,
            preparation_version,
            source_sample_rate,
            channel_count,
            layout,
            source_frame_count,
            prepared_frame_count,
            avcodec_version,
            swresample_version,
            imported_at_millis,
            original_path: row.original_path.clone(),
            display_name: row.display_name.clone(),
            creator: row.creator.clone(),
            source_url: row.source_url.clone(),
            attribution: row.attribution.clone(),
            rights,
        },
    )
}

/// Lists the stored imports in their listed order; the first row that does
/// not decode fails the whole listing.
pub fn list_impulse_responses(rows: &[StoredImpulseResponse]) -> (r: Result<
    Vec<ImpulseResponseRecord>,
    CatalogError,
>)
    ensures
        r is Ok <==> forall|i: int| 0 <= i < rows@.len() ==> stored_import_ok(#[trigger] rows@[i]),
        r matches Ok(records) ==> records@.len() == rows@.len() && forall|i: int|
            0 <= i < rows@.len() ==> decoded_import(rows@[i], #[trigger] records@[i]),
        r matches Err(e) ==> e.kind == CatalogErrorKind::Other,
        r matches Err(e) ==> exists|i: int|
            0 <= i < rows@.len() && !stored_import_ok(#[trigger] rows@[i]) && Some(e.message@)
                == import_row_failure(rows@[i]) && forall|k: int|
                0 <= k < i ==> stored_import_ok(rows@[k]),
{
    let mut records: Vec<ImpulseResponseRecord> = Vec::new();
    let mut i: usize = 0;
    while i < rows.len()
        invariant
            i <= rows@.len(),
            records@.len() == i,
            forall|k: int| 0 <= k < i ==> stored_import_ok(#[trigger] rows@[k]),
            forall|k: int| 0 <= k < i ==> decoded_import(rows@[k], #[trigger] records@[k]),
        decreases rows@.len() - i,
    {
        let record = match decode_impulse_response(&rows[i]) {
            Ok(record) => record,
            Err(e) => {
                assert(!stored_import_ok(rows@[i as int]));
                return Err(e);
            },
        };
        records.push(record);
        i = i + 1;
    }
    Ok(records)
}

/// An authored selection must resolve to exactly one immutable import:
/// `matches` is the number of imports with the selection's import id,
/// source hash and prepared hash.
pub fn require_single_import(matches: i64) -> (r: Result<(), CatalogError>)
    ensures
        r is Ok <==> matches == 1,
        r matches Err(e) ==> e.kind == CatalogErrorKind::Other && e.message@
            == "impulse response selection does not resolve to one immutable import"@,
{
    if matches == 1 {
        Ok(())
    } else {
        Err(other_error("impulse response selection does not resolve to one immutable import"))
    }
}

/// Import `a` is listed before import `b`: imported later, or imported at
/// the same time with a greater import id.
pub open spec fn listed_before(a: StoredImpulseResponse, b: StoredImpulseResponse) -> bool {
    a.imported_at_millis > b.imported_at_millis || (a.imported_at_millis == b.imported_at_millis
        && text_lt(b.import_id@, a.import_id@))
}

/// Imports in listing order: newest first, then greatest import id first.
pub open spec fn newest_imports_first(rows: Seq<StoredImpulseResponse>) -> bool {
    forall|i: int, j: int|
        0 <= i < j < rows.len() ==> !listed_before(#[trigger] rows[j], #[trigger] rows[i])
}

fn is_listed_before(a: &StoredImpulseResponse, b: &StoredImpulseResponse) -> (r: bool)
    ensures
        r == listed_before(*a, *b),
{
    a.imported_at_millis > b.imported_at_millis || (a.imported_at_millis == b.imported_at_millis
        && text_less(b.import_id.as_str(), a.import_id.as_str()))
}

proof fn lemma_listed_before_asymmetric(a: StoredImpulseResponse, b: StoredImpulseResponse)
    requires
        listed_before(a, b),
    ensures
        !listed_before(b, a),
{
    if a.imported_at_millis == b.imported_at_millis && text_lt(a.import_id@, b.import_id@) {
        lemma_text_lt_transitive(b.import_id@, a.import_id@, b.import_id@);
        lemma_text_lt_irreflexive(b.import_id@);
    }
}

proof fn lemma_listed_before_chain(a: StoredImpulseResponse, b: StoredImpulseResponse, c: StoredImpulseResponse)
    requires
        listed_before(a, b),
        !listed_before(c, b),
    ensures
        listed_before(a, c),
{
    if a.imported_at_millis == b.imported_at_millis && b.imported_at_millis == c.imported_at_millis {
        if b.import_id@ != c.import_id@ {
            lemma_text_lt_total(b.import_id@, c.import_id@);
            lemma_text_lt_transitive(c.import_id@, b.import_id@, a.import_id@);
        }
    }
}

/// Puts stored imports in listing order: newest import first, ties by
/// import id, greatest first.
pub fn order_imports(rows: Vec<StoredImpulseResponse>) -> (r: Vec<StoredImpulseResponse>)
    ensures
        r@.to_multiset() == rows@.to_multiset(),
        newest_imports_first(r@),
{
    let ghost all = rows@;
    let mut rows = rows;
    let mut listed: Vec<StoredImpulseResponse> = Vec::new();
    let n = rows.len();
    let mut i: usize = 0;
    proof {
        assert(all.take(0) =~= Seq::<StoredImpulseResponse>::empty());
    }
    while i < n
        invariant
            n == all.len(),
            i <= n,
            rows@ == all.skip(i as int),
            listed@.to_multiset() == all.take(i as int).to_multiset(),
            newest_imports_first(listed@),
        decreases n - i,
    {
        let row = rows.remove(0);
        assert(row == all[i as int]);
        assert(rows@ =~= all.skip(i + 1));
        let mut p: usize = 0;
        while p < listed.len() && !is_listed_before(&row, &listed[p])
            invariant
                p <= listed@.len(),
                forall|q: int| 0 <= q < p ==> !listed_before(row, #[trigger] listed@[q]),
            decreases listed@.len() - p,
        {
            p = p + 1;
        }
        let ghost before = listed@;
        proof {
            if p < before.len() {
                assert forall|q: int| p <= q < before.len() implies listed_before(
                    row,
                    #[trigger] before[q],
                ) by {
                    if q > p {
                        lemma_listed_before_chain(row, before[p as int], before[q]);
                    }
                }
            }
            vstd::seq_lib::to_multiset_insert(before, p as int, row);
            assert(all.take(i + 1) =~= all.take(i as int).push(row));
            vstd::seq_lib::to_multiset_build(all.take(i as int), row);
        }
        listed.insert(p, row);
        proof {
            assert(listed@ == before.insert(p as int, row));
            assert forall|a: int, b: int| 0 <= a < b < listed@.len() implies !listed_before(
                #[trigger] listed@[b],
                #[trigger] listed@[a],
            ) by {
                if b == p {
                    if listed_before(row, listed@[a]) {
                        assert(listed@[a] == before[a]);
                    }
                } else if a == p {
                    assert(listed@[b] == before[b - 1]);
                    lemma_listed_before_asymmetric(row, before[b - 1]);
                } else {
                    let a0 = if a < p { a } else { a - 1 };
                    let b0 = if b < p { b } else { b - 1 };
                    assert(listed@[a] == before[a0]);
                    assert(listed@[b] == before[b0]);
                }
            }
        }
        i = i + 1;
    }
    proof {
        assert(all.take(i as int) =~= all);
    }
    listed
}

} // verus!
