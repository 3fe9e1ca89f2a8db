//! Resumable long-recording analysis: the segment plan and the rows that
//! record each segment's proxy and accepted stage results.

use vstd::prelude::*;

use crate::catalog::error::{other_error, CatalogError, CatalogErrorKind};
use crate::catalog::identity::AssetId;
use crate::content_hash::{hash_text_bytes, is_hash_text, ContentHash};
use crate::json::{json_syntax_error, json_text_is_valid};

verus! {

/// Stable plan row for one source time range.
#[derive(Debug, Clone, Copy, PartialEq, Eq, Structural)]
pub struct LongAudioSegmentPlan {
    pub index: u32,
    pub start_millis: u64,
    pub end_millis: u64,
}

/// A plan covers the source from zero without gaps: segment `i` has index
/// `i`, starts where the previous one ended (the first at zero), and is
/// not empty; and there is at least one segment.
pub open spec fn plan_is_contiguous(segments: Seq<LongAudioSegmentPlan>) -> bool {
    &&& segments.len() > 0
    &&& forall|i: int| 0 <= i < segments.len() ==> (#[trigger] segments[i]).index == i
    &&& segments[0].start_millis == 0
    &&& forall|i: int|
        0 < i < segments.len() ==> (#[trigger] segments[i]).start_millis == segments[i
            - 1].end_millis
    &&& forall|i: int|
        0 <= i < segments.len() ==> (#[trigger] segments[i]).end_millis > segments[i].start_millis
}

/// Checks a segment plan; a plan that is empty or not contiguous and
/// zero-based is rejected.
pub fn validate_plan(segments: &[LongAudioSegmentPlan]) -> (r: Result<(), CatalogError>)
    ensures
        r is Ok <==> plan_is_contiguous(segments@),
        r matches Err(e) ==> e.kind == CatalogErrorKind::Other,
        r matches Err(e) ==> segments@.len() == 0 ==> e.message@
            == "long-audio plan must contain at least one segment"@,
        r matches Err(e) ==> segments@.len() > 0 ==> e.message@
            == "long-audio plan must be contiguous and zero-based"@,
{
    if segments.len() == 0 {
        return Err(other_error("long-audio plan must contain at least one segment"));
    }
    let mut expected_start: u64 = 0;
    let mut position: usize = 0;
    while position < segments.len()
        invariant
            0 < segments@.len(),
            position <= segments@.len(),
            forall|i: int| 0 <= i < position ==> (#[trigger] segments@[i]).index == i,
            position == 0 ==> expected_start == 0,
            position > 0 ==> expected_start == segments@[position - 1].end_millis,
            position > 0 ==> segments@[0].start_millis == 0,
            forall|i: int|
                0 < i < position ==> (#[trigger] segments@[i]).start_millis == segments@[i
                    - 1].end_millis,
            forall|i: int|
                0 <= i < position ==> (#[trigger] segments@[i]).end_millis
                    > segments@[i].start_millis,
        decreases segments@.len() - position,
    {
        let segment = segments[position];
        if segment.index as usize != position || segment.start_millis != expected_start
            || segment.end_millis <= segment.start_millis {
            return Err(other_error("long-audio plan must be contiguous and zero-based"));
        }
        expected_start = segment.end_millis;
        position = position + 1;
    }
    Ok(())
}

/// The end of the last segment of a contiguous plan is the total covered
/// duration, and the segments' ranges tile `[0, end)` in order.
pub proof fn lemma_contiguous_plan_is_ordered(segments: Seq<LongAudioSegmentPlan>, i: int, j: int)
    requires
        plan_is_contiguous(segments),
        0 <= i < j < segments.len(),
    ensures
        segments[i].end_millis <= segments[j].start_millis,
    decreases j - i,
{
    if j > i + 1 {
        lemma_contiguous_plan_is_ordered(segments, i, j - 1);
    }
}

/// Converts an unsigned value to the catalog's signed integer range.
pub fn sqlite_u64(value: u64) -> (r: Result<i64, CatalogError>)
    ensures
        r is Ok <==> value <= i64::MAX,
        r matches Ok(v) ==> v == value,
        r matches Err(e) ==> e.kind == CatalogErrorKind::Other && e.message@
            == "value exceeds SQLite range: out of range integral type conversion attempted"@,
{
    if value > i64::MAX as u64 {
        Err(other_error("value exceeds SQLite range: out of range integral type conversion attempted"))
    } else {
        Ok(value as i64)
    }
}

/// The stored rows `(index, start, end)` of a plan the catalog installs:
/// the plan must be contiguous and every bound must fit the catalog.
pub fn ensure_long_audio_plan(segments: &[LongAudioSegmentPlan]) -> (r: Result<
    Vec<(i64, i64, i64)>,
    CatalogError,
>)
    ensures
        r is Ok <==> plan_is_contiguous(segments@) && forall|i: int|
            0 <= i < segments@.len() ==> (#[trigger] segments@[i]).end_millis <= i64::MAX,
        r matches Ok(rows) ==> rows@.len() == segments@.len() && forall|i: int|
            0 <= i < segments@.len() ==> (#[trigger] rows@[i]).0 == segments@[i].index
                && rows@[i].1 == segments@[i].start_millis && rows@[i].2 == segments@[i].end_millis,
        r matches Err(e) ==> e.kind == CatalogErrorKind::Other,
{
    validate_plan(segments)?;
    let mut rows: Vec<(i64, i64, i64)> = Vec::new();
    let mut i: usize = 0;
    while i < segments.len()
        invariant
            plan_is_contiguous(segments@),
            i <= segments@.len(),
            rows@.len() == i,
            forall|k: int| 0 <= k < i ==> (#[trigger] segments@[k]).end_millis <= i64::MAX,
            forall|k: int|
                0 <= k < i ==> (#[trigger] rows@[k]).0 == segments@[k].index && rows@[k].1
                    == segments@[k].start_millis && rows@[k].2 == segments@[k].end_millis,
        decreases segments@.len() - i,
    {
        let segment = segments[i];
        let start = sqlite_u64(segment.start_millis)?;
        let end = match sqlite_u64(segment.end_millis) {
            Ok(v) => v,
            Err(e) => {
                return Err(e);
            },
        };
        rows.push((segment.index as i64, start, end));
        i = i + 1;
    }
    Ok(rows)
}

/// Per-segment inference stage whose accepted JSON is updated atomically.
#[derive(Debug, Clone, Copy, PartialEq, Eq, Structural)]
pub enum LongAudioStage {
    Transcript,
    Alignment,
    Contextual,
}

impl LongAudioStage {
    /// The column that stores this stage's accepted JSON.
    pub fn column(self) -> (r: &'static str)
        ensures
            r@ == (match self {
                LongAudioStage::Transcript => "transcript_json"@,
                LongAudioStage::Alignment => "alignment_json"@,
                LongAudioStage::Contextual => "contextual_json"@,
            }),
    {
        match self {
            LongAudioStage::Transcript => "transcript_json",
            LongAudioStage::Alignment => "alignment_json",
            LongAudioStage::Contextual => "contextual_json",
        }
    }
}

/// An update of one segment must change exactly one row; otherwise the
/// segment does not exist.
pub fn require_one_row(changed: usize) -> (r: Result<(), CatalogError>)
    ensures
        r is Ok <==> changed == 1,
        r matches Err(e) ==> e.kind == CatalogErrorKind::Other && e.message@
            == "long-audio segment does not exist"@,
{
    if changed == 1 {
        Ok(())
    } else {
        Err(other_error("long-audio segment does not exist"))
    }
}

/// Rebuildable proxy identity retained for one segment.
#[derive(Debug, Clone, Copy, PartialEq, Eq)]
pub struct LongAudioProxyRef {
    pub content_hash: ContentHash,
    pub size_bytes: u64,
}

/// Persisted state of one leaf segment; stage results are JSON texts.
#[derive(Debug, Clone, PartialEq, Eq)]
pub struct LongAudioSegment {
    pub asset_id: AssetId,
    pub plan_version: u32,
    pub index: u32,
    pub start_millis: u64,
    pub end_millis: u64,
    pub proxy: Option<LongAudioProxyRef>,
    pub transcript: Option<String>,
    pub alignment: Option<String>,
    pub contextual: Option<String>,
    pub updated_at_millis: i64,
}

/// The stored columns of one segment row.
#[derive(Debug, Clone, PartialEq, Eq)]
pub struct StoredLongAudioSegment {
    pub index: i64,
    pub start_millis: i64,
    pub end_millis: i64,
    pub proxy_content_hash: Option<String>,
    pub proxy_size_bytes: Option<i64>,
    pub transcript: Option<String>,
    pub alignment: Option<String>,
    pub contextual: Option<String>,
    pub updated_at_millis: i64,
}

/// Stored optional JSON is absent or a JSON document.
pub open spec fn optional_json_ok(value: Option<String>) -> bool {
    value matches Some(text) ==> json_text_is_valid(text@)
}

/// A stored segment row decodes: its index fits `u32`, its bounds and proxy
/// size are not negative, its proxy hash is hash text, and its stage
/// results are JSON.
pub open spec fn segment_row_ok(row: StoredLongAudioSegment) -> bool {
    &&& 0 <= row.index <= u32::MAX
    &&& row.start_millis >= 0
    &&& row.end_millis >= 0
    &&& (row.proxy_content_hash matches Some(h) ==> is_hash_text(h@))
    &&& (row.proxy_size_bytes matches Some(s) ==> s >= 0)
    &&& optional_json_ok(row.transcript)
    &&& optional_json_ok(row.alignment)
    &&& optional_json_ok(row.contextual)
}

fn check_optional_json(value: &Option<String>) -> (r: Result<(), CatalogError>)
    ensures
        r is Ok <==> optional_json_ok(*value),
        r matches Err(e) ==> e.kind == CatalogErrorKind::Other,
{
    match value {
        Some(text) => match json_syntax_error(text.as_str()) {
            None => Ok(()),
            Some(detail) => Err(CatalogError { kind: CatalogErrorKind::Other, message: detail }),
        },
        None => Ok(()),
    }
}

/// `s` is the segment that a decodable stored row of `asset_id`'s plan
/// `plan_version` reads as.
pub open spec fn decoded_segment(
    asset_id: AssetId,
    plan_version: u32,
    row: StoredLongAudioSegment,
    s: LongAudioSegment,
) -> bool {
    &&& s.asset_id == asset_id
    &&& s.plan_version == plan_version
    &&& s.index == row.index
    &&& s.start_millis == row.start_millis
    &&& s.end_millis == row.end_millis
    &&& (match (row.proxy_content_hash, row.proxy_size_bytes) {
        (Some(h), Some(size)) => s.proxy matches Some(p) && p.content_hash.bytes@
            == hash_text_bytes(h@) && p.size_bytes == size,
        _ => s.proxy is None,
    })
    &&& s.transcript == row.transcript
    &&& s.alignment == row.alignment
    &&& s.contextual == row.contextual
    &&& s.updated_at_millis == row.updated_at_millis
}

/// The proxy identity of a stored segment is complete or absent.
pub open spec fn proxy_columns_paired(row: StoredLongAudioSegment) -> bool {
    row.proxy_content_hash is Some <==> row.proxy_size_bytes is Some
}

/// Decodes one stored segment of `asset_id`'s plan `plan_version`. The
/// proxy hash and size are stored together or not at all.
pub fn decode_long_audio_segment(
    asset_id: AssetId,
    plan_version: u32,
    row: &StoredLongAudioSegment,
) -> (r: Result<LongAudioSegment, CatalogError>)
    requires
        proxy_columns_paired(*row),
    ensures
        r is Ok <==> segment_row_ok(*row),
        r matches Err(e) ==> e.kind == CatalogErrorKind::Other,
        r matches Ok(s) ==> decoded_segment(asset_id, plan_version, *row, s),
{
    let proxy = match (&row.proxy_content_hash, row.proxy_size_bytes) {
        (Some(hash), Some(size)) => {
            let content_hash = match ContentHash::from_hex(hash.as_str()) {
                Some(h) => h,
                None => {
                    return Err(other_error("stored long-audio proxy hash is invalid"));
                },
            };
            if size < 0 {
                return Err(other_error("stored long-audio proxy size is invalid"));
            }
            Some(LongAudioProxyRef { content_hash, size_bytes: size as u64 })
        },
        _ => None,
    };
    if row.index < 0 || row.index > u32::MAX as i64 {
        return Err(other_error("stored long-audio segment index is invalid"));
    }
    if row.start_millis < 0 || row.end_millis < 0 {
        return Err(other_error("stored long-audio segment bounds are invalid"));
    }
    check_optional_json(&row.transcript)?;
    check_optional_json(&row.alignment)?;
    check_optional_json(&row.contextual)?;
    Ok(
        LongAudioSegment {
            asset_id,
            plan_version,
            index: row.index as u32,
            start_millis: row.start_millis as u64,
            end_millis: row.end_millis as u64,
            proxy,
            transcript: row.transcript.clone(),
            alignment: row.alignment.clone(),
            contextual: row.contextual.clone(),
            updated_at_millis: row.updated_at_millis,
        },
    )
}

/// Reads all leaf segments of `asset_id`'s plan `plan_version` in their
/// stored order; the first row that does not decode fails the read.
pub fn list_long_audio_segments(
    asset_id: AssetId,
    plan_version: u32,
    rows: &[StoredLongAudioSegment],
) -> (r: Result<Vec<LongAudioSegment>, CatalogError>)
    requires
        forall|i: int| 0 <= i < rows@.len() ==> proxy_columns_paired(#[trigger] rows@[i]),
    ensures
        r is Ok <==> forall|i: int| 0 <= i < rows@.len() ==> segment_row_ok(#[trigger] rows@[i]),
        r matches Ok(segments) ==> segments@.len() == rows@.len() && forall|i: int|
            0 <= i < rows@.len() ==> decoded_segment(asset_id, plan_version, rows@[i], #[trigger] segments@[i]),
        r matches Err(e) ==> e.kind == CatalogErrorKind::Other,
{
    let mut segments: Vec<LongAudioSegment> = Vec::new();
    let mut i: usize = 0;
    while i < rows.len()
        invariant
            i <= rows@.len(),
            segments@.len() == i,
            forall|k: int| 0 <= k < rows@.len() ==> proxy_columns_paired(#[trigger] rows@[k]),
            forall|k: int| 0 <= k < i ==> segment_row_ok(#[trigger] rows@[k]),
            forall|k: int|
                0 <= k < i ==> decoded_segment(asset_id, plan_version, rows@[k], #[trigger] segments@[k]),
        decreases rows@.len() - i,
    {
        let segment = decode_long_audio_segment(asset_id, plan_version, &rows[i])?;
        segments.push(segment);
        i = i + 1;
    }
    Ok(segments)
}

/// One recursively aggregated contextual node; its result is JSON text.
#[derive(Debug, Clone, PartialEq, Eq)]
pub struct LongAudioOutlineNode {
    pub asset_id: AssetId,
    pub plan_version: u32,
    pub level: u32,
    pub index: u32,
    pub start_millis: u64,
    pub end_millis: u64,
    pub contextual: String,
    pub updated_at_millis: i64,
}

/// The stored columns `(level, index, start, end, contextual, updated_at)`
/// of one outline node decode when the numbers fit and the result is JSON.
pub open spec fn outline_row_ok(row: (i64, i64, i64, i64, String, i64)) -> bool {
    &&& 0 <= row.0 <= u32::MAX
    &&& 0 <= row.1 <= u32::MAX
    &&& row.2 >= 0
    &&& row.3 >= 0
    &&& json_text_is_valid(row.4@)
}

/// `n` is the outline node that a decodable stored row of `asset_id`'s
/// plan `plan_version` reads as.
pub open spec fn decoded_outline_node(
    asset_id: AssetId,
    plan_version: u32,
    row: (i64, i64, i64, i64, String, i64),
    n: LongAudioOutlineNode,
) -> bool {
    n.asset_id == asset_id && n.plan_version == plan_version && n.level == row.0 && n.index
        == row.1 && n.start_millis == row.2 && n.end_millis == row.3 && n.contextual == row.4
        && n.updated_at_millis == row.5
}

/// Decodes one stored outline node of `asset_id`'s plan `plan_version`.
pub fn decode_long_audio_outline_node(
    asset_id: AssetId,
    plan_version: u32,
    row: &(i64, i64, i64, i64, String, i64),
) -> (r: Result<LongAudioOutlineNode, CatalogError>)
    ensures
        r is Ok <==> outline_row_ok(*row),
        r matches Err(e) ==> e.kind == CatalogErrorKind::Other,
        r matches Ok(n) ==> decoded_outline_node(asset_id, plan_version, *row, n),
{
    let level = row.0;
    let index = row.1;
    let start = row.2;
    let end = row.3;
    if level < 0 || level > u32::MAX as i64 || index < 0 || index > u32::MAX as i64 {
        return Err(other_error("stored long-audio outline position is invalid"));
    }
    if start < 0 || end < 0 {
        return Err(other_error("stored long-audio outline bounds are invalid"));
    }
    match json_syntax_error(row.4.as_str()) {
        Some(detail) => {
            return Err(CatalogError { kind: CatalogErrorKind::Other, message: detail });
        },
        None => {},
    }
    Ok(
        LongAudioOutlineNode {
            asset_id,
            plan_version,
            level: level as u32,
            index: index as u32,
            start_millis: start as u64,
            end_millis: end as u64,
            contextual: row.4.clone(),
            updated_at_millis: row.5,
        },
    )
}

/// Reads every outline node of `asset_id`'s plan `plan_version` in their
/// stored order; the first row that does not decode fails the read.
pub fn list_long_audio_outline_nodes(
    asset_id: AssetId,
    plan_version: u32,
    rows: &[(i64, i64, i64, i64, String, i64)],
) -> (r: Result<Vec<LongAudioOutlineNode>, CatalogError>)
    ensures
        r is Ok <==> forall|i: int| 0 <= i < rows@.len() ==> outline_row_ok(#[trigger] rows@[i]),
        r matches Ok(nodes) ==> nodes@.len() == rows@.len() && forall|i: int|
            0 <= i < rows@.len() ==> decoded_outline_node(asset_id, plan_version, rows@[i], #[trigger] nodes@[i]),
        r matches Err(e) ==> e.kind == CatalogErrorKind::Other,
{
    let mut nodes: Vec<LongAudioOutlineNode> = Vec::new();
    let mut i: usize = 0;
    while i < rows.len()
        invariant
            i <= rows@.len(),
            nodes@.len() == i,
            forall|k: int| 0 <= k < i ==> outline_row_ok(#[trigger] rows@[k]),
            forall|k: int|
                0 <= k < i ==> decoded_outline_node(asset_id, plan_version, rows@[k], #[trigger] nodes@[k]),
        decreases rows@.len() - i,
    {
        let node = decode_long_audio_outline_node(asset_id, plan_version, &rows[i])?;
        nodes.push(node);
        i = i + 1;
    }
    Ok(nodes)
}

/// A freshly planned segment row: the planned range, nothing produced
/// yet, touched now.
pub open spec fn is_fresh_segment(
    row: LongAudioSegment,
    asset_id: AssetId,
    plan_version: u32,
    planned: LongAudioSegmentPlan,
    now_millis: i64,
) -> bool {
    &&& row.asset_id == asset_id
    &&& row.plan_version == plan_version
    &&& row.index == planned.index
    &&& row.start_millis == planned.start_millis
    &&& row.end_millis == planned.end_millis
    &&& row.proxy is None
    &&& row.transcript is None
    &&& row.alignment is None
    &&& row.contextual is None
    &&& row.updated_at_millis == now_millis
}

/// A row survives installing plan `plan_version` of `asset_id`: it belongs
/// to another asset or to that very plan version.
pub open spec fn survives_plan(row: LongAudioSegment, asset_id: AssetId, plan_version: u32) -> bool {
    row.asset_id != asset_id || row.plan_version == plan_version
}

fn copy_option(value: &Option<String>) -> (r: Option<String>)
    ensures
        r == *value,
{
    match value {
        Some(text) => Some(text.clone()),
        None => None,
    }
}

fn copy_segment(row: &LongAudioSegment) -> (r: LongAudioSegment)
    ensures
        r == *row,
{
    LongAudioSegment {
        asset_id: row.asset_id,
        plan_version: row.plan_version,
        index: row.index,
        start_millis: row.start_millis,
        end_millis: row.end_millis,
        proxy: row.proxy,
        transcript: copy_option(&row.transcript),
        alignment: copy_option(&row.alignment),
        contextual: copy_option(&row.contextual),
        updated_at_millis: row.updated_at_millis,
    }
}

/// The leaf segment rows and outline nodes of the catalog's long-audio
/// plans.
#[derive(Debug, Clone)]
pub struct LongAudioSegments {
    pub rows: Vec<LongAudioSegment>,
    pub outline: Vec<LongAudioOutlineNode>,
}

/// The identity an outline node is stored under.
pub open spec fn node_key(node: LongAudioOutlineNode) -> (u128, u32, u32, u32) {
    (node.asset_id.value, node.plan_version, node.level, node.index)
}

/// No two outline nodes share an identity.
pub open spec fn distinct_node_keys(nodes: Seq<LongAudioOutlineNode>) -> bool {
    forall|i: int, j: int|
        0 <= i < j < nodes.len() ==> node_key(#[trigger] nodes[i]) != node_key(#[trigger] nodes[j])
}

/// An outline node survives installing plan `plan_version` of `asset_id`:
/// it belongs to another asset or to that very plan version.
pub open spec fn node_survives_plan(node: LongAudioOutlineNode, asset_id: AssetId, plan_version: u32) -> bool {
    node.asset_id != asset_id || node.plan_version == plan_version
}

fn copy_node(node: &LongAudioOutlineNode) -> (r: LongAudioOutlineNode)
    ensures
        r == *node,
{
    LongAudioOutlineNode {
        asset_id: node.asset_id,
        plan_version: node.plan_version,
        level: node.level,
        index: node.index,
        start_millis: node.start_millis,
        end_millis: node.end_millis,
        contextual: node.contextual.clone(),
        updated_at_millis: node.updated_at_millis,
    }
}

/// The outline nodes that survive installing a plan, in stored order.
fn surviving_nodes(nodes: &Vec<LongAudioOutlineNode>, asset_id: AssetId, plan_version: u32) -> (r: Vec<
    LongAudioOutlineNode,
>)
    ensures
        r@ == nodes@.filter(|n: LongAudioOutlineNode| node_survives_plan(n, asset_id, plan_version)),
{
    let ghost pred = |n: LongAudioOutlineNode| node_survives_plan(n, asset_id, plan_version);
    let mut kept: Vec<LongAudioOutlineNode> = Vec::new();
    let mut i: usize = 0;
    proof {
        assert(nodes@.take(0) =~= Seq::<LongAudioOutlineNode>::empty());
        assert(nodes@.take(0).filter(pred) =~= Seq::<LongAudioOutlineNode>::empty());
    }
    while i < nodes.len()
        invariant
            i <= nodes@.len(),
            pred == (|n: LongAudioOutlineNode| node_survives_plan(n, asset_id, plan_version)),
            kept@ == nodes@.take(i as int).filter(pred),
        decreases nodes@.len() - i,
    {
        proof {
            assert(nodes@.take(i + 1) =~= nodes@.take(i as int).push(nodes@[i as int]));
            nodes@.take(i as int).lemma_filter_push(nodes@[i as int], pred);
        }
        if nodes[i].asset_id.value != asset_id.value || nodes[i].plan_version == plan_version {
            kept.push(copy_node(&nodes[i]));
        }
        i = i + 1;
    }
    proof {
        assert(nodes@.take(i as int) =~= nodes@);
    }
    kept
}

impl LongAudioSegments {
    /// No segment rows.
    pub fn new() -> (r: LongAudioSegments)
        ensures
            r.rows@.len() == 0,
            r.outline@.len() == 0,
    {
        LongAudioSegments { rows: Vec::new(), outline: Vec::new() }
    }

    /// Installs one versioned plan of an asset while preserving the rows
    /// of the same version, completed stages included; the asset's rows of
    /// other plan versions are discarded as rebuildable projections. Each
    /// planned segment without a row gets a fresh one. A plan that does not
    /// validate, or whose bounds do not fit the catalog, changes nothing.
    pub fn ensure_long_audio_plan(
        &mut self,
        asset_id: AssetId,
        plan_version: u32,
        plan: &[LongAudioSegmentPlan],
        now_millis: i64,
    ) -> (r: Result<(), CatalogError>)
        ensures
            r is Ok <==> plan_is_contiguous(plan@) && forall|k: int|
                0 <= k < plan@.len() ==> (#[trigger] plan@[k]).end_millis <= i64::MAX,
            r is Err ==> final(self).rows@ == old(self).rows@,
            r is Err ==> final(self).outline@ == old(self).outline@,
            r is Ok ==> final(self).outline@ == old(self).outline@.filter(
                |n: LongAudioOutlineNode| node_survives_plan(n, asset_id, plan_version),
            ),
            r matches Err(e) ==> e.kind == CatalogErrorKind::Other,
            r is Ok ==> forall|x: LongAudioSegment|
                old(self).rows@.contains(x) && survives_plan(x, asset_id, plan_version)
                    ==> #[trigger] final(self).rows@.contains(x),
            r is Ok ==> forall|i: int|
                0 <= i < final(self).rows@.len() ==> survives_plan(
                    #[trigger] final(self).rows@[i],
                    asset_id,
                    plan_version,
                ),
            r is Ok ==> forall|i: int|
                0 <= i < final(self).rows@.len() && !old(self).rows@.contains(
                    #[trigger] final(self).rows@[i],
                ) ==> exists|k: int|
                    0 <= k < plan@.len() && is_fresh_segment(
                        final(self).rows@[i],
                        asset_id,
                        plan_version,
                        #[trigger] plan@[k],
                        now_millis,
                    ) && forall|j: int|
                        0 <= j < old(self).rows@.len() && (#[trigger] old(self).rows@[j]).asset_id
                            == asset_id && old(self).rows@[j].plan_version == plan_version
                            ==> old(self).rows@[j].index != plan@[k].index,
            r is Ok ==> forall|k: int|
                0 <= k < plan@.len() ==> exists|i: int|
                    0 <= i < final(self).rows@.len() && (#[trigger] final(self).rows@[i]).asset_id
                        == asset_id && final(self).rows@[i].plan_version == plan_version
                        && final(self).rows@[i].index == (#[trigger] plan@[k]).index,
    {
        let _ = ensure_long_audio_plan(plan)?;
        self.outline = surviving_nodes(&self.outline, asset_id, plan_version);
        let ghost before = self.rows@;
        let mut kept: Vec<LongAudioSegment> = Vec::new();
        let mut i: usize = 0;
        while i < self.rows.len()
            invariant
                self.rows@ == before,
                i <= before.len(),
                forall|x: LongAudioSegment|
                    #![trigger kept@.contains(x)]
                    kept@.contains(x) <==> (before.take(i as int).contains(x) && survives_plan(
                        x,
                        asset_id,
                        plan_version,
                    )),
            decreases before.len() - i,
        {
            let ghost old_kept = kept@;
            let ghost row = before[i as int];
            let keep = self.rows[i].asset_id.value != asset_id.value || self.rows[i].plan_version
                == plan_version;
            assert(keep == survives_plan(row, asset_id, plan_version));
            if keep {
                kept.push(copy_segment(&self.rows[i]));
            }
            proof {
                let prefix = before.take(i + 1);
                assert(prefix =~= before.take(i as int).push(row));
                assert forall|x: LongAudioSegment| #![trigger kept@.contains(x)]
                    kept@.contains(x) <==> (prefix.contains(x) && survives_plan(
                        x,
                        asset_id,
                        plan_version,
                    )) by {
                    if kept@.contains(x) {
                        let j = choose|j: int| 0 <= j < kept@.len() && kept@[j] == x;
                        if j < old_kept.len() {
                            assert(old_kept[j] == x);
                            assert(old_kept.contains(x));
                            let m = choose|m: int|
                                0 <= m < before.take(i as int).len() && before.take(i as int)[m] == x;
                            assert(prefix[m] == x);
                        } else {
                            assert(x == row);
                            assert(prefix[i as int] == x);
                        }
                    }
                    if prefix.contains(x) && survives_plan(x, asset_id, plan_version) {
                        let j = choose|j: int| 0 <= j < prefix.len() && #[trigger] prefix[j] == x;
                        if j < i {
                            assert(before.take(i as int)[j] == x);
                            assert(before.take(i as int).contains(x));
                            assert(old_kept.contains(x));
                            let m = choose|m: int| 0 <= m < old_kept.len() && old_kept[m] == x;
                            assert(kept@[m] == x);
                        } else {
                            assert(x == row);
                            assert(kept@[kept@.len() - 1] == x);
                        }
                    }
                }
            }
            i = i + 1;
        }
        proof {
            assert(before.take(i as int) =~= before);
        }
        let ghost survivors = kept@;
        proof {
            assert forall|j: int| 0 <= j < kept@.len() implies survives_plan(
                #[trigger] kept@[j],
                asset_id,
                plan_version,
            ) by {
                assert(kept@.contains(kept@[j]));
            }
        }
        let mut k: usize = 0;
        while k < plan.len()
            invariant
                k <= plan@.len(),
                forall|x: LongAudioSegment|
                    #![trigger survivors.contains(x)]
                    survivors.contains(x) <==> (before.contains(x) && survives_plan(
                        x,
                        asset_id,
                        plan_version,
                    )),
                survivors.len() <= kept@.len(),
                forall|j: int| 0 <= j < survivors.len() ==> #[trigger] kept@[j] == survivors[j],
                forall|j: int|
                    0 <= j < kept@.len() ==> survives_plan(#[trigger] kept@[j], asset_id, plan_version),
                forall|j: int|
                    survivors.len() <= j < kept@.len() ==> exists|q: int|
                        0 <= q < plan@.len() && is_fresh_segment(
                            #[trigger] kept@[j],
                            asset_id,
                            plan_version,
                            #[trigger] plan@[q],
                            now_millis,
                        ) && forall|b: int|
                            0 <= b < before.len() && (#[trigger] before[b]).asset_id == asset_id
                                && before[b].plan_version == plan_version ==> before[b].index
                                != plan@[q].index,
                forall|q: int|
                    0 <= q < k ==> exists|j: int|
                        0 <= j < kept@.len() && (#[trigger] kept@[j]).asset_id == asset_id
                            && kept@[j].plan_version == plan_version && kept@[j].index == (
                        #[trigger] plan@[q]).index,
            decreases plan@.len() - k,
        {
            let planned = plan[k];
            let mut present = false;
            let mut j: usize = 0;
            while j < kept.len()
                invariant
                    j <= kept@.len(),
                    present ==> exists|m: int|
                        0 <= m < kept@.len() && (#[trigger] kept@[m]).asset_id == asset_id
                            && kept@[m].plan_version == plan_version && kept@[m].index
                            == planned.index,
                    !present ==> forall|m: int|
                        0 <= m < j ==> !((#[trigger] kept@[m]).asset_id == asset_id
                            && kept@[m].plan_version == plan_version && kept@[m].index
                            == planned.index),
                decreases kept@.len() - j,
            {
                if kept[j].asset_id.value == asset_id.value && kept[j].plan_version == plan_version
                    && kept[j].index == planned.index {
                    present = true;
                }
                j = j + 1;
            }
            let ghost old_kept = kept@;
            if !present {
                proof {
                    assert forall|b: int|
                        0 <= b < before.len() && (#[trigger] before[b]).asset_id == asset_id
                            && before[b].plan_version == plan_version implies before[b].index
                        != planned.index by {
                        assert(survivors.contains(before[b]));
                        let m = choose|m: int| 0 <= m < survivors.len() && survivors[m] == before[b];
                        assert(kept@[m] == survivors[m]);
                    }
                }
                kept.push(
                    LongAudioSegment {
                        asset_id,
                        plan_version,
                        index: planned.index,
                        start_millis: planned.start_millis,
                        end_millis: planned.end_millis,
                        proxy: None,
                        transcript: None,
                        alignment: None,
                        contextual: None,
                        updated_at_millis: now_millis,
                    },
                );
                proof {
                    assert(is_fresh_segment(kept@[kept@.len() - 1], asset_id, plan_version, plan@[k as int], now_millis));
                    assert forall|j2: int|
                        survivors.len() <= j2 < kept@.len() implies exists|q: int|
                        0 <= q < plan@.len() && is_fresh_segment(
                            #[trigger] kept@[j2],
                            asset_id,
                            plan_version,
                            #[trigger] plan@[q],
                            now_millis,
                        ) && forall|b: int|
                            0 <= b < before.len() && (#[trigger] before[b]).asset_id == asset_id
                                && before[b].plan_version == plan_version ==> before[b].index
                                != plan@[q].index by {
                        if j2 < old_kept.len() {
                            assert(kept@[j2] == old_kept[j2]);
                        } else {
                            assert(is_fresh_segment(kept@[j2], asset_id, plan_version, plan@[k as int], now_millis));
                        }
                    }
                    assert forall|q: int| 0 <= q < k + 1 implies exists|j2: int|
                        0 <= j2 < kept@.len() && (#[trigger] kept@[j2]).asset_id == asset_id
                            && kept@[j2].plan_version == plan_version && kept@[j2].index == (
                        #[trigger] plan@[q]).index by {
                        if q == k {
                            assert(kept@[kept@.len() - 1].index == plan@[q].index);
                        } else {
                            let j3 = choose|j3: int|
                                0 <= j3 < old_kept.len() && (#[trigger] old_kept[j3]).asset_id
                                    == asset_id && old_kept[j3].plan_version == plan_version
                                    && old_kept[j3].index == plan@[q].index;
                            assert(kept@[j3] == old_kept[j3]);
                        }
                    }
                }
            }
            k = k + 1;
        }
        proof {
            assert forall|x: LongAudioSegment|
                before.contains(x) && survives_plan(x, asset_id, plan_version) implies #[trigger] kept@.contains(x) by {
                assert(survivors.contains(x));
                let m = choose|m: int| 0 <= m < survivors.len() && survivors[m] == x;
                assert(kept@[m] == x);
            }
            assert forall|i2: int|
                0 <= i2 < kept@.len() && !before.contains(#[trigger] kept@[i2]) implies i2 >= survivors.len() by {
                if i2 < survivors.len() {
                    assert(kept@[i2] == survivors[i2]);
                    assert(survivors.contains(survivors[i2]));
                }
            }
        }
        self.rows = kept;
        proof {
            assert forall|q: int| 0 <= q < plan@.len() implies exists|i2: int|
                0 <= i2 < self.rows@.len() && (#[trigger] self.rows@[i2]).asset_id == asset_id
                    && self.rows@[i2].plan_version == plan_version && self.rows@[i2].index == (
                #[trigger] plan@[q]).index by {
                let j3 = choose|j3: int|
                    0 <= j3 < kept@.len() && (#[trigger] kept@[j3]).asset_id == asset_id
                        && kept@[j3].plan_version == plan_version && kept@[j3].index == plan@[q].index;
                assert(self.rows@[j3] == kept@[j3]);
            }
        }
        Ok(())
    }

    /// Writes one outline node, replacing the node stored at the same
    /// asset, plan version, level and index. Bounds beyond the catalog's
    /// integers are refused and change nothing.
    pub fn upsert_long_audio_outline_node(&mut self, node: LongAudioOutlineNode) -> (r: Result<
        (),
        CatalogError,
    >)
        requires
            distinct_node_keys(old(self).outline@),
        ensures
            r is Ok <==> node.start_millis <= i64::MAX && node.end_millis <= i64::MAX,
            r matches Err(e) ==> e.kind == CatalogErrorKind::Other,
            r is Err ==> final(self).outline@ == old(self).outline@,
            final(self).rows@ == old(self).rows@,
            distinct_node_keys(final(self).outline@),
            r is Ok ==> final(self).outline@.to_set() == old(self).outline@.to_set().filter(
                |n: LongAudioOutlineNode| node_key(n) != node_key(node),
            ).insert(node),
    {
        let _ = sqlite_u64(node.start_millis)?;
        let _ = sqlite_u64(node.end_millis)?;
        let ghost before = self.outline@;
        let mut i: usize = 0;
        while i < self.outline.len()
            invariant
                i <= self.outline@.len(),
                self.outline@ == before,
                self.rows@ == old(self).rows@,
                before == old(self).outline@,
                distinct_node_keys(before),
                node.start_millis <= i64::MAX && node.end_millis <= i64::MAX,
                forall|j: int| 0 <= j < i ==> node_key(#[trigger] before[j]) != node_key(node),
            decreases self.outline@.len() - i,
        {
            let n = &self.outline[i];
            if n.asset_id.value == node.asset_id.value && n.plan_version == node.plan_version
                && n.level == node.level && n.index == node.index {
                self.outline.set(i, node);
                proof {
                    assert(self.outline@ == before.update(i as int, node));
                    assert forall|x: LongAudioOutlineNode| #[trigger] self.outline@.to_set().contains(x)
                        == before.to_set().filter(
                        |m: LongAudioOutlineNode| node_key(m) != node_key(node),
                    ).insert(node).contains(x) by {
                        if self.outline@.contains(x) {
                            let j = choose|j: int| 0 <= j < self.outline@.len() && self.outline@[j] == x;
                            if j != i {
                                assert(before[j] == x);
                                assert(before.contains(x));
                                assert(node_key(before[j]) != node_key(before[i as int]));
                            }
                        }
                        if x != node && before.contains(x) && node_key(x) != node_key(node) {
                            let j = choose|j: int| 0 <= j < before.len() && before[j] == x;
                            assert(j != i);
                            assert(self.outline@[j] == x);
                        }
                        if x == node {
                            assert(self.outline@[i as int] == x);
                        }
                    }
                    assert(self.outline@.to_set() =~= before.to_set().filter(
                        |m: LongAudioOutlineNode| node_key(m) != node_key(node),
                    ).insert(node));
                }
                return Ok(());
            }
            i = i + 1;
        }
        self.outline.push(node);
        proof {
            assert forall|x: LongAudioOutlineNode| #[trigger] self.outline@.to_set().contains(x)
                == before.to_set().filter(
                |m: LongAudioOutlineNode| node_key(m) != node_key(node),
            ).insert(node).contains(x) by {
                if self.outline@.contains(x) && x != node {
                    let j = choose|j: int| 0 <= j < self.outline@.len() && self.outline@[j] == x;
                    assert(j < before.len());
                    assert(before[j] == x);
                }
                if x != node && before.contains(x) {
                    let j = choose|j: int| 0 <= j < before.len() && before[j] == x;
                    assert(self.outline@[j] == x);
                }
                if x == node {
                    assert(self.outline@[before.len() as int] == x);
                }
            }
            assert(self.outline@.to_set() =~= before.to_set().filter(
                |m: LongAudioOutlineNode| node_key(m) != node_key(node),
            ).insert(node));
        }
        Ok(())
    }

    /// How many rows are the given segment.
    fn count_segment(&self, asset_id: AssetId, plan_version: u32, segment_index: u32) -> (r: usize)
        ensures
            r == segment_count(self.rows@, asset_id, plan_version, segment_index),
    {
        let mut count: usize = 0;
        let mut i: usize = 0;
        while i < self.rows.len()
            invariant
                i <= self.rows@.len(),
                count == segment_count(self.rows@.take(i as int), asset_id, plan_version, segment_index),
            decreases self.rows@.len() - i,
        {
            proof {
                assert(self.rows@.take(i + 1).drop_last() =~= self.rows@.take(i as int));
                lemma_segment_count_bounded(self.rows@.take(i as int), asset_id, plan_version, segment_index);
            }
            let row = &self.rows[i];
            if row.asset_id.value == asset_id.value && row.plan_version == plan_version && row.index
                == segment_index {
                count = count + 1;
            }
            i = i + 1;
        }
        proof {
            assert(self.rows@.take(i as int) =~= self.rows@);
        }
        count
    }

    /// Publishes the cache identity of one segment's generated proxy and
    /// touches it now. The size must fit the catalog, and exactly one row
    /// must be that segment; otherwise nothing changes.
    pub fn record_long_audio_proxy(
        &mut self,
        asset_id: AssetId,
        plan_version: u32,
        segment_index: u32,
        proxy: LongAudioProxyRef,
        now_millis: i64,
    ) -> (r: Result<(), CatalogError>)
        ensures
            r is Ok <==> proxy.size_bytes <= i64::MAX && segment_count(
                old(self).rows@,
                asset_id,
                plan_version,
                segment_index,
            ) == 1,
            r matches Err(e) ==> e.kind == CatalogErrorKind::Other,
            r matches Err(e) ==> proxy.size_bytes <= i64::MAX ==> e.message@
                == "long-audio segment does not exist"@,
            r is Err ==> final(self).rows@ == old(self).rows@,
            final(self).rows@.len() == old(self).rows@.len(),
            final(self).outline@ == old(self).outline@,
            r is Ok ==> forall|i: int|
                0 <= i < old(self).rows@.len() ==> #[trigger] final(self).rows@[i] == if is_segment(
                    old(self).rows@[i],
                    asset_id,
                    plan_version,
                    segment_index,
                ) {
                    LongAudioSegment {
                        proxy: Some(proxy),
                        updated_at_millis: now_millis,
                        ..old(self).rows@[i]
                    }
                } else {
                    old(self).rows@[i]
                },
    {
        let _ = sqlite_u64(proxy.size_bytes)?;
        let count = self.count_segment(asset_id, plan_version, segment_index);
        require_one_row(count)?;
        let mut i: usize = 0;
        while i < self.rows.len()
            invariant
                i <= self.rows@.len(),
                self.rows@.len() == old(self).rows@.len(),
                self.outline@ == old(self).outline@,
                forall|j: int|
                    0 <= j < i ==> #[trigger] self.rows@[j] == if is_segment(
                        old(self).rows@[j],
                        asset_id,
                        plan_version,
                        segment_index,
                    ) {
                        LongAudioSegment {
                            proxy: Some(proxy),
                            updated_at_millis: now_millis,
                            ..old(self).rows@[j]
                        }
                    } else {
                        old(self).rows@[j]
                    },
                forall|j: int| i <= j < self.rows@.len() ==> #[trigger] self.rows@[j] == old(self).rows@[j],
            decreases self.rows@.len() - i,
        {
            if self.rows[i].asset_id.value == asset_id.value && self.rows[i].plan_version
                == plan_version && self.rows[i].index == segment_index {
                self.rows[i].proxy = Some(proxy);
                self.rows[i].updated_at_millis = now_millis;
            }
            i = i + 1;
        }
        Ok(())
    }

    /// Commits one accepted stage payload of one segment and touches it
    /// now. Exactly one row must be that segment; otherwise the update
    /// fails with `long-audio segment does not exist` and changes nothing.
    pub fn record_long_audio_stage(
        &mut self,
        asset_id: AssetId,
        plan_version: u32,
        segment_index: u32,
        stage: LongAudioStage,
        value: &str,
        now_millis: i64,
    ) -> (r: Result<(), CatalogError>)
        ensures
            r is Ok <==> segment_count(old(self).rows@, asset_id, plan_version, segment_index) == 1,
            r matches Err(e) ==> e.kind == CatalogErrorKind::Other && e.message@
                == "long-audio segment does not exist"@,
            r is Err ==> final(self).rows@ == old(self).rows@,
            final(self).rows@.len() == old(self).rows@.len(),
            final(self).outline@ == old(self).outline@,
            r is Ok ==> forall|i: int|
                0 <= i < old(self).rows@.len() ==> if is_segment(
                    #[trigger] old(self).rows@[i],
                    asset_id,
                    plan_version,
                    segment_index,
                ) {
                    staged(old(self).rows@[i], final(self).rows@[i], stage, value@, now_millis)
                } else {
                    final(self).rows@[i] == old(self).rows@[i]
                },
    {
        let count = self.count_segment(asset_id, plan_version, segment_index);
        require_one_row(count)?;
        let mut i: usize = 0;
        while i < self.rows.len()
            invariant
                i <= self.rows@.len(),
                self.rows@.len() == old(self).rows@.len(),
                self.outline@ == old(self).outline@,
                forall|j: int|
                    0 <= j < i ==> if is_segment(
                        #[trigger] old(self).rows@[j],
                        asset_id,
                        plan_version,
                        segment_index,
                    ) {
                        staged(old(self).rows@[j], self.rows@[j], stage, value@, now_millis)
                    } else {
                        self.rows@[j] == old(self).rows@[j]
                    },
                forall|j: int| i <= j < self.rows@.len() ==> #[trigger] self.rows@[j] == old(self).rows@[j],
            decreases self.rows@.len() - i,
        {
            if self.rows[i].asset_id.value == asset_id.value && self.rows[i].plan_version
                == plan_version && self.rows[i].index == segment_index {
                match stage {
                    LongAudioStage::Transcript => self.rows[i].transcript = Some(
                        crate::text::owned(value),
                    ),
                    LongAudioStage::Alignment => self.rows[i].alignment = Some(
                        crate::text::owned(value),
                    ),
                    LongAudioStage::Contextual => self.rows[i].contextual = Some(
                        crate::text::owned(value),
                    ),
                }
                self.rows[i].updated_at_millis = now_millis;
            }
            i = i + 1;
        }
        Ok(())
    }
}

/// `row` is segment `segment_index` of plan `plan_version` of `asset_id`.
pub open spec fn is_segment(row: LongAudioSegment, asset_id: AssetId, plan_version: u32, segment_index: u32) -> bool {
    row.asset_id == asset_id && row.plan_version == plan_version && row.index == segment_index
}

/// How many rows are that segment.
pub open spec fn segment_count(
    rows: Seq<LongAudioSegment>,
    asset_id: AssetId,
    plan_version: u32,
    segment_index: u32,
) -> nat
    decreases rows.len(),
{
    if rows.len() == 0 {
        0
    } else {
        segment_count(rows.drop_last(), asset_id, plan_version, segment_index) + if is_segment(
            rows.last(),
            asset_id,
            plan_version,
            segment_index,
        ) {
            1nat
        } else {
            0nat
        }
    }
}

proof fn lemma_segment_count_bounded(
    rows: Seq<LongAudioSegment>,
    asset_id: AssetId,
    plan_version: u32,
    segment_index: u32,
)
    ensures
        segment_count(rows, asset_id, plan_version, segment_index) <= rows.len(),
    decreases rows.len(),
{
    if rows.len() > 0 {
        lemma_segment_count_bounded(rows.drop_last(), asset_id, plan_version, segment_index);
    }
}

/// `new` is `row` with the stage's payload set to `value` and touched now.
pub open spec fn staged(
    row: LongAudioSegment,
    new: LongAudioSegment,
    stage: LongAudioStage,
    value: Seq<char>,
    now_millis: i64,
) -> bool {
    &&& new.asset_id == row.asset_id
    &&& new.plan_version == row.plan_version
    &&& new.index == row.index
    &&& new.start_millis == row.start_millis
    &&& new.end_millis == row.end_millis
    &&& new.proxy == row.proxy
    &&& new.updated_at_millis == now_millis
    &&& match stage {
        LongAudioStage::Transcript => new.transcript matches Some(t) && t@ == value
            && new.alignment == row.alignment && new.contextual == row.contextual,
        LongAudioStage::Alignment => new.alignment matches Some(t) && t@ == value
            && new.transcript == row.transcript && new.contextual == row.contextual,
        LongAudioStage::Contextual => new.contextual matches Some(t) && t@ == value
            && new.transcript == row.transcript && new.alignment == row.alignment,
    }
}

} // verus!
