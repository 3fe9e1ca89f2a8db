//! The Audio Space projection: each asset with its newest contextual
//! presentation, latest positive browse facets, listening affinity, newest
//! adjustment and source metadata, as the sound-album surface lists it.

use vstd::prelude::*;

use crate::catalog::adjustment::{
    audio_space_adjustment, restored_scalars, scalar_failure, AdjustmentScalars,
    StoredAdjustmentScalars,
};
use crate::catalog::adjustment::restore_adjustment_scalars;
use crate::catalog::error::{other_error, CatalogError, CatalogErrorKind};
use crate::json::{json_string_array, json_strings, json_syntax_error, json_text_is_valid};
use crate::text::{
    lemma_text_lt_irreflexive, lemma_text_lt_total, lemma_text_lt_transitive, text_less, text_lt,
};

verus! {

/// Stored source metadata columns of one asset.
#[derive(Debug, Clone, PartialEq, Eq)]
pub struct StoredSourceMetadata {
    pub container_format: String,
    pub sample_rate: i64,
    pub channel_count: i64,
    /// JSON array of the metadata entries.
    pub entries: String,
}

/// Metadata extracted from the immutable source container.
#[derive(Debug, Clone, PartialEq, Eq)]
pub struct SourceMetadata {
    pub container_format: String,
    pub sample_rate: u32,
    pub channel_count: u32,
    /// JSON array of the metadata entries.
    pub entries: String,
}

/// The columns the Audio Space listing reads for one asset.
#[derive(Debug, Clone, PartialEq, Eq)]
pub struct StoredAudioSpaceRow {
    pub id: String,
    pub path: String,
    pub codec: Option<String>,
    pub duration_millis: Option<i64>,
    pub recorded_at_millis: Option<i64>,
    pub imported_at_millis: i64,
    pub path_status: String,
    pub max_level: u8,
    /// Newest contextual payload JSON.
    pub contextual: Option<String>,
    /// JSON array of the keywords of the newest keyword-emitting record.
    pub keywords: String,
    pub mood: Option<String>,
    pub event_type: Option<String>,
    /// Newest transcript payload JSON, bounded by the listing query.
    pub transcript: Option<String>,
    pub liked: i64,
    pub rating: i64,
    pub source_metadata: Option<StoredSourceMetadata>,
    /// Scalar columns of the newest adjustment revision, if any.
    pub adjustment: Option<StoredAdjustmentScalars>,
}

/// One asset projected for the Audio Space.
#[derive(Debug, Clone, PartialEq, Eq)]
pub struct AudioSpaceAsset {
    pub id: String,
    pub path: String,
    pub codec: Option<String>,
    pub duration_millis: Option<u64>,
    pub recorded_at_millis: Option<i64>,
    pub imported_at_millis: i64,
    pub path_status: String,
    pub max_level: u8,
    pub liked: bool,
    pub rating: u8,
    /// Newest user-authored adjustment revision.
    pub adjustment: Option<AdjustmentScalars>,
    /// Latest contextual payload JSON (absent when not analyzed yet).
    pub contextual: Option<String>,
    /// Keywords from the newest contextual record that emitted keywords.
    pub contextual_keywords: Vec<String>,
    pub contextual_mood: Option<String>,
    pub contextual_event_type: Option<String>,
    /// Latest transcript payload JSON.
    pub transcript: Option<String>,
    pub source_metadata: Option<SourceMetadata>,
}

/// An optional stored payload is absent or a JSON document.
pub open spec fn optional_json(value: Option<String>) -> bool {
    value matches Some(text) ==> json_text_is_valid(text@)
}

/// A row the projection reads without failing: the catalog keeps these
/// invariants, and the projection treats a row that breaks one as fatal.
/// The duration is not negative, payloads are JSON, the keywords are a
/// JSON array of strings, the rating fits a byte, source metadata counts
/// fit `u32` with JSON entries, and an adjusted asset has a known duration
/// and valid stored adjustment columns.
pub open spec fn audio_space_row_ok(row: StoredAudioSpaceRow) -> bool {
    &&& (row.duration_millis matches Some(d) ==> d >= 0)
    &&& optional_json(row.contextual)
    &&& json_string_array(row.keywords@) is Some
    &&& optional_json(row.transcript)
    &&& 0 <= row.rating <= 255
    &&& (row.source_metadata matches Some(m) ==> 0 <= m.sample_rate <= u32::MAX && 0
        <= m.channel_count <= u32::MAX && json_text_is_valid(m.entries@))
    &&& (row.adjustment matches Some(a) ==> row.duration_millis is Some && scalar_failure(a) is None)
}

/// The source metadata a stored row yields.
pub open spec fn stored_source_metadata(row: StoredAudioSpaceRow, m: Option<SourceMetadata>) -> bool {
    match row.source_metadata {
        None => m is None,
        Some(s) => m matches Some(v) && v.container_format == s.container_format && v.sample_rate
            == s.sample_rate && v.channel_count == s.channel_count && v.entries == s.entries,
    }
}

/// `a` is the projection of `row`.
pub open spec fn projects_row(row: StoredAudioSpaceRow, a: AudioSpaceAsset) -> bool {
    &&& a.id == row.id
    &&& a.path == row.path
    &&& a.codec == row.codec
    &&& a.duration_millis == (match row.duration_millis {
        Some(d) => Some(d as u64),
        None => None,
    })
    &&& a.recorded_at_millis == row.recorded_at_millis
    &&& a.imported_at_millis == row.imported_at_millis
    &&& a.path_status == row.path_status
    &&& a.max_level == row.max_level
    &&& a.liked == (row.liked != 0)
    &&& a.rating == row.rating
    &&& (match row.adjustment {
        None => a.adjustment is None,
        Some(s) => a.adjustment matches Some(scalars) && restored_scalars(s, scalars),
    })
    &&& a.contextual == row.contextual
    &&& json_string_array(row.keywords@) == Some(
        a.contextual_keywords@.map_values(|k: String| k@),
    )
    &&& a.contextual_mood == row.mood
    &&& a.contextual_event_type == row.event_type
    &&& a.transcript == row.transcript
    &&& stored_source_metadata(row, a.source_metadata)
}

/// Projects one listed row.
pub fn audio_space_asset(row: StoredAudioSpaceRow) -> (r: AudioSpaceAsset)
    requires
        audio_space_row_ok(row),
    ensures
        projects_row(row, r),
{
    let duration_millis = match row.duration_millis {
        Some(d) => Some(d as u64),
        None => None,
    };
    let adjustment = audio_space_adjustment(row.adjustment, duration_millis);
    let contextual_keywords = match json_strings(row.keywords.as_str()) {
        Some(keywords) => keywords,
        None => Vec::new(),
    };
    let source_metadata = match row.source_metadata {
        Some(m) => Some(
            SourceMetadata {
                container_format: m.container_format,
                sample_rate: m.sample_rate as u32,
                channel_count: m.channel_count as u32,
                entries: m.entries,
            },
        ),
        None => None,
    };
    AudioSpaceAsset {
        id: row.id,
        path: row.path,
        codec: row.codec,
        duration_millis,
        recorded_at_millis: row.recorded_at_millis,
        imported_at_millis: row.imported_at_millis,
        path_status: row.path_status,
        max_level: row.max_level,
        liked: row.liked != 0,
        rating: row.rating as u8,
        adjustment,
        contextual: row.contextual,
        contextual_keywords,
        contextual_mood: row.mood,
        contextual_event_type: row.event_type,
        transcript: row.transcript,
        source_metadata,
    }
}

/// Projects every listed row, in the listing's order (newest import
/// first).
pub fn list_audio_space(rows: Vec<StoredAudioSpaceRow>) -> (r: Vec<AudioSpaceAsset>)
    requires
        forall|i: int| 0 <= i < rows@.len() ==> audio_space_row_ok(#[trigger] rows@[i]),
    ensures
        r@.len() == rows@.len(),
        forall|i: int| 0 <= i < rows@.len() ==> projects_row(rows@[i], #[trigger] r@[i]),
{
    let mut rows = rows;
    let ghost all = rows@;
    let mut assets: Vec<AudioSpaceAsset> = Vec::new();
    let n = rows.len();
    let mut i: usize = 0;
    while i < n
        invariant
            n == all.len(),
            i <= n,
            rows@ == all.skip(i as int),
            assets@.len() == i,
            forall|k: int| 0 <= k < all.len() ==> audio_space_row_ok(#[trigger] all[k]),
            forall|k: int| 0 <= k < i ==> projects_row(all[k], #[trigger] assets@[k]),
        decreases n - i,
    {
        let row = rows.remove(0);
        assert(row == all[i as int]);
        assert(rows@ =~= all.skip(i + 1));
        assets.push(audio_space_asset(row));
        i = i + 1;
    }
    assets
}

/// One stored browse facet of an asset, of one facet kind.
#[derive(Debug, Clone, PartialEq, Eq)]
pub struct StoredFacet {
    /// The analysis record that emitted the facet.
    pub analysis_record_id: i64,
    pub normalized_value: String,
    pub display_value: String,
}

/// `m` is the newest keyword-emitting record among `facets`.
pub open spec fn newest_record(facets: Seq<StoredFacet>, m: i64) -> bool {
    &&& exists|i: int| 0 <= i < facets.len() && (#[trigger] facets[i]).analysis_record_id == m
    &&& forall|i: int| 0 <= i < facets.len() ==> (#[trigger] facets[i]).analysis_record_id <= m
}

/// The facets that record `m` emitted, in stored order.
pub open spec fn facets_of_record(facets: Seq<StoredFacet>, m: i64) -> Seq<StoredFacet> {
    facets.filter(|f: StoredFacet| f.analysis_record_id == m)
}

/// Facets ordered by their normalized keyword.
pub open spec fn keyword_order(facets: Seq<StoredFacet>) -> bool {
    forall|i: int, j: int|
        0 <= i < j < facets.len() ==> !text_lt(
            (#[trigger] facets[j]).normalized_value@,
            (#[trigger] facets[i]).normalized_value@,
        )
}

/// The keywords an asset is browsed by: the facets of its newest
/// keyword-emitting record, ordered by normalized keyword. An asset with
/// no keyword facet has none.
pub fn latest_keywords(facets: &[StoredFacet]) -> (r: Vec<StoredFacet>)
    ensures
        facets@.len() == 0 ==> r@.len() == 0,
        facets@.len() > 0 ==> exists|m: i64|
            newest_record(facets@, m) && r@.to_multiset() == #[trigger] facets_of_record(
                facets@,
                m,
            ).to_multiset(),
        keyword_order(r@),
{
    let mut chosen: Vec<StoredFacet> = Vec::new();
    if facets.len() == 0 {
        return chosen;
    }
    let mut m: i64 = facets[0].analysis_record_id;
    let mut k: usize = 1;
    while k < facets.len()
        invariant
            1 <= k <= facets@.len(),
            exists|i: int| 0 <= i < k && (#[trigger] facets@[i]).analysis_record_id == m,
            forall|i: int| 0 <= i < k ==> (#[trigger] facets@[i]).analysis_record_id <= m,
        decreases facets@.len() - k,
    {
        if facets[k].analysis_record_id > m {
            m = facets[k].analysis_record_id;
        }
        k = k + 1;
    }
    let ghost pred = |f: StoredFacet| f.analysis_record_id == m;
    let mut i: usize = 0;
    proof {
        assert(facets@.take(0) =~= Seq::<StoredFacet>::empty());
        assert(facets@.take(0).filter(pred) =~= Seq::<StoredFacet>::empty());
    }
    while i < facets.len()
        invariant
            i <= facets@.len(),
            pred == (|f: StoredFacet| f.analysis_record_id == m),
            chosen@.to_multiset() == facets@.take(i as int).filter(pred).to_multiset(),
            keyword_order(chosen@),
        decreases facets@.len() - i,
    {
        proof {
            assert(facets@.take(i + 1) =~= facets@.take(i as int).push(facets@[i as int]));
            facets@.take(i as int).lemma_filter_push(facets@[i as int], pred);
        }
        if facets[i].analysis_record_id == m {
            let f = StoredFacet {
                analysis_record_id: facets[i].analysis_record_id,
                normalized_value: facets[i].normalized_value.clone(),
                display_value: facets[i].display_value.clone(),
            };
            assert(f == facets@[i as int]);
            let mut p: usize = 0;
            while p < chosen.len() && !text_less(f.normalized_value.as_str(), chosen[p].normalized_value.as_str())
                invariant
                    p <= chosen@.len(),
                    forall|q: int| 0 <= q < p ==> !text_lt(f.normalized_value@, (#[trigger] chosen@[q]).normalized_value@),
                decreases chosen@.len() - p,
            {
                p = p + 1;
            }
            let ghost before = chosen@;
            proof {
                if p < before.len() {
                    assert forall|q: int| p <= q < before.len() implies text_lt(
                        f.normalized_value@,
                        (#[trigger] before[q]).normalized_value@,
                    ) by {
                        if q > p {
                            let a = before[p as int].normalized_value@;
                            let b = before[q].normalized_value@;
                            if a != b {
                                lemma_text_lt_total(a, b);
                                lemma_text_lt_transitive(f.normalized_value@, a, b);
                            }
                        }
                    }
                }
                assert forall|q: int| 0 <= q < before.len() && q >= p implies !text_lt(
                    (#[trigger] before[q]).normalized_value@,
                    f.normalized_value@,
                ) by {
                    if text_lt(before[q].normalized_value@, f.normalized_value@) {
                        lemma_text_lt_transitive(
                            f.normalized_value@,
                            before[q].normalized_value@,
                            f.normalized_value@,
                        );
                        lemma_text_lt_irreflexive(f.normalized_value@);
                    }
                }
                vstd::seq_lib::to_multiset_insert(before, p as int, f);
                vstd::seq_lib::to_multiset_build(facets@.take(i as int).filter(pred), f);
            }
            chosen.insert(p, f);
            proof {
                assert(chosen@ == before.insert(p as int, f));
                assert forall|a: int, b: int| 0 <= a < b < chosen@.len() implies !text_lt(
                    (#[trigger] chosen@[b]).normalized_value@,
                    (#[trigger] chosen@[a]).normalized_value@,
                ) by {
                    if a < p && b < p + 1 && b != p {
                    } else if b == p {
                    } else if a == p {
                        assert(chosen@[b] == before[b - 1]);
                    } else if a < p {
                        assert(chosen@[b] == before[b - 1]);
                    } else {
                        assert(chosen@[a] == before[a - 1]);
                        assert(chosen@[b] == before[b - 1]);
                    }
                }
            }
        }
        i = i + 1;
    }
    proof {
        assert(facets@.take(i as int) =~= facets@);
        assert(newest_record(facets@, m));
        assert(facets_of_record(facets@, m) == facets@.filter(pred));
    }
    chosen
}

/// The newest stored adjustment revision of an asset, by revision id: the
/// one the Audio Space projects. `None` for an asset never adjusted.
pub fn newest_adjustment(revisions: &[StoredAdjustmentScalars]) -> (r: Option<StoredAdjustmentScalars>)
    ensures
        r is None <==> revisions@.len() == 0,
        r matches Some(s) ==> revisions@.contains(s) && forall|j: int|
            0 <= j < revisions@.len() ==> (#[trigger] revisions@[j]).revision_id <= s.revision_id,
{
    if revisions.len() == 0 {
        return None;
    }
    let mut best: usize = 0;
    let mut k: usize = 1;
    while k < revisions.len()
        invariant
            1 <= k <= revisions@.len(),
            best < k,
            forall|j: int| 0 <= j < k ==> (#[trigger] revisions@[j]).revision_id <= revisions@[best as int].revision_id,
        decreases revisions@.len() - k,
    {
        if revisions[k].revision_id > revisions[best].revision_id {
            best = k;
        }
        k = k + 1;
    }
    assert(revisions@[best as int] == revisions@[best as int]);
    Some(revisions[best])
}

/// One stored contextual analysis record of an asset: its id and payload.
#[derive(Debug, Clone, PartialEq, Eq)]
pub struct StoredContextualRecord {
    pub id: i64,
    /// The record's JSON payload.
    pub value: String,
}

/// Facet `i` is the newest: no facet comes from a later record, and it is
/// the first listed among those of its record.
pub open spec fn is_newest_facet(facets: Seq<StoredFacet>, i: int) -> bool {
    &&& 0 <= i < facets.len()
    &&& forall|j: int|
        0 <= j < facets.len() ==> (#[trigger] facets[j]).analysis_record_id
            <= facets[i].analysis_record_id
    &&& forall|j: int|
        0 <= j < i ==> (#[trigger] facets[j]).analysis_record_id < facets[i].analysis_record_id
}

/// The label of the newest facet of one kind (a mood, an event), the one the
/// Audio Space shows; `None` when the asset has none. A later record that
/// emitted no facet of the kind leaves the earlier one shown.
pub fn newest_facet_label(facets: &[StoredFacet]) -> (r: Option<String>)
    ensures
        facets@.len() == 0 <==> r is None,
        r matches Some(label) ==> exists|i: int|
            is_newest_facet(facets@, i) && label@ == (#[trigger] facets@[i]).display_value@,
{
    if facets.len() == 0 {
        return None;
    }
    let mut best: usize = 0;
    let mut k: usize = 1;
    while k < facets.len()
        invariant
            1 <= k <= facets@.len(),
            best < k,
            forall|j: int|
                0 <= j < k ==> (#[trigger] facets@[j]).analysis_record_id
                    <= facets@[best as int].analysis_record_id,
            forall|j: int|
                0 <= j < best ==> (#[trigger] facets@[j]).analysis_record_id
                    < facets@[best as int].analysis_record_id,
        decreases facets@.len() - k,
    {
        if facets[k].analysis_record_id > facets[best].analysis_record_id {
            best = k;
        }
        k = k + 1;
    }
    assert(is_newest_facet(facets@, best as int));
    Some(facets[best].display_value.clone())
}

/// Record `i` is the newest contextual record: it has the greatest id.
pub open spec fn is_newest_record(records: Seq<StoredContextualRecord>, i: int) -> bool {
    &&& 0 <= i < records.len()
    &&& forall|j: int| 0 <= j < records.len() ==> (#[trigger] records[j]).id <= records[i].id
}

/// The payload of the newest contextual record, whatever it emitted.
pub fn newest_contextual(records: &[StoredContextualRecord]) -> (r: Option<String>)
    ensures
        records@.len() == 0 <==> r is None,
        r matches Some(value) ==> exists|i: int|
            is_newest_record(records@, i) && value@ == (#[trigger] records@[i]).value@,
{
    if records.len() == 0 {
        return None;
    }
    let mut best: usize = 0;
    let mut k: usize = 1;
    while k < records.len()
        invariant
            1 <= k <= records@.len(),
            best < k,
            forall|j: int| 0 <= j < k ==> (#[trigger] records@[j]).id <= records@[best as int].id,
        decreases records@.len() - k,
    {
        if records[k].id > records[best].id {
            best = k;
        }
        k = k + 1;
    }
    assert(is_newest_record(records@, best as int));
    Some(records[best].value.clone())
}

/// The contextual presentation of one asset in the Audio Space.
#[derive(Debug, Clone, PartialEq, Eq)]
pub struct ContextualPresentation {
    /// Payload of the newest contextual record.
    pub contextual: Option<String>,
    /// Keywords of the newest keyword-emitting record, in keyword order.
    pub keywords: Vec<String>,
    /// Label of the newest mood facet.
    pub mood: Option<String>,
    /// Label of the newest event facet.
    pub event_type: Option<String>,
}

/// Chooses what the Audio Space shows of an asset's contextual evidence:
/// the newest payload, and for keywords, mood and event the newest record
/// that emitted one, so a refresh that emits nothing erases nothing.
pub fn contextual_presentation(
    records: &[StoredContextualRecord],
    keywords: &[StoredFacet],
    moods: &[StoredFacet],
    events: &[StoredFacet],
) -> (r: ContextualPresentation)
    ensures
        records@.len() == 0 <==> r.contextual is None,
        r.contextual matches Some(value) ==> exists|i: int|
            is_newest_record(records@, i) && value@ == (#[trigger] records@[i]).value@,
        keywords@.len() == 0 ==> r.keywords@.len() == 0,
        keywords@.len() > 0 ==> exists|m: i64, chosen: Seq<StoredFacet>|
            #![trigger newest_record(keywords@, m), keyword_order(chosen)]
            newest_record(keywords@, m) && chosen.to_multiset() == facets_of_record(keywords@, m).to_multiset()
                && keyword_order(chosen) && r.keywords@.map_values(|k: String| k@)
                == chosen.map_values(|f: StoredFacet| f.display_value@),
        moods@.len() == 0 <==> r.mood is None,
        r.mood matches Some(label) ==> exists|i: int|
            is_newest_facet(moods@, i) && label@ == (#[trigger] moods@[i]).display_value@,
        events@.len() == 0 <==> r.event_type is None,
        r.event_type matches Some(label) ==> exists|i: int|
            is_newest_facet(events@, i) && label@ == (#[trigger] events@[i]).display_value@,
{
    let chosen = latest_keywords(keywords);
    let mut labels: Vec<String> = Vec::new();
    let mut i: usize = 0;
    while i < chosen.len()
        invariant
            i <= chosen@.len(),
            labels@.map_values(|k: String| k@) == chosen@.take(i as int).map_values(
                |f: StoredFacet| f.display_value@,
            ),
        decreases chosen@.len() - i,
    {
        let ghost before = labels@;
        let label = chosen[i].display_value.clone();
        labels.push(label);
        proof {
            assert(labels@ == before.push(label));
            assert(labels@.map_values(|k: String| k@) =~= before.map_values(|k: String| k@).push(
                label@,
            ));
            assert(chosen@.take(i + 1) =~= chosen@.take(i as int).push(chosen@[i as int]));
            assert(labels@.map_values(|k: String| k@) =~= chosen@.take(i + 1).map_values(
                |f: StoredFacet| f.display_value@,
            ));
        }
        i = i + 1;
    }
    proof {
        assert(chosen@.take(i as int) =~= chosen@);
        if keywords@.len() > 0 {
            let m = choose|m: i64|
                newest_record(keywords@, m) && chosen@.to_multiset() == #[trigger] facets_of_record(
                    keywords@,
                    m,
                ).to_multiset();
            assert(newest_record(keywords@, m) && keyword_order(chosen@));
        }
    }
    ContextualPresentation {
        contextual: newest_contextual(records),
        keywords: labels,
        mood: newest_facet_label(moods),
        event_type: newest_facet_label(events),
    }
}

/// Reads one listed row, failing with `corrupt audio space row` on a row
/// the projection cannot read instead of requiring a readable one.
pub fn read_audio_space_row(row: StoredAudioSpaceRow) -> (r: Result<AudioSpaceAsset, CatalogError>)
    ensures
        r is Ok <==> audio_space_row_ok(row),
        r matches Ok(a) ==> projects_row(row, a),
        r matches Err(e) ==> e.kind == CatalogErrorKind::Other && e.message@
            == "corrupt audio space row"@,
{
    if !row_readable(&row) {
        return Err(other_error("corrupt audio space row"));
    }
    Ok(audio_space_asset(row))
}

fn optional_json_readable(value: &Option<String>) -> (r: bool)
    ensures
        r == optional_json(*value),
{
    match value {
        Some(text) => json_syntax_error(text.as_str()).is_none(),
        None => true,
    }
}

fn row_readable(row: &StoredAudioSpaceRow) -> (r: bool)
    ensures
        r == audio_space_row_ok(*row),
{
    let duration_ok = match row.duration_millis {
        Some(d) => d >= 0,
        None => true,
    };
    let keywords_ok = json_strings(row.keywords.as_str()).is_some();
    let metadata_ok = match &row.source_metadata {
        Some(m) => 0 <= m.sample_rate && m.sample_rate <= u32::MAX as i64 && 0 <= m.channel_count
            && m.channel_count <= u32::MAX as i64 && json_syntax_error(m.entries.as_str()).is_none(),
        None => true,
    };
    let adjustment_ok = match &row.adjustment {
        Some(a) => row.duration_millis.is_some() && restore_adjustment_scalars(a).is_ok(),
        None => true,
    };
    duration_ok && optional_json_readable(&row.contextual) && keywords_ok
        && optional_json_readable(&row.transcript) && 0 <= row.rating && row.rating <= 255
        && metadata_ok && adjustment_ok
}

/// Reads every listed row in order; the first row the projection cannot
/// read fails the whole listing.
pub fn read_audio_space(rows: Vec<StoredAudioSpaceRow>) -> (r: Result<Vec<AudioSpaceAsset>, CatalogError>)
    ensures
        r is Ok <==> forall|i: int| 0 <= i < rows@.len() ==> audio_space_row_ok(#[trigger] rows@[i]),
        r matches Ok(assets) ==> assets@.len() == rows@.len() && forall|i: int|
            0 <= i < rows@.len() ==> projects_row(rows@[i], #[trigger] assets@[i]),
        r matches Err(e) ==> e.kind == CatalogErrorKind::Other && e.message@
            == "corrupt audio space row"@,
{
    let mut k: usize = 0;
    while k < rows.len()
        invariant
            k <= rows@.len(),
            forall|i: int| 0 <= i < k ==> audio_space_row_ok(#[trigger] rows@[i]),
        decreases rows@.len() - k,
    {
        if !row_readable(&rows[k]) {
            return Err(other_error("corrupt audio space row"));
        }
        k = k + 1;
    }
    Ok(list_audio_space(rows))
}

} // verus!
