use echo_library::catalog::adjustment::StoredAdjustmentScalars;
use echo_library::catalog::audio_space::{
    audio_space_asset, contextual_presentation, latest_keywords, list_audio_space,
    newest_adjustment, read_audio_space, read_audio_space_row, SourceMetadata,
    StoredAudioSpaceRow, StoredContextualRecord, StoredFacet, StoredSourceMetadata,
};
use echo_library::catalog::facets::{insert_contextual_rows, ContextualFacetKind};

fn adjustment() -> StoredAdjustmentScalars {
    StoredAdjustmentScalars {
        revision_id: 4,
        trim_start: 0,
        trim_end: 900,
        fade_in: 5,
        fade_out: 6,
        fade_in_curve: 1,
        fade_out_curve: 2,
        gain: -12,
        low_cut_hertz: 40,
        compressor_enabled: 0,
        compressor_threshold: -180,
        compressor_ratio: 20,
        compressor_attack: 5,
        compressor_release: 90,
        compressor_makeup: 0,
        limiter_enabled: 1,
        limiter_ceiling: -3,
        limiter_release: 40,
        created_at: 77,
    }
}

fn row(id: &str) -> StoredAudioSpaceRow {
    StoredAudioSpaceRow {
        id: id.to_owned(),
        path: format!("/tmp/{id}.wav"),
        codec: Some("pcm".to_owned()),
        duration_millis: Some(1000),
        recorded_at_millis: None,
        imported_at_millis: 10,
        path_status: "present".to_owned(),
        max_level: 3,
        contextual: Some("{\"mood\":\"calm\"}".to_owned()),
        keywords: "[\"forest\",\"rain\"]".to_owned(),
        mood: Some("calm".to_owned()),
        event_type: None,
        transcript: Some("{\"text\":\"hello\",\"segments\":[],\"runtime\":null}".to_owned()),
        liked: 1,
        rating: 4,
        source_metadata: Some(StoredSourceMetadata {
            container_format: "wav".to_owned(),
            sample_rate: 48000,
            channel_count: 2,
            entries: "[]".to_owned(),
        }),
        adjustment: Some(adjustment()),
    }
}

#[test]
fn stored_rows_project_with_parsed_keywords_and_restored_adjustment() {
    let asset = audio_space_asset(row("a"));
    assert_eq!(asset.id, "a");
    assert_eq!(asset.duration_millis, Some(1000));
    assert!(asset.liked);
    assert_eq!(asset.rating, 4);
    assert_eq!(asset.contextual_keywords, vec!["forest".to_owned(), "rain".to_owned()]);
    assert_eq!(asset.contextual_mood.as_deref(), Some("calm"));
    assert_eq!(asset.contextual.as_deref(), Some("{\"mood\":\"calm\"}"));
    assert_eq!(
        asset.source_metadata,
        Some(SourceMetadata {
            container_format: "wav".to_owned(),
            sample_rate: 48000,
            channel_count: 2,
            entries: "[]".to_owned(),
        })
    );
    let restored = asset.adjustment.expect("newest revision");
    assert_eq!(restored.revision_id, 4);
    assert_eq!(restored.trim_end_millis, 900);
    assert_eq!(restored.gain_centibels, -12);
    assert!(!restored.compressor.enabled);
    assert!(restored.limiter.enabled);
    assert_eq!(restored.created_at_millis, 77);
}

#[test]
fn unanalyzed_unadjusted_rows_project_empty() {
    let bare = StoredAudioSpaceRow {
        contextual: None,
        keywords: "[]".to_owned(),
        mood: None,
        transcript: None,
        liked: 0,
        rating: 0,
        source_metadata: None,
        adjustment: None,
        duration_millis: None,
        ..row("b")
    };
    let asset = audio_space_asset(bare);
    assert_eq!(asset.duration_millis, None);
    assert!(!asset.liked);
    assert!(asset.contextual_keywords.is_empty());
    assert_eq!(asset.adjustment, None);
    assert_eq!(asset.source_metadata, None);
}

#[test]
fn listing_keeps_the_stored_order() {
    let listed = list_audio_space(vec![row("newest"), row("older"), row("oldest")]);
    let ids: Vec<&str> = listed.iter().map(|asset| asset.id.as_str()).collect();
    assert_eq!(ids, ["newest", "older", "oldest"]);
}

fn facet(record: i64, normalized: &str, display: &str) -> StoredFacet {
    StoredFacet {
        analysis_record_id: record,
        normalized_value: normalized.to_owned(),
        display_value: display.to_owned(),
    }
}

#[test]
fn keywords_come_from_the_newest_emitting_record_in_keyword_order() {
    let facets = vec![
        facet(3, "rain", "Rain"),
        facet(7, "wind", "Wind"),
        facet(5, "birds", "Birds"),
        facet(7, "forest", "Forest"),
        facet(7, "creek", "Creek"),
    ];
    let displays: Vec<String> =
        latest_keywords(&facets).into_iter().map(|f| f.display_value).collect();
    assert_eq!(displays, ["Creek", "Forest", "Wind"]);
    assert!(latest_keywords(&[]).is_empty());
    let single = latest_keywords(&[facet(1, "b", "B"), facet(1, "a", "A")]);
    assert_eq!(single.len(), 2);
    assert_eq!(single[0].display_value, "A");
}

#[test]
fn the_projected_adjustment_is_the_newest_revision() {
    let older = adjustment();
    let newer = StoredAdjustmentScalars { revision_id: 9, gain: 30, created_at: 90, ..adjustment() };
    let middle = StoredAdjustmentScalars { revision_id: 6, ..adjustment() };
    let newest = newest_adjustment(&[older, newer, middle]).expect("adjusted");
    assert_eq!(newest.revision_id, 9);
    assert_eq!(newest_adjustment(&[]), None);
    let asset = audio_space_asset(StoredAudioSpaceRow { adjustment: Some(newest), ..row("c") });
    let projected = asset.adjustment.expect("projected");
    assert_eq!(projected.revision_id, 9);
    assert_eq!(projected.gain_centibels, 30);
    assert_eq!(projected.created_at_millis, 90);
}

#[test]
fn sound_wall_projection_keeps_latest_positive_facets_across_empty_refresh() {
    let first = r#"{"schema_version":2,"sound_caption":"Window memory","summary":"fixture","keywords":["old house","window"],"mood":"calm","place_hint":null,"event_type":"recollection","people_hints":[]}"#;
    let second = r#"{"schema_version":3,"sound_caption":"Sunlight through old windows","keywords":[],"mood":null,"event_type":null}"#;
    let records = vec![
        StoredContextualRecord { id: 21, value: first.to_owned() },
        StoredContextualRecord { id: 22, value: second.to_owned() },
    ];
    let mut keywords = Vec::new();
    let mut moods = Vec::new();
    let mut events = Vec::new();
    let emitted = [
        (21, insert_contextual_rows(
            &["old house".to_owned(), "window".to_owned()],
            Some("calm"),
            None,
            Some("recollection"),
            &[],
        )),
        (22, insert_contextual_rows(&[], None, None, None, &[])),
    ];
    for (record, rows) in emitted {
        for (kind, key, label) in rows {
            let facet = StoredFacet {
                analysis_record_id: record,
                normalized_value: key,
                display_value: label,
            };
            match kind {
                ContextualFacetKind::Keyword => keywords.push(facet),
                ContextualFacetKind::Mood => moods.push(facet),
                ContextualFacetKind::Event => events.push(facet),
                ContextualFacetKind::Place | ContextualFacetKind::Person => {}
            }
        }
    }
    let shown = contextual_presentation(&records, &keywords, &moods, &events);
    let contextual: serde_json::Value =
        serde_json::from_str(shown.contextual.as_deref().expect("latest contextual evidence"))
            .expect("json");
    assert_eq!(contextual["sound_caption"], "Sunlight through old windows");
    assert_eq!(shown.keywords, ["old house", "window"]);
    assert_eq!(shown.mood.as_deref(), Some("calm"));
    assert_eq!(shown.event_type.as_deref(), Some("recollection"));
}

#[test]
fn unreadable_rows_fail_the_listing_instead_of_projecting() {
    assert!(read_audio_space_row(row("ok")).is_ok());
    let broken = [
        StoredAudioSpaceRow { duration_millis: Some(-1), ..row("a") },
        StoredAudioSpaceRow { contextual: Some("{".to_owned()), ..row("b") },
        StoredAudioSpaceRow { keywords: "[1]".to_owned(), ..row("c") },
        StoredAudioSpaceRow { rating: 256, ..row("d") },
        StoredAudioSpaceRow { duration_millis: None, ..row("e") },
        StoredAudioSpaceRow { adjustment: Some(StoredAdjustmentScalars { gain: 40_000, ..adjustment() }), ..row("f") },
    ];
    for bad in broken {
        assert_eq!(read_audio_space_row(bad.clone()).expect_err("corrupt").message, "corrupt audio space row");
        assert!(read_audio_space(vec![row("fine"), bad]).is_err());
    }
    assert_eq!(read_audio_space(vec![row("x"), row("y")]).expect("reads").len(), 2);
}
