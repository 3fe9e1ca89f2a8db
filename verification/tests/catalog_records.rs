use echo_library::cache::content_hash_of;
use echo_library::catalog::adjustment::{
    adjustable_duration, asset_duration, millis_i64, stored_centibels, stored_low_cut,
    stored_millis, stored_u16,
};
use echo_library::catalog::analysis::{
    decode_analysis_row, kind_text, lifted_level, minimum_level_for, parse_kind, AnalysisKind,
    AnalysisLevel, AnalysisQueryError, AnalysisQueryErrorKind, AnalysisLog,
};
use echo_library::catalog::derived_artifact::{
    find_derived_artifact, upsert_derived_artifact, ArtifactTable, DerivedArtifactKind,
    DerivedArtifactRecord,
};
use echo_library::catalog::error::{CatalogError, CatalogErrorKind};
use echo_library::catalog::identity::AssetId;
use echo_library::catalog::impulse_response::{
    check_preparation, check_source_size, list_impulse_responses, order_imports,
    record_impulse_response,
    records_equal, ImpulseResponseLayout, StoredImpulseResponse,
    ImpulseResponseRecord, ImpulseResponseRights,
};
use echo_library::catalog::inference_run::{
    inference_run, parse_state, state_text, upsert_inference_run, InferenceRunState,
    InferenceRunTable, StoredInferenceRun, UpsertInferenceRun,
};
use echo_library::catalog::long_audio::{
    ensure_long_audio_plan, list_long_audio_outline_nodes, list_long_audio_segments,
    require_one_row, sqlite_u64, validate_plan, LongAudioOutlineNode, LongAudioProxyRef,
    LongAudioSegmentPlan,
    LongAudioSegments,
    LongAudioStage, StoredLongAudioSegment,
};
use echo_library::catalog::schema::{
    catalog_stats, current_schema_revision, schema_action, schema_revisions, CatalogSchemaRevision,
    SchemaAction,
};
use echo_library::content_hash::ContentHash;

const ASSET: &str = "018f5f1a-ff90-7c71-9ec4-66d36516664c";

fn content_hash(value: char) -> ContentHash {
    ContentHash::from_hex(&value.to_string().repeat(64)).expect("content hash")
}

fn record() -> ImpulseResponseRecord {
    ImpulseResponseRecord {
        import_id: AssetId::parse(ASSET).expect("uuid").value,
        source_hash: content_hash('a'),
        source_size_bytes: 4_096,
        prepared_hash: content_hash('b'),
        prepared_size_bytes: 8_192,
        preparation_version: 1,
        source_sample_rate: 44_100,
        channel_count: 2,
        layout: ImpulseResponseLayout::StereoParallel,
        source_frame_count: 22_050,
        prepared_frame_count: 24_000,
        avcodec_version: 1,
        swresample_version: 2,
        imported_at_millis: 123_456,
        original_path: "/tmp/room.wav".to_owned(),
        display_name: "Room IR".to_owned(),
        creator: Some("Field recordist".to_owned()),
        source_url: Some("https://example.invalid/room".to_owned()),
        attribution: Some("Room IR by Field recordist".to_owned()),
        rights: ImpulseResponseRights::Spdx {
            expression: "CC0-1.0".to_owned(),
            license_url: None,
        },
    }
}

#[test]
fn rights_shape_is_explicit() {
    assert_eq!(
        ImpulseResponseRights::UserOwnedNoRedistribution,
        ImpulseResponseRights::UserOwnedNoRedistribution
    );
}

#[test]
fn immutable_import_round_trips_and_rejects_conflicting_identity() {
    let expected = record();
    let first = record_impulse_response(&expected, &[]).expect("record");
    let columns = first.expect("new import writes its source row");
    assert_eq!(columns.size_bytes, 4_096);
    assert_eq!(columns.created_at_millis, 123_456);

    let published = vec![expected.clone()];
    let replay = record_impulse_response(&expected, &published).expect("idempotent replay");
    assert!(replay.is_none());

    let mut conflict = expected.clone();
    conflict.display_name = "Different evidence".to_owned();
    assert!(!records_equal(&conflict, &expected));
    let error = record_impulse_response(&conflict, &published).expect_err("conflict");
    assert_eq!(error.message, "impulse response import id already names different evidence");
}

#[test]
fn preparation_shape_must_match_version_and_layout() {
    let mut mono = record();
    mono.channel_count = 1;
    mono.layout = ImpulseResponseLayout::Mono;
    assert!(record_impulse_response(&mono, &[]).is_ok());
    let mut wrong = record();
    wrong.layout = ImpulseResponseLayout::TrueStereoLlLrRlRr;
    let error = record_impulse_response(&wrong, &[]).expect_err("conflicting shape");
    assert_eq!(error.message, "impulse response preparation version, channels, and layout conflict");
    let mut true_stereo = record();
    true_stereo.preparation_version = 2;
    true_stereo.channel_count = 4;
    true_stereo.layout = ImpulseResponseLayout::TrueStereoLlLrRlRr;
    assert!(record_impulse_response(&true_stereo, &[]).is_ok());
    assert_eq!(ImpulseResponseLayout::StereoParallel.as_str(), "stereo_parallel");
    assert_eq!(
        ImpulseResponseLayout::from_stored("true_stereo_ll_lr_rl_rr").expect("known"),
        ImpulseResponseLayout::TrueStereoLlLrRlRr
    );
    let mut huge = record();
    huge.source_size_bytes = u64::MAX;
    assert_eq!(
        record_impulse_response(&huge, &[]).expect_err("too large").message,
        "out of range integral type conversion attempted"
    );
}

#[test]
fn identities_parse_and_print_hyphenated() {
    let id = AssetId::parse(ASSET).expect("uuid");
    assert_eq!(id.value, 0x018f5f1a_ff90_7c71_9ec4_66d36516664c);
    assert_eq!(id.to_text(), ASSET);
    let upper = AssetId::parse(&ASSET.to_uppercase()).expect("either case");
    assert_eq!(upper, id);
    assert!(AssetId::parse("not-a-uuid").is_err());
}

#[test]
fn analysis_kinds_and_levels() {
    assert_eq!(kind_text(AnalysisKind::AudioEvents), "audio_events");
    assert_eq!(parse_kind("contextual"), Some(AnalysisKind::Contextual));
    assert_eq!(parse_kind("mood"), None);
    assert_eq!(minimum_level_for(AnalysisKind::Transcript), AnalysisLevel::Asr);
    assert_eq!(minimum_level_for(AnalysisKind::Emotions), AnalysisLevel::Understanding);
    assert_eq!(minimum_level_for(AnalysisKind::Semantic), AnalysisLevel::SemanticIndex);
    assert_eq!(lifted_level(0, AnalysisKind::Transcript), 1);
    assert_eq!(lifted_level(3, AnalysisKind::Transcript), 3);
    assert_eq!(lifted_level(3, AnalysisKind::Contextual), 4);
    assert_eq!(AnalysisLevel::from_ordinal(2), Some(AnalysisLevel::Understanding));
    assert_eq!(AnalysisLevel::from_ordinal(5), None);
    assert_eq!(AnalysisLevel::Contextual.ordinal(), 4);
}

#[test]
fn analysis_rows_with_corrupt_payloads_fail_the_query() {
    assert_eq!(decode_analysis_row("transcript", r#"{"text":"hi"}"#).expect("reads"), AnalysisKind::Transcript);
    let corrupt = decode_analysis_row("transcript", "{").expect_err("corrupt");
    assert_eq!(corrupt.kind, AnalysisQueryErrorKind::CorruptPayload);
    let unknown = decode_analysis_row("mood", "{}").expect_err("unknown kind");
    assert_eq!(unknown.message, "unknown analysis kind mood");
    let wrapped =
        AnalysisQueryError::from_catalog(CatalogError::new(CatalogErrorKind::Other, "disk"));
    assert_eq!(wrapped.kind, AnalysisQueryErrorKind::CorruptPayload);
    assert_eq!(wrapped.message, "disk");
    assert_eq!(wrapped.to_text(), "analysis query failed: CorruptPayload: disk");
}

#[test]
fn stored_adjustment_values_fail_closed() {
    assert_eq!(stored_centibels(-120, "gain").expect("fits"), -120);
    assert_eq!(stored_centibels(40_000, "gain").expect_err("too big").message, "stored gain is invalid");
    assert_eq!(stored_u16(65_535, "width").expect("fits"), 65_535);
    assert!(stored_u16(-1, "width").is_err());
    assert_eq!(stored_millis(10).expect("fits"), 10);
    assert_eq!(
        stored_millis(-1).expect_err("negative").message,
        "stored adjustment milliseconds are invalid"
    );
    assert_eq!(millis_i64(20).expect("fits"), 20);
    assert!(millis_i64(u64::MAX).is_err());
    assert_eq!(stored_low_cut(80).expect("fits"), 80);
    assert_eq!(asset_duration(None).expect("unknown"), None);
    assert_eq!(asset_duration(Some(10_000)).expect("known"), Some(10_000));
    assert_eq!(
        asset_duration(Some(-1)).expect_err("negative duration fails closed").message,
        "stored asset duration is invalid"
    );
    assert_eq!(adjustable_duration(Some(120_000)).expect("known"), 120_000);
    assert_eq!(
        adjustable_duration(None).expect_err("unknown").message,
        "asset must have a known duration before it can be adjusted"
    );
}

#[test]
fn artifact_reference_round_trips_and_replaces() {
    let asset_id = AssetId::parse(ASSET).expect("uuid");
    let hash = content_hash_of(b"pyramid");
    let row = ("waveform_pyramid".to_owned(), 3_i64, hash.to_hex(), 30_i64, 20_i64);
    let found = find_derived_artifact(asset_id, row).expect("read");
    assert_eq!(found.kind, DerivedArtifactKind::WaveformPyramid);
    assert_eq!(found.content_hash, hash);
    assert_eq!(found.schema_version, 3);
    assert_eq!(found.size_bytes, 30);
    assert_eq!(upsert_derived_artifact(&found).expect("publish"), 30);
    let bad_hash = ("waveform_pyramid".to_owned(), 3_i64, "zz".to_owned(), 30_i64, 20_i64);
    assert_eq!(
        find_derived_artifact(asset_id, bad_hash).expect_err("bad hash").message,
        "malformed derived artifact content hash"
    );
}

#[test]
fn runtime_projection_replaces_submission_with_auditable_completion() {
    let asset_id = AssetId::parse(ASSET).expect("uuid");
    let submission = UpsertInferenceRun {
        local_job_id: "transcribe-runtime".to_owned(),
        asset_id,
        intent: "audio.transcribe".to_owned(),
        runtime_job_id: None,
        contract_version: "0.1.0-candidate.1".to_owned(),
        state: InferenceRunState::Submitting,
        http_status: None,
        error_code: None,
        snapshot: None,
        updated_at_millis: 100,
    };
    let stored = upsert_inference_run(&submission).expect("submission records");
    assert_eq!(stored.asset_id, ASSET);
    assert_eq!(stored.state, "submitting");
    let completion = UpsertInferenceRun {
        runtime_job_id: Some("rt-1".to_owned()),
        state: InferenceRunState::Succeeded,
        http_status: Some(200),
        snapshot: Some(r#"{"state":"succeeded","attempts":{"number":1}}"#.to_owned()),
        updated_at_millis: 200,
        ..submission.clone()
    };
    let row = upsert_inference_run(&completion).expect("completion replaces submission");
    let run = inference_run(row.clone()).expect("run reads");
    assert_eq!(run.state, InferenceRunState::Succeeded);
    assert_eq!(run.asset_id, asset_id);
    assert_eq!(run.http_status, Some(200));
    assert_eq!(run.runtime_job_id.as_deref(), Some("rt-1"));
    assert_eq!(run.snapshot, completion.snapshot);
    assert_eq!(run.updated_at_millis, 200);

    let mut table = InferenceRunTable::new();
    table.upsert_inference_run(&submission).expect("submission");
    let other = UpsertInferenceRun { local_job_id: "align-runtime".to_owned(), ..submission.clone() };
    table.upsert_inference_run(&other).expect("other job");
    table.upsert_inference_run(&completion).expect("completion");
    assert_eq!(table.rows.len(), 2);
    let read = table.find_inference_run("transcribe-runtime").expect("reads").expect("stored");
    assert_eq!(read.state, InferenceRunState::Succeeded);
    assert_eq!(read.snapshot, completion.snapshot);
    assert_eq!(
        table.find_inference_run("align-runtime").expect("reads").expect("stored").state,
        InferenceRunState::Submitting
    );
    assert_eq!(table.find_inference_run("missing").expect("reads"), None);
    let before = table.rows.clone();
    let anonymous = UpsertInferenceRun { intent: String::new(), ..submission };
    assert!(table.upsert_inference_run(&anonymous).is_err());
    assert_eq!(table.rows, before);
    assert_eq!(
        upsert_inference_run(&anonymous).expect_err("empty").message,
        "inference run requires local job, intent, and contract identities"
    );
    let bad = StoredInferenceRun { snapshot_json: Some("{".to_owned()), ..row.clone() };
    assert_eq!(
        inference_run(bad).expect_err("snapshot").message,
        format!(
            "invalid inference snapshot JSON: {}",
            serde_json::from_str::<serde_json::Value>("{").expect_err("not json")
        )
    );
    let unknown = StoredInferenceRun { state: "paused".to_owned(), ..row };
    assert_eq!(inference_run(unknown).expect_err("state").message, "unknown inference run state paused");
    assert_eq!(state_text(InferenceRunState::Expired), "expired");
    assert_eq!(parse_state("cancelled").expect("known"), InferenceRunState::Cancelled);
}

#[test]
fn long_audio_plans_must_tile_the_source() {
    let plan = [
        LongAudioSegmentPlan { index: 0, start_millis: 0, end_millis: 1_000 },
        LongAudioSegmentPlan { index: 1, start_millis: 1_000, end_millis: 2_500 },
    ];
    assert!(validate_plan(&plan).is_ok());
    assert_eq!(ensure_long_audio_plan(&plan).expect("rows"), vec![(0, 0, 1_000), (1, 1_000, 2_500)]);
    assert_eq!(
        validate_plan(&[]).expect_err("empty").message,
        "long-audio plan must contain at least one segment"
    );
    let gap = [
        LongAudioSegmentPlan { index: 0, start_millis: 0, end_millis: 1_000 },
        LongAudioSegmentPlan { index: 1, start_millis: 1_100, end_millis: 2_500 },
    ];
    assert_eq!(
        validate_plan(&gap).expect_err("gap").message,
        "long-audio plan must be contiguous and zero-based"
    );
    assert!(sqlite_u64(u64::MAX).is_err());
    assert!(require_one_row(1).is_ok());
    assert!(require_one_row(0).is_err());
    assert_eq!(LongAudioStage::Transcript.column(), "transcript_json");
}

#[test]
fn schema_revisions_migrate_every_older_ladder_revision() {
    let current = CatalogSchemaRevision::parse("20260813.2").expect("current");
    assert_eq!(current, CatalogSchemaRevision { date: 20_260_813, step: 2 });
    assert_eq!(current_schema_revision(), current);
    assert_eq!(current.to_text(), "20260813.2");
    assert_eq!(CatalogSchemaRevision::parse("20260813"), None);
    assert_eq!(CatalogSchemaRevision::parse("2026.x"), None);
    assert_eq!(schema_action(None, "/c").expect("fresh"), SchemaAction::CreateFresh);
    assert_eq!(schema_action(Some("20260813.2"), "/c").expect("reuse"), SchemaAction::Reuse);
    let ladder = schema_revisions();
    for older in [
        "20260811.1", "20260811.2", "20260811.3", "20260811.4", "20260811.5", "20260811.6",
        "20260811.7", "20260811.8", "20260811.10", "20260811.11", "20260811.12", "20260811.13",
        "20260811.14", "20260811.15", "20260811.16", "20260812.1", "20260812.2", "20260812.3",
        "20260812.4", "20260813.1",
    ] {
        match schema_action(Some(older), "/c").expect("older revisions migrate") {
            SchemaAction::Migrate(steps) => {
                assert_eq!(steps.last(), Some(&current));
                let from = CatalogSchemaRevision::parse(older).expect("parses");
                let position = ladder.iter().position(|r| *r == from).expect("on the ladder");
                assert_eq!(steps, ladder[position + 1..].to_vec());
            }
            other => panic!("{older} did not migrate: {other:?}"),
        }
    }
    match schema_action(Some("20260811.1"), "/c").expect("legacy") {
        SchemaAction::Migrate(steps) => assert_eq!(steps.len(), 20),
        other => panic!("legacy catalog did not migrate: {other:?}"),
    }
    for foreign in ["20260813.3", "20260810.1", "garbage"] {
        let error = schema_action(Some(foreign), "/c").expect_err("foreign catalog");
        assert_eq!(error.kind, CatalogErrorKind::SchemaMismatch);
        assert_eq!(
            error.message,
            format!(
                "catalog at /c uses schema revision {foreign}, this binary supports 20260813.2 \
                 (echo-catalog-20260813.2-convolution-space)"
            )
        );
    }
    let stats = catalog_stats(3, 7, "20260813.2").expect("stats");
    assert_eq!(stats.asset_count, 3);
    assert_eq!(stats.schema_version, current);
    assert_eq!(
        catalog_stats(0, 0, "garbage").expect_err("malformed").message,
        "catalog stores malformed schema revision garbage"
    );
}

#[test]
fn recorded_imports_list_back_unchanged() {
    let expected = record();
    let source = record_impulse_response(&expected, &[]).expect("record").expect("source row");
    let preparation = check_source_size(&expected, source.size_bytes).expect("preparation row");
    let import = check_preparation(&expected, &preparation).expect("import row");
    let row = StoredImpulseResponse {
        import_id: AssetId { value: expected.import_id }.to_text(),
        source_hash: preparation.source_hash.clone(),
        source_size_bytes: source.size_bytes,
        prepared_hash: expected.prepared_hash.to_hex(),
        prepared_size_bytes: preparation.size_bytes,
        preparation_version: preparation.preparation_version,
        source_sample_rate: preparation.source_sample_rate,
        channel_count: preparation.channel_count,
        layout: preparation.layout.clone(),
        source_frame_count: preparation.source_frame_count,
        prepared_frame_count: preparation.prepared_frame_count,
        avcodec_version: preparation.avcodec_version,
        swresample_version: preparation.swresample_version,
        imported_at_millis: import.imported_at_millis,
        original_path: expected.original_path.clone(),
        display_name: expected.display_name.clone(),
        creator: expected.creator.clone(),
        source_url: expected.source_url.clone(),
        attribution: expected.attribution.clone(),
        rights_kind: import.rights_kind.to_owned(),
        spdx_expression: import.spdx_expression.clone(),
        license_url: import.license_url.clone(),
    };
    assert_eq!(list_impulse_responses(&[row.clone()]).expect("list records"), vec![expected.clone()]);
    let mut stored = preparation.clone();
    stored.channel_count = 1;
    assert_eq!(
        check_preparation(&expected, &stored).expect_err("conflict").message,
        "prepared impulse response hash has conflicting evidence"
    );
    assert_eq!(
        check_source_size(&expected, 1).expect_err("size").message,
        "impulse response source hash has conflicting size evidence"
    );
    let older = StoredImpulseResponse { imported_at_millis: 1, ..row.clone() };
    let newest = StoredImpulseResponse { imported_at_millis: row.imported_at_millis + 5, ..row.clone() };
    let ordered = order_imports(vec![older.clone(), row.clone(), newest.clone()]);
    assert_eq!(ordered, vec![newest, row.clone(), older]);
    let negative = StoredImpulseResponse { source_size_bytes: -5, ..row.clone() };
    assert_eq!(
        list_impulse_responses(&[negative]).expect_err("out of range").message,
        "Integer -5 out of range at index 0"
    );
    let too_wide = StoredImpulseResponse { channel_count: 1 << 40, ..row.clone() };
    assert_eq!(
        list_impulse_responses(&[too_wide]).expect_err("out of range").message,
        "Integer 1099511627776 out of range at index 0"
    );
    let broken = StoredImpulseResponse { rights_kind: "borrowed".to_owned(), ..row.clone() };
    assert_eq!(list_impulse_responses(&[broken]).expect_err("rights").message, "Query is not read-only");
    let unlicensed = StoredImpulseResponse {
        rights_kind: "spdx".to_owned(),
        spdx_expression: None,
        ..row.clone()
    };
    assert_eq!(
        list_impulse_responses(&[unlicensed]).expect_err("expression").message,
        "Invalid column type Null at index: 20, name: spdx_expression"
    );
    let bad_layout = StoredImpulseResponse { layout: "quad".to_owned(), ..row.clone() };
    assert_eq!(list_impulse_responses(&[bad_layout]).expect_err("layout").message, "Query is not read-only");
    let bad_hash = StoredImpulseResponse { source_hash: "zz".to_owned(), ..row };
    assert_eq!(list_impulse_responses(&[bad_hash]).expect_err("hash").message, "Query is not read-only");
}

#[test]
fn long_audio_rows_read_back_in_order() {
    let asset_id = AssetId::parse(ASSET).expect("uuid");
    let hash = content_hash_of(b"proxy");
    let segment = |index: i64, proxy: bool| StoredLongAudioSegment {
        index,
        start_millis: index * 1_000,
        end_millis: (index + 1) * 1_000,
        proxy_content_hash: if proxy { Some(hash.to_hex()) } else { None },
        proxy_size_bytes: if proxy { Some(64) } else { None },
        transcript: Some(r#"{"text":"hi"}"#.to_owned()),
        alignment: None,
        contextual: None,
        updated_at_millis: 5,
    };
    let segments = list_long_audio_segments(asset_id, 1, &[segment(0, true), segment(1, false)])
        .expect("segments");
    assert_eq!(segments.len(), 2);
    assert_eq!(segments[0].proxy.expect("proxy").content_hash, hash);
    assert_eq!(segments[1].start_millis, 1_000);
    assert!(segments[1].proxy.is_none());
    let mut corrupt = segment(2, false);
    corrupt.transcript = Some("{".to_owned());
    assert!(list_long_audio_segments(asset_id, 1, &[corrupt]).is_err());
    let nodes = list_long_audio_outline_nodes(asset_id, 1, &[(1, 0, 0, 2_000, "{}".to_owned(), 9)])
        .expect("nodes");
    assert_eq!(nodes[0].end_millis, 2_000);
    assert!(list_long_audio_outline_nodes(asset_id, 1, &[(-1, 0, 0, 1, "{}".to_owned(), 9)]).is_err());
}

#[test]
fn artifact_references_are_replaced_read_back_and_removed() {
    let asset_id = AssetId::parse(ASSET).expect("uuid");
    let other = AssetId::parse("018f5f1a-ff90-7c71-9ec4-66d36516664d").expect("uuid");
    let first = DerivedArtifactRecord {
        asset_id,
        kind: DerivedArtifactKind::WaveformPyramid,
        schema_version: 1,
        content_hash: content_hash_of(b"pyramid v1"),
        size_bytes: 10,
        created_at_millis: 1,
    };
    let replacement = DerivedArtifactRecord {
        content_hash: content_hash_of(b"pyramid v1 rebuilt"),
        size_bytes: 12,
        created_at_millis: 2,
        ..first
    };
    let newer_schema = DerivedArtifactRecord { schema_version: 2, ..first };
    let elsewhere = DerivedArtifactRecord { asset_id: other, ..first };
    let mut table = ArtifactTable::new();
    assert_eq!(table.find_derived_artifact(asset_id, DerivedArtifactKind::WaveformPyramid, 1), None);
    table.upsert_derived_artifact(first);
    table.upsert_derived_artifact(newer_schema);
    table.upsert_derived_artifact(elsewhere);
    assert_eq!(table.find_derived_artifact(asset_id, DerivedArtifactKind::WaveformPyramid, 1), Some(first));
    table.upsert_derived_artifact(replacement);
    assert_eq!(table.records.len(), 3);
    assert_eq!(table.find_derived_artifact(asset_id, DerivedArtifactKind::WaveformPyramid, 1), Some(replacement));
    assert_eq!(table.find_derived_artifact(asset_id, DerivedArtifactKind::WaveformPyramid, 2), Some(newer_schema));
    table.remove_derived_artifact(asset_id, DerivedArtifactKind::WaveformPyramid, 1);
    assert_eq!(table.find_derived_artifact(asset_id, DerivedArtifactKind::WaveformPyramid, 1), None);
    assert_eq!(table.find_derived_artifact(other, DerivedArtifactKind::WaveformPyramid, 1), Some(elsewhere));
    assert_eq!(table.records.len(), 2);
}

#[test]
fn appended_evidence_is_newest_and_lifts_the_level() {
    let mut log = AnalysisLog::new();
    assert_eq!(log.max_level, 0);
    log.record_analysis(AnalysisKind::Transcript, r#"{"text":"v1"}"#);
    log.record_analysis(AnalysisKind::Contextual, r#"{"mood":"calm"}"#);
    let level = log.max_level;
    log.record_analysis(AnalysisKind::Transcript, r#"{"text":"v2"}"#);
    assert_eq!(log.records.len(), 3);
    assert_eq!(log.records[0].value, r#"{"text":"v1"}"#);
    assert_eq!(log.newest(AnalysisKind::Transcript).as_deref(), Some(r#"{"text":"v2"}"#));
    assert_eq!(log.newest(AnalysisKind::Contextual).as_deref(), Some(r#"{"mood":"calm"}"#));
    assert_eq!(log.newest(AnalysisKind::Speakers), None);
    assert_eq!(log.max_level, level);
}

fn plan_of(bounds: &[(u64, u64)]) -> Vec<LongAudioSegmentPlan> {
    bounds
        .iter()
        .enumerate()
        .map(|(index, &(start_millis, end_millis))| LongAudioSegmentPlan {
            index: index as u32,
            start_millis,
            end_millis,
        })
        .collect()
}

#[test]
fn installing_a_plan_keeps_its_completed_rows_and_drops_other_versions() {
    let asset = AssetId::parse(ASSET).expect("uuid");
    let other = AssetId::parse("018f5f1a-ff90-7c71-9ec4-66d36516664d").expect("uuid");
    let mut store = LongAudioSegments::new();
    store.ensure_long_audio_plan(asset, 1, &plan_of(&[(0, 100), (100, 200)]), 5).expect("v1");
    store.ensure_long_audio_plan(other, 1, &plan_of(&[(0, 50)]), 5).expect("other asset");
    store
        .record_long_audio_stage(asset, 1, 0, LongAudioStage::Transcript, r#"{"text":"hi"}"#, 6)
        .expect("stage");
    store.ensure_long_audio_plan(asset, 1, &plan_of(&[(0, 100), (100, 200), (200, 300)]), 7).expect("again");
    assert_eq!(store.rows.len(), 4);
    let first = store.rows.iter().find(|row| row.asset_id == asset && row.index == 0).expect("kept");
    assert_eq!(first.transcript.as_deref(), Some(r#"{"text":"hi"}"#));
    assert_eq!(first.updated_at_millis, 6);
    let added = store.rows.iter().find(|row| row.asset_id == asset && row.index == 2).expect("added");
    assert_eq!((added.start_millis, added.end_millis, added.updated_at_millis), (200, 300, 7));

    let node = LongAudioOutlineNode {
        asset_id: asset,
        plan_version: 1,
        level: 1,
        index: 0,
        start_millis: 0,
        end_millis: 300,
        contextual: r#"{"summary":"first"}"#.to_owned(),
        updated_at_millis: 7,
    };
    store.upsert_long_audio_outline_node(node.clone()).expect("outline");
    let revised = LongAudioOutlineNode { contextual: r#"{"summary":"second"}"#.to_owned(), ..node.clone() };
    store.upsert_long_audio_outline_node(revised.clone()).expect("outline replaced");
    let elsewhere = LongAudioOutlineNode { asset_id: other, ..node.clone() };
    store.upsert_long_audio_outline_node(elsewhere.clone()).expect("other asset outline");
    assert_eq!(store.outline, [revised, elsewhere.clone()]);
    let too_long = LongAudioOutlineNode { end_millis: u64::MAX, ..node };
    assert!(store.upsert_long_audio_outline_node(too_long).is_err());

    store.ensure_long_audio_plan(asset, 2, &plan_of(&[(0, 300)]), 8).expect("v2");
    assert_eq!(store.outline, [elsewhere]);
    let versions: Vec<(u32, u32)> = store
        .rows
        .iter()
        .filter(|row| row.asset_id == asset)
        .map(|row| (row.plan_version, row.index))
        .collect();
    assert_eq!(versions, [(2, 0)]);
    assert_eq!(store.rows.iter().filter(|row| row.asset_id == other).count(), 1);

    let before = store.rows.clone();
    assert!(store.ensure_long_audio_plan(asset, 3, &plan_of(&[(10, 20)]), 9).is_err());
    assert_eq!(store.rows, before);
    let proxy = LongAudioProxyRef { content_hash: content_hash_of(b"proxy"), size_bytes: 64 };
    store.record_long_audio_proxy(asset, 2, 0, proxy, 9).expect("proxy");
    let current = store.rows.iter().find(|row| row.asset_id == asset).expect("segment");
    assert_eq!(current.proxy, Some(proxy));
    assert_eq!(current.updated_at_millis, 9);
    let before = store.rows.clone();
    let missing = store
        .record_long_audio_stage(asset, 1, 0, LongAudioStage::Contextual, "{}", 9)
        .expect_err("old version is gone");
    assert_eq!(missing.message, "long-audio segment does not exist");
    assert_eq!(store.rows, before);
}
