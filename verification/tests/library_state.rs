use echo_library::bridge::{
    build_analysis_proxy, build_spectrogram_overview, build_waveform, prepare_impulse_response,
    prepare_impulse_response_with_layout, probe, BridgeError, BridgeErrorKind, EngineRequest,
    ImpulseResponsePreparationLayout,
};
use echo_library::cache::{content_hash_of, CacheError, CacheErrorKind};
use echo_library::catalog::error::{CatalogError, CatalogErrorKind};
use echo_library::catalog::analysis::AnalysisKind;
use echo_library::catalog::analysis_recovery::{
    analysis_job_id, analysis_recovery_mode, automatic_analysis_recovery_count,
    next_analysis_stage, parse_status, recovery_candidates, AnalysisEvidence,
    AnalysisRecoveryMode, AnalysisStage, StoredAnalysisStatus,
};
use echo_library::catalog::assets::{register_asset, AssetRegistrationInput, RegistrationPlan};
use echo_library::catalog::facets::{
    insert_contextual_rows, keyword_facet_from_row, normalize_facet, record_contextual_analysis,
    ContextualFacetKind,
};
use echo_library::catalog::job_queue::JobState;
use echo_library::catalog::user_state::{
    asset_affinity, asset_listening_state, record_asset_listening_progress, set_asset_affinity,
    AssetAffinity, AssetListeningState,
};

const ASSET: &str = "018f5f1a-ff90-7c71-9ec4-66d36516664c";

fn status_row(stage: &str, job_state: Option<&str>, error_code: Option<&str>) -> StoredAnalysisStatus {
    StoredAnalysisStatus {
        asset_id: ASSET.to_owned(),
        stage: stage.to_owned(),
        job_id: format!("{stage}-job"),
        job_state: job_state.map(str::to_owned),
        progress: Some(10),
        attempts: Some(1),
        error_code: error_code.map(str::to_owned),
        runtime_job_id: None,
        contract_version: None,
        path_status: "present".to_owned(),
    }
}

#[test]
fn listening_progress_is_bounded_and_preserves_affinity() {
    assert_eq!(asset_listening_state(None).expect("default"), AssetListeningState::default());
    let short = record_asset_listening_progress(20_000, 0, 30_000, 10).expect("short");
    assert_eq!(short.resume_position_millis, 0);
    let resumable = record_asset_listening_progress(72_000, 5_000, 155_000, 20).expect("resume");
    assert_eq!(resumable.resume_position_millis, 72_000);
    let completed = record_asset_listening_progress(150_000, 5_000, 155_000, 30).expect("done");
    assert_eq!(completed.resume_position_millis, 0);
    assert_eq!(completed.last_listened_at_millis, 30);
    assert_eq!(asset_listening_state(Some((30, 0))).expect("reads"), completed);
    assert!(asset_listening_state(Some((30, -1))).is_err());

    let columns = set_asset_affinity(AssetAffinity { liked: true, rating: 4 }).expect("writes");
    assert_eq!(columns, (1, 4));
    assert_eq!(asset_affinity(Some(columns)).expect("reads"), AssetAffinity { liked: true, rating: 4 });
    assert_eq!(asset_affinity(None).expect("default"), AssetAffinity::default());
    assert_eq!(
        set_asset_affinity(AssetAffinity { liked: false, rating: 6 }).expect_err("rating").message,
        "asset rating must be between zero and five"
    );
}

#[test]
fn invalid_listening_ranges_fail_closed() {
    for (position, start, end, now) in [(0, 10, 10, 1), (9, 10, 20, 1), (21, 10, 20, 1), (15, 10, 20, -1)] {
        let error = record_asset_listening_progress(position, start, end, now)
            .expect_err("invalid ranges are rejected");
        assert_eq!(error.message, "listening progress is outside the playable source interval");
    }
}

#[test]
fn facets_aggregate_normalized_keywords() {
    assert_eq!(normalize_facet("Rain"), Some(("rain".to_owned(), "Rain".to_owned())));
    assert_eq!(
        normalize_facet(" Field \t Notes "),
        Some(("field notes".to_owned(), "Field Notes".to_owned()))
    );
    assert_eq!(normalize_facet("   "), None);
    let keywords = vec!["Rain".to_owned(), " Field Notes ".to_owned(), " rain ".to_owned()];
    let rows = insert_contextual_rows(&keywords, Some("Calm"), None, Some(" "), &["Ann".to_owned()]);
    assert_eq!(
        rows,
        vec![
            (ContextualFacetKind::Keyword, "rain".to_owned(), "Rain".to_owned()),
            (ContextualFacetKind::Keyword, "field notes".to_owned(), "Field Notes".to_owned()),
            (ContextualFacetKind::Mood, "calm".to_owned(), "Calm".to_owned()),
            (ContextualFacetKind::Person, "ann".to_owned(), "Ann".to_owned()),
        ]
    );
    assert_eq!(ContextualFacetKind::Person.as_str(), "person");
    assert_eq!(ContextualFacetKind::from_str("place"), Some(ContextualFacetKind::Place));
    assert!(record_contextual_analysis(AnalysisKind::Contextual).is_ok());
    assert!(record_contextual_analysis(AnalysisKind::Transcript).is_err());
    let facet = keyword_facet_from_row("rain".to_owned(), "Rain".to_owned(), 2).expect("count");
    assert_eq!(facet.count, 2);
    assert!(keyword_facet_from_row("rain".to_owned(), "Rain".to_owned(), -1).is_err());
}

#[test]
fn transient_failure_is_automatic_but_contract_failure_is_manual() {
    assert_eq!(analysis_recovery_mode(Some("runtime_unavailable")), AnalysisRecoveryMode::Automatic);
    assert_eq!(analysis_recovery_mode(Some("upstream_protocol")), AnalysisRecoveryMode::Manual);
    assert_eq!(analysis_recovery_mode(None), AnalysisRecoveryMode::Manual);
    let transient = parse_status(status_row("text", Some("failed"), Some("runtime_unavailable")))
        .expect("status");
    let contract = parse_status(status_row("alignment", Some("failed"), Some("upstream_protocol")))
        .expect("status");
    let running = parse_status(status_row("contextual", Some("running"), None)).expect("status");
    assert_eq!(transient.recovery, AnalysisRecoveryMode::Automatic);
    assert_eq!(transient.state_str(), "failed");
    assert_eq!(contract.recovery, AnalysisRecoveryMode::Manual);
    assert_eq!(running.recovery, AnalysisRecoveryMode::NoAction);
    assert_eq!(running.state, Some(JobState::Running));
    let statuses = vec![transient, contract, running];
    assert_eq!(automatic_analysis_recovery_count(&statuses).expect("count"), 1);
    assert_eq!(recovery_candidates(&statuses, AnalysisRecoveryMode::Automatic), vec!["text-job"]);
    assert_eq!(recovery_candidates(&statuses, AnalysisRecoveryMode::Manual), vec!["alignment-job"]);
}

#[test]
fn missing_original_blocks_retry_without_erasing_failed_state() {
    let mut row = status_row("text", Some("failed"), Some("runtime_unavailable"));
    row.path_status = "missing".to_owned();
    let status = parse_status(row).expect("status");
    assert_eq!(status.recovery, AnalysisRecoveryMode::Source);
    assert_eq!(status.state_str(), "failed");
    let complete = parse_status(status_row("complete", Some("failed"), None)).expect("status");
    assert_eq!(complete.recovery, AnalysisRecoveryMode::NoAction);
    assert_eq!(complete.state_str(), "done");
    assert_eq!(AnalysisRecoveryMode::NoAction.as_str(), "none");
    let mut bad = status_row("paused", None, None);
    assert_eq!(parse_status(bad.clone()).expect_err("stage").message, "unknown analysis stage paused");
    bad.asset_id = "nope".to_owned();
    assert_eq!(
        parse_status(bad).expect_err("asset id").message,
        "invalid stored analysis asset id nope: failed to parse a UUID"
    );
}

#[test]
fn projects_empty_speech_through_sound_events_before_completion() {
    let empty_speech = AnalysisEvidence {
        has_transcript: true,
        transcript_empty: true,
        has_alignment: false,
        has_events: false,
        has_contextual: false,
        has_long_plan: false,
    };
    assert_eq!(next_analysis_stage(empty_speech), AnalysisStage::SoundEvents);
    assert_eq!(
        analysis_job_id(empty_speech, "a1", 2, 3),
        "detect-audio-events-v1-a1"
    );
    let with_events = AnalysisEvidence { has_events: true, ..empty_speech };
    assert_eq!(next_analysis_stage(with_events), AnalysisStage::Complete);
    let aligned = AnalysisEvidence { transcript_empty: false, has_alignment: true, ..empty_speech };
    assert_eq!(next_analysis_stage(aligned), AnalysisStage::Contextual);
    assert_eq!(analysis_job_id(aligned, "a1", 2, 3), "contextual-v2-r3-a1");
    let fresh = AnalysisEvidence { has_transcript: false, transcript_empty: false, ..empty_speech };
    assert_eq!(next_analysis_stage(fresh), AnalysisStage::Text);
    assert_eq!(analysis_job_id(fresh, "a1", 2, 3), "transcribe-a1");
    assert_eq!(AnalysisStage::SoundEvents.as_str(), "sound_events");
    assert_eq!(AnalysisStage::parse("long_audio").expect("known"), AnalysisStage::LongAudio);
}

#[test]
fn registration_refreshes_existing_content_and_inserts_new_content() {
    let input = AssetRegistrationInput {
        content_hash: content_hash_of(b"pcm"),
        path: "/voices/memory.wav".to_owned(),
        size_bytes: 32,
        codec: Some("pcm".to_owned()),
        duration_millis: Some(u64::MAX),
        recorded_at_millis: None,
        imported_at_millis: 100,
    };
    match register_asset(&input, None).expect("plan") {
        RegistrationPlan::Insert(columns) => {
            assert_eq!(columns.content_hash, input.content_hash.to_hex());
            assert_eq!(columns.size_bytes, 32);
            assert_eq!(columns.duration_millis, None);
            assert_eq!(columns.imported_at_millis, 100);
        },
        RegistrationPlan::RefreshPath(_) => panic!("new content must be inserted"),
    }
    let huge = AssetRegistrationInput { size_bytes: u64::MAX, ..input };
    assert_eq!(
        register_asset(&huge, None).expect_err("size").message,
        "value exceeds SQLite integer range: out of range integral type conversion attempted"
    );
}

#[test]
fn engine_requests_carry_their_arguments() {
    assert_eq!(probe("/a.wav"), EngineRequest::Probe { path: "/a.wav".to_owned() });
    assert_eq!(
        build_waveform("/a.wav", 4).expect("levels"),
        EngineRequest::Waveform { path: "/a.wav".to_owned(), max_levels: 4 }
    );
    let error = build_waveform("/a.wav", 0).expect_err("no levels");
    assert_eq!(error.kind, BridgeErrorKind::EngineRejected);
    assert_eq!(error.message, "max_levels must be positive");
    assert_eq!(
        prepare_impulse_response("/ir.wav", "/out.f32"),
        prepare_impulse_response_with_layout(
            "/ir.wav",
            "/out.f32",
            ImpulseResponsePreparationLayout::MonoOrStereo
        )
    );
    assert_eq!(
        prepare_impulse_response_with_layout(
            "/ir.wav",
            "/out.f32",
            ImpulseResponsePreparationLayout::TrueStereoLlLrRlRr
        ),
        EngineRequest::PrepareImpulseResponse {
            source: "/ir.wav".to_owned(),
            output: "/out.f32".to_owned(),
            layout: 1
        }
    );
    assert_eq!(
        build_analysis_proxy("/a.wav", "/p.wav", 10, 20),
        EngineRequest::AnalysisProxy {
            source: "/a.wav".to_owned(),
            output: "/p.wav".to_owned(),
            start_millis: 10,
            end_millis: 20
        }
    );
    assert_eq!(
        build_spectrogram_overview("/a.wav", 512, 128),
        EngineRequest::SpectrogramOverview {
            path: "/a.wav".to_owned(),
            max_time_columns: 512,
            frequency_bins: 128
        }
    );
    let other = BridgeError::new(BridgeErrorKind::Other, "engine missing");
    assert_eq!(other.message, "engine missing");
    assert_eq!(BridgeError::engine_rejected("bad wav".to_owned()).kind, BridgeErrorKind::EngineRejected);
}

#[test]
fn failures_display_their_kind_and_message() {
    assert_eq!(
        CatalogError::new(CatalogErrorKind::SchemaMismatch, "foreign catalog").to_text(),
        "SchemaMismatch: foreign catalog"
    );
    assert_eq!(CacheError::new(CacheErrorKind::TooLarge, "size overflow").to_text(), "TooLarge: size overflow");
    assert_eq!(
        BridgeError::new(BridgeErrorKind::EngineRejected, "bad wav").to_text(),
        "EngineRejected: bad wav"
    );
}
