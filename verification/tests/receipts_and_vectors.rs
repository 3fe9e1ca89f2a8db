use echo_library::cache::content_hash_of;
use echo_library::catalog::analysis::AnalysisLevel;
use echo_library::catalog::assets::{
    load_asset, AssetLookup, AssetPathStatus, AssetRegistrationInput, AssetTable, RegisterAsset,
    StoredAsset,
};
use echo_library::catalog::delivery_formats::{delivery_migration_needed, require_intact_references};
use echo_library::catalog::error::CatalogErrorKind;
use echo_library::catalog::impulse_response::require_single_import;
use echo_library::catalog::adjustment::{
    audio_space_adjustment, restore_adjustment_scalars, StoredAdjustmentScalars,
};
use echo_library::catalog::audio_semantic_index::{
    audio_semantic_source, stored_audio_segment, validate_audio_embedding, validate_audio_query,
    CLAP_DIMENSIONS,
};
use echo_library::catalog::generated_audio::{
    admit_generation_receipt, check_receipt_owner, receipt_fields, validate_generation_receipt,
    GenerationReceipt,
};
use echo_library::catalog::identity::AssetId;

const ASSET: &str = "018f5f1a-ff90-7c71-9ec4-66d36516664c";
const HASH: &str = "abababababababababababababababababababababababababababababababab";

fn receipt() -> GenerationReceipt {
    GenerationReceipt {
        schema_version: Some(1),
        output_hash: Some(HASH.to_owned()),
        duration_millis: Some(1_500),
        job_id: Some("job-7".to_owned()),
        app_id: Some("echo".to_owned()),
        intent: Some("speech.synthesize".to_owned()),
        state: Some("succeeded".to_owned()),
        physical_model: Some("voice-model".to_owned()),
        model_build: Some("build-3".to_owned()),
    }
}

fn stored_adjustment() -> StoredAdjustmentScalars {
    StoredAdjustmentScalars {
        revision_id: 31,
        trim_start: 100,
        trim_end: 10_000,
        fade_in: 10,
        fade_out: 20,
        fade_in_curve: 0,
        fade_out_curve: 1,
        gain: -30,
        low_cut_hertz: 80,
        compressor_enabled: 1,
        compressor_threshold: -200,
        compressor_ratio: 40,
        compressor_attack: 10,
        compressor_release: 120,
        compressor_makeup: 30,
        limiter_enabled: 0,
        limiter_ceiling: -10,
        limiter_release: 50,
        created_at: 300,
    }
}

#[test]
fn generation_receipts_bind_one_result() {
    assert_eq!(validate_generation_receipt(&receipt(), HASH, 1_500).expect("valid"), "job-7");
    let missing = GenerationReceipt { job_id: Some(String::new()), ..receipt() };
    assert_eq!(
        validate_generation_receipt(&missing, HASH, 1_500).expect_err("missing").message,
        "missing generation Job"
    );
    for invalid in [
        GenerationReceipt { schema_version: Some(2), ..receipt() },
        GenerationReceipt { output_hash: Some("other".to_owned()), ..receipt() },
        GenerationReceipt { intent: Some("speech.clone".to_owned()), ..receipt() },
        GenerationReceipt { model_build: None, ..receipt() },
    ] {
        assert_eq!(
            validate_generation_receipt(&invalid, HASH, 1_500).expect_err("invalid").message,
            "invalid generation receipt"
        );
    }
    assert!(validate_generation_receipt(&receipt(), HASH, 1_400).is_err());
    assert!(check_receipt_owner(ASSET, "{}", ASSET, "{}").is_ok());
    assert_eq!(
        check_receipt_owner("other", "{}", ASSET, "{}").expect_err("owned").message,
        "generation Job already belongs to another result"
    );
}

#[test]
fn clap_sources_and_vectors_are_checked() {
    let source = audio_semantic_source(ASSET, HASH, "/clap/1.wav".to_owned(), 8_000)
        .expect("source");
    assert_eq!(source.asset_id, AssetId::parse(ASSET).expect("uuid"));
    assert_eq!(source.source_revision, format!("echo:clap-audio:v1:{HASH}"));
    assert_eq!(source.duration_millis, 8_000);
    assert_eq!(
        audio_semantic_source(ASSET, HASH, "/x".to_owned(), -1).expect_err("negative").message,
        "negative duration"
    );
    assert_eq!(
        audio_semantic_source("bad", HASH, "/x".to_owned(), 1).expect_err("bad id").message,
        "invalid asset id bad: failed to parse a UUID"
    );

    assert_eq!(validate_audio_embedding(&source, "fixture-space", CLAP_DIMENSIONS, true).expect("ok"), 8_000);
    for (space, dimensions, finite) in [(" \t", 512, true), ("space", 511, true), ("space", 512, false)] {
        assert_eq!(
            validate_audio_embedding(&source, space, dimensions, finite).expect_err("invalid").message,
            "invalid CLAP audio embedding"
        );
    }
    assert!(validate_audio_query(512, true, "fixture-space").is_ok());
    assert_eq!(
        validate_audio_query(512, true, "").expect_err("blank").message,
        "invalid CLAP audio query"
    );
    assert_eq!(stored_audio_segment(2_048, 17).expect("row"), 17);
    assert_eq!(
        stored_audio_segment(2_044, 17).expect_err("short").message,
        "stored CLAP vector length is invalid"
    );
    assert_eq!(
        stored_audio_segment(2_048, -1).expect_err("negative").message,
        "negative segment start"
    );
}

#[test]
fn stored_adjustment_scalars_fail_closed() {
    let restored = restore_adjustment_scalars(&stored_adjustment()).expect("valid");
    assert_eq!(restored.revision_id, 31);
    assert_eq!(restored.trim_start_millis, 100);
    assert_eq!(restored.gain_centibels, -30);
    assert!(restored.compressor.enabled);
    assert_eq!(restored.compressor.ratio_tenths, 40);
    assert!(!restored.limiter.enabled);
    assert_eq!(restored.limiter.release_millis, 50);
    assert_eq!(restored.created_at_millis, 300);

    let negative = StoredAdjustmentScalars { fade_out: -1, ..stored_adjustment() };
    assert_eq!(
        restore_adjustment_scalars(&negative).expect_err("fails closed").message,
        "stored adjustment milliseconds are invalid"
    );
    let loud = StoredAdjustmentScalars { gain: 40_000, compressor_ratio: -1, ..stored_adjustment() };
    assert_eq!(
        restore_adjustment_scalars(&loud).expect_err("gain first").message,
        "stored adjustment gain is invalid"
    );
    let ratio = StoredAdjustmentScalars { compressor_ratio: 70_000, ..stored_adjustment() };
    assert_eq!(
        restore_adjustment_scalars(&ratio).expect_err("ratio").message,
        "stored compressor ratio is invalid"
    );
    let release = StoredAdjustmentScalars { limiter_release: -5, ..stored_adjustment() };
    assert_eq!(
        restore_adjustment_scalars(&release).expect_err("release").message,
        "stored limiter release is invalid"
    );
    assert_eq!(audio_space_adjustment(None, None), None);
    assert_eq!(audio_space_adjustment(Some(stored_adjustment()), Some(20_000)), Some(restored));
}

#[test]
fn asset_ids_read_back_from_their_stored_text() {
    for value in [0_u128, 1, u128::MAX, 0x018f5f1a_ff90_7c71_9ec4_66d36516664c] {
        let id = AssetId { value };
        let text = id.to_text();
        assert_eq!(text.len(), 36);
        assert_eq!(AssetId::parse(&text).expect("round trip"), id);
    }
    assert_eq!(AssetId { value: 1 }.to_text(), "00000000-0000-0000-0000-000000000001");
}

#[test]
fn delivery_expansion_runs_once_and_keeps_references() {
    let expanded = "CREATE TABLE t (format TEXT CHECK (format IN ('mp3','aac_m4a')))";
    let legacy = "CREATE TABLE t (format TEXT CHECK (format IN ('mp3')))";
    assert!(!delivery_migration_needed(expanded, expanded));
    assert!(delivery_migration_needed(legacy, expanded));
    assert!(delivery_migration_needed(expanded, legacy));
    assert!(require_intact_references(0).is_ok());
    let error = require_intact_references(2).expect_err("broken");
    assert_eq!(error.kind, CatalogErrorKind::Constraint);
    assert_eq!(error.message, "delivery migration contains broken references");
}

#[test]
fn selections_resolve_to_one_import() {
    assert!(require_single_import(1).is_ok());
    for count in [0, 2] {
        assert_eq!(
            require_single_import(count).expect_err("unresolved").message,
            "impulse response selection does not resolve to one immutable import"
        );
    }
}

#[test]
fn registered_rows_load_back_as_registered() {
    let hash = content_hash_of(b"pcm");
    let row = StoredAsset {
        id: ASSET.to_owned(),
        content_hash: hash.to_hex(),
        path: "/voices/memory.wav".to_owned(),
        path_status: "present".to_owned(),
        size_bytes: 32,
        codec: Some("pcm".to_owned()),
        duration_millis: Some(1_000),
        recorded_at_millis: None,
        imported_at_millis: 100,
        max_level: 0,
    };
    let asset = load_asset(row.clone()).expect("loads");
    assert_eq!(asset.id.to_text(), ASSET);
    assert_eq!(asset.original.content_hash, hash);
    assert_eq!(asset.original.path_status, AssetPathStatus::Present);
    assert_eq!(asset.original.duration_millis, Some(1_000));
    assert_eq!(asset.max_level, AnalysisLevel::Registered);
    let bad_level = StoredAsset { max_level: 9, ..row.clone() };
    assert_eq!(
        load_asset(bad_level).expect_err("level").message,
        "Conversion error from type Integer at index: 9, invalid stored analysis level 9"
    );
    let bad_status = StoredAsset { path_status: "gone".to_owned(), ..row.clone() };
    assert_eq!(
        load_asset(bad_status).expect_err("status").message,
        "Conversion error from type Text at index: 3, invalid stored path status gone"
    );
    let bad_size = StoredAsset { size_bytes: -1, ..row.clone() };
    assert_eq!(
        load_asset(bad_size).expect_err("size").message,
        "Conversion error from type Integer at index: 4, stored size_bytes is negative"
    );
    let bad_id = StoredAsset { id: "zz".to_owned(), ..row.clone() };
    assert_eq!(
        load_asset(bad_id).expect_err("id").message,
        "Conversion error from type Text at index: 0, failed to parse a UUID"
    );
    let bad_hash = StoredAsset { content_hash: "xyz".to_owned(), ..row };
    assert_eq!(
        load_asset(bad_hash).expect_err("hash").message,
        "Conversion error from type Text at index: 1, invalid stored content hash xyz"
    );
}

#[test]
fn listed_durations_show_seconds_and_milliseconds() {
    assert_eq!(echo_library::catalog::assets::duration_text(Some(12_034)), "12.034s");
    assert_eq!(echo_library::catalog::assets::duration_text(Some(999)), "0.999s");
    assert_eq!(echo_library::catalog::assets::duration_text(Some(60_000)), "60.000s");
    assert_eq!(echo_library::catalog::assets::duration_text(None), "unknown");
}

fn receipt_document(state: &str) -> String {
    format!(
        r#"{{"schema_version":1,"output_hash":"{HASH}","duration_millis":1500,"runtime":{{"job":{{"id":"job-7","app_id":"echo","intent":"speech.synthesize","state":"{state}","physical_model":"voice-model","model_build":"build-3"}}}}}}"#
    )
}

#[test]
fn receipt_documents_are_read_at_their_fields_and_admitted() {
    assert_eq!(receipt_fields(&receipt_document("succeeded")), receipt());
    assert_eq!(admit_generation_receipt(&receipt_document("succeeded"), HASH, 1_500).expect("valid"), "job-7");
    assert_eq!(
        admit_generation_receipt(&receipt_document("failed"), HASH, 1_500).expect_err("failed job").message,
        "invalid generation receipt"
    );
    let bare = receipt_fields(r#"{"schema_version":"1","runtime":[]}"#);
    assert_eq!(bare.schema_version, None);
    assert_eq!(bare.job_id, None);
    assert_eq!(
        admit_generation_receipt("not json", HASH, 1_500).expect_err("no job").message,
        "missing generation Job"
    );
}

fn stored_asset(id: &str, hash: &str, path: &str) -> StoredAsset {
    StoredAsset {
        id: id.to_owned(),
        content_hash: hash.to_owned(),
        path: path.to_owned(),
        path_status: "present".to_owned(),
        size_bytes: 32,
        codec: Some("pcm".to_owned()),
        duration_millis: Some(1_000),
        recorded_at_millis: None,
        imported_at_millis: 100,
        max_level: 0,
    }
}

#[test]
fn missing_assets_relink_by_content_hash_and_present_ones_keep_their_path() {
    let hash = content_hash_of(b"pcm");
    let other_hash = content_hash_of(b"other");
    let second = "018f5f1a-ff90-7c71-9ec4-66d36516664d";
    let mut table = AssetTable::new();
    table.rows.push(stored_asset(ASSET, &hash.to_hex(), "/old/voice.wav"));
    table.rows.push(stored_asset(second, &other_hash.to_hex(), "/old/other.wav"));
    assert!(!table.relink_asset_by_hash(&hash.to_hex(), "/new/voice.wav"));
    assert_eq!(table.rows[0].path, "/old/voice.wav");
    table.mark_asset_missing(ASSET);
    assert_eq!(table.rows[0].path_status, "missing");
    assert_eq!(table.rows[1].path_status, "present");
    assert!(table.relink_asset_by_hash(&hash.to_hex(), "/new/voice.wav"));
    assert_eq!(table.rows[0].path, "/new/voice.wav");
    assert_eq!(table.rows[0].path_status, "present");
    assert!(!table.relink_asset_by_hash(&hash.to_hex(), "/newer/voice.wav"));

    match table.find_by_content_hash(&other_hash).expect("reads") {
        AssetLookup::Found(asset) => assert_eq!(asset.id.to_text(), second),
        AssetLookup::NotFound => panic!("registered content is found"),
    }
    let id = AssetId::parse(ASSET).expect("uuid");
    match table.find_by_id(id).expect("reads") {
        AssetLookup::Found(asset) => assert_eq!(asset.original.path, "/new/voice.wav"),
        AssetLookup::NotFound => panic!("registered id is found"),
    }
    assert_eq!(
        table.find_by_content_hash(&content_hash_of(b"unknown")).expect("reads"),
        AssetLookup::NotFound
    );
}

#[test]
fn same_content_registers_once_and_a_later_import_refreshes_the_path() {
    let hash = content_hash_of(b"voice");
    let input = AssetRegistrationInput {
        content_hash: hash,
        path: "/imports/voice.wav".to_owned(),
        size_bytes: 44,
        codec: Some("pcm".to_owned()),
        duration_millis: Some(1_000),
        recorded_at_millis: None,
        imported_at_millis: 10,
    };
    let first_id = AssetId::parse(ASSET).expect("uuid");
    let unused_id = AssetId::parse("018f5f1a-ff90-7c71-9ec4-66d36516664d").expect("uuid");
    let mut table = AssetTable::new();
    let created = match table.register_asset(&input, first_id).expect("registers") {
        RegisterAsset::Created(asset) => asset,
        RegisterAsset::Existed(_) => panic!("new content is created"),
    };
    assert_eq!(created.id, first_id);
    assert_eq!(created.original.path_status, AssetPathStatus::Present);
    let moved = AssetRegistrationInput { path: "/moved/voice.wav".to_owned(), ..input.clone() };
    let existed = match table.register_asset(&moved, unused_id).expect("registers") {
        RegisterAsset::Existed(asset) => asset,
        RegisterAsset::Created(_) => panic!("known content is not duplicated"),
    };
    assert_eq!(existed.id, created.id);
    assert_eq!(table.rows.len(), 1);
    assert_eq!(table.rows[0].path, "/moved/voice.wav");
    let huge = AssetRegistrationInput {
        content_hash: content_hash_of(b"huge"),
        size_bytes: u64::MAX,
        ..input
    };
    assert!(table.register_asset(&huge, unused_id).is_err());
    assert_eq!(table.rows.len(), 1);
}

#[test]
fn assets_are_listed_newest_import_first() {
    let mut table = AssetTable::new();
    let older = "018f5f1a-ff90-7c71-9ec4-66d365166601";
    let newer_low = "018f5f1a-ff90-7c71-9ec4-66d365166602";
    let newer_high = "018f5f1a-ff90-7c71-9ec4-66d365166603";
    for (id, imported, seed) in [(older, 5, b"a"), (newer_low, 9, b"b"), (newer_high, 9, b"c")] {
        let mut row = stored_asset(id, &content_hash_of(seed).to_hex(), "/x.wav");
        row.imported_at_millis = imported;
        table.rows.push(row);
    }
    let ids: Vec<String> =
        table.list_assets().expect("lists").iter().map(|asset| asset.id.to_text()).collect();
    assert_eq!(ids, [newer_high, newer_low, older]);
    table.rows[1].size_bytes = -1;
    assert!(table.list_assets().is_err());
}
