use echo_library::catalog::error::CatalogErrorKind;
use echo_library::catalog::job_queue::{
    claim_job, claim_next_job, decode_failed_job, job_stats, list_failed_jobs, select_next_job,
    FailedJobRow,
    FileJobPayload, JobKind, JobState, JobStats, PendingJob, ScanRootJobPayload,
};
use echo_library::catalog::job_table::{JobRow, JobTable};

fn job_row(table: &JobTable, id: &str) -> JobRow {
    table.rows[table.find(id).expect("queued")].clone()
}

fn failed_row(row: &JobRow) -> FailedJobRow {
    FailedJobRow {
        id: row.id.clone(),
        kind: row.kind.clone(),
        payload: row.payload.clone(),
        progress: row.progress,
        attempts: row.attempts,
        created_at_millis: row.created_at_millis,
        updated_at_millis: row.updated_at_millis,
        error: row.error.clone(),
    }
}

fn pending(id: &str, kind: JobKind, payload: &str, created_at_millis: i64) -> PendingJob {
    PendingJob {
        id: id.to_owned(),
        kind: kind.as_str().to_owned(),
        payload: payload.to_owned(),
        attempts: 0,
        created_at_millis,
    }
}

/// Claims every job in queue order, as repeated claims of the next job do.
fn claim_order(mut queue: Vec<PendingJob>) -> Vec<String> {
    let mut claimed = Vec::new();
    while let Some(index) = select_next_job(&queue) {
        claimed.push(queue.remove(index).id);
    }
    claimed
}

#[test]
fn structural_jobs_are_claimed_before_progressive_analysis() {
    let asset = r#"{"asset_id":"x"}"#;
    let import = FileJobPayload { path: "/tmp/voice.wav".to_owned() }.encode();
    let scan = ScanRootJobPayload { root: "/tmp".to_owned() }.encode();
    let queue = vec![
        pending("old-transcript", JobKind::Transcribe, asset, 0),
        pending("events", JobKind::DetectAudioEvents, asset, 0),
        pending("waveform", JobKind::AnalyzeWaveform, asset, 10),
        pending("import", JobKind::ImportFile, &import, 10),
        pending("scan", JobKind::ScanRoot, &scan, 10),
    ];
    assert_eq!(claim_order(queue), ["scan", "import", "waveform", "old-transcript", "events"]);

    let mut table = JobTable::new();
    table.enqueue_job("old-transcript", JobKind::Transcribe, asset, 0);
    table.enqueue_job("events", JobKind::DetectAudioEvents, asset, 0);
    table.enqueue_job("waveform", JobKind::AnalyzeWaveform, asset, 10);
    table.enqueue_job("import", JobKind::ImportFile, &import, 10);
    table.enqueue_job("scan", JobKind::ScanRoot, &scan, 10);
    let mut claimed = Vec::new();
    for now in 20..25 {
        claimed.push(table.claim_next_job(now).expect("claim").expect("pending job").id);
    }
    assert_eq!(claimed, ["scan", "import", "waveform", "old-transcript", "events"]);
}

#[test]
fn jobs_of_one_kind_claim_oldest_then_smallest_id() {
    let queue = vec![
        pending("job-2", JobKind::Transcribe, "{}", 100),
        pending("job-1", JobKind::Transcribe, "{}", 100),
        pending("job-0", JobKind::Transcribe, "{}", 50),
    ];
    assert_eq!(claim_order(queue), ["job-0", "job-1", "job-2"]);
    assert_eq!(select_next_job(&[]), None);
}

#[test]
fn claiming_counts_an_attempt_and_checks_the_payload() {
    let mut job = pending("job-1", JobKind::Align, r#"{"asset_id":"a"}"#, 1);
    job.attempts = 2;
    let (claimed, attempts) = claim_job(&job).expect("claim");
    assert_eq!(claimed.id, "job-1");
    assert_eq!(claimed.kind, JobKind::Align);
    assert_eq!(claimed.payload, r#"{"asset_id":"a"}"#);
    assert_eq!(attempts, 3);

    let corrupt = pending("job-2", JobKind::Align, "{not json", 1);
    let error = claim_job(&corrupt).expect_err("corrupt payload");
    assert_eq!(error.kind, CatalogErrorKind::Other);
    assert!(error.message.starts_with("corrupt job payload for job-2: "));

    let mut unknown = pending("job-3", JobKind::Align, "{}", 1);
    unknown.kind = "defragment".to_owned();
    let error = claim_job(&unknown).expect_err("unknown kind");
    assert_eq!(error.message, "unknown job kind defragment");
}

#[test]
fn failed_jobs_record_errors_and_stats_aggregate() {
    let rows = vec![
        ("pending".to_owned(), 3_i64),
        ("failed".to_owned(), 1),
        ("cancelled".to_owned(), 7),
        ("done".to_owned(), 2),
    ];
    assert_eq!(
        job_stats(&rows),
        JobStats { pending: 3, running: 0, done: 2, failed: 1 }
    );
    assert_eq!(job_stats(&[]), JobStats::default());

    let mut table = JobTable::new();
    table.enqueue_job("a", JobKind::Transcribe, r#"{"asset_id":"x"}"#, 0);
    table.enqueue_job("b", JobKind::Contextual, r#"{"asset_id":"x"}"#, 0);
    table.claim_next_job(1).expect("claim");
    table.fail_job("a", "model missing", 2);
    let stats = table.job_stats();
    assert_eq!(stats.pending, 1);
    assert_eq!(stats.failed, 1);
    assert_eq!(job_row(&table, "a").error.as_deref(), Some("model missing"));
}

#[test]
fn failed_job_projection_reads_every_selected_column() {
    let row = FailedJobRow {
        id: "failed-projection".to_owned(),
        kind: "transcribe".to_owned(),
        payload: r#"{"asset_id":"asset"}"#.to_owned(),
        progress: 42,
        attempts: 2,
        created_at_millis: 10,
        updated_at_millis: 40,
        error: Some("worker unavailable".to_owned()),
    };
    let job = decode_failed_job(&row).expect("failed jobs read");
    assert_eq!(job.id, "failed-projection");
    assert_eq!(job.kind, JobKind::Transcribe);
    assert_eq!(job.payload, r#"{"asset_id":"asset"}"#);
    assert_eq!(job.state, JobState::Failed);
    assert_eq!(job.progress, 42);
    assert_eq!(job.attempts, 2);
    assert_eq!(job.created_at_millis, 10);
    assert_eq!(job.updated_at_millis, 40);
    assert_eq!(job.error.as_deref(), Some("worker unavailable"));

    let unreadable = FailedJobRow { payload: "oops".to_owned(), ..row.clone() };
    assert_eq!(decode_failed_job(&unreadable).expect("reads").payload, "null");
    let mut table = JobTable::new();
    table.enqueue_job("failed", JobKind::Transcribe, r#"{"asset_id":"asset"}"#, 10);
    let _ = table.claim_next_job(20).expect("claim");
    table.update_job_progress("failed", 42, 30);
    table.fail_job("failed", "worker unavailable", 40);
    let jobs = list_failed_jobs(&[failed_row(&job_row(&table, "failed"))]).expect("failed jobs read");
    assert_eq!(jobs.len(), 1);
    assert_eq!(jobs[0].progress, 42);
    assert_eq!(jobs[0].attempts, 1);
    assert_eq!(jobs[0].created_at_millis, 10);
    assert_eq!(jobs[0].updated_at_millis, 40);
    assert_eq!(jobs[0].error.as_deref(), Some("worker unavailable"));

    let foreign = FailedJobRow { kind: "compress".to_owned(), ..row };
    assert_eq!(
        decode_failed_job(&foreign).expect_err("unknown kind").message,
        "unknown job kind compress"
    );
}

#[test]
fn job_kind_and_state_texts_round_trip() {
    for kind in [
        JobKind::ScanRoot,
        JobKind::ImportFile,
        JobKind::ExtractMetadata,
        JobKind::AnalyzeWaveform,
        JobKind::Transcribe,
        JobKind::Align,
        JobKind::DetectAudioEvents,
        JobKind::Contextual,
    ] {
        assert_eq!(JobKind::parse(kind.as_str()).expect("known kind"), kind);
    }
    for state in
        [JobState::Pending, JobState::Running, JobState::Done, JobState::Failed, JobState::Cancelled]
    {
        assert_eq!(JobState::parse(state.as_str()).expect("known state"), state);
    }
    assert_eq!(JobKind::ScanRoot.as_str(), "scan_root");
    assert_eq!(JobState::Cancelled.as_str(), "cancelled");
    assert_eq!(
        JobState::parse("paused").expect_err("unknown").message,
        "unknown analysis job state paused"
    );
}

#[test]
fn job_payloads_encode_and_decode() {
    let file = FileJobPayload { path: "/tmp/f \"1\".wav".to_owned() };
    let text = file.encode();
    assert_eq!(text, r#"{"path":"/tmp/f \"1\".wav"}"#);
    assert_eq!(FileJobPayload::decode(&text).expect("decodes"), file);
    let scan = ScanRootJobPayload { root: "/music".to_owned() };
    assert_eq!(scan.encode(), r#"{"root":"/music"}"#);
    assert_eq!(ScanRootJobPayload::decode(&scan.encode()).expect("decodes"), scan);

    let missing = FileJobPayload::decode(r#"{"root":"/music"}"#).expect_err("no path");
    assert_eq!(missing.kind, CatalogErrorKind::Other);
    assert_eq!(missing.message, "file job payload lacks a path");
    assert_eq!(
        ScanRootJobPayload::decode(r#"{"root":7}"#).expect_err("not a string").message,
        "scan job payload lacks a root"
    );
    assert!(ScanRootJobPayload::decode("not json").is_err());
}

#[test]
fn jobs_claim_in_order_and_recover_after_crash() {
    let mut queue: Vec<PendingJob> = (0..3)
        .map(|index| pending(&format!("job-{index}"), JobKind::ImportFile, r#"{"path":"/tmp/f.wav"}"#, 100 + index))
        .collect();
    let (first, attempts) = claim_next_job(&queue).expect("claim").expect("pending job");
    assert_eq!(first.id, "job-0");
    assert_eq!(attempts, 1);
    queue.remove(0);
    let (second, _) = claim_next_job(&queue).expect("claim").expect("pending job");
    assert_eq!(second.id, "job-1");
    assert!(claim_next_job(&[]).expect("empty").is_none());
    let corrupt = vec![pending("job-9", JobKind::Align, "{", 1)];
    assert!(claim_next_job(&corrupt).is_err());

    let mut table = JobTable::new();
    for index in 0..3 {
        table.enqueue_job(
            &format!("job-{index}"),
            JobKind::ImportFile,
            &FileJobPayload { path: format!("/tmp/f{index}.wav") }.encode(),
            index,
        );
    }
    let first = table.claim_next_job(100).expect("claim");
    assert_eq!(first.as_ref().map(|job| job.id.as_str()), Some("job-0"));
    table.complete_job("job-0", 101);
    let second = table.claim_next_job(102).expect("claim");
    assert_eq!(second.as_ref().map(|job| job.id.as_str()), Some("job-1"));
    let recovered = table.recover_interrupted_jobs(200);
    assert_eq!(recovered, 1);
    let retried = table.claim_next_job(201).expect("claim");
    assert_eq!(retried.as_ref().map(|job| job.id.as_str()), Some("job-1"));
    assert_eq!(job_row(&table, "job-1").attempts, 2);
    assert_eq!(job_row(&table, "job-0").state, JobState::Done);
    assert_eq!(job_row(&table, "job-0").progress, 100);
}

#[test]
fn table_claims_leave_other_jobs_and_failed_claims_change_nothing() {
    let mut table = JobTable::new();
    table.enqueue_job("bad", JobKind::ScanRoot, "{", 0);
    table.enqueue_job("good", JobKind::Transcribe, r#"{"asset_id":"a"}"#, 0);
    let before = table.rows.clone();
    assert!(table.claim_next_job(5).is_err());
    assert_eq!(table.rows, before);
    table.enqueue_job("good", JobKind::Align, "{}", 9);
    assert_eq!(table.rows, before);
    table.fail_job("bad", "corrupt", 6);
    let claimed = table.claim_next_job(7).expect("claim").expect("pending job");
    assert_eq!(claimed.id, "good");
    assert_eq!(job_row(&table, "good").state, JobState::Running);
    assert_eq!(job_row(&table, "good").updated_at_millis, 7);
    assert_eq!(job_row(&table, "bad").state, JobState::Failed);
    assert!(table.claim_next_job(8).expect("claim").is_none());
}

#[test]
fn scan_requeue_revives_finished_scans_but_not_running_ones() {
    let mut table = JobTable::new();
    table.requeue_scan_job("scan-1", r#"{"root":"/a"}"#, 1);
    assert_eq!(job_row(&table, "scan-1").kind, "scan_root");
    let _ = table.claim_next_job(2).expect("claim");
    table.requeue_scan_job("scan-1", r#"{"root":"/a"}"#, 3);
    assert_eq!(job_row(&table, "scan-1").state, JobState::Running);
    table.fail_job("scan-1", "disk gone", 4);
    table.requeue_scan_job("scan-1", r#"{"root":"/a"}"#, 5);
    let revived = job_row(&table, "scan-1");
    assert_eq!(revived.state, JobState::Pending);
    assert_eq!(revived.error, None);
    assert_eq!(revived.updated_at_millis, 5);
    assert_eq!(revived.attempts, 1);
}

#[test]
fn failed_job_listing_keeps_order_and_fails_on_unknown_kinds() {
    let row = |id: &str, kind: &str| FailedJobRow {
        id: id.to_owned(),
        kind: kind.to_owned(),
        payload: "{}".to_owned(),
        progress: 0,
        attempts: 1,
        created_at_millis: 1,
        updated_at_millis: 2,
        error: Some("model missing".to_owned()),
    };
    let jobs = list_failed_jobs(&[row("a", "transcribe"), row("b", "align")]).expect("reads");
    assert_eq!(jobs.iter().map(|job| job.id.as_str()).collect::<Vec<_>>(), ["a", "b"]);
    assert_eq!(jobs[1].kind, JobKind::Align);
    assert_eq!(
        list_failed_jobs(&[row("a", "transcribe"), row("b", "mystery"), row("c", "other")])
            .expect_err("unknown")
            .message,
        "unknown job kind mystery"
    );
}

#[test]
fn job_kind_labels() {
    assert_eq!(JobKind::ScanRoot.label(), "scan");
    assert_eq!(JobKind::ExtractMetadata.label(), "metadata");
    assert_eq!(JobKind::DetectAudioEvents.label(), "events");
}
