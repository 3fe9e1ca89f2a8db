//! The persistent background job queue's rules.
//!
//! Jobs are the durable unit of background work. Structural work (scans,
//! imports, metadata, waveforms) is claimed before progressive analysis;
//! within one kind the oldest job goes first. A claim moves a job from
//! `pending` to `running` and counts the attempt.

use vstd::prelude::*;

use crate::catalog::error::{other_error, other_error_with, CatalogError, CatalogErrorKind};
use crate::json::{
    json_member, json_member_text, json_parse_failure, json_quote, json_quoted, json_syntax_error,
    json_text_is_valid,
};
use crate::text::{concat, owned, same_text, text_less, text_lt};

verus! {

/// Job family; each kind owns its payload schema.
#[derive(Debug, Clone, Copy, PartialEq, Eq, Structural)]
pub enum JobKind {
    /// Walks a scan root, journals files, and queues imports.
    ScanRoot,
    /// Registers one discovered file (hash + probe).
    ImportFile,
    /// Reads container metadata of one registered file.
    ExtractMetadata,
    /// Builds and caches the waveform pyramid for an asset.
    AnalyzeWaveform,
    /// Submits audio transcription and records transcript evidence.
    Transcribe,
    /// Aligns a transcript to the audio.
    Align,
    /// Detects sound events in speech-empty audio.
    DetectAudioEvents,
    /// Runs contextual understanding over a transcript.
    Contextual,
}

/// Job lifecycle state.
#[derive(Debug, Clone, Copy, PartialEq, Eq, Structural)]
pub enum JobState {
    Pending,
    Running,
    Done,
    Failed,
    Cancelled,
}

/// The stored text of a job kind.
pub open spec fn job_kind_text(kind: JobKind) -> Seq<char> {
    match kind {
        JobKind::ScanRoot => "scan_root"@,
        JobKind::ImportFile => "import_file"@,
        JobKind::ExtractMetadata => "extract_metadata"@,
        JobKind::AnalyzeWaveform => "analyze_waveform"@,
        JobKind::Transcribe => "transcribe"@,
        JobKind::Align => "align"@,
        JobKind::DetectAudioEvents => "detect_audio_events"@,
        JobKind::Contextual => "contextual"@,
    }
}

/// The job kind a stored text names, if any.
pub open spec fn job_kind_named(text: Seq<char>) -> Option<JobKind> {
    if text == "scan_root"@ {
        Some(JobKind::ScanRoot)
    } else if text == "import_file"@ {
        Some(JobKind::ImportFile)
    } else if text == "extract_metadata"@ {
        Some(JobKind::ExtractMetadata)
    } else if text == "analyze_waveform"@ {
        Some(JobKind::AnalyzeWaveform)
    } else if text == "transcribe"@ {
        Some(JobKind::Transcribe)
    } else if text == "align"@ {
        Some(JobKind::Align)
    } else if text == "detect_audio_events"@ {
        Some(JobKind::DetectAudioEvents)
    } else if text == "contextual"@ {
        Some(JobKind::Contextual)
    } else {
        None
    }
}

/// Claim precedence of a kind: structural work first, then progressive
/// analysis.
pub open spec fn claim_rank(kind: JobKind) -> int {
    match kind {
        JobKind::ScanRoot => 0,
        JobKind::ImportFile => 1,
        JobKind::ExtractMetadata => 2,
        JobKind::AnalyzeWaveform => 3,
        JobKind::Transcribe => 4,
        JobKind::Align => 5,
        JobKind::DetectAudioEvents => 6,
        JobKind::Contextual => 7,
    }
}

/// Claim precedence of a stored kind text; unknown kinds go last.
pub open spec fn claim_rank_of_text(text: Seq<char>) -> int {
    match job_kind_named(text) {
        Some(kind) => claim_rank(kind),
        None => 8,
    }
}

/// The stored text of a job state.
pub open spec fn job_state_text(state: JobState) -> Seq<char> {
    match state {
        JobState::Pending => "pending"@,
        JobState::Running => "running"@,
        JobState::Done => "done"@,
        JobState::Failed => "failed"@,
        JobState::Cancelled => "cancelled"@,
    }
}

/// The job state a stored text names, if any.
pub open spec fn job_state_named(text: Seq<char>) -> Option<JobState> {
    if text == "pending"@ {
        Some(JobState::Pending)
    } else if text == "running"@ {
        Some(JobState::Running)
    } else if text == "done"@ {
        Some(JobState::Done)
    } else if text == "failed"@ {
        Some(JobState::Failed)
    } else if text == "cancelled"@ {
        Some(JobState::Cancelled)
    } else {
        None
    }
}

impl JobKind {
    /// The stored text of this kind.
    pub fn as_str(self) -> (r: &'static str)
        ensures
            r@ == job_kind_text(self),
    {
        match self {
            JobKind::ScanRoot => "scan_root",
            JobKind::ImportFile => "import_file",
            JobKind::ExtractMetadata => "extract_metadata",
            JobKind::AnalyzeWaveform => "analyze_waveform",
            JobKind::Transcribe => "transcribe",
            JobKind::Align => "align",
            JobKind::DetectAudioEvents => "detect_audio_events",
            JobKind::Contextual => "contextual",
        }
    }

    /// Parses a stored kind; an unknown text is a catalog failure
    /// `unknown job kind <text>`.
    pub fn parse(text: &str) -> (r: Result<JobKind, CatalogError>)
        ensures
            r matches Ok(kind) ==> job_kind_named(text@) == Some(kind),
            r matches Err(error) ==> job_kind_named(text@) is None && error.kind
                == CatalogErrorKind::Other && error.message@ == "unknown job kind "@ + text@,
            r is Ok <==> job_kind_named(text@) is Some,
    {
        if same_text(text, "scan_root") {
            Ok(JobKind::ScanRoot)
        } else if same_text(text, "import_file") {
            Ok(JobKind::ImportFile)
        } else if same_text(text, "extract_metadata") {
            Ok(JobKind::ExtractMetadata)
        } else if same_text(text, "analyze_waveform") {
            Ok(JobKind::AnalyzeWaveform)
        } else if same_text(text, "transcribe") {
            Ok(JobKind::Transcribe)
        } else if same_text(text, "align") {
            Ok(JobKind::Align)
        } else if same_text(text, "detect_audio_events") {
            Ok(JobKind::DetectAudioEvents)
        } else if same_text(text, "contextual") {
            Ok(JobKind::Contextual)
        } else {
            Err(other_error_with("unknown job kind ", text))
        }
    }

    /// Short operator-facing label of this kind.
    pub fn label(self) -> (r: &'static str)
        ensures
            r@ == (match self {
                JobKind::ScanRoot => "scan"@,
                JobKind::ImportFile => "import"@,
                JobKind::ExtractMetadata => "metadata"@,
                JobKind::AnalyzeWaveform => "waveform"@,
                JobKind::Transcribe => "transcribe"@,
                JobKind::Align => "align"@,
                JobKind::DetectAudioEvents => "events"@,
                JobKind::Contextual => "contextual"@,
            }),
    {
        match self {
            JobKind::ScanRoot => "scan",
            JobKind::ImportFile => "import",
            JobKind::ExtractMetadata => "metadata",
            JobKind::AnalyzeWaveform => "waveform",
            JobKind::Transcribe => "transcribe",
            JobKind::Align => "align",
            JobKind::DetectAudioEvents => "events",
            JobKind::Contextual => "contextual",
        }
    }

    /// Claim precedence of this kind (lower is claimed first).
    pub fn claim_rank(self) -> (r: u8)
        ensures
            r as int == claim_rank(self),
    {
        match self {
            JobKind::ScanRoot => 0,
            JobKind::ImportFile => 1,
            JobKind::ExtractMetadata => 2,
            JobKind::AnalyzeWaveform => 3,
            JobKind::Transcribe => 4,
            JobKind::Align => 5,
            JobKind::DetectAudioEvents => 6,
            JobKind::Contextual => 7,
        }
    }
}

impl JobState {
    /// The stored text of this state.
    pub fn as_str(self) -> (r: &'static str)
        ensures
            r@ == job_state_text(self),
    {
        match self {
            JobState::Pending => "pending",
            JobState::Running => "running",
            JobState::Done => "done",
            JobState::Failed => "failed",
            JobState::Cancelled => "cancelled",
        }
    }

    /// Parses a stored state; an unknown text is a catalog failure
    /// `unknown analysis job state <text>`.
    pub fn parse(text: &str) -> (r: Result<JobState, CatalogError>)
        ensures
            r matches Ok(state) ==> job_state_named(text@) == Some(state),
            r matches Err(error) ==> job_state_named(text@) is None && error.kind
                == CatalogErrorKind::Other && error.message@ == "unknown analysis job state "@
                + text@,
            r is Ok <==> job_state_named(text@) is Some,
    {
        if same_text(text, "pending") {
            Ok(JobState::Pending)
        } else if same_text(text, "running") {
            Ok(JobState::Running)
        } else if same_text(text, "done") {
            Ok(JobState::Done)
        } else if same_text(text, "failed") {
            Ok(JobState::Failed)
        } else if same_text(text, "cancelled") {
            Ok(JobState::Cancelled)
        } else {
            Err(other_error_with("unknown analysis job state ", text))
        }
    }
}

/// Every kind's stored text names that kind again.
pub proof fn lemma_job_kind_text_round_trip(kind: JobKind)
    ensures
        job_kind_named(job_kind_text(kind)) == Some(kind),
{
    reveal_strlit("scan_root");
    reveal_strlit("import_file");
    reveal_strlit("extract_metadata");
    reveal_strlit("analyze_waveform");
    reveal_strlit("transcribe");
    reveal_strlit("align");
    reveal_strlit("detect_audio_events");
    reveal_strlit("contextual");
    assert("scan_root"@.len() == 9);
    assert("import_file"@.len() == 11);
    assert("extract_metadata"@.len() == 16);
    assert("analyze_waveform"@.len() == 16);
    assert("transcribe"@.len() == 10);
    assert("align"@.len() == 5);
    assert("detect_audio_events"@.len() == 19);
    assert("contextual"@.len() == 10);
    assert("extract_metadata"@[0] != "analyze_waveform"@[0]);
    assert("transcribe"@[0] != "contextual"@[0]);
}

/// Every state's stored text names that state again.
pub proof fn lemma_job_state_text_round_trip(state: JobState)
    ensures
        job_state_named(job_state_text(state)) == Some(state),
{
    reveal_strlit("pending");
    reveal_strlit("running");
    reveal_strlit("done");
    reveal_strlit("failed");
    reveal_strlit("cancelled");
    lemma_state_texts_distinct();
}

proof fn lemma_state_texts_distinct()
    ensures
        "pending"@ != "running"@,
        "pending"@ != "done"@,
        "pending"@ != "failed"@,
        "pending"@ != "cancelled"@,
        "running"@ != "done"@,
        "running"@ != "failed"@,
        "running"@ != "cancelled"@,
        "done"@ != "failed"@,
        "done"@ != "cancelled"@,
        "failed"@ != "cancelled"@,
{
    reveal_strlit("pending");
    reveal_strlit("running");
    reveal_strlit("done");
    reveal_strlit("failed");
    reveal_strlit("cancelled");
    assert("pending"@.len() == 7);
    assert("running"@.len() == 7);
    assert("done"@.len() == 4);
    assert("failed"@.len() == 6);
    assert("cancelled"@.len() == 9);
    assert("pending"@[0] != "running"@[0]);
}

/// A pending job as stored: the columns that decide the next claim.
#[derive(Debug, Clone, PartialEq, Eq)]
pub struct PendingJob {
    pub id: String,
    /// Stored kind text.
    pub kind: String,
    /// Stored JSON payload text.
    pub payload: String,
    pub attempts: u32,
    pub created_at_millis: i64,
}

/// Job `a` is claimed strictly before job `b`: lower kind rank, then older,
/// then smaller id.
pub open spec fn claims_before(a: PendingJob, b: PendingJob) -> bool {
    let ra = claim_rank_of_text(a.kind@);
    let rb = claim_rank_of_text(b.kind@);
    ||| ra < rb
    ||| ra == rb && a.created_at_millis < b.created_at_millis
    ||| ra == rb && a.created_at_millis == b.created_at_millis && text_lt(a.id@, b.id@)
}

/// Job `i` is the one the queue claims next: nothing is claimed before it
/// and it is claimed before every earlier listed job.
pub open spec fn is_next_claim(pending: Seq<PendingJob>, i: int) -> bool {
    &&& 0 <= i < pending.len()
    &&& forall|j: int| 0 <= j < pending.len() ==> !claims_before(#[trigger] pending[j], pending[i])
    &&& forall|j: int| 0 <= j < i ==> claims_before(pending[i], #[trigger] pending[j])
}

fn rank_of_text(text: &str) -> (r: u8)
    ensures
        r as int == claim_rank_of_text(text@),
{
    match JobKind::parse(text) {
        Ok(kind) => kind.claim_rank(),
        Err(_) => 8,
    }
}

fn claimed_before(a: &PendingJob, b: &PendingJob) -> (r: bool)
    ensures
        r == claims_before(*a, *b),
{
    let ra = rank_of_text(a.kind.as_str());
    let rb = rank_of_text(b.kind.as_str());
    if ra != rb {
        ra < rb
    } else if a.created_at_millis != b.created_at_millis {
        a.created_at_millis < b.created_at_millis
    } else {
        text_less(a.id.as_str(), b.id.as_str())
    }
}

proof fn lemma_claims_before_transitive(a: PendingJob, b: PendingJob, c: PendingJob)
    requires
        claims_before(a, b),
        claims_before(b, c),
    ensures
        claims_before(a, c),
{
    if claim_rank_of_text(a.kind@) == claim_rank_of_text(b.kind@) && claim_rank_of_text(b.kind@)
        == claim_rank_of_text(c.kind@) && a.created_at_millis == b.created_at_millis
        && b.created_at_millis == c.created_at_millis {
        crate::text::lemma_text_lt_transitive(a.id@, b.id@, c.id@);
    }
}

proof fn lemma_claims_before_irreflexive(a: PendingJob)
    ensures
        !claims_before(a, a),
{
    crate::text::lemma_text_lt_irreflexive(a.id@);
}

proof fn lemma_claims_before_total(a: PendingJob, b: PendingJob)
    requires
        !claims_before(a, b),
        !claims_before(b, a),
    ensures
        claim_rank_of_text(a.kind@) == claim_rank_of_text(b.kind@),
        a.created_at_millis == b.created_at_millis,
        a.id@ == b.id@,
{
    if a.id@ != b.id@ {
        crate::text::lemma_text_lt_total(a.id@, b.id@);
    }
}

/// Chooses the pending job to claim next: structural kinds before
/// progressive analysis, then the oldest, then the smallest id; among
/// identical keys the first listed. `None` exactly when nothing is pending.
pub fn select_next_job(pending: &[PendingJob]) -> (r: Option<usize>)
    ensures
        r is None <==> pending@.len() == 0,
        r matches Some(i) ==> is_next_claim(pending@, i as int),
{
    if pending.len() == 0 {
        return None;
    }
    let mut best: usize = 0;
    let mut i: usize = 1;
    proof {
        lemma_claims_before_irreflexive(pending@[0]);
    }
    while i < pending.len()
        invariant
            1 <= i <= pending@.len(),
            best < i,
            forall|j: int| 0 <= j < i ==> !claims_before(#[trigger] pending@[j], pending@[best as int]),
            forall|j: int| 0 <= j < best ==> claims_before(pending@[best as int], #[trigger] pending@[j]),
        decreases pending@.len() - i,
    {
        if claimed_before(&pending[i], &pending[best]) {
            proof {
                let pi = pending@[i as int];
                let pb = pending@[best as int];
                assert forall|j: int| 0 <= j < i + 1 implies !claims_before(
                    #[trigger] pending@[j],
                    pi,
                ) by {
                    if j == i {
                        lemma_claims_before_irreflexive(pi);
                    } else if claims_before(pending@[j], pi) {
                        lemma_claims_before_transitive(pending@[j], pi, pb);
                    }
                }
                assert forall|j: int| 0 <= j < i implies claims_before(pi, #[trigger] pending@[j]) by {
                    if j < best {
                        lemma_claims_before_transitive(pi, pb, pending@[j]);
                    } else if j == best {
                    } else {
                        if !claims_before(pb, pending@[j]) {
                            lemma_claims_before_total(pb, pending@[j]);
                        } else {
                            lemma_claims_before_transitive(pi, pb, pending@[j]);
                        }
                    }
                }
            }
            best = i;
        }
        i = i + 1;
    }
    Some(best)
}

/// A job claimed for execution (was `pending`, now `running`).
#[derive(Debug, Clone, PartialEq, Eq)]
pub struct ClaimedJob {
    pub id: String,
    pub kind: JobKind,
    /// JSON payload text.
    pub payload: String,
}

/// What claiming `job` yields: the job runs with one more attempt. The
/// payload must be JSON (else the failure message is `corrupt job payload
/// for <id>: ` and the parser's message) and the stored kind must be known (else `unknown job
/// kind <kind>`); a failed claim claims nothing. On success the result is
/// the claimed job and its new attempt count.
pub open spec fn claim_outcome(job: PendingJob, r: Result<(ClaimedJob, u32), CatalogError>) -> bool {
    &&& (r is Ok <==> job_kind_named(job.kind@) is Some && json_text_is_valid(job.payload@))
    &&& r matches Ok((claimed, attempts)) ==> {
        &&& claimed.id == job.id
        &&& Some(claimed.kind) == job_kind_named(job.kind@)
        &&& claimed.payload == job.payload
        &&& attempts == job.attempts + 1
    }
    &&& r matches Err(error) ==> error.kind == CatalogErrorKind::Other
    &&& r matches Err(error) ==> !json_text_is_valid(job.payload@) ==> error.message@
        == "corrupt job payload for "@ + job.id@ + ": "@ + json_parse_failure(job.payload@).unwrap()
    &&& r matches Err(error) ==> json_text_is_valid(job.payload@) ==> error.message@
        == "unknown job kind "@ + job.kind@
}

/// Claims one pending job.
pub fn claim_job(job: &PendingJob) -> (r: Result<(ClaimedJob, u32), CatalogError>)
    requires
        job.attempts < u32::MAX,
    ensures
        claim_outcome(*job, r),
{
    let attempts = job.attempts + 1;
    match json_syntax_error(job.payload.as_str()) {
        Some(detail) => {
            let mut message = concat("corrupt job payload for ", job.id.as_str());
            message.append(": ");
            message.append(detail.as_str());
            Err(CatalogError { kind: CatalogErrorKind::Other, message })
        },
        None => {
            let kind = JobKind::parse(job.kind.as_str())?;
            Ok((ClaimedJob { id: job.id.clone(), kind, payload: job.payload.clone() }, attempts))
        },
    }
}

/// A queue claim result is the outcome of claiming `job`.
pub open spec fn claimed_from(job: PendingJob, r: Result<Option<(ClaimedJob, u32)>, CatalogError>) -> bool {
    match r {
        Ok(Some(claimed)) => claim_outcome(job, Ok(claimed)),
        Ok(None) => false,
        Err(error) => claim_outcome(job, Err(error)),
    }
}

/// Atomically claims the next pending job (pending to running): `Ok(None)`
/// when nothing is pending, otherwise the outcome of claiming the job the
/// queue orders first.
pub fn claim_next_job(pending: &[PendingJob]) -> (r: Result<Option<(ClaimedJob, u32)>, CatalogError>)
    requires
        forall|i: int| 0 <= i < pending@.len() ==> (#[trigger] pending@[i]).attempts < u32::MAX,
    ensures
        pending@.len() == 0 ==> r matches Ok(None),
        pending@.len() > 0 ==> exists|i: int|
            is_next_claim(pending@, i) && #[trigger] claimed_from(pending@[i], r),
{
    match select_next_job(pending) {
        None => Ok(None),
        Some(i) => {
            let claimed = claim_job(&pending[i]);
            let result = match claimed {
                Ok(c) => Ok(Some(c)),
                Err(error) => Err(error),
            };
            assert(claimed_from(pending@[i as int], result));
            result
        },
    }
}

/// Aggregate queue statistics for progress display.
#[derive(Debug, Clone, Copy, PartialEq, Eq, Default, Structural)]
pub struct JobStats {
    pub pending: u64,
    pub running: u64,
    pub done: u64,
    pub failed: u64,
}

/// The count reported for state `name` by `(state, count)` rows: the last
/// row naming that state, or zero.
pub open spec fn count_for(rows: Seq<(String, i64)>, name: Seq<char>) -> int
    decreases rows.len(),
{
    if rows.len() == 0 {
        0
    } else if rows.last().0@ == name {
        rows.last().1 as int
    } else {
        count_for(rows.drop_last(), name)
    }
}

/// Aggregates per-state counts into queue statistics; rows for other
/// states (such as `cancelled`) are not reported.
pub fn job_stats(rows: &[(String, i64)]) -> (r: JobStats)
    requires
        forall|i: int| 0 <= i < rows@.len() ==> (#[trigger] rows@[i]).1 >= 0,
    ensures
        r.pending == count_for(rows@, "pending"@),
        r.running == count_for(rows@, "running"@),
        r.done == count_for(rows@, "done"@),
        r.failed == count_for(rows@, "failed"@),
{
    let mut stats = JobStats { pending: 0, running: 0, done: 0, failed: 0 };
    let mut i: usize = 0;
    while i < rows.len()
        invariant
            i <= rows@.len(),
            forall|k: int| 0 <= k < rows@.len() ==> (#[trigger] rows@[k]).1 >= 0,
            stats.pending == count_for(rows@.take(i as int), "pending"@),
            stats.running == count_for(rows@.take(i as int), "running"@),
            stats.done == count_for(rows@.take(i as int), "done"@),
            stats.failed == count_for(rows@.take(i as int), "failed"@),
        decreases rows@.len() - i,
    {
        let state = rows[i].0.as_str();
        let count = rows[i].1 as u64;
        proof {
            assert(rows@.take(i + 1).drop_last() =~= rows@.take(i as int));
            assert(rows@.take(i + 1).last() == rows@[i as int]);
        }
        if same_text(state, "pending") {
            stats.pending = count;
        } else if same_text(state, "running") {
            stats.running = count;
        } else if same_text(state, "done") {
            stats.done = count;
        } else if same_text(state, "failed") {
            stats.failed = count;
        }
        proof {
            lemma_state_texts_distinct();
        }
        i = i + 1;
    }
    assert(rows@.take(rows@.len() as int) =~= rows@);
    stats
}

/// One queued job.
#[derive(Debug, Clone, PartialEq, Eq)]
pub struct Job {
    pub id: String,
    pub kind: JobKind,
    /// JSON payload text (`null` when the stored payload is not JSON).
    pub payload: String,
    pub state: JobState,
    pub progress: u8,
    pub attempts: u32,
    pub created_at_millis: i64,
    pub updated_at_millis: i64,
    pub error: Option<String>,
}

/// The columns of one stored failed job.
#[derive(Debug, Clone, PartialEq, Eq)]
pub struct FailedJobRow {
    pub id: String,
    pub kind: String,
    pub payload: String,
    pub progress: u8,
    pub attempts: u32,
    pub created_at_millis: i64,
    pub updated_at_millis: i64,
    pub error: Option<String>,
}

/// `job` is the failed job that `row` stores, its kind known: a payload
/// that is not JSON reads as `null`.
pub open spec fn failed_job_of(row: FailedJobRow, job: Job) -> bool {
    &&& job.id == row.id
    &&& Some(job.kind) == job_kind_named(row.kind@)
    &&& job.payload@ == (if json_text_is_valid(row.payload@) {
        row.payload@
    } else {
        "null"@
    })
    &&& job.state == JobState::Failed
    &&& job.progress == row.progress
    &&& job.attempts == row.attempts
    &&& job.created_at_millis == row.created_at_millis
    &&& job.updated_at_millis == row.updated_at_millis
    &&& job.error == row.error
}

/// Decodes one stored failed job. An unknown kind fails the read.
pub fn decode_failed_job(row: &FailedJobRow) -> (r: Result<Job, CatalogError>)
    ensures
        r is Ok <==> job_kind_named(row.kind@) is Some,
        r matches Err(error) ==> error.kind == CatalogErrorKind::Other && error.message@
            == "unknown job kind "@ + row.kind@,
        r matches Ok(job) ==> failed_job_of(*row, job),
{
    let kind = JobKind::parse(row.kind.as_str())?;
    let payload = match json_syntax_error(row.payload.as_str()) {
        None => row.payload.clone(),
        Some(_) => owned("null"),
    };
    Ok(
        Job {
            id: row.id.clone(),
            kind,
            payload,
            state: JobState::Failed,
            progress: row.progress,
            attempts: row.attempts,
            created_at_millis: row.created_at_millis,
            updated_at_millis: row.updated_at_millis,
            error: row.error.clone(),
        },
    )
}

/// Reads every listed failed job, in order; the first row of an unknown
/// kind fails the whole read.
pub fn list_failed_jobs(rows: &[FailedJobRow]) -> (r: Result<Vec<Job>, CatalogError>)
    ensures
        r is Ok <==> forall|i: int| 0 <= i < rows@.len() ==> job_kind_named((#[trigger] rows@[i]).kind@) is Some,
        r matches Ok(jobs) ==> jobs@.len() == rows@.len() && forall|i: int|
            0 <= i < rows@.len() ==> failed_job_of(rows@[i], #[trigger] jobs@[i]),
        r matches Err(error) ==> error.kind == CatalogErrorKind::Other && exists|i: int|
            0 <= i < rows@.len() && job_kind_named((#[trigger] rows@[i]).kind@) is None
                && error.message@ == "unknown job kind "@ + rows@[i].kind@ && forall|j: int|
                0 <= j < i ==> job_kind_named(rows@[j].kind@) is Some,
{
    let mut jobs: Vec<Job> = Vec::new();
    let mut i: usize = 0;
    while i < rows.len()
        invariant
            i <= rows@.len(),
            jobs@.len() == i,
            forall|k: int| 0 <= k < i ==> job_kind_named((#[trigger] rows@[k]).kind@) is Some,
            forall|k: int| 0 <= k < i ==> failed_job_of(rows@[k], #[trigger] jobs@[k]),
        decreases rows@.len() - i,
    {
        match decode_failed_job(&rows[i]) {
            Ok(job) => {
                jobs.push(job);
            },
            Err(error) => {
                assert(job_kind_named(rows@[i as int].kind@) is None);
                return Err(error);
            },
        }
        i = i + 1;
    }
    Ok(jobs)
}

/// The JSON text of a file job payload: `{"path":` the quoted path `}`.
pub open spec fn file_payload_text(path: Seq<char>) -> Seq<char> {
    "{\"path\":"@ + json_quoted(path) + "}"@
}

/// The JSON text of a scan job payload: `{"root":` the quoted root `}`.
pub open spec fn scan_payload_text(root: Seq<char>) -> Seq<char> {
    "{\"root\":"@ + json_quoted(root) + "}"@
}

/// The on-disk payload of a job targeting one file.
#[derive(Debug, Clone, PartialEq, Eq)]
pub struct FileJobPayload {
    pub path: String,
}

impl FileJobPayload {
    /// Encodes the payload as the JSON object `{"path": ...}`.
    pub fn encode(&self) -> (r: String)
        ensures
            r@ == file_payload_text(self.path@),
            json_member_text(r@, "path"@) == Some(self.path@),
    {
        let quoted = json_quote(self.path.as_str());
        let head = concat("{\"path\":", quoted.as_str());
        concat(head.as_str(), "}")
    }

    /// Decodes the payload; a payload without a string `path` member is
    /// refused.
    pub fn decode(payload: &str) -> (r: Result<FileJobPayload, CatalogError>)
        ensures
            match json_member_text(payload@, "path"@) {
                Some(path) => r matches Ok(decoded) && decoded.path@ == path,
                None => r matches Err(error) && error.kind == CatalogErrorKind::Other
                    && error.message@ == "file job payload lacks a path"@,
            },
    {
        match json_member(payload, "path") {
            Some(path) => Ok(FileJobPayload { path }),
            None => Err(other_error("file job payload lacks a path")),
        }
    }
}

/// The on-disk payload of a job targeting one scan root.
#[derive(Debug, Clone, PartialEq, Eq)]
pub struct ScanRootJobPayload {
    pub root: String,
}

impl ScanRootJobPayload {
    /// Encodes the payload as the JSON object `{"root": ...}`.
    pub fn encode(&self) -> (r: String)
        ensures
            r@ == scan_payload_text(self.root@),
            json_member_text(r@, "root"@) == Some(self.root@),
    {
        let quoted = json_quote(self.root.as_str());
        let head = concat("{\"root\":", quoted.as_str());
        concat(head.as_str(), "}")
    }

    /// Decodes the payload; a payload without a string `root` member is
    /// refused.
    pub fn decode(payload: &str) -> (r: Result<ScanRootJobPayload, CatalogError>)
        ensures
            match json_member_text(payload@, "root"@) {
                Some(root) => r matches Ok(decoded) && decoded.root@ == root,
                None => r matches Err(error) && error.kind == CatalogErrorKind::Other
                    && error.message@ == "scan job payload lacks a root"@,
            },
    {
        match json_member(payload, "root") {
            Some(root) => Ok(ScanRootJobPayload { root }),
            None => Err(other_error("scan job payload lacks a root")),
        }
    }
}

} // verus!
