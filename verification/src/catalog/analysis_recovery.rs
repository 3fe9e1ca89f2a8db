//! Product projection and recovery policy for background analysis.
//!
//! Accepted evidence selects the next stage for an asset and names the job
//! that produces it. The job and inference-run rows then describe execution
//! state, and a stable recovery disposition tells the product what to do:
//! nothing, retry automatically, ask the user, or relink a missing source.

use vstd::prelude::*;

use crate::catalog::error::{other_error_with, CatalogError, CatalogErrorKind};
use crate::catalog::identity::{uuid_parse, uuid_parse_failure, AssetId};
use crate::catalog::job_queue::{job_state_named, JobState};
use crate::text::{concat, decimal, decimal_text, owned, same_text};

verus! {

/// Product stage currently expected for one asset.
#[derive(Debug, Clone, Copy, PartialEq, Eq, Structural)]
pub enum AnalysisStage {
    Text,
    SoundEvents,
    Alignment,
    Contextual,
    LongAudio,
    Complete,
}

/// Product action associated with an incomplete or failed stage.
#[derive(Debug, Clone, Copy, PartialEq, Eq, Structural)]
pub enum AnalysisRecoveryMode {
    NoAction,
    Automatic,
    Manual,
    Source,
}

/// Stable wire text of a stage.
pub open spec fn stage_text(stage: AnalysisStage) -> Seq<char> {
    match stage {
        AnalysisStage::Text => "text"@,
        AnalysisStage::SoundEvents => "sound_events"@,
        AnalysisStage::Alignment => "alignment"@,
        AnalysisStage::Contextual => "contextual"@,
        AnalysisStage::LongAudio => "long_audio"@,
        AnalysisStage::Complete => "complete"@,
    }
}

/// The stage a wire text names, if any.
pub open spec fn stage_named(text: Seq<char>) -> Option<AnalysisStage> {
    if text == "text"@ {
        Some(AnalysisStage::Text)
    } else if text == "sound_events"@ {
        Some(AnalysisStage::SoundEvents)
    } else if text == "alignment"@ {
        Some(AnalysisStage::Alignment)
    } else if text == "contextual"@ {
        Some(AnalysisStage::Contextual)
    } else if text == "long_audio"@ {
        Some(AnalysisStage::LongAudio)
    } else if text == "complete"@ {
        Some(AnalysisStage::Complete)
    } else {
        None
    }
}

/// Stable wire text of a recovery mode.
pub open spec fn recovery_text(mode: AnalysisRecoveryMode) -> Seq<char> {
    match mode {
        AnalysisRecoveryMode::NoAction => "none"@,
        AnalysisRecoveryMode::Automatic => "automatic"@,
        AnalysisRecoveryMode::Manual => "manual"@,
        AnalysisRecoveryMode::Source => "source"@,
    }
}

impl AnalysisStage {
    /// Stable desktop wire value.
    pub fn as_str(self) -> (r: &'static str)
        ensures
            r@ == stage_text(self),
    {
        match self {
            AnalysisStage::Text => "text",
            AnalysisStage::SoundEvents => "sound_events",
            AnalysisStage::Alignment => "alignment",
            AnalysisStage::Contextual => "contextual",
            AnalysisStage::LongAudio => "long_audio",
            AnalysisStage::Complete => "complete",
        }
    }

    /// Parses a wire stage; an unknown text is `unknown analysis stage <text>`.
    pub fn parse(text: &str) -> (r: Result<AnalysisStage, CatalogError>)
        ensures
            r is Ok <==> stage_named(text@) is Some,
            r matches Ok(stage) ==> stage_named(text@) == Some(stage),
            r matches Err(error) ==> error.kind == CatalogErrorKind::Other && error.message@
                == "unknown analysis stage "@ + text@,
    {
        if same_text(text, "text") {
            Ok(AnalysisStage::Text)
        } else if same_text(text, "sound_events") {
            Ok(AnalysisStage::SoundEvents)
        } else if same_text(text, "alignment") {
            Ok(AnalysisStage::Alignment)
        } else if same_text(text, "contextual") {
            Ok(AnalysisStage::Contextual)
        } else if same_text(text, "long_audio") {
            Ok(AnalysisStage::LongAudio)
        } else if same_text(text, "complete") {
            Ok(AnalysisStage::Complete)
        } else {
            Err(other_error_with("unknown analysis stage ", text))
        }
    }
}

impl AnalysisRecoveryMode {
    /// Stable desktop wire value.
    pub fn as_str(self) -> (r: &'static str)
        ensures
            r@ == recovery_text(self),
    {
        match self {
            AnalysisRecoveryMode::NoAction => "none",
            AnalysisRecoveryMode::Automatic => "automatic",
            AnalysisRecoveryMode::Manual => "manual",
            AnalysisRecoveryMode::Source => "source",
        }
    }
}

/// Error codes that describe a transient runtime condition.
pub open spec fn is_transient_error_code(code: Seq<char>) -> bool {
    ||| code == "runtime_discovery_unavailable"@
    ||| code == "runtime_unavailable"@
    ||| code == "provider_unavailable"@
    ||| code == "queue_full"@
    ||| code == "app_queue_full"@
    ||| code == "quota_exceeded"@
    ||| code == "deadline_exceeded"@
}

/// Stable error-code classification shared by status and retry behavior:
/// transient runtime conditions recover automatically, every other failure
/// (and a failure without a code) needs the user.
pub fn analysis_recovery_mode(error_code: Option<&str>) -> (r: AnalysisRecoveryMode)
    ensures
        r == (if error_code matches Some(code) && is_transient_error_code(code@) {
            AnalysisRecoveryMode::Automatic
        } else {
            AnalysisRecoveryMode::Manual
        }),
{
    match error_code {
        Some(code) => {
            if same_text(code, "runtime_discovery_unavailable") || same_text(
                code,
                "runtime_unavailable",
            ) || same_text(code, "provider_unavailable") || same_text(code, "queue_full")
                || same_text(code, "app_queue_full") || same_text(code, "quota_exceeded")
                || same_text(code, "deadline_exceeded") {
                AnalysisRecoveryMode::Automatic
            } else {
                AnalysisRecoveryMode::Manual
            }
        },
        None => AnalysisRecoveryMode::Manual,
    }
}

/// What the catalog knows about one asset's accepted evidence.
#[derive(Debug, Clone, Copy, PartialEq, Eq, Structural)]
pub struct AnalysisEvidence {
    /// A transcript record exists.
    pub has_transcript: bool,
    /// The newest transcript's text is blank (or there is none).
    pub transcript_empty: bool,
    /// An alignment record exists.
    pub has_alignment: bool,
    /// An audio-events record exists.
    pub has_events: bool,
    /// The newest contextual record matches the current schema and carries
    /// a sound caption.
    pub has_contextual: bool,
    /// A long-audio plan of the current version exists.
    pub has_long_plan: bool,
}

/// The stage accepted evidence selects.
pub open spec fn stage_for(e: AnalysisEvidence) -> AnalysisStage {
    if e.has_transcript && e.transcript_empty && e.has_events {
        AnalysisStage::Complete
    } else if e.has_transcript && e.transcript_empty {
        AnalysisStage::SoundEvents
    } else if e.has_long_plan && e.has_contextual {
        AnalysisStage::Complete
    } else if e.has_long_plan {
        AnalysisStage::LongAudio
    } else if e.has_contextual {
        AnalysisStage::Complete
    } else if e.has_alignment {
        AnalysisStage::Contextual
    } else if e.has_transcript {
        AnalysisStage::Alignment
    } else {
        AnalysisStage::Text
    }
}

/// The stage each kind of evidence calls for, stated per stage: speech-empty
/// recordings (a blank transcript) are complete once their sound events are
/// in and otherwise need sound events; a recording with a current long-audio
/// plan is complete once contextually understood and otherwise goes through
/// its plan; anything else climbs the ladder text, alignment, contextual
/// understanding, complete, one rung at a time.
pub open spec fn stage_follows_evidence(e: AnalysisEvidence, stage: AnalysisStage) -> bool {
    let speech_empty = e.has_transcript && e.transcript_empty;
    &&& (stage == AnalysisStage::Complete <==> (speech_empty && e.has_events) || (!speech_empty
        && e.has_contextual))
    &&& (stage == AnalysisStage::SoundEvents <==> speech_empty && !e.has_events)
    &&& (stage == AnalysisStage::LongAudio <==> !speech_empty && e.has_long_plan
        && !e.has_contextual)
    &&& (stage == AnalysisStage::Contextual <==> !speech_empty && !e.has_long_plan
        && !e.has_contextual && e.has_alignment)
    &&& (stage == AnalysisStage::Alignment <==> !speech_empty && !e.has_long_plan
        && !e.has_contextual && !e.has_alignment && e.has_transcript)
    &&& (stage == AnalysisStage::Text <==> !e.has_transcript && !e.has_long_plan
        && !e.has_contextual && !e.has_alignment)
}

/// The evidence ladder: the selected stage is exactly the one the evidence
/// calls for, and supplying the evidence a ladder stage asks for moves the
/// asset to the next rung, never past it (a transcribed asset is aligned
/// before it is understood, an aligned one is understood before it is
/// complete).
pub proof fn lemma_stage_follows_evidence(e: AnalysisEvidence)
    ensures
        stage_follows_evidence(e, stage_for(e)),
        stage_for(e) == AnalysisStage::Text ==> stage_for(
            AnalysisEvidence { has_transcript: true, transcript_empty: false, ..e },
        ) == AnalysisStage::Alignment,
        stage_for(e) == AnalysisStage::Alignment ==> stage_for(
            AnalysisEvidence { has_alignment: true, ..e },
        ) == AnalysisStage::Contextual,
        stage_for(e) == AnalysisStage::Contextual ==> stage_for(
            AnalysisEvidence { has_contextual: true, ..e },
        ) == AnalysisStage::Complete,
        stage_for(e) == AnalysisStage::SoundEvents ==> stage_for(
            AnalysisEvidence { has_events: true, ..e },
        ) == AnalysisStage::Complete,
        stage_for(e) == AnalysisStage::LongAudio ==> stage_for(
            AnalysisEvidence { has_contextual: true, ..e },
        ) == AnalysisStage::Complete,
{
}

/// The job each stage is produced by: text and long-audio plans by
/// transcription, alignment by the aligner, contextual understanding by the
/// contextual job of the current schema and revision, sound events by
/// event detection.
pub proof fn lemma_job_matches_stage(
    e: AnalysisEvidence,
    asset: Seq<char>,
    contextual_schema_version: nat,
    contextual_job_revision: nat,
)
    ensures
        stage_for(e) == AnalysisStage::Text ==> job_id_for(
            e,
            asset,
            contextual_schema_version,
            contextual_job_revision,
        ) == "transcribe-"@ + asset,
        stage_for(e) == AnalysisStage::LongAudio ==> job_id_for(
            e,
            asset,
            contextual_schema_version,
            contextual_job_revision,
        ) == "transcribe-"@ + asset,
        stage_for(e) == AnalysisStage::Alignment ==> job_id_for(
            e,
            asset,
            contextual_schema_version,
            contextual_job_revision,
        ) == "align-"@ + asset,
        stage_for(e) == AnalysisStage::Contextual ==> job_id_for(
            e,
            asset,
            contextual_schema_version,
            contextual_job_revision,
        ) == "contextual-v"@ + decimal(contextual_schema_version) + "-r"@ + decimal(
            contextual_job_revision,
        ) + "-"@ + asset,
        stage_for(e) == AnalysisStage::SoundEvents ==> job_id_for(
            e,
            asset,
            contextual_schema_version,
            contextual_job_revision,
        ) == "detect-audio-events-v1-"@ + asset,
{
}

/// The id of the job that produces the next stage for `asset`.
pub open spec fn job_id_for(
    e: AnalysisEvidence,
    asset: Seq<char>,
    contextual_schema_version: nat,
    contextual_job_revision: nat,
) -> Seq<char> {
    if e.has_transcript && e.transcript_empty {
        "detect-audio-events-v1-"@ + asset
    } else if e.has_long_plan {
        "transcribe-"@ + asset
    } else if e.has_contextual || e.has_alignment {
        "contextual-v"@ + decimal(contextual_schema_version) + "-r"@ + decimal(
            contextual_job_revision,
        ) + "-"@ + asset
    } else if e.has_transcript {
        "align-"@ + asset
    } else {
        "transcribe-"@ + asset
    }
}

/// Selects the next stage from accepted evidence. Speech-empty recordings
/// go through sound events; long recordings through their plan; otherwise
/// text, alignment, then contextual understanding.
pub fn next_analysis_stage(evidence: AnalysisEvidence) -> (r: AnalysisStage)
    ensures
        r == stage_for(evidence),
        stage_follows_evidence(evidence, r),
{
    proof {
        lemma_stage_follows_evidence(evidence);
    }
    let e = evidence;
    if e.has_transcript && e.transcript_empty && e.has_events {
        AnalysisStage::Complete
    } else if e.has_transcript && e.transcript_empty {
        AnalysisStage::SoundEvents
    } else if e.has_long_plan && e.has_contextual {
        AnalysisStage::Complete
    } else if e.has_long_plan {
        AnalysisStage::LongAudio
    } else if e.has_contextual {
        AnalysisStage::Complete
    } else if e.has_alignment {
        AnalysisStage::Contextual
    } else if e.has_transcript {
        AnalysisStage::Alignment
    } else {
        AnalysisStage::Text
    }
}

/// Names the job that produces the next stage for the asset whose stored id
/// is `asset_id`.
pub fn analysis_job_id(
    evidence: AnalysisEvidence,
    asset_id: &str,
    contextual_schema_version: u32,
    contextual_job_revision: u32,
) -> (r: String)
    ensures
        r@ == job_id_for(
            evidence,
            asset_id@,
            contextual_schema_version as nat,
            contextual_job_revision as nat,
        ),
{
    let e = evidence;
    if e.has_transcript && e.transcript_empty {
        concat("detect-audio-events-v1-", asset_id)
    } else if e.has_long_plan {
        concat("transcribe-", asset_id)
    } else if e.has_contextual || e.has_alignment {
        let mut r = owned("contextual-v");
        r.append(decimal_text(contextual_schema_version as u64).as_str());
        r.append("-r");
        r.append(decimal_text(contextual_job_revision as u64).as_str());
        r.append("-");
        r.append(asset_id);
        r
    } else if e.has_transcript {
        concat("align-", asset_id)
    } else {
        concat("transcribe-", asset_id)
    }
}

/// The recovery disposition of a stage: complete evidence needs nothing, a
/// missing original must be relinked, a failed or cancelled job is
/// classified by its error code, anything else is still in progress.
pub open spec fn recovery_for(
    stage: AnalysisStage,
    path_status: Seq<char>,
    state: Option<JobState>,
    error_code: Option<String>,
) -> AnalysisRecoveryMode {
    if stage == AnalysisStage::Complete {
        AnalysisRecoveryMode::NoAction
    } else if path_status == "missing"@ {
        AnalysisRecoveryMode::Source
    } else if state == Some(JobState::Failed) || state == Some(JobState::Cancelled) {
        if error_code matches Some(code) && is_transient_error_code(code@) {
            AnalysisRecoveryMode::Automatic
        } else {
            AnalysisRecoveryMode::Manual
        }
    } else {
        AnalysisRecoveryMode::NoAction
    }
}

/// One lightweight, payload-free status row for Library presentation.
#[derive(Debug, Clone, PartialEq, Eq)]
pub struct AssetAnalysisStatus {
    pub asset_id: AssetId,
    pub job_id: String,
    pub stage: AnalysisStage,
    pub state: Option<JobState>,
    pub progress: u8,
    pub attempts: u32,
    pub error_code: Option<String>,
    pub runtime_job_id: Option<String>,
    pub contract_version: String,
    pub recovery: AnalysisRecoveryMode,
}

/// Stable desktop text of a status: accepted complete evidence wins over a
/// stale job; otherwise the job's state, or `missing` without a job.
pub open spec fn status_state_text(stage: AnalysisStage, state: Option<JobState>) -> Seq<char> {
    if stage == AnalysisStage::Complete {
        "done"@
    } else {
        match state {
            Some(JobState::Pending) => "pending"@,
            Some(JobState::Running) => "running"@,
            Some(JobState::Done) => "done"@,
            Some(JobState::Failed) => "failed"@,
            Some(JobState::Cancelled) => "cancelled"@,
            None => "missing"@,
        }
    }
}

impl AssetAnalysisStatus {
    /// Stable desktop state. Accepted complete evidence wins over stale jobs.
    pub fn state_str(&self) -> (r: &'static str)
        ensures
            r@ == status_state_text(self.stage, self.state),
    {
        if self.stage == AnalysisStage::Complete {
            return "done";
        }
        match self.state {
            Some(JobState::Pending) => "pending",
            Some(JobState::Running) => "running",
            Some(JobState::Done) => "done",
            Some(JobState::Failed) => "failed",
            Some(JobState::Cancelled) => "cancelled",
            None => "missing",
        }
    }
}

/// The stored columns of one status projection row.
#[derive(Debug, Clone, PartialEq, Eq)]
pub struct StoredAnalysisStatus {
    pub asset_id: String,
    pub stage: String,
    pub job_id: String,
    pub job_state: Option<String>,
    pub progress: Option<u8>,
    pub attempts: Option<u32>,
    pub error_code: Option<String>,
    pub runtime_job_id: Option<String>,
    pub contract_version: Option<String>,
    pub path_status: String,
}

/// Decodes one status row and derives its recovery disposition. The asset
/// id must parse (`invalid stored analysis asset id ...`), then the stage
/// (`unknown analysis stage ...`), then any job state (`unknown analysis
/// job state ...`); absent job columns read as zero or empty.
pub fn parse_status(row: StoredAnalysisStatus) -> (r: Result<AssetAnalysisStatus, CatalogError>)
    ensures
        r is Ok <==> uuid_parse(row.asset_id@) is Some && stage_named(row.stage@) is Some && (
        row.job_state matches Some(s) ==> job_state_named(s@) is Some),
        r matches Err(error) ==> error.kind == CatalogErrorKind::Other,
        r matches Err(error) ==> uuid_parse(row.asset_id@) is Some ==> stage_named(row.stage@) is Some
            ==> (row.job_state matches Some(s) && error.message@ == "unknown analysis job state "@
            + s@),
        r matches Err(error) ==> uuid_parse(row.asset_id@) is Some ==> stage_named(row.stage@) is None
            ==> error.message@ == "unknown analysis stage "@ + row.stage@,
        r matches Err(error) ==> uuid_parse(row.asset_id@) is None ==> error.message@
            == "invalid stored analysis asset id "@ + row.asset_id@ + ": "@ + uuid_parse_failure(),
        r matches Ok(status) ==> {
            &&& uuid_parse(row.asset_id@) == Some(status.asset_id.value)
            &&& status.job_id == row.job_id
            &&& stage_named(row.stage@) == Some(status.stage)
            &&& (match row.job_state {
                Some(s) => job_state_named(s@) == status.state,
                None => status.state is None,
            })
            &&& status.progress == (match row.progress {
                Some(p) => p,
                None => 0u8,
            })
            &&& status.attempts == (match row.attempts {
                Some(a) => a,
                None => 0u32,
            })
            &&& status.error_code == row.error_code
            &&& status.runtime_job_id == row.runtime_job_id
            &&& status.contract_version@ == (match row.contract_version {
                Some(c) => c@,
                None => Seq::<char>::empty(),
            })
            &&& status.recovery == recovery_for(
                status.stage,
                row.path_status@,
                status.state,
                row.error_code,
            )
        },
{
    let asset_id = match AssetId::parse(row.asset_id.as_str()) {
        Ok(id) => id,
        Err(detail) => {
            let mut message = concat("invalid stored analysis asset id ", row.asset_id.as_str());
            message.append(": ");
            message.append(detail.as_str());
            return Err(CatalogError { kind: CatalogErrorKind::Other, message });
        },
    };
    let stage = AnalysisStage::parse(row.stage.as_str())?;
    let state = match &row.job_state {
        Some(text) => Some(JobState::parse(text.as_str())?),
        None => None,
    };
    let recovery = if stage == AnalysisStage::Complete {
        AnalysisRecoveryMode::NoAction
    } else if same_text(row.path_status.as_str(), "missing") {
        AnalysisRecoveryMode::Source
    } else if state == Some(JobState::Failed) || state == Some(JobState::Cancelled) {
        match &row.error_code {
            Some(code) => analysis_recovery_mode(Some(code.as_str())),
            None => analysis_recovery_mode(None),
        }
    } else {
        AnalysisRecoveryMode::NoAction
    };
    let contract_version = match row.contract_version {
        Some(c) => c,
        None => String::new(),
    };
    Ok(
        AssetAnalysisStatus {
            asset_id,
            job_id: row.job_id,
            stage,
            state,
            progress: match row.progress {
                Some(p) => p,
                None => 0,
            },
            attempts: match row.attempts {
                Some(a) => a,
                None => 0,
            },
            error_code: row.error_code,
            runtime_job_id: row.runtime_job_id,
            contract_version,
            recovery,
        },
    )
}

/// Number of statuses with the given recovery mode.
pub open spec fn count_with_recovery(
    statuses: Seq<AssetAnalysisStatus>,
    mode: AnalysisRecoveryMode,
) -> nat
    decreases statuses.len(),
{
    if statuses.len() == 0 {
        0
    } else {
        count_with_recovery(statuses.drop_last(), mode) + if statuses.last().recovery == mode {
            1nat
        } else {
            0nat
        }
    }
}

/// Counts current stages eligible for automatic runtime recovery.
pub fn automatic_analysis_recovery_count(statuses: &[AssetAnalysisStatus]) -> (r: Result<
    u64,
    CatalogError,
>)
    ensures
        r matches Ok(count) && count as nat == count_with_recovery(
            statuses@,
            AnalysisRecoveryMode::Automatic,
        ),
{
    let mut count: u64 = 0;
    let mut i: usize = 0;
    while i < statuses.len()
        invariant
            i <= statuses@.len(),
            count == count_with_recovery(statuses@.take(i as int), AnalysisRecoveryMode::Automatic),
            count <= i,
        decreases statuses@.len() - i,
    {
        proof {
            assert(statuses@.take(i + 1).drop_last() =~= statuses@.take(i as int));
        }
        if statuses[i].recovery == AnalysisRecoveryMode::Automatic {
            count = count + 1;
        }
        i = i + 1;
    }
    assert(statuses@.take(statuses@.len() as int) =~= statuses@);
    Ok(count)
}

/// Job ids of the statuses with recovery mode `mode`, in order: the jobs a
/// recovery pass of that mode retries.
pub open spec fn jobs_with_recovery(
    statuses: Seq<AssetAnalysisStatus>,
    mode: AnalysisRecoveryMode,
) -> Seq<Seq<char>>
    decreases statuses.len(),
{
    if statuses.len() == 0 {
        Seq::empty()
    } else if statuses.last().recovery == mode {
        jobs_with_recovery(statuses.drop_last(), mode).push(statuses.last().job_id@)
    } else {
        jobs_with_recovery(statuses.drop_last(), mode)
    }
}

/// Selects the jobs a recovery pass retries: exactly the current stages
/// whose disposition is `mode` (automatic or manual), in status order.
/// Missing originals (disposition `source`) are never selected.
pub fn recovery_candidates(statuses: &[AssetAnalysisStatus], mode: AnalysisRecoveryMode) -> (r: Vec<
    String,
>)
    ensures
        r@.map_values(|id: String| id@) == jobs_with_recovery(statuses@, mode),
{
    let mut r: Vec<String> = Vec::new();
    let mut i: usize = 0;
    while i < statuses.len()
        invariant
            i <= statuses@.len(),
            r@.map_values(|id: String| id@) == jobs_with_recovery(statuses@.take(i as int), mode),
        decreases statuses@.len() - i,
    {
        proof {
            assert(statuses@.take(i + 1).drop_last() =~= statuses@.take(i as int));
        }
        if statuses[i].recovery == mode {
            let ghost before = r@;
            r.push(statuses[i].job_id.clone());
            proof {
                assert(r@.map_values(|id: String| id@) =~= before.map_values(|id: String| id@).push(
                    statuses@[i as int].job_id@,
                ));
            }
        }
        i = i + 1;
    }
    assert(statuses@.take(statuses@.len() as int) =~= statuses@);
    r
}

/// The automatic recovery count reports exactly as many stages as an
/// automatic recovery pass retries (and likewise for every mode).
pub proof fn lemma_count_matches_candidates(statuses: Seq<AssetAnalysisStatus>, mode: AnalysisRecoveryMode)
    ensures
        count_with_recovery(statuses, mode) == jobs_with_recovery(statuses, mode).len(),
    decreases statuses.len(),
{
    if statuses.len() > 0 {
        lemma_count_matches_candidates(statuses.drop_last(), mode);
    }
}

} // verus!
