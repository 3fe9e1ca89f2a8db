//! Linkage between one background job and its inference-runtime run.

use vstd::prelude::*;

use crate::catalog::error::{other_error, other_error_with, CatalogError, CatalogErrorKind};
use crate::catalog::identity::{uuid_hyphenated, uuid_parse, uuid_parse_failure, AssetId};
use crate::json::{json_parse_failure, json_syntax_error, json_text_is_valid};
use crate::text::{concat, owned, same_text};

verus! {

/// The catalog's projection of the external runtime lifecycle.
#[derive(Debug, Clone, Copy, PartialEq, Eq, Structural)]
pub enum InferenceRunState {
    /// The local job is submitting its request.
    Submitting,
    /// The runtime completed and the result was accepted.
    Succeeded,
    /// The runtime or transport failed.
    Failed,
    /// The runtime accepted cancellation.
    Cancelled,
    /// The runtime exceeded the request deadline.
    Expired,
}

/// The stored text of a run state.
pub open spec fn run_state_text(state: InferenceRunState) -> Seq<char> {
    match state {
        InferenceRunState::Submitting => "submitting"@,
        InferenceRunState::Succeeded => "succeeded"@,
        InferenceRunState::Failed => "failed"@,
        InferenceRunState::Cancelled => "cancelled"@,
        InferenceRunState::Expired => "expired"@,
    }
}

/// The run state a stored text names, if any.
pub open spec fn run_state_named(text: Seq<char>) -> Option<InferenceRunState> {
    if text == "submitting"@ {
        Some(InferenceRunState::Submitting)
    } else if text == "succeeded"@ {
        Some(InferenceRunState::Succeeded)
    } else if text == "failed"@ {
        Some(InferenceRunState::Failed)
    } else if text == "cancelled"@ {
        Some(InferenceRunState::Cancelled)
    } else if text == "expired"@ {
        Some(InferenceRunState::Expired)
    } else {
        None
    }
}

/// The stored text of `state`.
pub fn state_text(state: InferenceRunState) -> (r: &'static str)
    ensures
        r@ == run_state_text(state),
{
    match state {
        InferenceRunState::Submitting => "submitting",
        InferenceRunState::Succeeded => "succeeded",
        InferenceRunState::Failed => "failed",
        InferenceRunState::Cancelled => "cancelled",
        InferenceRunState::Expired => "expired",
    }
}

/// Reads a stored run state; unknown texts are `unknown inference run
/// state <text>`.
pub fn parse_state(text: &str) -> (r: Result<InferenceRunState, CatalogError>)
    ensures
        r is Ok <==> run_state_named(text@) is Some,
        r matches Ok(s) ==> run_state_named(text@) == Some(s),
        r matches Err(e) ==> e.kind == CatalogErrorKind::Other && e.message@
            == "unknown inference run state "@ + text@,
{
    if same_text(text, "submitting") {
        Ok(InferenceRunState::Submitting)
    } else if same_text(text, "succeeded") {
        Ok(InferenceRunState::Succeeded)
    } else if same_text(text, "failed") {
        Ok(InferenceRunState::Failed)
    } else if same_text(text, "cancelled") {
        Ok(InferenceRunState::Cancelled)
    } else if same_text(text, "expired") {
        Ok(InferenceRunState::Expired)
    } else {
        Err(other_error_with("unknown inference run state ", text))
    }
}

/// Every run state's stored text names that state again.
pub proof fn lemma_run_state_text_round_trip(state: InferenceRunState)
    ensures
        run_state_named(run_state_text(state)) == Some(state),
{
    reveal_strlit("submitting");
    reveal_strlit("succeeded");
    reveal_strlit("failed");
    reveal_strlit("cancelled");
    reveal_strlit("expired");
    assert("submitting"@.len() == 10);
    assert("succeeded"@.len() == 9);
    assert("failed"@.len() == 6);
    assert("cancelled"@.len() == 9);
    assert("expired"@.len() == 7);
    assert("succeeded"@[0] != "cancelled"@[0]);
}

/// The latest runtime projection of one local job, to insert or replace.
/// The snapshot is the final job snapshot as JSON text.
#[derive(Debug, Clone, PartialEq, Eq)]
pub struct UpsertInferenceRun {
    pub local_job_id: String,
    pub asset_id: AssetId,
    pub intent: String,
    pub runtime_job_id: Option<String>,
    pub contract_version: String,
    pub state: InferenceRunState,
    pub http_status: Option<u16>,
    pub error_code: Option<String>,
    pub snapshot: Option<String>,
    pub updated_at_millis: i64,
}

/// `row` holds the columns that storing `update` writes.
pub open spec fn stored_run_of(update: UpsertInferenceRun, row: StoredInferenceRun) -> bool {
    &&& row.local_job_id == update.local_job_id
    &&& row.asset_id@ == uuid_hyphenated(update.asset_id.value)
    &&& row.intent == update.intent
    &&& row.runtime_job_id == update.runtime_job_id
    &&& row.contract_version == update.contract_version
    &&& row.state@ == run_state_text(update.state)
    &&& row.http_status == update.http_status
    &&& row.error_code == update.error_code
    &&& row.snapshot_json == update.snapshot
    &&& row.updated_at_millis == update.updated_at_millis
}

/// The columns to store for a run projection. A projection is written
/// only with its identities: local job, intent and contract version must
/// not be empty.
pub fn upsert_inference_run(update: &UpsertInferenceRun) -> (r: Result<StoredInferenceRun, CatalogError>)
    ensures
        r is Ok <==> update.local_job_id@.len() > 0 && update.intent@.len() > 0
            && update.contract_version@.len() > 0,
        r matches Ok(row) ==> stored_run_of(*update, row),
        r matches Err(e) ==> e.kind == CatalogErrorKind::Other && e.message@
            == "inference run requires local job, intent, and contract identities"@,
{
    if update.local_job_id.unicode_len() == 0 || update.intent.unicode_len() == 0
        || update.contract_version.unicode_len() == 0 {
        return Err(other_error("inference run requires local job, intent, and contract identities"));
    }
    Ok(
        StoredInferenceRun {
            local_job_id: update.local_job_id.clone(),
            asset_id: update.asset_id.to_text(),
            intent: update.intent.clone(),
            runtime_job_id: update.runtime_job_id.clone(),
            contract_version: update.contract_version.clone(),
            state: owned(state_text(update.state)),
            http_status: update.http_status,
            error_code: update.error_code.clone(),
            snapshot_json: update.snapshot.clone(),
            updated_at_millis: update.updated_at_millis,
        },
    )
}

/// One persisted runtime linkage; the final job snapshot is JSON text.
#[derive(Debug, Clone, PartialEq, Eq)]
pub struct InferenceRun {
    pub local_job_id: String,
    pub asset_id: AssetId,
    pub intent: String,
    pub runtime_job_id: Option<String>,
    pub contract_version: String,
    pub state: InferenceRunState,
    pub http_status: Option<u16>,
    pub error_code: Option<String>,
    pub snapshot: Option<String>,
    pub updated_at_millis: i64,
}

/// The stored columns of one run.
#[derive(Debug, Clone, PartialEq, Eq)]
pub struct StoredInferenceRun {
    pub local_job_id: String,
    pub asset_id: String,
    pub intent: String,
    pub runtime_job_id: Option<String>,
    pub contract_version: String,
    pub state: String,
    pub http_status: Option<u16>,
    pub error_code: Option<String>,
    pub snapshot_json: Option<String>,
    pub updated_at_millis: i64,
}

/// A stored snapshot is absent or a JSON document.
pub open spec fn snapshot_is_json(snapshot: Option<String>) -> bool {
    snapshot matches Some(text) ==> json_text_is_valid(text@)
}

/// `run` is the projection `update` stored.
pub open spec fn projects(run: InferenceRun, update: UpsertInferenceRun) -> bool {
    &&& run.local_job_id == update.local_job_id
    &&& run.asset_id == update.asset_id
    &&& run.intent == update.intent
    &&& run.runtime_job_id == update.runtime_job_id
    &&& run.contract_version == update.contract_version
    &&& run.state == update.state
    &&& run.http_status == update.http_status
    &&& run.error_code == update.error_code
    &&& run.snapshot == update.snapshot
    &&& run.updated_at_millis == update.updated_at_millis
}

/// Decodes one stored run: the asset id must parse (`invalid inference
/// asset id ...`), the state must be known, and the snapshot must be JSON
/// (`invalid inference snapshot JSON: ...`).
pub fn inference_run(row: StoredInferenceRun) -> (r: Result<InferenceRun, CatalogError>)
    ensures
        r is Ok <==> uuid_parse(row.asset_id@) is Some && run_state_named(row.state@) is Some && (
        row.snapshot_json matches Some(text) ==> json_text_is_valid(text@)),
        r matches Err(e) ==> e.kind == CatalogErrorKind::Other,
        r matches Err(e) ==> uuid_parse(row.asset_id@) is None ==> e.message@
            == "invalid inference asset id "@ + row.asset_id@ + ": "@ + uuid_parse_failure(),
        r matches Err(e) ==> uuid_parse(row.asset_id@) is Some ==> run_state_named(row.state@) is None
            ==> e.message@ == "unknown inference run state "@ + row.state@,
        r matches Err(e) ==> uuid_parse(row.asset_id@) is Some ==> run_state_named(row.state@) is Some
            ==> (row.snapshot_json matches Some(text) && json_parse_failure(text@) matches Some(
            detail) && e.message@ == "invalid inference snapshot JSON: "@ + detail),
        r matches Ok(run) ==> {
            &&& run.local_job_id == row.local_job_id
            &&& uuid_parse(row.asset_id@) == Some(run.asset_id.value)
            &&& run.intent == row.intent
            &&& run.runtime_job_id == row.runtime_job_id
            &&& run.contract_version == row.contract_version
            &&& run_state_named(row.state@) == Some(run.state)
            &&& run.http_status == row.http_status
            &&& run.error_code == row.error_code
            &&& run.snapshot == row.snapshot_json
            &&& run.updated_at_millis == row.updated_at_millis
        },
        forall|update: UpsertInferenceRun|
            stored_run_of(update, row) && snapshot_is_json(update.snapshot) ==> (r matches Ok(run)
                && projects(run, update)),
{
    proof {
        assert forall|update: UpsertInferenceRun| stored_run_of(update, row) implies run_state_named(
            row.state@,
        ) == Some(update.state) by {
            lemma_run_state_text_round_trip(update.state);
        }
    }
    let asset_id = match AssetId::parse(row.asset_id.as_str()) {
        Ok(id) => id,
        Err(detail) => {
            let mut message = concat("invalid inference asset id ", row.asset_id.as_str());
            message.append(": ");
            message.append(detail.as_str());
            return Err(CatalogError { kind: CatalogErrorKind::Other, message });
        },
    };
    let state = parse_state(row.state.as_str())?;
    match &row.snapshot_json {
        Some(text) => match json_syntax_error(text.as_str()) {
            Some(detail) => {
                let error = other_error_with("invalid inference snapshot JSON: ", detail.as_str());
                return Err(error);
            },
            None => {},
        },
        None => {},
    }
    Ok(
        InferenceRun {
            local_job_id: row.local_job_id,
            asset_id,
            intent: row.intent,
            runtime_job_id: row.runtime_job_id,
            contract_version: row.contract_version,
            state,
            http_status: row.http_status,
            error_code: row.error_code,
            snapshot: row.snapshot_json,
            updated_at_millis: row.updated_at_millis,
        },
    )
}

fn copy_text(value: &Option<String>) -> (r: Option<String>)
    ensures
        r == *value,
{
    match value {
        Some(text) => Some(text.clone()),
        None => None,
    }
}

fn copy_run(row: &StoredInferenceRun) -> (r: StoredInferenceRun)
    ensures
        r == *row,
{
    StoredInferenceRun {
        local_job_id: row.local_job_id.clone(),
        asset_id: row.asset_id.clone(),
        intent: row.intent.clone(),
        runtime_job_id: copy_text(&row.runtime_job_id),
        contract_version: row.contract_version.clone(),
        state: row.state.clone(),
        http_status: row.http_status,
        error_code: copy_text(&row.error_code),
        snapshot_json: copy_text(&row.snapshot_json),
        updated_at_millis: row.updated_at_millis,
    }
}

/// Some stored run belongs to this local job.
pub open spec fn has_run(rows: Seq<StoredInferenceRun>, local_job_id: Seq<char>) -> bool {
    exists|i: int| 0 <= i < rows.len() && (#[trigger] rows[i]).local_job_id@ == local_job_id
}

/// The runtime linkages of local jobs, one row per local job.
#[derive(Debug, Clone)]
pub struct InferenceRunTable {
    pub rows: Vec<StoredInferenceRun>,
}

impl InferenceRunTable {
    /// No runs.
    pub fn new() -> (r: InferenceRunTable)
        ensures
            r.rows@.len() == 0,
    {
        InferenceRunTable { rows: Vec::new() }
    }

    fn position(&self, local_job_id: &str) -> (r: Option<usize>)
        ensures
            r is None <==> !has_run(self.rows@, local_job_id@),
            r matches Some(i) ==> i < self.rows@.len() && self.rows@[i as int].local_job_id@
                == local_job_id@ && forall|j: int|
                0 <= j < i ==> (#[trigger] self.rows@[j]).local_job_id@ != local_job_id@,
    {
        let mut i: usize = 0;
        while i < self.rows.len()
            invariant
                i <= self.rows@.len(),
                forall|j: int| 0 <= j < i ==> (#[trigger] self.rows@[j]).local_job_id@ != local_job_id@,
            decreases self.rows@.len() - i,
        {
            if same_text(self.rows[i].local_job_id.as_str(), local_job_id) {
                return Some(i);
            }
            i = i + 1;
        }
        None
    }

    /// Inserts or replaces the projection of one local job: a run already
    /// stored for the job is overwritten in place, every other run stays.
    /// A projection without its identities changes nothing.
    pub fn upsert_inference_run(&mut self, update: &UpsertInferenceRun) -> (r: Result<(), CatalogError>)
        ensures
            r is Ok <==> update.local_job_id@.len() > 0 && update.intent@.len() > 0
                && update.contract_version@.len() > 0,
            r matches Err(e) ==> e.kind == CatalogErrorKind::Other && e.message@
                == "inference run requires local job, intent, and contract identities"@,
            r is Err ==> final(self).rows@ == old(self).rows@,
            r is Ok && !has_run(old(self).rows@, update.local_job_id@) ==> {
                &&& final(self).rows@.len() == old(self).rows@.len() + 1
                &&& final(self).rows@.drop_last() == old(self).rows@
                &&& stored_run_of(*update, final(self).rows@.last())
            },
            r is Ok && has_run(old(self).rows@, update.local_job_id@) ==> exists|i: int|
                {
                    &&& 0 <= i < old(self).rows@.len()
                    &&& (#[trigger] old(self).rows@[i]).local_job_id@ == update.local_job_id@
                    &&& final(self).rows@.len() == old(self).rows@.len()
                    &&& stored_run_of(*update, final(self).rows@[i])
                    &&& forall|j: int|
                        0 <= j < old(self).rows@.len() && j != i ==> #[trigger] final(self).rows@[j]
                            == old(self).rows@[j]
                },
    {
        let row = upsert_inference_run(update)?;
        match self.position(update.local_job_id.as_str()) {
            Some(i) => {
                self.rows.set(i, row);
            },
            None => {
                let ghost before = self.rows@;
                self.rows.push(row);
                assert(self.rows@.drop_last() =~= before);
            },
        }
        Ok(())
    }

    /// Reads the run of one local job, if any.
    pub fn find_inference_run(&self, local_job_id: &str) -> (r: Result<Option<InferenceRun>, CatalogError>)
        ensures
            !has_run(self.rows@, local_job_id@) ==> r matches Ok(None),
            has_run(self.rows@, local_job_id@) ==> exists|i: int|
                {
                    &&& 0 <= i < self.rows@.len()
                    &&& (#[trigger] self.rows@[i]).local_job_id@ == local_job_id@
                    &&& forall|j: int|
                        0 <= j < i ==> (#[trigger] self.rows@[j]).local_job_id@ != local_job_id@
                    &&& match r {
                        Ok(Some(run)) => run.local_job_id == self.rows@[i].local_job_id
                            && forall|update: UpsertInferenceRun|
                            stored_run_of(update, self.rows@[i]) && snapshot_is_json(
                                update.snapshot,
                            ) ==> projects(run, update),
                        Ok(None) => false,
                        Err(_) => !(uuid_parse(self.rows@[i].asset_id@) is Some && run_state_named(
                            self.rows@[i].state@,
                        ) is Some && snapshot_is_json(self.rows@[i].snapshot_json)),
                    }
                },
    {
        match self.position(local_job_id) {
            None => Ok(None),
            Some(i) => {
                let row = copy_run(&self.rows[i]);
                match inference_run(row) {
                    Ok(run) => Ok(Some(run)),
                    Err(e) => Err(e),
                }
            },
        }
    }
}

} // verus!
