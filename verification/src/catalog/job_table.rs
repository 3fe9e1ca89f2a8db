//! The jobs table and its transitions.
//!
//! Every queue operation is a transition of the whole table, so what the
//! queue promises across calls can be stated: a claim moves exactly the
//! job the queue orders first from `pending` to `running` and leaves every
//! other job alone, and crash recovery returns every interrupted job to
//! `pending`.

use vstd::prelude::*;

use crate::catalog::error::CatalogError;
use crate::catalog::job_queue::{
    claim_job, claim_outcome, claims_before, job_kind_text, select_next_job, ClaimedJob, JobKind, JobState,
    JobStats, PendingJob,
};
use crate::text::{owned, same_text};

verus! {

/// One stored job.
#[derive(Debug, Clone, PartialEq, Eq)]
pub struct JobRow {
    pub id: String,
    /// Stored kind text.
    pub kind: String,
    /// Stored JSON payload text.
    pub payload: String,
    pub state: JobState,
    pub progress: u8,
    pub attempts: u32,
    pub created_at_millis: i64,
    pub updated_at_millis: i64,
    pub error: Option<String>,
}

/// The jobs table: one row per job id.
#[derive(Debug, Clone)]
pub struct JobTable {
    pub rows: Vec<JobRow>,
}

/// No two rows share an id.
pub open spec fn distinct_ids(rows: Seq<JobRow>) -> bool {
    forall|i: int, j: int| 0 <= i < j < rows.len() ==> (#[trigger] rows[i]).id@ != (#[trigger] rows[j]).id@
}

/// Some row has this id.
pub open spec fn has_job(rows: Seq<JobRow>, id: Seq<char>) -> bool {
    exists|i: int| 0 <= i < rows.len() && (#[trigger] rows[i]).id@ == id
}

/// The claim columns of a stored row.
pub open spec fn pending_view(row: JobRow) -> PendingJob {
    PendingJob {
        id: row.id,
        kind: row.kind,
        payload: row.payload,
        attempts: row.attempts,
        created_at_millis: row.created_at_millis,
    }
}

/// Some row is pending.
pub open spec fn any_pending(rows: Seq<JobRow>) -> bool {
    exists|i: int| 0 <= i < rows.len() && (#[trigger] rows[i]).state == JobState::Pending
}

/// Row `i` is the pending job the queue claims next: no pending job is
/// claimed before it.
pub open spec fn next_pending(rows: Seq<JobRow>, i: int) -> bool {
    &&& 0 <= i < rows.len()
    &&& rows[i].state == JobState::Pending
    &&& forall|j: int|
        0 <= j < rows.len() && (#[trigger] rows[j]).state == JobState::Pending ==> !claims_before(
            pending_view(rows[j]),
            pending_view(rows[i]),
        )
}

/// `new` is `old` with only row `i` possibly replaced.
pub open spec fn only_row_changed(old: Seq<JobRow>, new: Seq<JobRow>, i: int) -> bool {
    &&& new.len() == old.len()
    &&& forall|j: int| 0 <= j < old.len() && j != i ==> #[trigger] new[j] == old[j]
}

/// The row a claim leaves: running, one more attempt, touched now.
pub open spec fn claimed_row(row: JobRow, now_millis: i64) -> JobRow {
    JobRow {
        state: JobState::Running,
        attempts: (row.attempts + 1) as u32,
        updated_at_millis: now_millis,
        ..row
    }
}

/// The row completion leaves: done, full progress, touched now.
pub open spec fn completed_row(row: JobRow, now_millis: i64) -> JobRow {
    JobRow { state: JobState::Done, progress: 100, updated_at_millis: now_millis, ..row }
}

/// `new` is `row` failed with message `error` and touched now.
pub open spec fn is_failed_row(row: JobRow, new: JobRow, error: Seq<char>, now_millis: i64) -> bool {
    &&& new.state == JobState::Failed
    &&& new.error matches Some(e) && e@ == error
    &&& new.updated_at_millis == now_millis
    &&& new.id == row.id
    &&& new.kind == row.kind
    &&& new.payload == row.payload
    &&& new.progress == row.progress
    &&& new.attempts == row.attempts
    &&& new.created_at_millis == row.created_at_millis
}

/// The row a progress report leaves.
pub open spec fn progressed_row(row: JobRow, progress: u8, now_millis: i64) -> JobRow {
    JobRow { progress, updated_at_millis: now_millis, ..row }
}

/// The row crash recovery leaves for an interrupted job.
pub open spec fn recovered_row(row: JobRow, now_millis: i64) -> JobRow {
    JobRow { state: JobState::Pending, updated_at_millis: now_millis, ..row }
}

/// `row` is a freshly queued job: pending, untried, created and touched
/// now.
pub open spec fn is_new_job(
    row: JobRow,
    id: Seq<char>,
    kind: Seq<char>,
    payload: Seq<char>,
    now_millis: i64,
) -> bool {
    &&& row.id@ == id
    &&& row.kind@ == kind
    &&& row.payload@ == payload
    &&& row.state == JobState::Pending
    &&& row.progress == 0
    &&& row.attempts == 0
    &&& row.created_at_millis == now_millis
    &&& row.updated_at_millis == now_millis
    &&& row.error is None
}

/// The number of rows in a state.
pub open spec fn count_in_state(rows: Seq<JobRow>, state: JobState) -> nat
    decreases rows.len(),
{
    if rows.len() == 0 {
        0
    } else {
        count_in_state(rows.drop_last(), state) + if rows.last().state == state {
            1nat
        } else {
            0nat
        }
    }
}

impl JobTable {
    /// An empty table.
    pub fn new() -> (r: JobTable)
        ensures
            r.rows@.len() == 0,
            distinct_ids(r.rows@),
    {
        JobTable { rows: Vec::new() }
    }

    /// The position of the row with this id, if any.
    pub fn find(&self, id: &str) -> (r: Option<usize>)
        ensures
            r is None <==> !has_job(self.rows@, id@),
            r matches Some(i) ==> i < self.rows@.len() && self.rows@[i as int].id@ == id@,
    {
        let mut i: usize = 0;
        while i < self.rows.len()
            invariant
                i <= self.rows@.len(),
                forall|k: int| 0 <= k < i ==> (#[trigger] self.rows@[k]).id@ != id@,
            decreases self.rows@.len() - i,
        {
            if same_text(self.rows[i].id.as_str(), id) {
                return Some(i);
            }
            i = i + 1;
        }
        None
    }

    /// Queues a job; an id already queued keeps its row untouched.
    pub fn enqueue_job(&mut self, id: &str, kind: JobKind, payload: &str, now_millis: i64)
        ensures
            has_job(old(self).rows@, id@) ==> final(self).rows@ == old(self).rows@,
            !has_job(old(self).rows@, id@) ==> {
                &&& final(self).rows@.len() == old(self).rows@.len() + 1
                &&& final(self).rows@.drop_last() == old(self).rows@
                &&& is_new_job(final(self).rows@.last(), id@, job_kind_text(kind), payload@, now_millis)
            },
            distinct_ids(old(self).rows@) ==> distinct_ids(final(self).rows@),
    {
        if self.find(id).is_some() {
            return;
        }
        self.rows.push(
            JobRow {
                id: owned(id),
                kind: owned(kind.as_str()),
                payload: owned(payload),
                state: JobState::Pending,
                progress: 0,
                attempts: 0,
                created_at_millis: now_millis,
                updated_at_millis: now_millis,
                error: None,
            },
        );
        assert(final(self).rows@.drop_last() =~= old(self).rows@);
    }

    /// Queues (or re-queues) the scan of one root: a new id is queued as a
    /// `scan_root` job; an existing job that is not running becomes pending
    /// again with its error cleared; a running scan is left alone.
    pub fn requeue_scan_job(&mut self, id: &str, payload: &str, now_millis: i64)
        requires
            distinct_ids(old(self).rows@),
        ensures
            !has_job(old(self).rows@, id@) ==> {
                &&& final(self).rows@.len() == old(self).rows@.len() + 1
                &&& final(self).rows@.drop_last() == old(self).rows@
                &&& is_new_job(final(self).rows@.last(), id@, "scan_root"@, payload@, now_millis)
            },
            forall|i: int|
                0 <= i < old(self).rows@.len() && (#[trigger] old(self).rows@[i]).id@ == id@ ==> {
                    &&& only_row_changed(old(self).rows@, final(self).rows@, i)
                    &&& final(self).rows@[i] == (if old(self).rows@[i].state == JobState::Running {
                        old(self).rows@[i]
                    } else {
                        JobRow {
                            state: JobState::Pending,
                            error: None,
                            updated_at_millis: now_millis,
                            ..old(self).rows@[i]
                        }
                    })
                },
            distinct_ids(final(self).rows@),
    {
        match self.find(id) {
            None => {
                proof {
                    reveal_strlit("scan_root");
                }
                self.enqueue_job(id, JobKind::ScanRoot, payload, now_millis);
            },
            Some(i) => {
                if self.rows[i].state != JobState::Running {
                    self.rows[i].state = JobState::Pending;
                    self.rows[i].error = None;
                    self.rows[i].updated_at_millis = now_millis;
                }
            },
        }
    }

    /// The pending jobs in table order, with their positions.
    fn pending_jobs(&self) -> (r: (Vec<PendingJob>, Vec<usize>))
        ensures
            r.0@.len() == r.1@.len(),
            forall|k: int|
                0 <= k < r.1@.len() ==> {
                    &&& (#[trigger] r.1@[k]) < self.rows@.len()
                    &&& self.rows@[r.1@[k] as int].state == JobState::Pending
                    &&& r.0@[k] == pending_view(self.rows@[r.1@[k] as int])
                },
            forall|j: int|
                0 <= j < self.rows@.len() && (#[trigger] self.rows@[j]).state == JobState::Pending
                    ==> exists|k: int| 0 <= k < r.1@.len() && #[trigger] r.1@[k] == j,
    {
        let mut pending: Vec<PendingJob> = Vec::new();
        let mut positions: Vec<usize> = Vec::new();
        let mut i: usize = 0;
        while i < self.rows.len()
            invariant
                i <= self.rows@.len(),
                pending@.len() == positions@.len(),
                forall|k: int|
                    0 <= k < positions@.len() ==> {
                        &&& (#[trigger] positions@[k]) < i
                        &&& self.rows@[positions@[k] as int].state == JobState::Pending
                        &&& pending@[k] == pending_view(self.rows@[positions@[k] as int])
                    },
                forall|j: int|
                    0 <= j < i && (#[trigger] self.rows@[j]).state == JobState::Pending ==> exists|k: int|
                        0 <= k < positions@.len() && #[trigger] positions@[k] == j,
            decreases self.rows@.len() - i,
        {
            let ghost before = positions@;
            let row = &self.rows[i];
            if row.state == JobState::Pending {
                pending.push(
                    PendingJob {
                        id: row.id.clone(),
                        kind: row.kind.clone(),
                        payload: row.payload.clone(),
                        attempts: row.attempts,
                        created_at_millis: row.created_at_millis,
                    },
                );
                positions.push(i);
            }
            proof {
                assert forall|j: int|
                    0 <= j < i + 1 && (#[trigger] self.rows@[j]).state == JobState::Pending implies exists|k: int|
                    0 <= k < positions@.len() && #[trigger] positions@[k] == j by {
                    if j == i {
                        assert(positions@[positions@.len() - 1] == j);
                    } else {
                        let k = choose|k: int| 0 <= k < before.len() && #[trigger] before[k] == j;
                        assert(positions@[k] == before[k]);
                    }
                }
            }
            i = i + 1;
        }
        (pending, positions)
    }

    /// Atomically claims the next pending job (pending to running):
    /// `Ok(None)` and no change when nothing is pending; otherwise the job
    /// the queue orders first is claimed. A successful claim marks exactly
    /// that row running, counts the attempt and touches it now; a failed
    /// claim changes nothing.
    pub fn claim_next_job(&mut self, now_millis: i64) -> (r: Result<Option<ClaimedJob>, CatalogError>)
        requires
            forall|i: int|
                0 <= i < old(self).rows@.len() && (#[trigger] old(self).rows@[i]).state
                    == JobState::Pending ==> old(self).rows@[i].attempts < u32::MAX,
        ensures
            !any_pending(old(self).rows@) ==> (r matches Ok(None)) && final(self).rows@ == old(
                self,
            ).rows@,
            any_pending(old(self).rows@) ==> !(r matches Ok(None)),
            r matches Ok(Some(claimed)) ==> exists|i: int|
                {
                    &&& next_pending(old(self).rows@, i)
                    &&& claim_outcome(
                        pending_view(#[trigger] old(self).rows@[i]),
                        Ok((claimed, (old(self).rows@[i].attempts + 1) as u32)),
                    )
                    &&& only_row_changed(old(self).rows@, final(self).rows@, i)
                    &&& final(self).rows@[i] == claimed_row(old(self).rows@[i], now_millis)
                },
            r matches Err(error) ==> (final(self).rows@ == old(self).rows@ && exists|i: int|
                next_pending(old(self).rows@, i) && claim_outcome(
                    pending_view(#[trigger] old(self).rows@[i]),
                    Err(error),
                )),
            distinct_ids(old(self).rows@) ==> distinct_ids(final(self).rows@),
    {
        let (pending, positions) = self.pending_jobs();
        match select_next_job(pending.as_slice()) {
            None => {
                proof {
                    if any_pending(self.rows@) {
                        let j = choose|j: int|
                            0 <= j < self.rows@.len() && (#[trigger] self.rows@[j]).state
                                == JobState::Pending;
                        assert(exists|k: int| 0 <= k < positions@.len() && #[trigger] positions@[k] == j);
                    }
                }
                Ok(None)
            },
            Some(k) => {
                let p = positions[k];
                let ghost rows = self.rows@;
                proof {
                    assert(rows[p as int].state == JobState::Pending);
                    assert forall|j: int|
                        0 <= j < rows.len() && (#[trigger] rows[j]).state
                            == JobState::Pending implies !claims_before(
                        pending_view(rows[j]),
                        pending_view(rows[p as int]),
                    ) by {
                        let k2 = choose|k2: int| 0 <= k2 < positions@.len() && #[trigger] positions@[k2] == j;
                        assert(pending@[k2] == pending_view(rows[j]));
                    }
                    assert(next_pending(rows, p as int));
                    assert(rows[p as int].attempts < u32::MAX);
                }
                match claim_job(&pending[k]) {
                    Ok((claimed, attempts)) => {
                        self.rows[p].state = JobState::Running;
                        self.rows[p].attempts = attempts;
                        self.rows[p].updated_at_millis = now_millis;
                        proof {
                            assert(self.rows@[p as int] == claimed_row(rows[p as int], now_millis));
                            assert(only_row_changed(rows, self.rows@, p as int));
                        }
                        Ok(Some(claimed))
                    },
                    Err(error) => Err(error),
                }
            },
        }
    }

    /// Marks the job with this id done, with full progress.
    pub fn complete_job(&mut self, id: &str, now_millis: i64)
        ensures
            final(self).rows@.len() == old(self).rows@.len(),
            forall|j: int|
                0 <= j < old(self).rows@.len() ==> #[trigger] final(self).rows@[j] == if old(
                    self,
                ).rows@[j].id@ == id@ {
                    completed_row(old(self).rows@[j], now_millis)
                } else {
                    old(self).rows@[j]
                },
            distinct_ids(old(self).rows@) ==> distinct_ids(final(self).rows@),
    {
        let mut i: usize = 0;
        while i < self.rows.len()
            invariant
                i <= self.rows@.len(),
                self.rows@.len() == old(self).rows@.len(),
                forall|j: int|
                    0 <= j < i ==> #[trigger] self.rows@[j] == if old(self).rows@[j].id@ == id@ {
                        completed_row(old(self).rows@[j], now_millis)
                    } else {
                        old(self).rows@[j]
                    },
                forall|j: int| i <= j < self.rows@.len() ==> #[trigger] self.rows@[j] == old(self).rows@[j],
            decreases self.rows@.len() - i,
        {
            if same_text(self.rows[i].id.as_str(), id) {
                self.rows[i].state = JobState::Done;
                self.rows[i].progress = 100;
                self.rows[i].updated_at_millis = now_millis;
            }
            i = i + 1;
        }
    }

    /// Marks the job with this id failed, recording the message.
    pub fn fail_job(&mut self, id: &str, error: &str, now_millis: i64)
        ensures
            final(self).rows@.len() == old(self).rows@.len(),
            forall|j: int|
                0 <= j < old(self).rows@.len() ==> if old(self).rows@[j].id@ == id@ {
                    is_failed_row(old(self).rows@[j], #[trigger] final(self).rows@[j], error@, now_millis)
                } else {
                    final(self).rows@[j] == old(self).rows@[j]
                },
            distinct_ids(old(self).rows@) ==> distinct_ids(final(self).rows@),
    {
        let mut i: usize = 0;
        while i < self.rows.len()
            invariant
                i <= self.rows@.len(),
                self.rows@.len() == old(self).rows@.len(),
                forall|j: int|
                    0 <= j < i ==> if old(self).rows@[j].id@ == id@ {
                        is_failed_row(old(self).rows@[j], #[trigger] self.rows@[j], error@, now_millis)
                    } else {
                        self.rows@[j] == old(self).rows@[j]
                    },
                forall|j: int| i <= j < self.rows@.len() ==> #[trigger] self.rows@[j] == old(self).rows@[j],
            decreases self.rows@.len() - i,
        {
            if same_text(self.rows[i].id.as_str(), id) {
                self.rows[i].state = JobState::Failed;
                self.rows[i].error = Some(owned(error));
                self.rows[i].updated_at_millis = now_millis;
            }
            i = i + 1;
        }
    }

    /// Records the progress of the job with this id.
    pub fn update_job_progress(&mut self, id: &str, progress: u8, now_millis: i64)
        ensures
            final(self).rows@.len() == old(self).rows@.len(),
            forall|j: int|
                0 <= j < old(self).rows@.len() ==> #[trigger] final(self).rows@[j] == if old(
                    self,
                ).rows@[j].id@ == id@ {
                    progressed_row(old(self).rows@[j], progress, now_millis)
                } else {
                    old(self).rows@[j]
                },
            distinct_ids(old(self).rows@) ==> distinct_ids(final(self).rows@),
    {
        let mut i: usize = 0;
        while i < self.rows.len()
            invariant
                i <= self.rows@.len(),
                self.rows@.len() == old(self).rows@.len(),
                forall|j: int|
                    0 <= j < i ==> #[trigger] self.rows@[j] == if old(self).rows@[j].id@ == id@ {
                        progressed_row(old(self).rows@[j], progress, now_millis)
                    } else {
                        old(self).rows@[j]
                    },
                forall|j: int| i <= j < self.rows@.len() ==> #[trigger] self.rows@[j] == old(self).rows@[j],
            decreases self.rows@.len() - i,
        {
            if same_text(self.rows[i].id.as_str(), id) {
                self.rows[i].progress = progress;
                self.rows[i].updated_at_millis = now_millis;
            }
            i = i + 1;
        }
    }

    /// Resets interrupted jobs after a crash: every running job becomes
    /// pending again. Returns how many were reset.
    pub fn recover_interrupted_jobs(&mut self, now_millis: i64) -> (r: u64)
        ensures
            r == count_in_state(old(self).rows@, JobState::Running),
            final(self).rows@.len() == old(self).rows@.len(),
            forall|j: int|
                0 <= j < old(self).rows@.len() ==> #[trigger] final(self).rows@[j] == if old(
                    self,
                ).rows@[j].state == JobState::Running {
                    recovered_row(old(self).rows@[j], now_millis)
                } else {
                    old(self).rows@[j]
                },
            count_in_state(final(self).rows@, JobState::Running) == 0,
            distinct_ids(old(self).rows@) ==> distinct_ids(final(self).rows@),
    {
        let mut count: u64 = 0;
        let mut i: usize = 0;
        while i < self.rows.len()
            invariant
                i <= self.rows@.len(),
                self.rows@.len() == old(self).rows@.len(),
                count == count_in_state(old(self).rows@.take(i as int), JobState::Running),
                count_in_state(self.rows@.take(i as int), JobState::Running) == 0,
                forall|j: int|
                    0 <= j < i ==> #[trigger] self.rows@[j] == if old(self).rows@[j].state
                        == JobState::Running {
                        recovered_row(old(self).rows@[j], now_millis)
                    } else {
                        old(self).rows@[j]
                    },
                forall|j: int| i <= j < self.rows@.len() ==> #[trigger] self.rows@[j] == old(self).rows@[j],
            decreases self.rows@.len() - i,
        {
            proof {
                lemma_count_bounded(old(self).rows@.take(i as int), JobState::Running);
                assert(old(self).rows@.take(i + 1).drop_last() =~= old(self).rows@.take(i as int));
            }
            let ghost before = self.rows@;
            if self.rows[i].state == JobState::Running {
                self.rows[i].state = JobState::Pending;
                self.rows[i].updated_at_millis = now_millis;
                count = count + 1;
            }
            proof {
                assert(self.rows@.take(i as int) =~= before.take(i as int));
                assert(self.rows@.take(i + 1).drop_last() =~= self.rows@.take(i as int));
                assert(self.rows@.take(i + 1).last() == self.rows@[i as int]);
                assert(self.rows@[i as int].state != JobState::Running);
            }
            i = i + 1;
        }
        proof {
            assert(old(self).rows@.take(i as int) =~= old(self).rows@);
            assert(self.rows@.take(i as int) =~= self.rows@);
        }
        count
    }

    /// Aggregate statistics of the queue.
    pub fn job_stats(&self) -> (r: JobStats)
        ensures
            r.pending == count_in_state(self.rows@, JobState::Pending),
            r.running == count_in_state(self.rows@, JobState::Running),
            r.done == count_in_state(self.rows@, JobState::Done),
            r.failed == count_in_state(self.rows@, JobState::Failed),
    {
        let mut stats = JobStats { pending: 0, running: 0, done: 0, failed: 0 };
        let mut i: usize = 0;
        while i < self.rows.len()
            invariant
                i <= self.rows@.len(),
                stats.pending == count_in_state(self.rows@.take(i as int), JobState::Pending),
                stats.running == count_in_state(self.rows@.take(i as int), JobState::Running),
                stats.done == count_in_state(self.rows@.take(i as int), JobState::Done),
                stats.failed == count_in_state(self.rows@.take(i as int), JobState::Failed),
            decreases self.rows@.len() - i,
        {
            proof {
                assert(self.rows@.take(i + 1).drop_last() =~= self.rows@.take(i as int));
                lemma_count_bounded(self.rows@.take(i as int), JobState::Pending);
                lemma_count_bounded(self.rows@.take(i as int), JobState::Running);
                lemma_count_bounded(self.rows@.take(i as int), JobState::Done);
                lemma_count_bounded(self.rows@.take(i as int), JobState::Failed);
            }
            match self.rows[i].state {
                JobState::Pending => stats.pending = stats.pending + 1,
                JobState::Running => stats.running = stats.running + 1,
                JobState::Done => stats.done = stats.done + 1,
                JobState::Failed => stats.failed = stats.failed + 1,
                JobState::Cancelled => {},
            }
            i = i + 1;
        }
        proof {
            assert(self.rows@.take(i as int) =~= self.rows@);
        }
        stats
    }
}

/// A count never exceeds the number of rows.
proof fn lemma_count_bounded(rows: Seq<JobRow>, state: JobState)
    ensures
        count_in_state(rows, state) <= rows.len(),
    decreases rows.len(),
{
    if rows.len() > 0 {
        lemma_count_bounded(rows.drop_last(), state);
    }
}

} // verus!
