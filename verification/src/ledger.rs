//! The job ledger: every sync job ever admitted, in the order of admission.
//!
//! The ledger is where the rule "one live job per stream" is kept. A job is
//! only ever added through [`Ledger::insert_if_absent_active`], which refuses
//! a second live job on a stream, and only ever changed along the arrows of
//! the job lifecycle. A job's id is its place in the ledger; where the jobs
//! of a deleted source are wiped, their places stay taken.

use vstd::prelude::*;
use crate::job::{JobResult, JobStatus, SyncJob, SyncJobView, SyncMode};
use crate::text::str_eq;

verus! {

/// Admission was refused: the stream already has a live job.
#[derive(Clone, Copy, Debug, PartialEq, Eq, Structural)]
pub struct Conflict {
    /// The live job that occupies the stream.
    pub job_id: u64,
}

/// Why a status update was refused.
#[derive(Clone, Copy, Debug, PartialEq, Eq, Structural)]
pub enum LedgerError {
    /// The ledger holds no job of that id: none was admitted under it, or
    /// the job was wiped.
    NotFound,
    /// The lifecycle has no arrow from the job's status to the one asked for.
    IllegalTransition { from: JobStatus },
}

/// The models of a sequence of jobs.
pub open spec fn job_views(jobs: Seq<SyncJob>) -> Seq<SyncJobView> {
    jobs.map_values(|j: SyncJob| j@)
}

/// The models of the places of a ledger: a place holds its job, or what is
/// left of a job that was wiped.
pub open spec fn place_views(places: Seq<Option<SyncJob>>) -> Seq<SyncJobView> {
    Seq::new(
        places.len(),
        |i: int|
            match places[i] {
                Some(job) => job@,
                None => SyncJobView::wiped(i as u64),
            },
    )
}

/// Tells whether some job of `jobs` is live on the given stream.
pub open spec fn has_active(jobs: Seq<SyncJobView>, source_id: u128, stream_name: Seq<char>) -> bool {
    exists|i: int| 0 <= i < jobs.len() && (#[trigger] jobs[i]).active_on(source_id, stream_name)
}

/// Every job's id is its place in the ledger.
pub open spec fn ids_in_order(jobs: Seq<SyncJobView>) -> bool {
    forall|i: int| 0 <= i < jobs.len() ==> (#[trigger] jobs[i]).id == i
}

/// No stream has two live jobs.
pub open spec fn one_active_per_stream(jobs: Seq<SyncJobView>) -> bool {
    forall|i: int, j: int|
        0 <= i < jobs.len() && 0 <= j < jobs.len() && i != j && (#[trigger] jobs[i]).status.is_active()
            && (#[trigger] jobs[j]).status.is_active() ==> !jobs[j].on_stream(
            jobs[i].source_id,
            jobs[i].stream_name,
        )
}

/// A job that is still Pending has never run.
pub open spec fn pending_never_started(jobs: Seq<SyncJobView>) -> bool {
    forall|i: int|
        0 <= i < jobs.len() && (#[trigger] jobs[i]).status == JobStatus::Pending ==> jobs[i].started_at is None
}

/// Nothing is left of a wiped job.
pub open spec fn wiped_are_blank(jobs: Seq<SyncJobView>) -> bool {
    forall|i: int| 0 <= i < jobs.len() && (#[trigger] jobs[i]).erased ==> jobs[i] == SyncJobView::wiped(i as u64)
}

/// What holds of every ledger.
pub open spec fn ledger_wf(jobs: Seq<SyncJobView>) -> bool {
    ids_in_order(jobs) && one_active_per_stream(jobs) && pending_never_started(jobs) && wiped_are_blank(jobs)
}

/// The ledger after admission wrote down a Pending job for the stream.
pub open spec fn with_requested(
    jobs: Seq<SyncJobView>,
    source_id: u128,
    stream_name: Seq<char>,
    mode: crate::job::SyncModeView,
    now: u64,
) -> Seq<SyncJobView> {
    jobs.push(SyncJobView::requested(jobs.len() as u64, source_id, stream_name, mode, now))
}

/// The ledger after job `id` took the status `next`.
pub open spec fn with_status(
    jobs: Seq<SyncJobView>,
    id: int,
    next: JobStatus,
    result: crate::job::JobResultView,
    now: u64,
) -> Seq<SyncJobView> {
    jobs.update(id, jobs[id].advanced(next, result, now))
}

/// Admitting a job keeps the ledger well formed, provided the stream was free.
pub proof fn lemma_with_requested_wf(
    jobs: Seq<SyncJobView>,
    source_id: u128,
    stream_name: Seq<char>,
    mode: crate::job::SyncModeView,
    now: u64,
)
    requires
        ledger_wf(jobs),
        jobs.len() <= u64::MAX,
        !has_active(jobs, source_id, stream_name),
    ensures
        ledger_wf(with_requested(jobs, source_id, stream_name, mode, now)),
{
    let next = with_requested(jobs, source_id, stream_name, mode, now);
    let n = jobs.len() as int;
    assert forall|i: int, j: int|
        0 <= i < next.len() && 0 <= j < next.len() && i != j && (#[trigger] next[i]).status.is_active()
            && (#[trigger] next[j]).status.is_active() implies !next[j].on_stream(
        next[i].source_id,
        next[i].stream_name,
    ) by {
        if i < n && j < n {
            assert(next[i] == jobs[i]);
            assert(next[j] == jobs[j]);
        } else if i < n {
            assert(next[i] == jobs[i]);
            assert(!jobs[i].active_on(source_id, stream_name));
        } else {
            assert(next[j] == jobs[j]);
            assert(!jobs[j].active_on(source_id, stream_name));
        }
    }
}

/// A step along the lifecycle keeps the ledger well formed.
pub proof fn lemma_with_status_wf(
    jobs: Seq<SyncJobView>,
    id: int,
    next: JobStatus,
    result: crate::job::JobResultView,
    now: u64,
)
    requires
        ledger_wf(jobs),
        0 <= id < jobs.len(),
        jobs[id].status.can_become(next),
    ensures
        ledger_wf(with_status(jobs, id, next, result, now)),
{
    let after = with_status(jobs, id, next, result, now);
    assert forall|i: int, j: int|
        0 <= i < after.len() && 0 <= j < after.len() && i != j && (#[trigger] after[i]).status.is_active()
            && (#[trigger] after[j]).status.is_active() implies !after[j].on_stream(
        after[i].source_id,
        after[i].stream_name,
    ) by {
        assert(jobs[i].status.is_active());
        assert(jobs[j].status.is_active());
        assert(after[i].source_id == jobs[i].source_id && after[i].stream_name == jobs[i].stream_name);
        assert(after[j].source_id == jobs[j].source_id && after[j].stream_name == jobs[j].stream_name);
    }
}

/// Which jobs a query asks for, and how many at most.
#[derive(Clone, Debug, PartialEq, Eq)]
pub struct JobFilter {
    /// Only jobs of this source, where one is named.
    pub source_id: Option<u128>,
    /// Only jobs of the stream of this name, where one is named.
    pub stream_name: Option<String>,
    /// Only jobs in one of these statuses, where a list is given.
    pub statuses: Option<Vec<JobStatus>>,
    /// The largest number of jobs to hand back.
    pub limit: usize,
}

impl JobFilter {
    /// Tells whether the filter lets the job through. No filter lets a
    /// wiped job through.
    pub open spec fn admits(&self, job: SyncJobView) -> bool {
        &&& !job.erased
        &&& match self.source_id {
            Some(source_id) => job.source_id == source_id,
            None => true,
        }
        &&& match self.stream_name {
            Some(name) => job.stream_name == name@,
            None => true,
        }
        &&& match self.statuses {
            Some(statuses) => statuses@.contains(job.status),
            None => true,
        }
    }

    /// Tells whether the filter lets the job through.
    pub fn lets_through(&self, job: &SyncJob) -> (ok: bool)
        ensures
            ok == self.admits(job@),
    {
        let source_ok = match self.source_id {
            Some(source_id) => job.source_id == source_id,
            None => true,
        };
        if !source_ok {
            return false;
        }
        let stream_ok = match &self.stream_name {
            Some(name) => str_eq(job.stream_name.as_str(), name.as_str()),
            None => true,
        };
        if !stream_ok {
            return false;
        }
        match &self.statuses {
            None => true,
            Some(statuses) => {
                let n = statuses.len();
                let mut i: usize = 0;
                while i < n
                    invariant
                        i <= n,
                        n == statuses@.len(),
                        source_ok,
                        source_ok == match self.source_id {
                            Some(source_id) => job.source_id == source_id,
                            None => true,
                        },
                        stream_ok,
                        stream_ok == match self.stream_name {
                            Some(name) => job@.stream_name == name@,
                            None => true,
                        },
                        self.statuses == Some(*statuses),
                        forall|k: int| 0 <= k < i ==> statuses@[k] != job.status,
                    decreases n - i,
                {
                    if statuses[i] == job.status {
                        assert(statuses@[i as int] == job@.status);
                        return true;
                    }
                    i += 1;
                }
                false
            },
        }
    }
}

/// The jobs of `jobs` that the filter lets through, newest first, cut off
/// after `limit` of them.
pub open spec fn newest_matching(jobs: Seq<SyncJobView>, filter: JobFilter, limit: nat) -> Seq<
    SyncJobView,
>
    decreases jobs.len(),
{
    if jobs.len() == 0 || limit == 0 {
        Seq::empty()
    } else if filter.admits(jobs.last()) {
        seq![jobs.last()] + newest_matching(jobs.drop_last(), filter, (limit - 1) as nat)
    } else {
        newest_matching(jobs.drop_last(), filter, limit)
    }
}

/// The shape of a query's answer: it is no longer than the limit, every job
/// in it is a job of the ledger that the filter lets through, later
/// admissions come first, and while the limit is not reached no such job is
/// left out.
pub proof fn lemma_newest_matching_shape(jobs: Seq<SyncJobView>, filter: JobFilter, limit: nat)
    requires
        ids_in_order(jobs),
    ensures
        newest_matching(jobs, filter, limit).len() <= limit,
        newest_matching(jobs, filter, limit).len() <= jobs.len(),
        forall|k: int|
            0 <= k < newest_matching(jobs, filter, limit).len() ==> {
                let job = #[trigger] newest_matching(jobs, filter, limit)[k];
                &&& filter.admits(job)
                &&& 0 <= job.id < jobs.len()
                &&& jobs[job.id as int] == job
            },
        forall|k: int, l: int|
            0 <= k < l < newest_matching(jobs, filter, limit).len() ==> (#[trigger] newest_matching(
                jobs,
                filter,
                limit,
            )[k]).id > (#[trigger] newest_matching(jobs, filter, limit)[l]).id,
        newest_matching(jobs, filter, limit).len() < limit ==> forall|i: int|
            0 <= i < jobs.len() && filter.admits(#[trigger] jobs[i]) ==> newest_matching(
                jobs,
                filter,
                limit,
            ).contains(jobs[i]),
    decreases jobs.len(),
{
    let all = newest_matching(jobs, filter, limit);
    if jobs.len() == 0 || limit == 0 {
    } else {
        let rest = jobs.drop_last();
        let last = jobs.last();
        assert(ids_in_order(rest)) by {
            assert forall|i: int| 0 <= i < rest.len() implies (#[trigger] rest[i]).id == i by {
                assert(rest[i] == jobs[i]);
            }
        }
        if filter.admits(last) {
            let tail = newest_matching(rest, filter, (limit - 1) as nat);
            lemma_newest_matching_shape(rest, filter, (limit - 1) as nat);
            assert(all =~= seq![last] + tail);
            assert forall|k: int| 0 <= k < all.len() implies {
                let job = #[trigger] all[k];
                &&& filter.admits(job)
                &&& 0 <= job.id < jobs.len()
                &&& jobs[job.id as int] == job
            } by {
                if k > 0 {
                    assert(all[k] == tail[k - 1]);
                    assert(rest[tail[k - 1].id as int] == jobs[tail[k - 1].id as int]);
                }
            }
            assert forall|k: int, l: int| 0 <= k < l < all.len() implies (#[trigger] all[k]).id > (
            #[trigger] all[l]).id by {
                assert(all[l] == tail[l - 1]);
                if k > 0 {
                    assert(all[k] == tail[k - 1]);
                }
            }
            if all.len() < limit {
                assert forall|i: int| 0 <= i < jobs.len() && filter.admits(#[trigger] jobs[i]) implies all.contains(
                    jobs[i],
                ) by {
                    if i == jobs.len() - 1 {
                        assert(all[0] == jobs[i]);
                    } else {
                        assert(rest[i] == jobs[i]);
                        assert(tail.contains(rest[i]));
                        let k = choose|k: int| 0 <= k < tail.len() && tail[k] == rest[i];
                        assert(all[k + 1] == jobs[i]);
                    }
                }
            }
        } else {
            let tail = newest_matching(rest, filter, limit);
            lemma_newest_matching_shape(rest, filter, limit);
            assert(all =~= tail);
            assert forall|k: int| 0 <= k < all.len() implies {
                let job = #[trigger] all[k];
                &&& filter.admits(job)
                &&& 0 <= job.id < jobs.len()
                &&& jobs[job.id as int] == job
            } by {
                assert(rest[tail[k].id as int] == jobs[tail[k].id as int]);
            }
            if all.len() < limit {
                assert forall|i: int| 0 <= i < jobs.len() && filter.admits(#[trigger] jobs[i]) implies all.contains(
                    jobs[i],
                ) by {
                    assert(i < jobs.len() - 1);
                    assert(rest[i] == jobs[i]);
                }
            }
        }
    }
}

/// The error text of a job that was given up as abandoned.
pub open spec fn abandoned_text() -> Seq<char> {
    "Abandoned"@
}

/// Tells whether a job has been in flight for longer than `liveness_ms`:
/// it started, has not ended, and more than that time has passed since.
pub open spec fn is_stale(job: SyncJobView, now: u64, liveness_ms: u64) -> bool {
    &&& job.status == JobStatus::Running || job.status == JobStatus::Cancelling
    &&& job.started_at matches Some(start)
    &&& now >= start
    &&& now - start > liveness_ms
}

/// A stale job as the reaper leaves it: a Running job is Failed with the
/// reason `Abandoned`, a job that was asked to stop is Cancelled.
pub open spec fn reaped_job(job: SyncJobView, now: u64) -> SyncJobView {
    if job.status == JobStatus::Running {
        job.advanced(
            JobStatus::Failed,
            crate::job::JobResultView { records_fetched: 0, records_written: 0, error: Some(abandoned_text()) },
            now,
        )
    } else {
        job.advanced(
            JobStatus::Cancelled,
            crate::job::JobResultView { records_fetched: 0, records_written: 0, error: None },
            now,
        )
    }
}

/// The ledger after every stale job was given up.
pub open spec fn reaped(jobs: Seq<SyncJobView>, now: u64, liveness_ms: u64) -> Seq<SyncJobView> {
    Seq::new(
        jobs.len(),
        |i: int|
            if is_stale(jobs[i], now, liveness_ms) {
                reaped_job(jobs[i], now)
            } else {
                jobs[i]
            },
    )
}

/// The number of stale jobs in a ledger.
pub open spec fn count_stale(jobs: Seq<SyncJobView>, now: u64, liveness_ms: u64) -> nat
    decreases jobs.len(),
{
    if jobs.len() == 0 {
        0
    } else {
        count_stale(jobs.drop_last(), now, liveness_ms) + if is_stale(jobs.last(), now, liveness_ms) {
            1nat
        } else {
            0nat
        }
    }
}

/// Giving up stale jobs keeps the ledger well formed, ends every stale job
/// and touches no other: a stream whose only live job was stale is free
/// again.
pub proof fn lemma_reaped_wf(jobs: Seq<SyncJobView>, now: u64, liveness_ms: u64)
    requires
        ledger_wf(jobs),
    ensures
        ledger_wf(reaped(jobs, now, liveness_ms)),
        forall|i: int|
            0 <= i < jobs.len() && is_stale(jobs[i], now, liveness_ms) ==> (#[trigger] reaped(
                jobs,
                now,
                liveness_ms,
            )[i]).status.is_terminal(),
        forall|i: int|
            0 <= i < jobs.len() && !is_stale(jobs[i], now, liveness_ms) ==> #[trigger] reaped(
                jobs,
                now,
                liveness_ms,
            )[i] == jobs[i],
{
    let after = reaped(jobs, now, liveness_ms);
    assert forall|i: int, j: int|
        0 <= i < after.len() && 0 <= j < after.len() && i != j && (#[trigger] after[i]).status.is_active()
            && (#[trigger] after[j]).status.is_active() implies !after[j].on_stream(
        after[i].source_id,
        after[i].stream_name,
    ) by {
        assert(after[i] == jobs[i]);
        assert(after[j] == jobs[j]);
    }
    assert forall|i: int|
        0 <= i < after.len() && (#[trigger] after[i]).status == JobStatus::Pending implies after[i].started_at
        is None by {
        assert(after[i] == jobs[i]);
    }
    assert forall|i: int| 0 <= i < after.len() implies (#[trigger] after[i]).id == i by {
        assert(jobs[i].id == i);
    }
}

/// The ledger after every job of a source was wiped: the places stay, so
/// that every other job keeps its id, and nothing is left in them.
pub open spec fn without_source(jobs: Seq<SyncJobView>, source_id: u128) -> Seq<SyncJobView> {
    Seq::new(
        jobs.len(),
        |i: int|
            if !jobs[i].erased && jobs[i].source_id == source_id {
                SyncJobView::wiped(i as u64)
            } else {
                jobs[i]
            },
    )
}

/// The number of jobs of a source in a ledger.
pub open spec fn count_of_source(jobs: Seq<SyncJobView>, source_id: u128) -> nat
    decreases jobs.len(),
{
    if jobs.len() == 0 {
        0
    } else {
        count_of_source(jobs.drop_last(), source_id) + if !jobs.last().erased && jobs.last().source_id
            == source_id {
            1nat
        } else {
            0nat
        }
    }
}

/// Wiping the jobs of a source keeps the ledger well formed and leaves no
/// job of the source behind.
pub proof fn lemma_without_source_wf(jobs: Seq<SyncJobView>, source_id: u128)
    requires
        ledger_wf(jobs),
    ensures
        ledger_wf(without_source(jobs, source_id)),
        forall|i: int|
            0 <= i < jobs.len() ==> {
                let job = #[trigger] without_source(jobs, source_id)[i];
                job.erased || job.source_id != source_id
            },
{
    let after = without_source(jobs, source_id);
    assert forall|i: int, j: int|
        0 <= i < after.len() && 0 <= j < after.len() && i != j && (#[trigger] after[i]).status.is_active()
            && (#[trigger] after[j]).status.is_active() implies !after[j].on_stream(
        after[i].source_id,
        after[i].stream_name,
    ) by {
        assert(after[i] == jobs[i]);
        assert(after[j] == jobs[j]);
    }
    assert forall|i: int|
        0 <= i < after.len() && (#[trigger] after[i]).status == JobStatus::Pending implies after[i].started_at
        is None by {
        assert(after[i] == jobs[i]);
    }
    assert forall|i: int| 0 <= i < after.len() implies (#[trigger] after[i]).id == i by {
        assert(jobs[i].id == i);
    }
    assert forall|i: int| 0 <= i < after.len() && (#[trigger] after[i]).erased implies after[i] == SyncJobView::wiped(
        i as u64,
    ) by {
        if jobs[i].erased {
            assert(after[i] == jobs[i]);
        }
    }
}

/// The jobs ever admitted, oldest first.
pub struct Ledger {
    jobs: Vec<Option<SyncJob>>,
}

impl View for Ledger {
    type V = Seq<SyncJobView>;

    closed spec fn view(&self) -> Seq<SyncJobView> {
        place_views(self.jobs@)
    }
}

impl Ledger {
    /// The invariant of the ledger: ids follow the order of admission, no
    /// stream has two live jobs, a Pending job has no start time, and
    /// nothing is left of a wiped job.
    pub open spec fn wf(&self) -> bool {
        ledger_wf(self@)
    }

    /// An empty ledger.
    pub fn new() -> (ledger: Ledger)
        ensures
            ledger.wf(),
            ledger@ == Seq::<SyncJobView>::empty(),
    {
        let ledger = Ledger { jobs: Vec::new() };
        assert(ledger@ =~= Seq::<SyncJobView>::empty());
        ledger
    }

    /// The number of jobs ever admitted, wiped ones included.
    pub fn len(&self) -> (n: usize)
        ensures
            n == self@.len(),
    {
        self.jobs.len()
    }

    /// The job of the given id; none where no such job was admitted or
    /// the job was wiped.
    pub fn get(&self, job_id: u64) -> (found: Option<&SyncJob>)
        ensures
            match found {
                Some(job) => job_id < self@.len() && job@ == self@[job_id as int] && !self@[job_id as int].erased,
                None => job_id >= self@.len() || self@[job_id as int].erased,
            },
    {
        if job_id < self.jobs.len() as u64 {
            self.jobs[job_id as usize].as_ref()
        } else {
            None
        }
    }

    /// The live job on the given stream, if it has one.
    pub fn find_active(&self, source_id: u128, stream_name: &str) -> (found: Option<u64>)
        requires
            self.wf(),
        ensures
            match found {
                Some(id) => id < self@.len() && self@[id as int].active_on(source_id, stream_name@),
                None => !has_active(self@, source_id, stream_name@),
            },
    {
        let n = self.jobs.len();
        let mut i: usize = 0;
        while i < n
            invariant
                i <= n,
                n == self.jobs@.len(),
                forall|k: int| 0 <= k < i ==> !(#[trigger] self@[k]).active_on(source_id, stream_name@),
            decreases n - i,
        {
            if let Some(job) = &self.jobs[i] {
                if !job.status.terminal() && job.source_id == source_id && str_eq(
                    job.stream_name.as_str(),
                    stream_name,
                ) {
                    return Some(i as u64);
                }
            }
            i += 1;
        }
        None
    }

    /// Writes down a Pending job for the stream, unless the stream already
    /// has a live job: then nothing is written and the live job is named.
    pub fn insert_if_absent_active(
        &mut self,
        source_id: u128,
        stream_name: &str,
        mode: SyncMode,
        now: u64,
    ) -> (admitted: Result<u64, Conflict>)
        requires
            old(self).wf(),
        ensures
            final(self).wf(),
            match admitted {
                Ok(id) => {
                    &&& !has_active(old(self)@, source_id, stream_name@)
                    &&& id == old(self)@.len()
                    &&& final(self)@ == with_requested(old(self)@, source_id, stream_name@, mode@, now)
                },
                Err(conflict) => {
                    &&& conflict.job_id < old(self)@.len()
                    &&& old(self)@[conflict.job_id as int].active_on(source_id, stream_name@)
                    &&& final(self)@ == old(self)@
                },
            },
    {
        match self.find_active(source_id, stream_name) {
            Some(job_id) => Err(Conflict { job_id }),
            None => {
                let id = self.jobs.len() as u64;
                let job = SyncJob::requested(id, source_id, stream_name.to_string(), mode, now);
                proof {
                    lemma_with_requested_wf(self@, source_id, stream_name@, mode@, now);
                }
                self.jobs.push(Some(job));
                assert(self@ =~= with_requested(old(self)@, source_id, stream_name@, mode@, now));
                Ok(id)
            },
        }
    }

    /// Moves a job along one arrow of the lifecycle and records what the
    /// step brings with it (see [`SyncJobView::advanced`]). A step that the
    /// lifecycle does not have changes nothing.
    pub fn update_status(&mut self, job_id: u64, next: JobStatus, result: JobResult, now: u64) -> (done:
        Result<(), LedgerError>)
        requires
            old(self).wf(),
        ensures
            final(self).wf(),
            match done {
                Ok(()) => {
                    &&& job_id < old(self)@.len()
                    &&& !old(self)@[job_id as int].erased
                    &&& old(self)@[job_id as int].status.can_become(next)
                    &&& final(self)@ == with_status(old(self)@, job_id as int, next, result@, now)
                },
                Err(LedgerError::NotFound) => (job_id >= old(self)@.len() || old(self)@[job_id as int].erased)
                    && final(self)@ == old(self)@,
                Err(LedgerError::IllegalTransition { from }) => {
                    &&& job_id < old(self)@.len()
                    &&& !old(self)@[job_id as int].erased
                    &&& from == old(self)@[job_id as int].status
                    &&& !from.can_become(next)
                    &&& final(self)@ == old(self)@
                },
            },
    {
        if job_id >= self.jobs.len() as u64 {
            return Err(LedgerError::NotFound);
        }
        let index = job_id as usize;
        let job = match &self.jobs[index] {
            None => {
                return Err(LedgerError::NotFound);
            },
            Some(job) => {
                let from = job.status;
                if !from.allows(next) {
                    return Err(LedgerError::IllegalTransition { from });
                }
                job.advanced(next, result, now)
            },
        };
        proof {
            lemma_with_status_wf(self@, job_id as int, next, result@, now);
        }
        self.jobs.set(index, Some(job));
        assert(self@ =~= with_status(old(self)@, job_id as int, next, result@, now));
        Ok(())
    }

    /// Gives up every job that has been in flight for longer than
    /// `liveness_ms`: whoever ran it is taken to be gone. A Running job
    /// becomes Failed with the reason `Abandoned`, a job that was asked to
    /// stop becomes Cancelled; either way its stream is free again. Tells
    /// how many jobs were given up.
    pub fn reap_stale(&mut self, now: u64, liveness_ms: u64) -> (given_up: usize)
        requires
            old(self).wf(),
        ensures
            final(self).wf(),
            final(self)@ == reaped(old(self)@, now, liveness_ms),
            given_up == count_stale(old(self)@, now, liveness_ms),
    {
        let n = self.jobs.len();
        let mut given_up: usize = 0;
        let mut i: usize = 0;
        assert(old(self)@.take(0) =~= Seq::<SyncJobView>::empty());
        while i < n
            invariant
                i <= n,
                n == self.jobs@.len(),
                n == old(self)@.len(),
                given_up == count_stale(old(self)@.take(i as int), now, liveness_ms),
                given_up <= i,
                forall|k: int| 0 <= k < i ==> (#[trigger] self@[k]) == reaped(old(self)@, now, liveness_ms)[k],
                forall|k: int| i <= k < n ==> (#[trigger] self@[k]) == old(self)@[k],
            decreases n - i,
        {
            proof {
                assert(old(self)@.take(i + 1).drop_last() =~= old(self)@.take(i as int));
                assert(old(self)@.take(i + 1).last() == old(self)@[i as int]);
                assert(self@[i as int] == old(self)@[i as int]);
            }
            let ended = match &self.jobs[i] {
                None => None,
                Some(job) => {
                    let in_flight = match job.status {
                        JobStatus::Running | JobStatus::Cancelling => true,
                        _ => false,
                    };
                    let stale = in_flight && match job.started_at {
                        Some(start) => now >= start && now - start > liveness_ms,
                        None => false,
                    };
                    if !stale {
                        None
                    } else {
                        match job.status {
                            JobStatus::Running => Some(
                                job.advanced(
                                    JobStatus::Failed,
                                    JobResult {
                                        records_fetched: 0,
                                        records_written: 0,
                                        error: Some("Abandoned".to_string()),
                                    },
                                    now,
                                ),
                            ),
                            _ => Some(job.advanced(JobStatus::Cancelled, JobResult::empty(), now)),
                        }
                    }
                },
            };
            if let Some(ended) = ended {
                let ghost before = self@;
                self.jobs.set(i, Some(ended));
                proof {
                    assert forall|k: int| 0 <= k < n && k != i implies (#[trigger] self@[k]) == before[k] by {}
                }
                given_up += 1;
            }
            i += 1;
        }
        proof {
            assert(old(self)@.take(n as int) =~= old(self)@);
            assert(self@ =~= reaped(old(self)@, now, liveness_ms));
            lemma_reaped_wf(old(self)@, now, liveness_ms);
        }
        given_up
    }

    /// Wipes every job of a source: nothing is left of them but their
    /// places, which keep the ids of all other jobs as they are. Tells how
    /// many jobs were wiped.
    pub fn wipe_source(&mut self, source_id: u128) -> (wiped: usize)
        requires
            old(self).wf(),
        ensures
            final(self).wf(),
            final(self)@ == without_source(old(self)@, source_id),
            wiped == count_of_source(old(self)@, source_id),
    {
        let n = self.jobs.len();
        let mut wiped: usize = 0;
        let mut i: usize = 0;
        assert(old(self)@.take(0) =~= Seq::<SyncJobView>::empty());
        while i < n
            invariant
                i <= n,
                n == self.jobs@.len(),
                n == old(self)@.len(),
                wiped == count_of_source(old(self)@.take(i as int), source_id),
                wiped <= i,
                forall|k: int| 0 <= k < i ==> (#[trigger] self@[k]) == without_source(old(self)@, source_id)[k],
                forall|k: int| i <= k < n ==> (#[trigger] self@[k]) == old(self)@[k],
            decreases n - i,
        {
            proof {
                assert(old(self)@.take(i + 1).drop_last() =~= old(self)@.take(i as int));
                assert(old(self)@.take(i + 1).last() == old(self)@[i as int]);
                assert(self@[i as int] == old(self)@[i as int]);
            }
            let of_source = match &self.jobs[i] {
                Some(job) => job.source_id == source_id,
                None => false,
            };
            if of_source {
                let ghost before = self@;
                self.jobs.set(i, None);
                proof {
                    assert forall|k: int| 0 <= k < n && k != i implies (#[trigger] self@[k]) == before[k] by {}
                }
                wiped += 1;
            }
            i += 1;
        }
        proof {
            assert(old(self)@.take(n as int) =~= old(self)@);
            assert(self@ =~= without_source(old(self)@, source_id));
            lemma_without_source_wf(old(self)@, source_id);
        }
        wiped
    }

    /// The jobs that the filter lets through, most recently admitted first,
    /// at most `filter.limit` of them. The ledger is left as it is.
    pub fn query(&self, filter: &JobFilter) -> (found: Vec<SyncJob>)
        ensures
            job_views(found@) == newest_matching(self@, *filter, filter.limit as nat),
    {
        let mut found: Vec<SyncJob> = Vec::new();
        let mut i: usize = self.jobs.len();
        assert(self@.take(i as int) =~= self@);
        assert(job_views(found@) =~= Seq::<SyncJobView>::empty());
        while i > 0 && found.len() < filter.limit
            invariant
                i <= self.jobs@.len(),
                found@.len() <= filter.limit,
                newest_matching(self@, *filter, filter.limit as nat) == job_views(found@)
                    + newest_matching(
                    self@.take(i as int),
                    *filter,
                    (filter.limit - found@.len()) as nat,
                ),
            decreases i,
        {
            let ghost before = self@.take(i as int);
            i -= 1;
            proof {
                assert(before.last() == self@[i as int]);
                assert(before.drop_last() =~= self@.take(i as int));
            }
            if let Some(job) = &self.jobs[i] {
                if filter.lets_through(job) {
                    let ghost so_far = job_views(found@);
                    found.push(job.duplicate());
                    proof {
                        let rest = newest_matching(
                            self@.take(i as int),
                            *filter,
                            (filter.limit - found@.len()) as nat,
                        );
                        assert(job_views(found@) =~= so_far + seq![job@]);
                        assert(so_far + (seq![job@] + rest) =~= (so_far + seq![job@]) + rest);
                    }
                }
            }
        }
        proof {
            let rest = newest_matching(
                self@.take(i as int),
                *filter,
                (filter.limit - found@.len()) as nat,
            );
            assert(rest =~= Seq::<SyncJobView>::empty());
            assert(job_views(found@) + rest =~= job_views(found@));
        }
        found
    }
}

} // verus!
