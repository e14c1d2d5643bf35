//! Theorems about the engine.
//!
//! Each theorem speaks of the engine's model and of the functions that say
//! what an operation does to it (`after_trigger`, `after_cancel`,
//! `after_complete`); the operations themselves are proved to follow these
//! functions.

use vstd::prelude::*;
use crate::engine::{AdmissionError, CancelError, ConnectorOutcomeView, EngineView, ExecuteError};
use crate::job::{JobStatus, SyncJobView, SyncModeView};
use crate::ledger::{has_active, ledger_wf, lemma_without_source_wf};
use crate::sources::{
    distinct_streams, has_source, has_stream, lemma_sources_except, lemma_streams_except,
    lemma_with_synced_keeps_streams, stream_named,
};

verus! {

/// In a well-formed ledger a stream has at most one live job: two live jobs
/// on one stream are one job.
pub proof fn lemma_one_live_job_per_stream(
    jobs: Seq<SyncJobView>,
    i: int,
    j: int,
    source_id: u128,
    stream_name: Seq<char>,
)
    requires
        ledger_wf(jobs),
        0 <= i < jobs.len(),
        0 <= j < jobs.len(),
        jobs[i].active_on(source_id, stream_name),
        jobs[j].active_on(source_id, stream_name),
    ensures
        i == j,
{
}

/// An admitted request occupies its stream: the job it wrote down is live
/// there, and whatever is asked for next on that stream is refused with
/// `Conflict`.
pub proof fn lemma_admitted_then_conflict(
    e: EngineView,
    source_id: u128,
    stream_name: Seq<char>,
    requested: Option<SyncModeView>,
    now: u64,
    again: Option<SyncModeView>,
)
    requires
        e.admission(source_id, stream_name, requested) is Ok,
    ensures
        has_active(e.after_trigger(source_id, stream_name, requested, now).jobs, source_id, stream_name),
        e.after_trigger(source_id, stream_name, requested, now).admission(source_id, stream_name, again)
            == Err::<SyncModeView, AdmissionError>(AdmissionError::Conflict),
{
    let after = e.after_trigger(source_id, stream_name, requested, now);
    let id = e.jobs.len() as int;
    assert(after.jobs[id].active_on(source_id, stream_name));
}

/// While a stream has a live job, every request on it is refused with
/// `Conflict` and changes nothing.
pub proof fn lemma_busy_stream_refuses(
    e: EngineView,
    source_id: u128,
    stream_name: Seq<char>,
    requested: Option<SyncModeView>,
    now: u64,
)
    requires
        has_stream(e.streams, source_id, stream_name),
        stream_named(e.streams, source_id, stream_name).enabled,
        has_active(e.jobs, source_id, stream_name),
    ensures
        e.admission(source_id, stream_name, requested) == Err::<SyncModeView, AdmissionError>(
            AdmissionError::Conflict,
        ),
        e.after_trigger(source_id, stream_name, requested, now) == e,
{
}

/// The engine after a row of requests on one stream, taken one after the
/// other, and the answer that each of them got.
pub open spec fn after_attempts(
    e: EngineView,
    source_id: u128,
    stream_name: Seq<char>,
    attempts: Seq<(Option<SyncModeView>, u64)>,
) -> (EngineView, Seq<Result<SyncModeView, AdmissionError>>)
    decreases attempts.len(),
{
    if attempts.len() == 0 {
        (e, Seq::empty())
    } else {
        let (before, answers) = after_attempts(e, source_id, stream_name, attempts.drop_last());
        let (requested, now) = attempts.last();
        (
            before.after_trigger(source_id, stream_name, requested, now),
            answers.push(before.admission(source_id, stream_name, requested)),
        )
    }
}

/// Of any number of requests on one stream that arrive while no job ends,
/// exactly one is admitted: where the first is admitted, each of the others
/// is refused with `Conflict`, and the stream has its one live job.
pub proof fn lemma_one_admission_among_attempts(
    e: EngineView,
    source_id: u128,
    stream_name: Seq<char>,
    attempts: Seq<(Option<SyncModeView>, u64)>,
)
    requires
        attempts.len() >= 1,
        e.admission(source_id, stream_name, attempts[0].0) is Ok,
    ensures
        after_attempts(e, source_id, stream_name, attempts).1.len() == attempts.len(),
        after_attempts(e, source_id, stream_name, attempts).1[0] is Ok,
        forall|k: int|
            1 <= k < attempts.len() ==> #[trigger] after_attempts(e, source_id, stream_name, attempts).1[k]
                == Err::<SyncModeView, AdmissionError>(AdmissionError::Conflict),
        after_attempts(e, source_id, stream_name, attempts).0.jobs.len() == e.jobs.len() + 1,
        has_active(after_attempts(e, source_id, stream_name, attempts).0.jobs, source_id, stream_name),
        after_attempts(e, source_id, stream_name, attempts).0.streams == e.streams,
    decreases attempts.len(),
{
    let (after, answers) = after_attempts(e, source_id, stream_name, attempts);
    let earlier = attempts.drop_last();
    let (requested, now) = attempts.last();
    if attempts.len() == 1 {
        assert(earlier.len() == 0);
        assert(after_attempts(e, source_id, stream_name, earlier).0 == e);
        assert(attempts.last() == attempts[0]);
        lemma_admitted_then_conflict(e, source_id, stream_name, requested, now, None);
    } else {
        assert(earlier[0] == attempts[0]);
        lemma_one_admission_among_attempts(e, source_id, stream_name, earlier);
        let (before, before_answers) = after_attempts(e, source_id, stream_name, earlier);
        lemma_busy_stream_refuses(before, source_id, stream_name, requested, now);
        assert forall|k: int| 1 <= k < attempts.len() implies #[trigger] answers[k] == Err::<
            SyncModeView,
            AdmissionError,
        >(AdmissionError::Conflict) by {
            if k < earlier.len() {
                assert(answers[k] == before_answers[k]);
            }
        }
        assert(answers[0] == before_answers[0]);
    }
}

/// The number of requests that were admitted among the answers to a row of
/// requests.
pub open spec fn count_admitted(answers: Seq<Result<SyncModeView, AdmissionError>>) -> nat
    decreases answers.len(),
{
    if answers.len() == 0 {
        0
    } else {
        count_admitted(answers.drop_last()) + if answers.last() is Ok {
            1nat
        } else {
            0nat
        }
    }
}

/// Whatever is asked for on one stream while no job ends, at most one
/// request is admitted, and none while the stream has a live job.
pub proof fn lemma_at_most_one_admission(
    e: EngineView,
    source_id: u128,
    stream_name: Seq<char>,
    attempts: Seq<(Option<SyncModeView>, u64)>,
)
    ensures
        count_admitted(after_attempts(e, source_id, stream_name, attempts).1) <= 1,
        has_active(e.jobs, source_id, stream_name) ==> count_admitted(
            after_attempts(e, source_id, stream_name, attempts).1,
        ) == 0,
        has_active(e.jobs, source_id, stream_name) || count_admitted(
            after_attempts(e, source_id, stream_name, attempts).1,
        ) == 1 ==> has_active(after_attempts(e, source_id, stream_name, attempts).0.jobs, source_id, stream_name),
    decreases attempts.len(),
{
    if attempts.len() > 0 {
        let earlier = attempts.drop_last();
        let (requested, now) = attempts.last();
        lemma_at_most_one_admission(e, source_id, stream_name, earlier);
        let (before, answers) = after_attempts(e, source_id, stream_name, earlier);
        let all = answers.push(before.admission(source_id, stream_name, requested));
        assert(all.drop_last() =~= answers);
        if before.admission(source_id, stream_name, requested) is Ok {
            lemma_admitted_then_conflict(before, source_id, stream_name, requested, now, None);
        }
    }
}

/// A sync of a stream that is unknown or disabled is never admitted and
/// writes no job: the engine stays as it is.
pub proof fn lemma_unknown_or_disabled_is_refused(
    e: EngineView,
    source_id: u128,
    stream_name: Seq<char>,
    requested: Option<SyncModeView>,
    now: u64,
)
    requires
        !has_stream(e.streams, source_id, stream_name) || !stream_named(
            e.streams,
            source_id,
            stream_name,
        ).enabled,
    ensures
        e.admission(source_id, stream_name, requested) == Err::<SyncModeView, AdmissionError>(
            if has_stream(e.streams, source_id, stream_name) {
                AdmissionError::StreamDisabled
            } else {
                AdmissionError::UnknownStream
            },
        ),
        e.after_trigger(source_id, stream_name, requested, now) == e,
{
}

/// Only a run that ends Completed moves a checkpoint. In particular a
/// failed run leaves every cursor as it was.
pub proof fn lemma_failed_run_keeps_checkpoints(
    e: EngineView,
    job_id: u64,
    outcome: ConnectorOutcomeView,
    now: u64,
)
    ensures
        e.completion(job_id, outcome) != Ok::<JobStatus, ExecuteError>(JobStatus::Completed)
            ==> e.after_complete(job_id, outcome, now).checkpoints == e.checkpoints,
        e.in_flight(job_id) is Ok && e.after_complete(job_id, outcome, now).jobs[job_id as int].status
            == JobStatus::Failed ==> e.after_complete(job_id, outcome, now).checkpoints == e.checkpoints,
        outcome is Failure && e.in_flight(job_id) is Ok && e.jobs[job_id as int].status == JobStatus::Running
            ==> e.after_complete(job_id, outcome, now).jobs[job_id as int].status == JobStatus::Failed,
{
}

/// A run that ends Completed leaves the stream's cursor at the checkpoint
/// that the connector returned, and the job Completed with its counts.
pub proof fn lemma_completed_run_sets_checkpoint(
    e: EngineView,
    job_id: u64,
    outcome: ConnectorOutcomeView,
    now: u64,
)
    requires
        e.completion(job_id, outcome) == Ok::<JobStatus, ExecuteError>(JobStatus::Completed),
    ensures
        outcome is Success,
        job_id < e.jobs.len(),
        e.after_complete(job_id, outcome, now).checkpoint(
            e.jobs[job_id as int].source_id,
            e.jobs[job_id as int].stream_name,
        ) == Some(outcome->checkpoint),
        e.after_complete(job_id, outcome, now).jobs[job_id as int].status == JobStatus::Completed,
        e.after_complete(job_id, outcome, now).jobs[job_id as int].records_fetched
            == outcome->Success_records_fetched,
        e.after_complete(job_id, outcome, now).jobs[job_id as int].records_written
            == outcome->Success_records_written,
{
}

/// Once its job has ended, a stream is free again: a request without a
/// mode is admitted, and it resumes from the cursor that the last
/// completed run left.
pub proof fn lemma_completed_stream_resumes_from_new_cursor(
    e: EngineView,
    job_id: u64,
    outcome: ConnectorOutcomeView,
    now: u64,
)
    requires
        ledger_wf(e.jobs),
        distinct_streams(e.streams),
        e.completion(job_id, outcome) == Ok::<JobStatus, ExecuteError>(JobStatus::Completed),
        has_stream(e.streams, e.jobs[job_id as int].source_id, e.jobs[job_id as int].stream_name),
        stream_named(e.streams, e.jobs[job_id as int].source_id, e.jobs[job_id as int].stream_name).enabled,
    ensures
        e.after_complete(job_id, outcome, now).admission(
            e.jobs[job_id as int].source_id,
            e.jobs[job_id as int].stream_name,
            None,
        ) == Ok::<SyncModeView, AdmissionError>(
            SyncModeView::Incremental { cursor: Some(outcome->checkpoint) },
        ),
{
    let job = e.jobs[job_id as int];
    let after = e.after_complete(job_id, outcome, now);
    let source_id = job.source_id;
    let name = job.stream_name;
    // the stream is still there, and still enabled
    lemma_with_synced_keeps_streams(e.streams, (source_id, name), now, source_id, name);
    // no job is live on it any more
    assert forall|i: int| 0 <= i < after.jobs.len() implies !(#[trigger] after.jobs[i]).active_on(
        source_id,
        name,
    ) by {
        if i != job_id as int {
            assert(after.jobs[i] == e.jobs[i]);
            if e.jobs[i].active_on(source_id, name) {
                assert(e.jobs[job_id as int].active_on(source_id, name));
            }
        }
    }
}

/// Syncing twice with nothing new upstream leaves the same cursor both
/// times: each completed run leaves the cursor that its connector returned,
/// and the second run finds room for it whatever the store's capacity.
pub proof fn lemma_sync_twice_same_checkpoint(
    e: EngineView,
    first: u64,
    second: u64,
    checkpoint: Seq<char>,
    counts: (u64, u64, u64, u64),
    times: (u64, u64),
)
    requires
        e.completion(
            first,
            ConnectorOutcomeView::Success {
                checkpoint,
                records_fetched: counts.0,
                records_written: counts.1,
            },
        ) == Ok::<JobStatus, ExecuteError>(JobStatus::Completed),
        ({
            let mid = e.after_complete(
                first,
                ConnectorOutcomeView::Success {
                    checkpoint,
                    records_fetched: counts.0,
                    records_written: counts.1,
                },
                times.0,
            );
            &&& mid.in_flight(second) is Ok
            &&& mid.jobs[second as int].status == JobStatus::Running
            &&& mid.jobs[second as int].on_stream(
                e.jobs[first as int].source_id,
                e.jobs[first as int].stream_name,
            )
        }),
    ensures
        ({
            let source_id = e.jobs[first as int].source_id;
            let name = e.jobs[first as int].stream_name;
            let mid = e.after_complete(
                first,
                ConnectorOutcomeView::Success {
                    checkpoint,
                    records_fetched: counts.0,
                    records_written: counts.1,
                },
                times.0,
            );
            let again = ConnectorOutcomeView::Success {
                checkpoint,
                records_fetched: counts.2,
                records_written: counts.3,
            };
            &&& mid.checkpoint(source_id, name) == Some(checkpoint)
            &&& mid.completion(second, again) == Ok::<JobStatus, ExecuteError>(JobStatus::Completed)
            &&& mid.after_complete(second, again, times.1).checkpoint(source_id, name) == Some(checkpoint)
            &&& mid.after_complete(second, again, times.1).checkpoints == mid.checkpoints
        }),
{
    let source_id = e.jobs[first as int].source_id;
    let name = e.jobs[first as int].stream_name;
    let mid = e.after_complete(
        first,
        ConnectorOutcomeView::Success { checkpoint, records_fetched: counts.0, records_written: counts.1 },
        times.0,
    );
    let again = ConnectorOutcomeView::Success {
        checkpoint,
        records_fetched: counts.2,
        records_written: counts.3,
    };
    assert(mid.checkpoints.dom().contains((source_id, name)));
    assert(mid.after_complete(second, again, times.1).checkpoints =~= mid.checkpoints);
}

/// Cancelling a Pending job makes it Cancelled in one step: it never runs,
/// has no start time and no duration, and no cursor moves.
pub proof fn lemma_cancel_pending_never_runs(e: EngineView, job_id: u64, now: u64)
    requires
        ledger_wf(e.jobs),
        job_id < e.jobs.len(),
        e.jobs[job_id as int].status == JobStatus::Pending,
    ensures
        e.cancellation(job_id) == Ok::<JobStatus, CancelError>(JobStatus::Cancelled),
        e.after_cancel(job_id, now).jobs[job_id as int].status == JobStatus::Cancelled,
        e.after_cancel(job_id, now).jobs[job_id as int].started_at is None,
        e.after_cancel(job_id, now).jobs[job_id as int].duration_ms is None,
        e.after_cancel(job_id, now).jobs[job_id as int].finished_at == Some(now),
        e.after_cancel(job_id, now).checkpoints == e.checkpoints,
{
}

/// Deleting a source leaves nothing of it: no source of that id, no stream,
/// no cursor and no job. Every job of another source stays as it was, at
/// its place and under its id, and the ledger stays well formed.
pub proof fn lemma_deleted_source_leaves_nothing(e: EngineView, id: u128)
    requires
        ledger_wf(e.jobs),
    ensures
        !has_source(e.after_delete(id).sources, id),
        has_source(e.sources, id) ==> {
            let after = e.after_delete(id);
            &&& forall|name: Seq<char>| !has_stream(after.streams, id, name)
            &&& forall|name: Seq<char>| #[trigger] after.checkpoint(id, name) is None
            &&& after.jobs.len() == e.jobs.len()
            &&& forall|i: int|
                0 <= i < e.jobs.len() ==> {
                    let job = #[trigger] after.jobs[i];
                    if e.jobs[i].source_id == id {
                        job.erased
                    } else {
                        job == e.jobs[i]
                    }
                }
            &&& forall|name: Seq<char>| !has_active(after.jobs, id, name)
        },
        ledger_wf(e.after_delete(id).jobs),
{
    let after = e.after_delete(id);
    if has_source(e.sources, id) {
        lemma_sources_except(e.sources, id);
        lemma_streams_except(e.streams, id);
        lemma_without_source_wf(e.jobs, id);
        assert forall|name: Seq<char>| !has_active(after.jobs, id, name) by {
            assert forall|i: int| 0 <= i < after.jobs.len() implies !(#[trigger] after.jobs[i]).active_on(
                id,
                name,
            ) by {}
        }
    }
}

/// A job that has ended stays as it is: cancelling it is refused, and a
/// late report of its run changes nothing.
pub proof fn lemma_terminal_job_is_final(e: EngineView, job_id: u64, outcome: ConnectorOutcomeView, now: u64)
    requires
        e.has_job(job_id),
        e.jobs[job_id as int].status.is_terminal(),
    ensures
        e.cancellation(job_id) == Err::<JobStatus, CancelError>(CancelError::AlreadyTerminal),
        e.after_cancel(job_id, now) == e,
        e.completion(job_id, outcome) == Err::<JobStatus, ExecuteError>(ExecuteError::NotRunning),
        e.after_complete(job_id, outcome, now) == e,
{
}

} // verus!
