use ariata::checkpoint::{CheckpointStore, StorageError};
use ariata::engine::{
    AdmissionError, CancelError, ConnectorError, ConnectorErrorKind, ConnectorOutcome, ExecuteError,
    SourceError, StreamError, SyncEngine,
};
use ariata::job::{JobResult, JobStatus, SyncMode};
use ariata::ledger::{Conflict, JobFilter, Ledger, LedgerError};
use ariata::registry::{AuthType, ConnectorDescriptor, Registry, StreamDescriptor};

const GOOGLE: u128 = 0x1111_2222_3333_4444_5555_6666_7777_8888;
const NOTION: u128 = 7;

fn stream(name: &str, incremental: bool, full: bool) -> StreamDescriptor {
    StreamDescriptor {
        name: name.to_string(),
        description: format!("{name} records"),
        supports_incremental: incremental,
        supports_full_refresh: full,
        table_name: format!("stream_{name}"),
    }
}

fn registry() -> Registry {
    let mut registry = Registry::new();
    registry
        .register(ConnectorDescriptor {
            name: "google".to_string(),
            display_name: "Google".to_string(),
            description: "Google account".to_string(),
            auth_type: AuthType::OAuth2,
            streams: vec![stream("calendar", true, true), stream("gmail", true, false)],
            icon: Some("google.svg".to_string()),
        })
        .unwrap();
    registry
        .register(ConnectorDescriptor {
            name: "notion".to_string(),
            display_name: "Notion".to_string(),
            description: "Notion workspace".to_string(),
            auth_type: AuthType::OAuth2,
            streams: vec![stream("pages", false, true)],
            icon: None,
        })
        .unwrap();
    registry
}

fn engine() -> SyncEngine {
    let mut engine = SyncEngine::new(registry());
    engine.add_source(GOOGLE, "google", "Work account", 1_000).unwrap();
    engine.add_source(NOTION, "notion", "Notes", 1_000).unwrap();
    engine.enable_stream(GOOGLE, "calendar", None).unwrap();
    engine.enable_stream(GOOGLE, "gmail", None).unwrap();
    engine.enable_stream(NOTION, "pages", None).unwrap();
    engine
}

fn success(checkpoint: &str, fetched: u64, written: u64) -> ConnectorOutcome {
    ConnectorOutcome::Success {
        checkpoint: checkpoint.to_string(),
        records_fetched: fetched,
        records_written: written,
    }
}

fn failure(kind: ConnectorErrorKind, message: &str) -> ConnectorOutcome {
    ConnectorOutcome::Failure(ConnectorError { kind, message: message.to_string() })
}

#[test]
fn calendar_sync_advances_the_checkpoint_and_frees_the_stream() {
    let mut engine = engine();
    engine.checkpoints.set(GOOGLE, "calendar", "2024-01-01T00:00:00Z".to_string()).unwrap();

    let handle = engine.trigger_sync(GOOGLE, "calendar", None, 5_000).unwrap();
    assert_eq!(handle.job_id, 0);
    assert_eq!(handle.status, JobStatus::Running);
    assert_eq!(
        handle.mode,
        SyncMode::Incremental { cursor: Some("2024-01-01T00:00:00Z".to_string()) }
    );

    let call = engine.begin_execute(handle.job_id).unwrap();
    assert_eq!(call.source_id, GOOGLE);
    assert_eq!(call.stream_name, "calendar");
    assert_eq!(call.checkpoint, Some("2024-01-01T00:00:00Z".to_string()));
    assert!(!call.cancel_requested);

    let settled = engine.complete(handle.job_id, success("2024-01-08T00:00:00Z", 42, 42), 5_250);
    assert_eq!(settled, Ok(JobStatus::Completed));

    let job = engine.ledger.get(handle.job_id).unwrap();
    assert_eq!(job.status, JobStatus::Completed);
    assert_eq!(job.records_fetched, 42);
    assert_eq!(job.records_written, 42);
    assert_eq!(job.started_at, Some(5_000));
    assert_eq!(job.finished_at, Some(5_250));
    assert_eq!(job.duration_ms, Some(250));
    assert_eq!(job.error, None);
    assert_eq!(engine.checkpoint(GOOGLE, "calendar"), Some("2024-01-08T00:00:00Z".to_string()));
    assert_eq!(engine.streams.find(GOOGLE, "calendar").unwrap().last_sync_at, Some(5_250));

    let again = engine.trigger_sync(GOOGLE, "calendar", None, 6_000).unwrap();
    assert_eq!(again.job_id, 1);
    assert_eq!(
        again.mode,
        SyncMode::Incremental { cursor: Some("2024-01-08T00:00:00Z".to_string()) }
    );
}

#[test]
fn one_of_many_attempts_is_admitted() {
    let mut engine = engine();
    let attempts = 25;
    let mut admitted = 0;
    let mut conflicts = 0;
    for k in 0..attempts {
        match engine.trigger_sync(GOOGLE, "calendar", None, 100 + k) {
            Ok(_) => admitted += 1,
            Err(AdmissionError::Conflict) => conflicts += 1,
            Err(other) => panic!("unexpected refusal {other:?}"),
        }
    }
    assert_eq!(admitted, 1);
    assert_eq!(conflicts, attempts - 1);
    assert_eq!(engine.ledger.len(), 1);
    // another stream of the same source is not held up
    assert!(engine.trigger_sync(GOOGLE, "gmail", None, 200).is_ok());
    assert!(engine.trigger_sync(NOTION, "pages", None, 200).is_ok());
    let live = engine
        .query_jobs(&JobFilter {
            source_id: Some(GOOGLE), stream_name: None,
            statuses: Some(vec![JobStatus::Pending, JobStatus::Running, JobStatus::Cancelling]),
            limit: 10,
        })
        .len();
    assert_eq!(live, 2);
}

#[test]
fn failed_run_keeps_the_checkpoint() {
    let mut engine = engine();
    engine.checkpoints.set(GOOGLE, "gmail", "page-7".to_string()).unwrap();
    let handle = engine.trigger_sync(GOOGLE, "gmail", None, 10).unwrap();
    let settled =
        engine.complete(handle.job_id, failure(ConnectorErrorKind::Transient, "connection reset"), 30);
    assert_eq!(settled, Ok(JobStatus::Failed));
    assert_eq!(engine.checkpoint(GOOGLE, "gmail"), Some("page-7".to_string()));
    let job = engine.ledger.get(handle.job_id).unwrap();
    assert_eq!(job.status, JobStatus::Failed);
    assert_eq!(job.error, Some("connection reset".to_string()));
    assert_eq!(job.records_written, 0);
    assert_eq!(job.duration_ms, Some(20));
    let source = engine.sources.find(GOOGLE).unwrap();
    assert_eq!(source.last_error, Some("connection reset".to_string()));
    assert_eq!(source.updated_at, 30);
    assert_eq!(engine.streams.find(GOOGLE, "gmail").unwrap().last_sync_at, None);
    // the stream is free for a retry from the same cursor
    let retry = engine.trigger_sync(GOOGLE, "gmail", None, 40).unwrap();
    assert_eq!(retry.mode, SyncMode::Incremental { cursor: Some("page-7".to_string()) });
}

#[test]
fn failed_run_without_checkpoint_leaves_none() {
    let mut engine = engine();
    let handle = engine.trigger_sync(GOOGLE, "calendar", None, 10).unwrap();
    engine.complete(handle.job_id, failure(ConnectorErrorKind::Permanent, "gone"), 11).unwrap();
    assert_eq!(engine.checkpoint(GOOGLE, "calendar"), None);
}

#[test]
fn credential_failure_asks_for_reauthorization() {
    let mut engine = engine();
    let handle = engine.trigger_sync(GOOGLE, "calendar", None, 10).unwrap();
    engine.complete(handle.job_id, failure(ConnectorErrorKind::Auth, "token revoked"), 11).unwrap();
    let job = engine.ledger.get(handle.job_id).unwrap();
    assert_eq!(job.error, Some("needs reauthorization: token revoked".to_string()));
    assert_eq!(
        ConnectorError { kind: ConnectorErrorKind::RateLimited, message: "slow down".to_string() }
            .into_text(),
        "slow down"
    );
}

#[test]
fn retryable_kinds() {
    assert!(ConnectorErrorKind::RateLimited.retryable());
    assert!(ConnectorErrorKind::Transient.retryable());
    assert!(!ConnectorErrorKind::Auth.retryable());
    assert!(!ConnectorErrorKind::Permanent.retryable());
}

#[test]
fn success_clears_the_last_error() {
    let mut engine = engine();
    let first = engine.trigger_sync(GOOGLE, "calendar", None, 10).unwrap();
    engine.complete(first.job_id, failure(ConnectorErrorKind::Transient, "timeout"), 20).unwrap();
    assert!(engine.sources.find(GOOGLE).unwrap().last_error.is_some());
    let second = engine.trigger_sync(GOOGLE, "calendar", None, 30).unwrap();
    engine.complete(second.job_id, success("c1", 3, 2), 40).unwrap();
    assert_eq!(engine.sources.find(GOOGLE).unwrap().last_error, None);
    let job = engine.ledger.get(second.job_id).unwrap();
    assert_eq!((job.records_fetched, job.records_written), (3, 2));
}

#[test]
fn syncing_twice_without_news_gives_the_same_checkpoint() {
    let mut engine = engine();
    let first = engine.trigger_sync(GOOGLE, "calendar", None, 10).unwrap();
    engine.complete(first.job_id, success("cursor-9", 5, 5), 20).unwrap();
    let after_first = engine.checkpoint(GOOGLE, "calendar");
    let second = engine.trigger_sync(GOOGLE, "calendar", None, 30).unwrap();
    assert_eq!(second.mode, SyncMode::Incremental { cursor: Some("cursor-9".to_string()) });
    engine.complete(second.job_id, success("cursor-9", 0, 0), 40).unwrap();
    assert_eq!(after_first, Some("cursor-9".to_string()));
    assert_eq!(engine.checkpoint(GOOGLE, "calendar"), after_first);
}

#[test]
fn cancelling_a_pending_job_never_runs_it() {
    let mut engine = engine();
    let id = engine
        .ledger
        .insert_if_absent_active(GOOGLE, "calendar", SyncMode::FullRefresh, 10)
        .unwrap();
    assert_eq!(engine.ledger.get(id).unwrap().status, JobStatus::Pending);
    assert_eq!(engine.cancel(id, 15), Ok(JobStatus::Cancelled));
    let job = engine.ledger.get(id).unwrap();
    assert_eq!(job.status, JobStatus::Cancelled);
    assert_eq!(job.started_at, None);
    assert_eq!(job.duration_ms, None);
    assert_eq!(job.finished_at, Some(15));
    // the stream is free again
    assert!(engine.trigger_sync(GOOGLE, "calendar", None, 20).is_ok());
}

#[test]
fn cancelling_a_running_job_ends_it_when_the_run_is_reported() {
    let mut engine = engine();
    engine.checkpoints.set(GOOGLE, "calendar", "before".to_string()).unwrap();
    let handle = engine.trigger_sync(GOOGLE, "calendar", None, 10).unwrap();
    assert_eq!(engine.cancel(handle.job_id, 12), Ok(JobStatus::Cancelling));
    // asking again changes nothing
    assert_eq!(engine.cancel(handle.job_id, 13), Ok(JobStatus::Cancelling));
    assert!(engine.begin_execute(handle.job_id).unwrap().cancel_requested);
    // still live: the stream stays taken
    assert_eq!(engine.trigger_sync(GOOGLE, "calendar", None, 14), Err(AdmissionError::Conflict));
    // even a run that went through does not move the cursor of a cancelled job
    assert_eq!(engine.complete(handle.job_id, success("after", 9, 9), 20), Ok(JobStatus::Cancelled));
    let job = engine.ledger.get(handle.job_id).unwrap();
    assert_eq!(job.status, JobStatus::Cancelled);
    assert_eq!(job.records_written, 0);
    assert_eq!(job.duration_ms, Some(10));
    assert_eq!(engine.checkpoint(GOOGLE, "calendar"), Some("before".to_string()));
    assert_eq!(engine.cancel(handle.job_id, 30), Err(CancelError::AlreadyTerminal));
}

#[test]
fn connector_that_saw_the_signal_ends_cancelled() {
    let mut engine = engine();
    let handle = engine.trigger_sync(GOOGLE, "calendar", None, 10).unwrap();
    assert_eq!(engine.complete(handle.job_id, ConnectorOutcome::Cancelled, 20), Ok(JobStatus::Cancelled));
    assert_eq!(engine.checkpoint(GOOGLE, "calendar"), None);
    assert_eq!(engine.ledger.get(handle.job_id).unwrap().status, JobStatus::Cancelled);
}

#[test]
fn cancel_reports_missing_and_finished_jobs() {
    let mut engine = engine();
    assert_eq!(engine.cancel(0, 1), Err(CancelError::NotFound));
    let handle = engine.trigger_sync(GOOGLE, "calendar", None, 10).unwrap();
    engine.complete(handle.job_id, success("c", 1, 1), 20).unwrap();
    assert_eq!(engine.cancel(handle.job_id, 30), Err(CancelError::AlreadyTerminal));
    assert_eq!(engine.ledger.get(handle.job_id).unwrap().status, JobStatus::Completed);
    assert_eq!(CancelError::NotFound.message(), "job not found");
    assert_eq!(CancelError::AlreadyTerminal.message(), "job has already finished");
}

#[test]
fn unknown_or_disabled_stream_writes_no_job() {
    let mut engine = engine();
    assert_eq!(engine.trigger_sync(GOOGLE, "drive", None, 10), Err(AdmissionError::UnknownStream));
    assert_eq!(engine.trigger_sync(99, "calendar", None, 10), Err(AdmissionError::UnknownStream));
    engine.disable_stream(GOOGLE, "calendar").unwrap();
    assert_eq!(engine.trigger_sync(GOOGLE, "calendar", None, 10), Err(AdmissionError::StreamDisabled));
    assert_eq!(
        engine.trigger_sync(GOOGLE, "calendar", Some(SyncMode::FullRefresh), 10),
        Err(AdmissionError::StreamDisabled)
    );
    assert_eq!(engine.ledger.len(), 0);
    // enabled again, it syncs
    engine.enable_stream(GOOGLE, "calendar", None).unwrap();
    assert!(engine.trigger_sync(GOOGLE, "calendar", None, 10).is_ok());
    assert_eq!(engine.ledger.len(), 1);
}

#[test]
fn requested_mode_must_be_supported() {
    let mut engine = engine();
    assert_eq!(
        engine.trigger_sync(GOOGLE, "gmail", Some(SyncMode::FullRefresh), 10),
        Err(AdmissionError::UnsupportedMode)
    );
    assert_eq!(
        engine.trigger_sync(NOTION, "pages", Some(SyncMode::incremental(None)), 10),
        Err(AdmissionError::UnsupportedMode)
    );
    assert_eq!(engine.ledger.len(), 0);
    let handle = engine.trigger_sync(GOOGLE, "calendar", Some(SyncMode::FullRefresh), 10).unwrap();
    assert_eq!(handle.mode, SyncMode::FullRefresh);
    // a full refresh starts from nothing
    engine.checkpoints.set(GOOGLE, "calendar", "old".to_string()).unwrap();
    assert_eq!(engine.begin_execute(handle.job_id).unwrap().checkpoint, None);
    assert_eq!(AdmissionError::Conflict.message(), "stream already has an active sync");
}

#[test]
fn conflict_comes_before_the_mode() {
    let mut engine = engine();
    engine.trigger_sync(GOOGLE, "gmail", None, 10).unwrap();
    assert_eq!(
        engine.trigger_sync(GOOGLE, "gmail", Some(SyncMode::FullRefresh), 11),
        Err(AdmissionError::Conflict)
    );
}

#[test]
fn default_mode_without_cursor() {
    let mut engine = engine();
    // no cursor, no incremental support: full refresh
    let pages = engine.trigger_sync(NOTION, "pages", None, 10).unwrap();
    assert_eq!(pages.mode, SyncMode::FullRefresh);
    // no cursor, incremental support: incremental from the beginning
    let gmail = engine.trigger_sync(GOOGLE, "gmail", None, 10).unwrap();
    assert_eq!(gmail.mode, SyncMode::Incremental { cursor: None });
    engine.complete(pages.job_id, success("p1", 4, 4), 20).unwrap();
    // with a cursor the default is incremental
    let next = engine.trigger_sync(NOTION, "pages", None, 30).unwrap();
    assert_eq!(next.mode, SyncMode::Incremental { cursor: Some("p1".to_string()) });
}

#[test]
fn execution_reads_the_cursor_anew() {
    let mut engine = engine();
    engine.checkpoints.set(GOOGLE, "calendar", "at-admission".to_string()).unwrap();
    let handle = engine.trigger_sync(GOOGLE, "calendar", None, 10).unwrap();
    engine.checkpoints.set(GOOGLE, "calendar", "at-execution".to_string()).unwrap();
    let call = engine.begin_execute(handle.job_id).unwrap();
    assert_eq!(call.mode, SyncMode::Incremental { cursor: Some("at-admission".to_string()) });
    assert_eq!(call.checkpoint, Some("at-execution".to_string()));
}

#[test]
fn runs_of_missing_or_finished_jobs_are_refused() {
    let mut engine = engine();
    assert_eq!(engine.begin_execute(3).err(), Some(ExecuteError::NotFound));
    assert_eq!(engine.complete(3, ConnectorOutcome::Cancelled, 1), Err(ExecuteError::NotFound));
    let pending = engine
        .ledger
        .insert_if_absent_active(GOOGLE, "calendar", SyncMode::FullRefresh, 10)
        .unwrap();
    assert_eq!(engine.begin_execute(pending).err(), Some(ExecuteError::NotRunning));
    assert_eq!(engine.complete(pending, success("x", 1, 1), 11), Err(ExecuteError::NotRunning));
    assert_eq!(engine.checkpoint(GOOGLE, "calendar"), None);
    let handle = engine.trigger_sync(GOOGLE, "gmail", None, 10).unwrap();
    engine.complete(handle.job_id, success("one", 1, 1), 20).unwrap();
    assert_eq!(engine.complete(handle.job_id, success("two", 1, 1), 30), Err(ExecuteError::NotRunning));
    assert_eq!(engine.checkpoint(GOOGLE, "gmail"), Some("one".to_string()));
}

#[test]
fn checkpoint_that_cannot_be_written_fails_the_job() {
    let mut engine = engine();
    engine.checkpoints = CheckpointStore::with_capacity(0);
    let handle = engine.trigger_sync(GOOGLE, "calendar", None, 10).unwrap();
    let settled = engine.complete(handle.job_id, success("c1", 8, 8), 20);
    assert_eq!(settled, Err(ExecuteError::Storage(StorageError::CapacityExceeded)));
    let job = engine.ledger.get(handle.job_id).unwrap();
    assert_eq!(job.status, JobStatus::Failed);
    assert_eq!(job.error, Some("checkpoint write failed".to_string()));
    assert_eq!(engine.checkpoint(GOOGLE, "calendar"), None);
    assert_eq!(
        engine.sources.find(GOOGLE).unwrap().last_error,
        Some("checkpoint write failed".to_string())
    );
}

#[test]
fn clock_that_went_back_gives_no_negative_duration() {
    let mut engine = engine();
    let handle = engine.trigger_sync(GOOGLE, "calendar", None, 500).unwrap();
    engine.complete(handle.job_id, success("c", 1, 1), 400).unwrap();
    assert_eq!(engine.ledger.get(handle.job_id).unwrap().duration_ms, Some(0));
}

#[test]
fn sources_and_streams_follow_the_registry() {
    let mut engine = SyncEngine::new(registry());
    assert_eq!(engine.add_source(1, "strava", "Rides", 5), Err(SourceError::UnknownType));
    assert_eq!(engine.add_source(1, "google", "Mail", 5), Ok(()));
    assert_eq!(engine.add_source(1, "notion", "Notes", 6), Err(SourceError::Duplicate));
    assert_eq!(engine.enable_stream(2, "calendar", None), Err(StreamError::UnknownSource));
    assert_eq!(engine.enable_stream(1, "pages", None), Err(StreamError::UnknownStream));
    assert_eq!(engine.disable_stream(1, "calendar"), Err(StreamError::UnknownStream));
    assert_eq!(engine.disable_stream(2, "calendar"), Err(StreamError::UnknownSource));
    assert_eq!(engine.enable_stream(1, "calendar", Some("{\"days\":30}".to_string())), Ok(()));
    let stream = engine.streams.find(1, "calendar").unwrap();
    assert!(stream.enabled);
    assert!(stream.supports_incremental && stream.supports_full_refresh);
    assert_eq!(stream.config, "{\"days\":30}");
    assert_eq!(stream.table_name, "stream_calendar");
    assert_eq!(stream.cron_schedule, None);
    assert_eq!(engine.enable_stream(1, "gmail", None), Ok(()));
    assert_eq!(engine.streams.find(1, "gmail").unwrap().config, "{}");
    // enabling again keeps what the stream has
    engine.disable_stream(1, "calendar").unwrap();
    assert!(!engine.streams.find(1, "calendar").unwrap().enabled);
    assert_eq!(engine.enable_stream(1, "calendar", None), Ok(()));
    assert_eq!(engine.streams.find(1, "calendar").unwrap().config, "{\"days\":30}");
    let source = engine.sources.find(1).unwrap();
    assert_eq!(source.source_type, "google");
    assert!(source.is_active);
    assert_eq!((source.created_at, source.updated_at), (5, 5));
    assert!(engine.sources.set_active(1, false, 9));
    assert!(!engine.sources.find(1).unwrap().is_active);
    assert!(!engine.sources.set_active(77, false, 9));
    assert!(engine.streams.set_schedule(1, "gmail", Some("0 */6 * * *".to_string())));
    assert_eq!(engine.streams.find(1, "gmail").unwrap().cron_schedule, Some("0 */6 * * *".to_string()));
}

#[test]
fn query_lists_newest_first_up_to_the_limit() {
    let mut engine = engine();
    for round in 0..3u64 {
        let a = engine.trigger_sync(GOOGLE, "calendar", None, round * 100).unwrap();
        let b = engine.trigger_sync(NOTION, "pages", None, round * 100 + 1).unwrap();
        engine.complete(a.job_id, success("c", round, round), round * 100 + 10).unwrap();
        engine.complete(b.job_id, failure(ConnectorErrorKind::Permanent, "no"), round * 100 + 11).unwrap();
    }
    let live = engine.trigger_sync(GOOGLE, "gmail", None, 999).unwrap();
    let ids = |filter: JobFilter| -> Vec<u64> { engine.query_jobs(&filter).iter().map(|j| j.id).collect() };
    assert_eq!(ids(JobFilter { source_id: None, stream_name: None, statuses: None, limit: 100 }), vec![6, 5, 4, 3, 2, 1, 0]);
    assert_eq!(ids(JobFilter { source_id: None, stream_name: None, statuses: None, limit: 3 }), vec![6, 5, 4]);
    assert_eq!(ids(JobFilter { source_id: None, stream_name: None, statuses: None, limit: 0 }), Vec::<u64>::new());
    assert_eq!(ids(JobFilter { source_id: Some(NOTION), stream_name: None, statuses: None, limit: 2 }), vec![5, 3]);
    assert_eq!(
        ids(JobFilter { source_id: Some(GOOGLE), stream_name: None, statuses: Some(vec![JobStatus::Completed]), limit: 10 }),
        vec![4, 2, 0]
    );
    assert_eq!(
        ids(JobFilter {
            source_id: None, stream_name: None,
            statuses: Some(vec![JobStatus::Failed, JobStatus::Running]),
            limit: 10
        }),
        vec![live.job_id, 5, 3, 1]
    );
    assert_eq!(ids(JobFilter { source_id: None, stream_name: None, statuses: Some(vec![]), limit: 10 }), Vec::<u64>::new());
    assert_eq!(ids(JobFilter { source_id: Some(12345), stream_name: None, statuses: None, limit: 10 }), Vec::<u64>::new());
    assert_eq!(engine.ledger.len(), 7);
    let calendar = JobFilter {
        source_id: Some(GOOGLE),
        stream_name: Some("calendar".to_string()),
        statuses: None,
        limit: 2,
    };
    assert_eq!(ids(calendar), vec![4, 2]);
    let pages = JobFilter { source_id: None, stream_name: Some("pages".to_string()), statuses: None, limit: 9 };
    assert_eq!(ids(pages), vec![5, 3, 1]);
}

#[test]
fn stale_jobs_are_given_up() {
    let mut engine = engine();
    engine.checkpoints.set(GOOGLE, "calendar", "kept".to_string()).unwrap();
    let old = engine.trigger_sync(GOOGLE, "calendar", None, 1_000).unwrap();
    let stopping = engine.trigger_sync(GOOGLE, "gmail", None, 1_000).unwrap();
    engine.cancel(stopping.job_id, 1_500).unwrap();
    let young = engine.trigger_sync(NOTION, "pages", None, 50_000).unwrap();
    let done = {
        let mut other = SyncEngine::new(registry());
        other.reap_stale(1, 0)
    };
    assert_eq!(done, 0);
    // exactly at the threshold a job is not stale yet
    assert_eq!(engine.reap_stale(61_000, 60_000), 0);
    assert_eq!(engine.reap_stale(61_001, 60_000), 2);
    let failed = engine.ledger.get(old.job_id).unwrap();
    assert_eq!(failed.status, JobStatus::Failed);
    assert_eq!(failed.error, Some("Abandoned".to_string()));
    assert_eq!(failed.finished_at, Some(61_001));
    assert_eq!(failed.duration_ms, Some(60_001));
    let cancelled = engine.ledger.get(stopping.job_id).unwrap();
    assert_eq!(cancelled.status, JobStatus::Cancelled);
    assert_eq!(cancelled.error, None);
    assert_eq!(engine.ledger.get(young.job_id).unwrap().status, JobStatus::Running);
    assert_eq!(engine.checkpoint(GOOGLE, "calendar"), Some("kept".to_string()));
    // nothing is left to give up, and the streams are free again
    assert_eq!(engine.reap_stale(61_001, 60_000), 0);
    assert!(engine.trigger_sync(GOOGLE, "calendar", None, 62_000).is_ok());
    assert!(engine.trigger_sync(GOOGLE, "gmail", None, 62_000).is_ok());
    // a late report of the abandoned run changes nothing
    assert_eq!(engine.complete(old.job_id, success("late", 1, 1), 63_000), Err(ExecuteError::NotRunning));
    assert_eq!(engine.checkpoint(GOOGLE, "calendar"), Some("kept".to_string()));
}

#[test]
fn tables_list_what_they_hold() {
    let engine = engine();
    let names: Vec<&str> = engine.sources.list().iter().map(|s| s.name.as_str()).collect();
    assert_eq!(names, vec!["Work account", "Notes"]);
    let all: Vec<(u128, &str)> = engine.streams.list().iter().map(|s| (s.source_id, s.name.as_str())).collect();
    assert_eq!(all, vec![(GOOGLE, "calendar"), (GOOGLE, "gmail"), (NOTION, "pages")]);
    let google: Vec<&str> = engine.streams.of_source(GOOGLE).iter().map(|s| s.name.as_str()).collect();
    assert_eq!(google, vec!["calendar", "gmail"]);
    assert!(engine.streams.of_source(1234).is_empty());
}

#[test]
fn ledger_refuses_steps_that_the_lifecycle_lacks() {
    let mut ledger = Ledger::new();
    let id = ledger.insert_if_absent_active(1, "s", SyncMode::FullRefresh, 10).unwrap();
    assert_eq!(ledger.insert_if_absent_active(1, "s", SyncMode::FullRefresh, 11), Err(Conflict { job_id: id }));
    assert_eq!(ledger.find_active(1, "s"), Some(id));
    assert_eq!(ledger.find_active(1, "t"), None);
    assert_eq!(
        ledger.update_status(id, JobStatus::Completed, JobResult::empty(), 12),
        Err(LedgerError::IllegalTransition { from: JobStatus::Pending })
    );
    assert_eq!(ledger.update_status(9, JobStatus::Running, JobResult::empty(), 12), Err(LedgerError::NotFound));
    assert_eq!(ledger.update_status(id, JobStatus::Running, JobResult::empty(), 12), Ok(()));
    assert_eq!(
        ledger.update_status(id, JobStatus::Cancelled, JobResult::empty(), 13),
        Err(LedgerError::IllegalTransition { from: JobStatus::Running })
    );
    let result = JobResult { records_fetched: 5, records_written: 4, error: None };
    assert_eq!(ledger.update_status(id, JobStatus::Completed, result, 20), Ok(()));
    assert_eq!(
        ledger.update_status(id, JobStatus::Running, JobResult::empty(), 21),
        Err(LedgerError::IllegalTransition { from: JobStatus::Completed })
    );
    let job = ledger.get(id).unwrap();
    assert_eq!((job.records_fetched, job.records_written, job.duration_ms), (5, 4, Some(8)));
    assert_eq!(ledger.find_active(1, "s"), None);
    assert!(ledger.get(1).is_none());
}

#[test]
fn lifecycle_arrows() {
    let all = [
        JobStatus::Pending,
        JobStatus::Running,
        JobStatus::Cancelling,
        JobStatus::Completed,
        JobStatus::Failed,
        JobStatus::Cancelled,
    ];
    let arrows = [
        (JobStatus::Pending, JobStatus::Running),
        (JobStatus::Pending, JobStatus::Cancelled),
        (JobStatus::Running, JobStatus::Completed),
        (JobStatus::Running, JobStatus::Failed),
        (JobStatus::Running, JobStatus::Cancelling),
        (JobStatus::Cancelling, JobStatus::Cancelled),
    ];
    for from in all {
        for to in all {
            assert_eq!(from.allows(to), arrows.contains(&(from, to)), "{from:?} -> {to:?}");
        }
        assert_eq!(from.terminal(), !arrows.iter().any(|(f, _)| *f == from));
        assert_eq!(JobStatus::from_name(&from.name()), Some(from));
    }
    assert_eq!(JobStatus::Cancelling.name(), "cancelling");
    assert_eq!(JobStatus::from_name("Running"), None);
    assert_eq!(JobStatus::from_name(""), None);
}

#[test]
fn checkpoint_store_keeps_the_last_cursor() {
    let mut store = CheckpointStore::with_capacity(2);
    assert_eq!(store.get(1, "a"), None);
    assert_eq!(store.set(1, "a", "x".to_string()), Ok(()));
    assert_eq!(store.set(2, "a", "y".to_string()), Ok(()));
    assert_eq!(store.set(3, "a", "z".to_string()), Err(StorageError::CapacityExceeded));
    assert_eq!(store.set(1, "b", "z".to_string()), Err(StorageError::CapacityExceeded));
    assert_eq!(store.set(1, "a", "x2".to_string()), Ok(()));
    assert_eq!(store.get(1, "a"), Some("x2".to_string()));
    assert_eq!(store.get(2, "a"), Some("y".to_string()));
    assert_eq!(store.get(3, "a"), None);
    assert_eq!(store.get(1, "b"), None);
    let mut open = CheckpointStore::new();
    for k in 0..50u128 {
        assert_eq!(open.set(k, "s", format!("c{k}")), Ok(()));
    }
    assert_eq!(open.get(49, "s"), Some("c49".to_string()));
    assert_eq!(open.set(7, "t", "other".to_string()), Ok(()));
    assert_eq!(open.remove_source(7), 2);
    assert_eq!(open.remove_source(7), 0);
    assert_eq!(open.get(7, "s"), None);
    assert_eq!(open.get(7, "t"), None);
    assert_eq!(open.get(6, "s"), Some("c6".to_string()));
    assert_eq!(open.get(8, "s"), Some("c8".to_string()));
    // the room of a dropped cursor can be taken again
    assert_eq!(store.remove_source(2), 1);
    assert_eq!(store.set(3, "a", "z".to_string()), Ok(()));
}

#[test]
fn deleting_a_source_takes_its_streams_cursors_and_jobs() {
    let mut engine = engine();
    let done = engine.trigger_sync(GOOGLE, "calendar", None, 10).unwrap();
    engine.complete(done.job_id, success("g1", 2, 2), 20).unwrap();
    let notion = engine.trigger_sync(NOTION, "pages", None, 30).unwrap();
    engine.complete(notion.job_id, success("n1", 1, 1), 40).unwrap();
    let live = engine.trigger_sync(GOOGLE, "gmail", None, 50).unwrap();
    assert_eq!((done.job_id, notion.job_id, live.job_id), (0, 1, 2));

    assert!(!engine.delete_source(4242));
    assert_eq!(engine.sources.list().len(), 2);
    assert!(engine.delete_source(GOOGLE));
    assert!(!engine.delete_source(GOOGLE));

    assert!(engine.sources.find(GOOGLE).is_none());
    assert!(engine.streams.of_source(GOOGLE).is_empty());
    assert_eq!(engine.checkpoint(GOOGLE, "calendar"), None);
    assert!(engine.ledger.get(done.job_id).is_none());
    assert!(engine.ledger.get(live.job_id).is_none());
    assert_eq!(engine.ledger.len(), 3);
    // what belongs to the other source is as it was, ids included
    assert_eq!(engine.checkpoint(NOTION, "pages"), Some("n1".to_string()));
    let kept = engine.ledger.get(notion.job_id).unwrap();
    assert_eq!((kept.id, kept.source_id, kept.status), (1, NOTION, JobStatus::Completed));
    let all = engine.query_jobs(&JobFilter { source_id: None, stream_name: None, statuses: None, limit: 10 });
    assert_eq!(all.iter().map(|j| j.id).collect::<Vec<_>>(), vec![1]);
    let gone = engine.query_jobs(&JobFilter { source_id: Some(GOOGLE), stream_name: None, statuses: None, limit: 10 });
    assert!(gone.is_empty());
    // the run of the wiped job reports into the void
    assert_eq!(engine.complete(live.job_id, success("g2", 1, 1), 60), Err(ExecuteError::NotFound));
    assert_eq!(engine.cancel(live.job_id, 60), Err(CancelError::NotFound));
    assert_eq!(engine.begin_execute(done.job_id).err(), Some(ExecuteError::NotFound));
    assert_eq!(engine.checkpoint(GOOGLE, "gmail"), None);
    assert_eq!(engine.trigger_sync(GOOGLE, "calendar", None, 70), Err(AdmissionError::UnknownStream));
    // the id is free for a new source, which starts from nothing
    engine.add_source(GOOGLE, "google", "Again", 80).unwrap();
    engine.enable_stream(GOOGLE, "calendar", None).unwrap();
    let fresh = engine.trigger_sync(GOOGLE, "calendar", None, 90).unwrap();
    assert_eq!(fresh.job_id, 3);
    assert_eq!(fresh.mode, SyncMode::Incremental { cursor: None });
    assert_eq!(engine.reap_stale(10_000_000, 1), 1);
}
