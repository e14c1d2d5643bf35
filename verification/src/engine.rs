//! The sync job engine.
//!
//! The engine turns a request to sync one stream of one source into a
//! tracked job, lets at most one job at a time be live on a stream, hands
//! the connector what it needs to run, and settles the job from what the
//! connector reports: the checkpoint moves only when a run succeeded.
//!
//! The engine never waits on a connector. [`SyncEngine::trigger_sync`]
//! admits a job and returns; whoever runs connectors asks
//! [`SyncEngine::begin_execute`] what to call, makes the call, and reports
//! back through [`SyncEngine::complete`]. Time comes in as an argument, in
//! milliseconds.
//!
//! An engine is changed through `&mut` alone, so requests reach it one at a
//! time: admission looks at the ledger and writes the job down in one step
//! that no other request can come between. Share an engine behind a lock.

use vstd::prelude::*;
use vstd::string::StringExecFns;
use crate::checkpoint::{cursors_except, CheckpointStore, StorageError, StreamKey};
use crate::job::{JobResult, JobResultView, JobStatus, SyncJob, SyncJobView, SyncMode, SyncModeView};
use crate::ledger::{
    count_stale, has_active, job_views, newest_matching, reaped, with_requested, with_status, without_source,
    JobFilter, Ledger,
};
use crate::registry::{
    connector_named, first_stream_named, has_connector, mode_supported, ConnectorDescriptorView, Registry,
    StreamDescriptorView,
};
use crate::sources::{
    has_source, has_stream, source_with_id, sources_except, stream_named, streams_except, with_enabled,
    with_last_error, with_synced, SourceTable, SourceView, Stream, StreamTable, StreamView,
};

verus! {

/// Why a sync request was not admitted.
#[derive(Clone, Copy, Debug, PartialEq, Eq, Structural)]
pub enum AdmissionError {
    /// The source has no stream of that name.
    UnknownStream,
    /// The stream exists and is disabled.
    StreamDisabled,
    /// The stream already has a live job.
    Conflict,
    /// The caller asked for a mode that the stream does not support.
    UnsupportedMode,
}

/// Why a cancellation was refused.
#[derive(Clone, Copy, Debug, PartialEq, Eq, Structural)]
pub enum CancelError {
    /// The ledger holds no job of that id: none was admitted under it, or
    /// the job was wiped with its source.
    NotFound,
    /// The job is Completed, Failed or Cancelled already.
    AlreadyTerminal,
}

/// The text of an [`AdmissionError`].
pub open spec fn admission_error_text(e: AdmissionError) -> Seq<char> {
    match e {
        AdmissionError::UnknownStream => "stream not found for this source"@,
        AdmissionError::StreamDisabled => "stream is disabled"@,
        AdmissionError::Conflict => "stream already has an active sync"@,
        AdmissionError::UnsupportedMode => "sync mode is not supported by this stream"@,
    }
}

impl AdmissionError {
    /// The text of the error.
    pub fn message(&self) -> (text: String)
        ensures
            text@ == admission_error_text(*self),
    {
        match self {
            AdmissionError::UnknownStream => "stream not found for this source".to_string(),
            AdmissionError::StreamDisabled => "stream is disabled".to_string(),
            AdmissionError::Conflict => "stream already has an active sync".to_string(),
            AdmissionError::UnsupportedMode => "sync mode is not supported by this stream".to_string(),
        }
    }
}

/// The text of a [`CancelError`].
pub open spec fn cancel_error_text(e: CancelError) -> Seq<char> {
    match e {
        CancelError::NotFound => "job not found"@,
        CancelError::AlreadyTerminal => "job has already finished"@,
    }
}

impl CancelError {
    /// The text of the error.
    pub fn message(&self) -> (text: String)
        ensures
            text@ == cancel_error_text(*self),
    {
        match self {
            CancelError::NotFound => "job not found".to_string(),
            CancelError::AlreadyTerminal => "job has already finished".to_string(),
        }
    }
}

/// The kinds of failure that a connector reports.
#[derive(Clone, Copy, Debug, PartialEq, Eq, Structural)]
pub enum ConnectorErrorKind {
    /// The credential is missing, expired beyond refresh, or revoked.
    Auth,
    /// The upstream service asked to slow down.
    RateLimited,
    /// A passing fault, such as a network error.
    Transient,
    /// A fault that another attempt will meet again.
    Permanent,
}

impl ConnectorErrorKind {
    /// Rate limits and passing faults may go away by themselves.
    pub open spec fn is_retryable(self) -> bool {
        self == ConnectorErrorKind::RateLimited || self == ConnectorErrorKind::Transient
    }

    /// Tells whether another attempt has a chance.
    pub fn retryable(&self) -> (r: bool)
        ensures
            r == self.is_retryable(),
    {
        match self {
            ConnectorErrorKind::RateLimited | ConnectorErrorKind::Transient => true,
            _ => false,
        }
    }
}

/// A failure that a connector reports.
#[derive(Clone, Debug, PartialEq, Eq)]
pub struct ConnectorError {
    pub kind: ConnectorErrorKind,
    pub message: String,
}

/// The error text that a failed job carries: the connector's message as it
/// came, and for a credential failure the words `needs reauthorization: `
/// before it.
pub open spec fn failure_text(kind: ConnectorErrorKind, message: Seq<char>) -> Seq<char> {
    if kind == ConnectorErrorKind::Auth {
        "needs reauthorization: "@ + message
    } else {
        message
    }
}

/// The error text of a job whose run succeeded and whose checkpoint could
/// not be written.
pub open spec fn checkpoint_failure_text() -> Seq<char> {
    "checkpoint write failed"@
}

impl ConnectorError {
    /// The error text that a job failed by this error carries.
    pub fn into_text(self) -> (text: String)
        ensures
            text@ == failure_text(self.kind, self.message@),
    {
        match self.kind {
            ConnectorErrorKind::Auth => "needs reauthorization: ".to_string().concat(self.message.as_str()),
            _ => self.message,
        }
    }
}

/// What a connector reports at the end of one invocation.
#[derive(Clone, Debug, PartialEq, Eq)]
pub enum ConnectorOutcome {
    /// Everything up to `checkpoint` was fetched and written.
    Success { checkpoint: String, records_fetched: u64, records_written: u64 },
    /// The invocation failed; nothing of it counts.
    Failure(ConnectorError),
    /// The connector saw the cancellation signal and stopped.
    Cancelled,
}

/// The model of a [`ConnectorOutcome`].
pub enum ConnectorOutcomeView {
    Success { checkpoint: Seq<char>, records_fetched: u64, records_written: u64 },
    Failure { kind: ConnectorErrorKind, message: Seq<char> },
    Cancelled,
}

impl View for ConnectorOutcome {
    type V = ConnectorOutcomeView;

    open spec fn view(&self) -> ConnectorOutcomeView {
        match *self {
            ConnectorOutcome::Success { checkpoint, records_fetched, records_written } => {
                ConnectorOutcomeView::Success { checkpoint: checkpoint@, records_fetched, records_written }
            },
            ConnectorOutcome::Failure(e) => ConnectorOutcomeView::Failure {
                kind: e.kind,
                message: e.message@,
            },
            ConnectorOutcome::Cancelled => ConnectorOutcomeView::Cancelled,
        }
    }
}

/// Why a source was not added.
#[derive(Clone, Copy, Debug, PartialEq, Eq, Structural)]
pub enum SourceError {
    /// The registry has no connector of that type.
    UnknownType,
    /// A source of that id exists already.
    Duplicate,
}

/// Why a stream was not enabled or disabled.
#[derive(Clone, Copy, Debug, PartialEq, Eq, Structural)]
pub enum StreamError {
    /// No source of that id exists.
    UnknownSource,
    /// The source's connector declares no stream of that name, or, on
    /// disabling, the stream was never enabled.
    UnknownStream,
}

/// Why the outcome of a run was not taken.
#[derive(Clone, Copy, Debug, PartialEq, Eq, Structural)]
pub enum ExecuteError {
    /// The ledger holds no job of that id: none was admitted under it, or
    /// the job was wiped with its source.
    NotFound,
    /// The job is neither Running nor Cancelling.
    NotRunning,
    /// The run succeeded and the checkpoint could not be written: the job
    /// is Failed.
    Storage(StorageError),
}

/// What admission hands back: the job and the mode it will run in.
#[derive(Clone, Debug, PartialEq, Eq)]
pub struct JobHandle {
    pub job_id: u64,
    pub mode: SyncMode,
    pub status: JobStatus,
}

/// What to invoke a connector with.
#[derive(Clone, Debug, PartialEq, Eq)]
pub struct ConnectorCall {
    pub job_id: u64,
    pub source_id: u128,
    pub stream_name: String,
    /// The mode that the job was admitted with.
    pub mode: SyncMode,
    /// Where to resume: the stream's cursor as it stands now for an
    /// incremental run, nothing for a full refresh.
    pub checkpoint: Option<String>,
    /// Whether cancellation was asked for before the run began.
    pub cancel_requested: bool,
}

/// The model of a [`SyncEngine`].
pub struct EngineView {
    pub registry: Seq<ConnectorDescriptorView>,
    pub sources: Seq<SourceView>,
    pub streams: Seq<StreamView>,
    pub jobs: Seq<SyncJobView>,
    pub checkpoints: Map<StreamKey, Seq<char>>,
    /// The number of streams that the checkpoint store has room for.
    pub checkpoint_capacity: nat,
}

/// The result of an attempt that moved nothing and reported nothing.
pub open spec fn no_result() -> JobResultView {
    JobResultView { records_fetched: 0, records_written: 0, error: None }
}

/// The result of an attempt that only reports an error.
pub open spec fn error_result(text: Seq<char>) -> JobResultView {
    JobResultView { records_fetched: 0, records_written: 0, error: Some(text) }
}

/// The mode of a sync that names none: incremental from the stream's
/// cursor; a full refresh only where there is no cursor and the stream
/// cannot sync incrementally.
pub open spec fn default_mode(stream: StreamView, checkpoint: Option<Seq<char>>) -> SyncModeView {
    if checkpoint is None && !stream.supports_incremental {
        SyncModeView::FullRefresh
    } else {
        SyncModeView::Incremental { cursor: checkpoint }
    }
}

/// The mode that a sync runs in: the requested one where the stream
/// supports it, the default where none is requested.
pub open spec fn effective_mode(
    stream: StreamView,
    requested: Option<SyncModeView>,
    checkpoint: Option<Seq<char>>,
) -> Result<SyncModeView, AdmissionError> {
    match requested {
        Some(mode) => if mode_supported(stream.supports_incremental, stream.supports_full_refresh, mode) {
            Ok(mode)
        } else {
            Err(AdmissionError::UnsupportedMode)
        },
        None => Ok(default_mode(stream, checkpoint)),
    }
}

/// The cursor that a map of checkpoints holds for a stream.
pub open spec fn cursor_of(checkpoints: Map<StreamKey, Seq<char>>, source_id: u128, stream_name: Seq<char>) -> Option<
    Seq<char>,
> {
    if checkpoints.dom().contains((source_id, stream_name)) {
        Some(checkpoints[(source_id, stream_name)])
    } else {
        None
    }
}

impl EngineView {
    /// An engine that has seen nothing yet.
    pub open spec fn fresh(registry: Seq<ConnectorDescriptorView>) -> EngineView {
        EngineView {
            registry,
            sources: Seq::empty(),
            streams: Seq::empty(),
            jobs: Seq::empty(),
            checkpoints: Map::empty(),
            checkpoint_capacity: usize::MAX as nat,
        }
    }

    /// The stream's cursor, or none.
    pub open spec fn checkpoint(self, source_id: u128, stream_name: Seq<char>) -> Option<Seq<char>> {
        cursor_of(self.checkpoints, source_id, stream_name)
    }

    /// The decision on a sync request: the mode to run in, or the reason
    /// for refusing. The stream is looked up first, then the ledger, then
    /// the mode.
    pub open spec fn admission(
        self,
        source_id: u128,
        stream_name: Seq<char>,
        requested: Option<SyncModeView>,
    ) -> Result<SyncModeView, AdmissionError> {
        if !has_stream(self.streams, source_id, stream_name) {
            Err(AdmissionError::UnknownStream)
        } else if !stream_named(self.streams, source_id, stream_name).enabled {
            Err(AdmissionError::StreamDisabled)
        } else if has_active(self.jobs, source_id, stream_name) {
            Err(AdmissionError::Conflict)
        } else {
            effective_mode(
                stream_named(self.streams, source_id, stream_name),
                requested,
                self.checkpoint(source_id, stream_name),
            )
        }
    }

    /// The engine after it admitted a job in `mode` and started it.
    pub open spec fn admitted(self, source_id: u128, stream_name: Seq<char>, mode: SyncModeView, now: u64) -> EngineView {
        EngineView {
            jobs: with_status(
                with_requested(self.jobs, source_id, stream_name, mode, now),
                self.jobs.len() as int,
                JobStatus::Running,
                no_result(),
                now,
            ),
            ..self
        }
    }

    /// The engine after a sync request at time `now`: with one more job
    /// where the request is admitted, unchanged where it is refused.
    pub open spec fn after_trigger(
        self,
        source_id: u128,
        stream_name: Seq<char>,
        requested: Option<SyncModeView>,
        now: u64,
    ) -> EngineView {
        match self.admission(source_id, stream_name, requested) {
            Ok(mode) => self.admitted(source_id, stream_name, mode, now),
            Err(_) => self,
        }
    }
}

/// What a cancellation request does to a job in the given status: a job
/// that never started is Cancelled at once, a started one is asked to stop.
pub open spec fn cancel_target(status: JobStatus) -> Result<JobStatus, CancelError> {
    match status {
        JobStatus::Pending => Ok(JobStatus::Cancelled),
        JobStatus::Running => Ok(JobStatus::Cancelling),
        JobStatus::Cancelling => Ok(JobStatus::Cancelling),
        _ => Err(CancelError::AlreadyTerminal),
    }
}

/// The stream as it is first enabled, with what its descriptor declares.
pub open spec fn enabled_stream(
    source_id: u128,
    descriptor: StreamDescriptorView,
    config: Option<Seq<char>>,
) -> StreamView {
    StreamView {
        source_id,
        name: descriptor.name,
        enabled: true,
        supports_incremental: descriptor.supports_incremental,
        supports_full_refresh: descriptor.supports_full_refresh,
        config: match config {
            Some(c) => c,
            None => "{}"@,
        },
        cron_schedule: None,
        last_sync_at: None,
        table_name: descriptor.table_name,
    }
}

impl EngineView {
    /// The decision on adding a source of the given type.
    pub open spec fn source_admission(self, id: u128, source_type: Seq<char>) -> Result<(), SourceError> {
        if !has_connector(self.registry, source_type) {
            Err(SourceError::UnknownType)
        } else if has_source(self.sources, id) {
            Err(SourceError::Duplicate)
        } else {
            Ok(())
        }
    }

    /// The descriptor of a stream of a source, as the registry declares it
    /// for the source's type; or the reason why there is none.
    pub open spec fn declared_stream(self, source_id: u128, stream_name: Seq<char>) -> Result<
        StreamDescriptorView,
        StreamError,
    > {
        if !has_source(self.sources, source_id) {
            Err(StreamError::UnknownSource)
        } else {
            let source_type = source_with_id(self.sources, source_id).source_type;
            if !has_connector(self.registry, source_type) {
                Err(StreamError::UnknownStream)
            } else {
                match connector_named(self.registry, source_type).stream(stream_name) {
                    Some(descriptor) => Ok(descriptor),
                    None => Err(StreamError::UnknownStream),
                }
            }
        }
    }

    /// The decision on disabling a stream.
    pub open spec fn disabling(self, source_id: u128, stream_name: Seq<char>) -> Result<(), StreamError> {
        if !has_source(self.sources, source_id) {
            Err(StreamError::UnknownSource)
        } else if !has_stream(self.streams, source_id, stream_name) {
            Err(StreamError::UnknownStream)
        } else {
            Ok(())
        }
    }

    /// The engine after a source was deleted: the source is gone, and with
    /// it its streams, their cursors and its jobs. The places of the jobs
    /// stay, wiped, so that every other job keeps its id. Without a source
    /// of that id the engine stays as it is.
    pub open spec fn after_delete(self, id: u128) -> EngineView {
        if has_source(self.sources, id) {
            EngineView {
                sources: sources_except(self.sources, id),
                streams: streams_except(self.streams, id),
                jobs: without_source(self.jobs, id),
                checkpoints: cursors_except(self.checkpoints, id),
                ..self
            }
        } else {
            self
        }
    }

    /// Tells whether the ledger holds the job: it was admitted and not
    /// wiped since.
    pub open spec fn has_job(self, job_id: u64) -> bool {
        job_id < self.jobs.len() && !self.jobs[job_id as int].erased
    }

    /// The decision on a cancellation request: the status that the job
    /// takes, or the reason for refusing.
    pub open spec fn cancellation(self, job_id: u64) -> Result<JobStatus, CancelError> {
        if !self.has_job(job_id) {
            Err(CancelError::NotFound)
        } else {
            cancel_target(self.jobs[job_id as int].status)
        }
    }

    /// The engine after a cancellation request at time `now`.
    pub open spec fn after_cancel(self, job_id: u64, now: u64) -> EngineView {
        match self.cancellation(job_id) {
            Ok(next) => if self.jobs[job_id as int].status == next {
                self
            } else {
                EngineView { jobs: with_status(self.jobs, job_id as int, next, no_result(), now), ..self }
            },
            Err(_) => self,
        }
    }

    /// Tells whether a run of the job can be begun or settled: the job
    /// exists and is Running or Cancelling.
    pub open spec fn in_flight(self, job_id: u64) -> Result<(), ExecuteError> {
        if !self.has_job(job_id) {
            Err(ExecuteError::NotFound)
        } else if self.jobs[job_id as int].status != JobStatus::Running && self.jobs[job_id as int].status
            != JobStatus::Cancelling {
            Err(ExecuteError::NotRunning)
        } else {
            Ok(())
        }
    }

    /// Tells whether the checkpoint store takes a cursor for the stream:
    /// the stream has one already, or there is room for one more.
    pub open spec fn can_store(self, source_id: u128, stream_name: Seq<char>) -> bool {
        self.checkpoints.dom().contains((source_id, stream_name)) || self.checkpoints.dom().len()
            < self.checkpoint_capacity
    }

    /// The engine after the run of a Running job ended with `outcome`.
    pub open spec fn settled(self, job_id: u64, outcome: ConnectorOutcomeView, now: u64) -> EngineView {
        let job = self.jobs[job_id as int];
        match outcome {
            ConnectorOutcomeView::Success { checkpoint, records_fetched, records_written } => {
                if self.can_store(job.source_id, job.stream_name) {
                    EngineView {
                        jobs: with_status(
                            self.jobs,
                            job_id as int,
                            JobStatus::Completed,
                            JobResultView { records_fetched, records_written, error: None },
                            now,
                        ),
                        checkpoints: self.checkpoints.insert((job.source_id, job.stream_name), checkpoint),
                        streams: with_synced(self.streams, job.source_id, job.stream_name, now),
                        sources: with_last_error(self.sources, job.source_id, None, now),
                        ..self
                    }
                } else {
                    EngineView {
                        jobs: with_status(
                            self.jobs,
                            job_id as int,
                            JobStatus::Failed,
                            error_result(checkpoint_failure_text()),
                            now,
                        ),
                        sources: with_last_error(
                            self.sources,
                            job.source_id,
                            Some(checkpoint_failure_text()),
                            now,
                        ),
                        ..self
                    }
                }
            },
            ConnectorOutcomeView::Failure { kind, message } => EngineView {
                jobs: with_status(
                    self.jobs,
                    job_id as int,
                    JobStatus::Failed,
                    error_result(failure_text(kind, message)),
                    now,
                ),
                sources: with_last_error(self.sources, job.source_id, Some(failure_text(kind, message)), now),
                ..self
            },
            ConnectorOutcomeView::Cancelled => EngineView {
                jobs: with_status(
                    with_status(self.jobs, job_id as int, JobStatus::Cancelling, no_result(), now),
                    job_id as int,
                    JobStatus::Cancelled,
                    no_result(),
                    now,
                ),
                ..self
            },
        }
    }

    /// The engine after the run of a job ended with `outcome` at time
    /// `now`.
    ///
    /// A job that was asked to stop ends Cancelled whatever its connector
    /// reports, and nothing else changes. A Running job is settled by the
    /// outcome (see [`EngineView::settled`]). Any other job, and a missing
    /// one, leaves the engine as it is.
    pub open spec fn after_complete(self, job_id: u64, outcome: ConnectorOutcomeView, now: u64) -> EngineView {
        if self.in_flight(job_id) is Err {
            self
        } else if self.jobs[job_id as int].status == JobStatus::Cancelling {
            EngineView {
                jobs: with_status(self.jobs, job_id as int, JobStatus::Cancelled, no_result(), now),
                ..self
            }
        } else {
            self.settled(job_id, outcome, now)
        }
    }

    /// What settling a run hands back: the status that the job ends in, or
    /// the reason why nothing was settled or why the job failed at the end.
    pub open spec fn completion(self, job_id: u64, outcome: ConnectorOutcomeView) -> Result<
        JobStatus,
        ExecuteError,
    > {
        match self.in_flight(job_id) {
            Err(e) => Err(e),
            Ok(()) => {
                let job = self.jobs[job_id as int];
                if job.status == JobStatus::Cancelling {
                    Ok(JobStatus::Cancelled)
                } else {
                    match outcome {
                        ConnectorOutcomeView::Success { .. } => if self.can_store(
                            job.source_id,
                            job.stream_name,
                        ) {
                            Ok(JobStatus::Completed)
                        } else {
                            Err(ExecuteError::Storage(StorageError::CapacityExceeded))
                        },
                        ConnectorOutcomeView::Failure { .. } => Ok(JobStatus::Failed),
                        ConnectorOutcomeView::Cancelled => Ok(JobStatus::Cancelled),
                    }
                }
            },
        }
    }
}

/// The sources, their streams, the job ledger and the checkpoints.
pub struct SyncEngine {
    pub registry: Registry,
    pub sources: SourceTable,
    pub streams: StreamTable,
    pub ledger: Ledger,
    pub checkpoints: CheckpointStore,
}

impl View for SyncEngine {
    type V = EngineView;

    open spec fn view(&self) -> EngineView {
        EngineView {
            registry: self.registry@,
            sources: self.sources@,
            streams: self.streams@,
            jobs: self.ledger@,
            checkpoints: self.checkpoints@,
            checkpoint_capacity: self.checkpoints.capacity(),
        }
    }
}

impl SyncEngine {
    /// The invariant of the engine: that of each of its parts.
    pub open spec fn wf(&self) -> bool {
        &&& self.registry.wf()
        &&& self.sources.wf()
        &&& self.streams.wf()
        &&& self.ledger.wf()
        &&& self.checkpoints.wf()
    }

    /// An engine over the given registry, without sources, jobs or
    /// checkpoints, with room for as many checkpoints as memory holds.
    pub fn new(registry: Registry) -> (engine: SyncEngine)
        requires
            registry.wf(),
        ensures
            engine.wf(),
            engine@ == EngineView::fresh(registry@),
    {
        SyncEngine {
            registry,
            sources: SourceTable::new(),
            streams: StreamTable::new(),
            ledger: Ledger::new(),
            checkpoints: CheckpointStore::new(),
        }
    }

    /// The stream's cursor as it stands, or none.
    pub fn checkpoint(&self, source_id: u128, stream_name: &str) -> (cursor: Option<String>)
        requires
            self.wf(),
        ensures
            crate::text::opt_chars(cursor) == self@.checkpoint(source_id, stream_name@),
    {
        self.checkpoints.get(source_id, stream_name)
    }

    /// Admits a sync of the stream, or says why not.
    ///
    /// The request is refused with `UnknownStream` where the source has no
    /// such stream, with `StreamDisabled` where the stream is disabled, with
    /// `Conflict` where the stream has a live job, and with
    /// `UnsupportedMode` where a mode is asked for that the stream does not
    /// support; a refused request leaves the engine as it was. An admitted
    /// request writes down one job, Pending and at once Running, in the
    /// requested mode or, where none is requested, in the default mode.
    pub fn trigger_sync(
        &mut self,
        source_id: u128,
        stream_name: &str,
        requested: Option<SyncMode>,
        now: u64,
    ) -> (admitted: Result<JobHandle, AdmissionError>)
        requires
            old(self).wf(),
        ensures
            final(self).wf(),
            final(self)@ == old(self)@.after_trigger(source_id, stream_name@, opt_mode(requested), now),
            match admitted {
                Ok(handle) => {
                    &&& old(self)@.admission(source_id, stream_name@, opt_mode(requested)) == Ok::<
                        SyncModeView,
                        AdmissionError,
                    >(handle.mode@)
                    &&& handle.job_id == old(self)@.jobs.len()
                    &&& handle.status == JobStatus::Running
                },
                Err(e) => old(self)@.admission(source_id, stream_name@, opt_mode(requested)) == Err::<
                    SyncModeView,
                    AdmissionError,
                >(e),
            },
    {
        let (supports_incremental, supports_full_refresh) = match self.streams.find(source_id, stream_name) {
            None => {
                return Err(AdmissionError::UnknownStream);
            },
            Some(stream) => {
                if !stream.enabled {
                    return Err(AdmissionError::StreamDisabled);
                }
                (stream.supports_incremental, stream.supports_full_refresh)
            },
        };
        if self.ledger.find_active(source_id, stream_name).is_some() {
            return Err(AdmissionError::Conflict);
        }
        let mode = match requested {
            Some(mode) => {
                let supported = match mode {
                    SyncMode::Incremental { .. } => supports_incremental,
                    SyncMode::FullRefresh => supports_full_refresh,
                };
                if !supported {
                    return Err(AdmissionError::UnsupportedMode);
                }
                mode
            },
            None => {
                let cursor = self.checkpoints.get(source_id, stream_name);
                if cursor.is_none() && !supports_incremental {
                    SyncMode::FullRefresh
                } else {
                    SyncMode::Incremental { cursor }
                }
            },
        };
        let recorded = mode.duplicate();
        match self.ledger.insert_if_absent_active(source_id, stream_name, recorded, now) {
            Err(_) => Err(AdmissionError::Conflict),
            Ok(job_id) => {
                let started = self.ledger.update_status(job_id, JobStatus::Running, JobResult::empty(), now);
                assert(started is Ok);
                Ok(JobHandle { job_id, mode, status: JobStatus::Running })
            },
        }
    }

    /// Writes down a new source of a registered type.
    pub fn add_source(&mut self, id: u128, source_type: &str, name: &str, now: u64) -> (added: Result<
        (),
        SourceError,
    >)
        requires
            old(self).wf(),
        ensures
            final(self).wf(),
            added == old(self)@.source_admission(id, source_type@),
            final(self)@ == if added is Ok {
                EngineView {
                    sources: old(self)@.sources.push(SourceView::created(id, source_type@, name@, now)),
                    ..old(self)@
                }
            } else {
                old(self)@
            },
    {
        if self.registry.describe(source_type).is_none() {
            return Err(SourceError::UnknownType);
        }
        match self.sources.create(id, source_type.to_string(), name.to_string(), now) {
            Ok(()) => Ok(()),
            Err(_) => Err(SourceError::Duplicate),
        }
    }

    /// Enables a stream of a source. The stream must be one that the
    /// registry declares for the source's type. A stream that is enabled
    /// for the first time starts without cursor or schedule, with the given
    /// configuration or, where none is given, the empty document `{}`; one
    /// that exists already is switched on and otherwise left alone.
    pub fn enable_stream(&mut self, source_id: u128, stream_name: &str, config: Option<String>) -> (enabled: Result<
        (),
        StreamError,
    >)
        requires
            old(self).wf(),
        ensures
            final(self).wf(),
            match enabled {
                Ok(()) => {
                    &&& old(self)@.declared_stream(source_id, stream_name@) matches Ok(descriptor)
                    &&& final(self)@ == EngineView {
                        streams: if has_stream(old(self)@.streams, source_id, stream_name@) {
                            with_enabled(old(self)@.streams, source_id, stream_name@, true)
                        } else {
                            old(self)@.streams.push(
                                enabled_stream(source_id, descriptor, crate::text::opt_chars(config)),
                            )
                        },
                        ..old(self)@
                    }
                },
                Err(e) => {
                    &&& old(self)@.declared_stream(source_id, stream_name@) == Err::<
                        StreamDescriptorView,
                        StreamError,
                    >(e)
                    &&& final(self)@ == old(self)@
                },
            },
    {
        let source = match self.sources.find(source_id) {
            Some(source) => source,
            None => {
                return Err(StreamError::UnknownSource);
            },
        };
        let connector = match self.registry.describe(source.source_type.as_str()) {
            Some(connector) => connector,
            None => {
                return Err(StreamError::UnknownStream);
            },
        };
        let descriptor = match connector.stream(stream_name) {
            Some(descriptor) => descriptor,
            None => {
                return Err(StreamError::UnknownStream);
            },
        };
        let stream = Stream {
            source_id,
            name: descriptor.name.clone(),
            enabled: true,
            supports_incremental: descriptor.supports_incremental,
            supports_full_refresh: descriptor.supports_full_refresh,
            config: match config {
                Some(c) => c,
                None => "{}".to_string(),
            },
            cron_schedule: None,
            last_sync_at: None,
            table_name: descriptor.table_name.clone(),
        };
        proof {
            lemma_first_stream_named(connector@.streams, stream_name@);
        }
        if self.streams.set_enabled(source_id, stream_name, true) {
            Ok(())
        } else {
            proof {
                lemma_untouched_streams(old(self)@.streams, source_id, stream_name@);
            }
            let added = self.streams.add(stream);
            assert(added is Ok);
            Ok(())
        }
    }

    /// Disables a stream: until it is enabled again, no sync of it is
    /// admitted. The stream, its cursor and its jobs stay.
    pub fn disable_stream(&mut self, source_id: u128, stream_name: &str) -> (disabled: Result<(), StreamError>)
        requires
            old(self).wf(),
        ensures
            final(self).wf(),
            disabled == old(self)@.disabling(source_id, stream_name@),
            final(self)@ == if disabled is Ok {
                EngineView {
                    streams: with_enabled(old(self)@.streams, source_id, stream_name@, false),
                    ..old(self)@
                }
            } else {
                old(self)@
            },
    {
        if self.sources.find(source_id).is_none() {
            return Err(StreamError::UnknownSource);
        }
        if self.streams.set_enabled(source_id, stream_name, false) {
            Ok(())
        } else {
            proof {
                lemma_untouched_streams(old(self)@.streams, source_id, stream_name@);
            }
            Err(StreamError::UnknownStream)
        }
    }

    /// Deletes a source and everything that hangs on it: its streams,
    /// their cursors, and its jobs, live ones included. Nothing of it can be
    /// brought back. The other sources and their jobs stay as they are,
    /// ids included. Tells whether there was a source of that id; if not,
    /// nothing changes.
    pub fn delete_source(&mut self, id: u128) -> (deleted: bool)
        requires
            old(self).wf(),
        ensures
            final(self).wf(),
            deleted == has_source(old(self)@.sources, id),
            final(self)@ == old(self)@.after_delete(id),
    {
        if !self.sources.remove(id) {
            proof {
                crate::sources::lemma_sources_except_absent(old(self)@.sources, id);
            }
            return false;
        }
        self.streams.remove_source(id);
        self.checkpoints.remove_source(id);
        self.ledger.wipe_source(id);
        true
    }

    /// Asks a job to stop.
    ///
    /// A missing job gives `NotFound`, a job that has ended
    /// `AlreadyTerminal`; neither changes anything. A Pending job becomes
    /// Cancelled at once, without ever running. A Running job becomes
    /// Cancelling: its connector is to see the signal at its next pause, and
    /// the job ends when the run is reported. Asking again changes nothing.
    /// The status that the job has after the call is handed back.
    pub fn cancel(&mut self, job_id: u64, now: u64) -> (cancelled: Result<JobStatus, CancelError>)
        requires
            old(self).wf(),
        ensures
            final(self).wf(),
            cancelled == old(self)@.cancellation(job_id),
            final(self)@ == old(self)@.after_cancel(job_id, now),
    {
        let status = match self.ledger.get(job_id) {
            None => {
                return Err(CancelError::NotFound);
            },
            Some(job) => job.status,
        };
        match status {
            JobStatus::Pending => {
                let done = self.ledger.update_status(job_id, JobStatus::Cancelled, JobResult::empty(), now);
                assert(done is Ok);
                Ok(JobStatus::Cancelled)
            },
            JobStatus::Running => {
                let done = self.ledger.update_status(job_id, JobStatus::Cancelling, JobResult::empty(), now);
                assert(done is Ok);
                Ok(JobStatus::Cancelling)
            },
            JobStatus::Cancelling => Ok(JobStatus::Cancelling),
            _ => Err(CancelError::AlreadyTerminal),
        }
    }

    /// What to invoke the connector of a job with. The cursor is read now,
    /// not when the job was admitted. The engine is left as it is.
    pub fn begin_execute(&self, job_id: u64) -> (call: Result<ConnectorCall, ExecuteError>)
        requires
            self.wf(),
        ensures
            match call {
                Ok(c) => {
                    let job = self@.jobs[job_id as int];
                    &&& self@.in_flight(job_id) is Ok
                    &&& c.job_id == job_id
                    &&& c.source_id == job.source_id
                    &&& c.stream_name@ == job.stream_name
                    &&& c.mode@ == job.mode
                    &&& crate::text::opt_chars(c.checkpoint) == if job.mode is Incremental {
                        self@.checkpoint(job.source_id, job.stream_name)
                    } else {
                        None
                    }
                    &&& c.cancel_requested == (job.status == JobStatus::Cancelling)
                },
                Err(e) => self@.in_flight(job_id) == Err::<(), ExecuteError>(e),
            },
    {
        let job = match self.ledger.get(job_id) {
            None => {
                return Err(ExecuteError::NotFound);
            },
            Some(job) => job,
        };
        let cancel_requested = match job.status {
            JobStatus::Running => false,
            JobStatus::Cancelling => true,
            _ => {
                return Err(ExecuteError::NotRunning);
            },
        };
        let checkpoint = if job.mode.is_incremental() {
            self.checkpoints.get(job.source_id, job.stream_name.as_str())
        } else {
            None
        };
        Ok(
            ConnectorCall {
                job_id,
                source_id: job.source_id,
                stream_name: job.stream_name.clone(),
                mode: job.mode.duplicate(),
                checkpoint,
                cancel_requested,
            },
        )
    }

    /// Settles a job from what its connector reported.
    ///
    /// On success the stream's cursor becomes the one that the connector
    /// returned, the stream's last sync is stamped, the job is Completed
    /// with its counts, and the source's last error is cleared. On failure
    /// the job is Failed with the error text, the source's last error is
    /// set, and the cursor stays. On cancellation the job is Cancelled and
    /// the cursor stays. A job that was asked to stop ends Cancelled
    /// whatever is reported. Where the run succeeded and the cursor cannot
    /// be written, the job is Failed and the storage error is handed back.
    pub fn complete(&mut self, job_id: u64, outcome: ConnectorOutcome, now: u64) -> (settled: Result<
        JobStatus,
        ExecuteError,
    >)
        requires
            old(self).wf(),
        ensures
            final(self).wf(),
            settled == old(self)@.completion(job_id, outcome@),
            final(self)@ == old(self)@.after_complete(job_id, outcome@, now),
    {
        let (status, source_id, stream_name) = match self.ledger.get(job_id) {
            None => {
                return Err(ExecuteError::NotFound);
            },
            Some(job) => (job.status, job.source_id, job.stream_name.clone()),
        };
        match status {
            JobStatus::Running => {},
            JobStatus::Cancelling => {
                let done = self.ledger.update_status(job_id, JobStatus::Cancelled, JobResult::empty(), now);
                assert(done is Ok);
                return Ok(JobStatus::Cancelled);
            },
            _ => {
                return Err(ExecuteError::NotRunning);
            },
        }
        proof {
            self.checkpoints.lemma_bounded();
        }
        match outcome {
            ConnectorOutcome::Success { checkpoint, records_fetched, records_written } => {
                match self.checkpoints.set(source_id, stream_name.as_str(), checkpoint) {
                    Ok(()) => {
                        let result = JobResult { records_fetched, records_written, error: None };
                        let done = self.ledger.update_status(job_id, JobStatus::Completed, result, now);
                        assert(done is Ok);
                        self.streams.mark_synced(source_id, stream_name.as_str(), now);
                        self.sources.set_last_error(source_id, None, now);
                        Ok(JobStatus::Completed)
                    },
                    Err(e) => {
                        let result = JobResult {
                            records_fetched: 0,
                            records_written: 0,
                            error: Some("checkpoint write failed".to_string()),
                        };
                        let done = self.ledger.update_status(job_id, JobStatus::Failed, result, now);
                        assert(done is Ok);
                        self.sources.set_last_error(source_id, Some("checkpoint write failed".to_string()), now);
                        Err(ExecuteError::Storage(e))
                    },
                }
            },
            ConnectorOutcome::Failure(error) => {
                let text = error.into_text();
                let result = JobResult { records_fetched: 0, records_written: 0, error: Some(text.clone()) };
                let done = self.ledger.update_status(job_id, JobStatus::Failed, result, now);
                assert(done is Ok);
                self.sources.set_last_error(source_id, Some(text), now);
                Ok(JobStatus::Failed)
            },
            ConnectorOutcome::Cancelled => {
                let asked = self.ledger.update_status(job_id, JobStatus::Cancelling, JobResult::empty(), now);
                assert(asked is Ok);
                let done = self.ledger.update_status(job_id, JobStatus::Cancelled, JobResult::empty(), now);
                assert(done is Ok);
                Ok(JobStatus::Cancelled)
            },
        }
    }

    /// Gives up every job that has been in flight for longer than
    /// `liveness_ms`, so that a run whose runner is gone does not hold its
    /// stream for ever: a Running job becomes Failed with the reason
    /// `Abandoned`, a job that was asked to stop becomes Cancelled. No cursor
    /// moves. Tells how many jobs were given up.
    pub fn reap_stale(&mut self, now: u64, liveness_ms: u64) -> (given_up: usize)
        requires
            old(self).wf(),
        ensures
            final(self).wf(),
            final(self)@ == (EngineView { jobs: reaped(old(self)@.jobs, now, liveness_ms), ..old(self)@ }),
            given_up == count_stale(old(self)@.jobs, now, liveness_ms),
    {
        self.ledger.reap_stale(now, liveness_ms)
    }

    /// The jobs that the filter lets through, most recently admitted first,
    /// at most `filter.limit` of them. The engine is left as it is.
    pub fn query_jobs(&self, filter: &JobFilter) -> (found: Vec<SyncJob>)
        ensures
            job_views(found@) == newest_matching(self@.jobs, *filter, filter.limit as nat),
    {
        self.ledger.query(filter)
    }
}

/// The model of an optional mode.
pub open spec fn opt_mode(mode: Option<SyncMode>) -> Option<SyncModeView> {
    match mode {
        Some(m) => Some(m@),
        None => None,
    }
}

/// Where no stream carries the key, a change of the streams with that key
/// changes nothing.
pub proof fn lemma_untouched_streams(streams: Seq<StreamView>, source_id: u128, name: Seq<char>)
    requires
        !has_stream(streams, source_id, name),
    ensures
        forall|enabled: bool| #[trigger] with_enabled(streams, source_id, name, enabled) == streams,
        forall|now: u64| #[trigger] with_synced(streams, source_id, name, now) == streams,
{
    assert forall|enabled: bool| #[trigger] with_enabled(streams, source_id, name, enabled) == streams by {
        let after = with_enabled(streams, source_id, name, enabled);
        assert forall|k: int| 0 <= k < streams.len() implies after[k] == streams[k] by {
            assert(!streams[k].is(source_id, name));
        }
        assert(after =~= streams);
    }
    assert forall|now: u64| #[trigger] with_synced(streams, source_id, name, now) == streams by {
        let after = with_synced(streams, source_id, name, now);
        assert forall|k: int| 0 <= k < streams.len() implies after[k] == streams[k] by {
            assert(!streams[k].is(source_id, name));
        }
        assert(after =~= streams);
    }
}

/// The first descriptor of a name carries that name.
pub proof fn lemma_first_stream_named(streams: Seq<StreamDescriptorView>, name: Seq<char>)
    ensures
        first_stream_named(streams, name) matches Some(d) ==> d.name == name,
    decreases streams.len(),
{
    if streams.len() > 0 && streams.first().name != name {
        lemma_first_stream_named(streams.drop_first(), name);
    }
}

} // verus!
