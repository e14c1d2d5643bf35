//! Sync jobs: their modes, their lifecycle and the record kept of each.

use vstd::prelude::*;
use crate::text::{opt_chars, str_eq};

verus! {

/// Where a job stands in its lifecycle.
///
/// ```text
/// Pending --admit--> Running --success--> Completed
///                        |--failure--> Failed
///                        |--cancel req--> Cancelling --> Cancelled
/// Pending --cancel req (never started)--> Cancelled
/// ```
#[derive(Clone, Copy, Debug, PartialEq, Eq, Structural)]
pub enum JobStatus {
    Pending,
    Running,
    Cancelling,
    Completed,
    Failed,
    Cancelled,
}

impl JobStatus {
    /// Completed, Failed and Cancelled jobs never change again.
    pub open spec fn is_terminal(self) -> bool {
        self == JobStatus::Completed || self == JobStatus::Failed || self == JobStatus::Cancelled
    }

    /// A job that is not terminal occupies its stream.
    pub open spec fn is_active(self) -> bool {
        !self.is_terminal()
    }

    /// The arrows of the lifecycle diagram.
    pub open spec fn can_become(self, next: JobStatus) -> bool {
        match (self, next) {
            (JobStatus::Pending, JobStatus::Running) => true,
            (JobStatus::Pending, JobStatus::Cancelled) => true,
            (JobStatus::Running, JobStatus::Completed) => true,
            (JobStatus::Running, JobStatus::Failed) => true,
            (JobStatus::Running, JobStatus::Cancelling) => true,
            (JobStatus::Cancelling, JobStatus::Cancelled) => true,
            _ => false,
        }
    }

    /// The name of the status in lower case.
    pub open spec fn label(self) -> Seq<char> {
        match self {
            JobStatus::Pending => "pending"@,
            JobStatus::Running => "running"@,
            JobStatus::Cancelling => "cancelling"@,
            JobStatus::Completed => "completed"@,
            JobStatus::Failed => "failed"@,
            JobStatus::Cancelled => "cancelled"@,
        }
    }

    /// The status of the given name, where it is the name of one. Where
    /// two names were the same text, the earlier status in the lifecycle
    /// would win.
    pub open spec fn named(name: Seq<char>) -> Option<JobStatus> {
        if name == "pending"@ {
            Some(JobStatus::Pending)
        } else if name == "running"@ {
            Some(JobStatus::Running)
        } else if name == "cancelling"@ {
            Some(JobStatus::Cancelling)
        } else if name == "completed"@ {
            Some(JobStatus::Completed)
        } else if name == "failed"@ {
            Some(JobStatus::Failed)
        } else if name == "cancelled"@ {
            Some(JobStatus::Cancelled)
        } else {
            None
        }
    }

    /// The name of the status in lower case: `pending`, `running`,
    /// `cancelling`, `completed`, `failed` or `cancelled`.
    pub fn name(&self) -> (text: String)
        ensures
            text@ == self.label(),
    {
        match self {
            JobStatus::Pending => "pending".to_string(),
            JobStatus::Running => "running".to_string(),
            JobStatus::Cancelling => "cancelling".to_string(),
            JobStatus::Completed => "completed".to_string(),
            JobStatus::Failed => "failed".to_string(),
            JobStatus::Cancelled => "cancelled".to_string(),
        }
    }

    /// The status of the given name, or none where the text names no
    /// status.
    pub fn from_name(name: &str) -> (status: Option<JobStatus>)
        ensures
            status == JobStatus::named(name@),
    {
        if str_eq(name, "pending") {
            Some(JobStatus::Pending)
        } else if str_eq(name, "running") {
            Some(JobStatus::Running)
        } else if str_eq(name, "cancelling") {
            Some(JobStatus::Cancelling)
        } else if str_eq(name, "completed") {
            Some(JobStatus::Completed)
        } else if str_eq(name, "failed") {
            Some(JobStatus::Failed)
        } else if str_eq(name, "cancelled") {
            Some(JobStatus::Cancelled)
        } else {
            None
        }
    }

    /// Tells whether the status is Completed, Failed or Cancelled.
    pub fn terminal(&self) -> (t: bool)
        ensures
            t == self.is_terminal(),
    {
        match self {
            JobStatus::Completed | JobStatus::Failed | JobStatus::Cancelled => true,
            _ => false,
        }
    }

    /// Tells whether the lifecycle has an arrow from this status to `next`.
    pub fn allows(&self, next: JobStatus) -> (ok: bool)
        ensures
            ok == self.can_become(next),
    {
        match (self, next) {
            (JobStatus::Pending, JobStatus::Running) => true,
            (JobStatus::Pending, JobStatus::Cancelled) => true,
            (JobStatus::Running, JobStatus::Completed) => true,
            (JobStatus::Running, JobStatus::Failed) => true,
            (JobStatus::Running, JobStatus::Cancelling) => true,
            (JobStatus::Cancelling, JobStatus::Cancelled) => true,
            _ => false,
        }
    }
}

/// How a stream is fetched: from a cursor onwards, or everything again.
#[derive(Clone, Debug, PartialEq, Eq)]
pub enum SyncMode {
    Incremental { cursor: Option<String> },
    FullRefresh,
}

/// The model of a [`SyncMode`].
pub enum SyncModeView {
    Incremental { cursor: Option<Seq<char>> },
    FullRefresh,
}

impl View for SyncMode {
    type V = SyncModeView;

    open spec fn view(&self) -> SyncModeView {
        match *self {
            SyncMode::Incremental { cursor } => SyncModeView::Incremental { cursor: opt_chars(cursor) },
            SyncMode::FullRefresh => SyncModeView::FullRefresh,
        }
    }
}

impl SyncMode {
    /// Incremental mode starting at `cursor`.
    pub fn incremental(cursor: Option<String>) -> (mode: SyncMode)
        ensures
            mode@ == (SyncModeView::Incremental { cursor: opt_chars(cursor) }),
    {
        SyncMode::Incremental { cursor }
    }

    /// Tells whether the mode is incremental.
    pub fn is_incremental(&self) -> (b: bool)
        ensures
            b == (self@ is Incremental),
    {
        match self {
            SyncMode::Incremental { .. } => true,
            SyncMode::FullRefresh => false,
        }
    }

    /// A fresh copy of the mode.
    pub fn duplicate(&self) -> (copy: SyncMode)
        ensures
            copy@ == self@,
    {
        match self {
            SyncMode::Incremental { cursor } => SyncMode::Incremental { cursor: cursor.clone() },
            SyncMode::FullRefresh => SyncMode::FullRefresh,
        }
    }
}


/// What a finished attempt reports: how much was moved, and what went wrong.
#[derive(Clone, Debug, PartialEq, Eq)]
pub struct JobResult {
    pub records_fetched: u64,
    pub records_written: u64,
    pub error: Option<String>,
}

/// The model of a [`JobResult`].
pub struct JobResultView {
    pub records_fetched: u64,
    pub records_written: u64,
    pub error: Option<Seq<char>>,
}

impl View for JobResult {
    type V = JobResultView;

    open spec fn view(&self) -> JobResultView {
        JobResultView {
            records_fetched: self.records_fetched,
            records_written: self.records_written,
            error: opt_chars(self.error),
        }
    }
}

impl JobResult {
    /// The result of an attempt that moved nothing and reported nothing.
    pub fn empty() -> (r: JobResult)
        ensures
            r@ == (JobResultView { records_fetched: 0, records_written: 0, error: None }),
    {
        JobResult { records_fetched: 0, records_written: 0, error: None }
    }
}

/// One attempt to sync one stream of one source.
#[derive(Clone, Debug, PartialEq, Eq)]
pub struct SyncJob {
    pub id: u64,
    pub source_id: u128,
    pub stream_name: String,
    pub mode: SyncMode,
    pub status: JobStatus,
    pub requested_at: u64,
    pub started_at: Option<u64>,
    pub finished_at: Option<u64>,
    pub records_fetched: u64,
    pub records_written: u64,
    pub duration_ms: Option<u64>,
    pub error: Option<String>,
}

/// The model of a [`SyncJob`].
pub struct SyncJobView {
    pub id: u64,
    pub source_id: u128,
    pub stream_name: Seq<char>,
    pub mode: SyncModeView,
    pub status: JobStatus,
    pub requested_at: u64,
    pub started_at: Option<u64>,
    pub finished_at: Option<u64>,
    pub records_fetched: u64,
    pub records_written: u64,
    pub duration_ms: Option<u64>,
    pub error: Option<Seq<char>>,
    /// Whether the job was wiped from the ledger together with its source.
    /// The place of a wiped job stays taken, so that the ids of the others
    /// stay as they are; nothing of the job is left in it.
    pub erased: bool,
}

impl View for SyncJob {
    type V = SyncJobView;

    open spec fn view(&self) -> SyncJobView {
        SyncJobView {
            id: self.id,
            source_id: self.source_id,
            stream_name: self.stream_name@,
            mode: self.mode@,
            status: self.status,
            requested_at: self.requested_at,
            started_at: self.started_at,
            finished_at: self.finished_at,
            records_fetched: self.records_fetched,
            records_written: self.records_written,
            duration_ms: self.duration_ms,
            error: opt_chars(self.error),
            erased: false,
        }
    }
}

/// Milliseconds from `start` to `end`, and zero where the clock went back.
pub open spec fn elapsed(start: u64, end: u64) -> u64 {
    if end >= start {
        (end - start) as u64
    } else {
        0
    }
}

impl SyncJobView {
    /// A job as it is first written down: Pending, nothing measured yet.
    pub open spec fn requested(
        id: u64,
        source_id: u128,
        stream_name: Seq<char>,
        mode: SyncModeView,
        now: u64,
    ) -> SyncJobView {
        SyncJobView {
            id,
            source_id,
            stream_name,
            mode,
            status: JobStatus::Pending,
            requested_at: now,
            started_at: None,
            finished_at: None,
            records_fetched: 0,
            records_written: 0,
            duration_ms: None,
            error: None,
            erased: false,
        }
    }

    /// What is left in the place of a job that was wiped from the ledger.
    pub open spec fn wiped(id: u64) -> SyncJobView {
        SyncJobView {
            id,
            source_id: 0,
            stream_name: Seq::empty(),
            mode: SyncModeView::FullRefresh,
            status: JobStatus::Cancelled,
            requested_at: 0,
            started_at: None,
            finished_at: None,
            records_fetched: 0,
            records_written: 0,
            duration_ms: None,
            error: None,
            erased: true,
        }
    }

    /// The job after it took the status `next` at time `now`.
    ///
    /// Entering Running stamps the start. Entering a terminal status stamps
    /// the end, measures the run from its start (a job that never started has
    /// no duration) and records what `result` reports. Entering Cancelling
    /// changes the status alone.
    pub open spec fn advanced(self, next: JobStatus, result: JobResultView, now: u64) -> SyncJobView {
        if next.is_terminal() {
            SyncJobView {
                status: next,
                finished_at: Some(now),
                duration_ms: match self.started_at {
                    Some(start) => Some(elapsed(start, now)),
                    None => None,
                },
                records_fetched: result.records_fetched,
                records_written: result.records_written,
                error: result.error,
                ..self
            }
        } else if next == JobStatus::Running {
            SyncJobView { status: next, started_at: Some(now), ..self }
        } else {
            SyncJobView { status: next, ..self }
        }
    }

    /// Tells whether the job belongs to the given stream of the given source.
    pub open spec fn on_stream(self, source_id: u128, stream_name: Seq<char>) -> bool {
        self.source_id == source_id && self.stream_name == stream_name
    }

    /// Tells whether the job is live on the given stream.
    pub open spec fn active_on(self, source_id: u128, stream_name: Seq<char>) -> bool {
        self.on_stream(source_id, stream_name) && self.status.is_active()
    }
}

impl SyncJob {
    /// A Pending job, as admission writes it down.
    pub fn requested(id: u64, source_id: u128, stream_name: String, mode: SyncMode, now: u64) -> (job:
        SyncJob)
        ensures
            job@ == SyncJobView::requested(id, source_id, stream_name@, mode@, now),
    {
        SyncJob {
            id,
            source_id,
            stream_name,
            mode,
            status: JobStatus::Pending,
            requested_at: now,
            started_at: None,
            finished_at: None,
            records_fetched: 0,
            records_written: 0,
            duration_ms: None,
            error: None,
        }
    }

    /// The job after it took the status `next` at time `now`.
    pub fn advanced(&self, next: JobStatus, result: JobResult, now: u64) -> (job: SyncJob)
        ensures
            job@ == self@.advanced(next, result@, now),
    {
        if next.terminal() {
            let duration_ms = match self.started_at {
                Some(start) => Some(if now >= start { now - start } else { 0 }),
                None => None,
            };
            SyncJob {
                id: self.id,
                source_id: self.source_id,
                stream_name: self.stream_name.clone(),
                mode: self.mode.duplicate(),
                status: next,
                requested_at: self.requested_at,
                started_at: self.started_at,
                finished_at: Some(now),
                records_fetched: result.records_fetched,
                records_written: result.records_written,
                duration_ms,
                error: result.error,
            }
        } else {
            let started_at = if next == JobStatus::Running { Some(now) } else { self.started_at };
            SyncJob {
                id: self.id,
                source_id: self.source_id,
                stream_name: self.stream_name.clone(),
                mode: self.mode.duplicate(),
                status: next,
                requested_at: self.requested_at,
                started_at,
                finished_at: self.finished_at,
                records_fetched: self.records_fetched,
                records_written: self.records_written,
                duration_ms: self.duration_ms,
                error: self.error.clone(),
            }
        }
    }

    /// A fresh copy of the job.
    pub fn duplicate(&self) -> (job: SyncJob)
        ensures
            job@ == self@,
    {
        SyncJob {
            id: self.id,
            source_id: self.source_id,
            stream_name: self.stream_name.clone(),
            mode: self.mode.duplicate(),
            status: self.status,
            requested_at: self.requested_at,
            started_at: self.started_at,
            finished_at: self.finished_at,
            records_fetched: self.records_fetched,
            records_written: self.records_written,
            duration_ms: self.duration_ms,
            error: self.error.clone(),
        }
    }
}

} // verus!
