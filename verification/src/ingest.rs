//! The ingestion router: the way in for batches that devices push.
//!
//! A batch names its source type and stream, carries opaque records and
//! perhaps a checkpoint token. The router checks that the pair is known,
//! writes an activity down before any record is touched, has each record
//! processed by itself (one bad record never costs the others), and
//! answers with the counts. The processors and the durable checkpoint
//! write are the caller's: the router is told what came of them.

use vstd::prelude::*;
use vstd::string::StringExecFns;
use crate::text::{clone_opt_string, opt_chars, str_eq};

verus! {

/// `serde_json::Value`, a JSON document. The router carries records of
/// this type from the request to their processor and never looks inside:
/// nothing is claimed of its contents.
#[verifier::external_type_specification]
#[verifier::external_body]
pub struct ExJsonValue(serde_json::Value);

/// A batch of records pushed by a device or another source.
#[derive(Clone, Debug, PartialEq, Eq)]
pub struct IngestRequest {
    /// The source type, such as `ios` or `mac`.
    pub source: String,
    /// The stream within the source, such as `healthkit`.
    pub stream: String,
    /// The device or instance that sends the batch.
    pub device_id: String,
    /// The records, opaque to the router.
    pub records: Vec<serde_json::Value>,
    /// The sender's checkpoint token, if it keeps one.
    pub checkpoint: Option<String>,
    /// When the batch was made, in milliseconds.
    pub timestamp: u64,
}

/// The answer to a batch that was taken in.
#[derive(Clone, Debug, PartialEq, Eq)]
pub struct IngestResponse {
    /// The number of records accepted.
    pub accepted: usize,
    /// The number of records rejected.
    pub rejected: usize,
    /// A hint for the sender's next checkpoint.
    pub next_checkpoint: Option<String>,
    /// The activity under which the batch was written down.
    pub activity_id: String,
}

/// The model of an [`IngestResponse`].
pub struct IngestResponseView {
    pub accepted: usize,
    pub rejected: usize,
    pub next_checkpoint: Option<Seq<char>>,
    pub activity_id: Seq<char>,
}

impl View for IngestResponse {
    type V = IngestResponseView;

    open spec fn view(&self) -> IngestResponseView {
        IngestResponseView {
            accepted: self.accepted,
            rejected: self.rejected,
            next_checkpoint: opt_chars(self.next_checkpoint),
            activity_id: self.activity_id@,
        }
    }
}

/// The credentials that come with a batch.
#[derive(Clone, Debug, PartialEq, Eq)]
pub struct AuthQuery {
    pub device_token: Option<String>,
}

/// Why a batch, or a record of it, was not taken.
#[derive(Clone, Debug, PartialEq, Eq)]
pub enum IngestError {
    /// The pair of source and stream is not one the platform knows: the
    /// whole batch is refused.
    UnknownSourceStream { source: String, stream: String },
    /// One record failed; the rest of its batch is not affected.
    PerRecordFailure { reason: String },
}

/// The model of an [`IngestError`].
pub enum IngestErrorView {
    UnknownSourceStream { source: Seq<char>, stream: Seq<char> },
    PerRecordFailure { reason: Seq<char> },
}

impl View for IngestError {
    type V = IngestErrorView;

    open spec fn view(&self) -> IngestErrorView {
        match *self {
            IngestError::UnknownSourceStream { source, stream } => IngestErrorView::UnknownSourceStream {
                source: source@,
                stream: stream@,
            },
            IngestError::PerRecordFailure { reason } => IngestErrorView::PerRecordFailure { reason: reason@ },
        }
    }
}

/// The text of an error, as it is shown to the sender.
pub open spec fn ingest_error_text(e: IngestErrorView) -> Seq<char> {
    match e {
        IngestErrorView::UnknownSourceStream { source, stream } => "Invalid source/stream: "@ + source + "/"@
            + stream,
        IngestErrorView::PerRecordFailure { reason } => reason,
    }
}

impl IngestError {
    /// The text of the error, as it is shown to the sender.
    pub fn message(&self) -> (text: String)
        ensures
            text@ == ingest_error_text(self@),
    {
        match self {
            IngestError::UnknownSourceStream { source, stream } => {
                "Invalid source/stream: ".to_string().concat(source.as_str()).concat("/").concat(
                    stream.as_str(),
                )
            },
            IngestError::PerRecordFailure { reason } => reason.clone(),
        }
    }
}

/// Tells whether the pair of source type and stream is one of those that
/// the platform takes batches for.
pub open spec fn known_source_stream(source: Seq<char>, stream: Seq<char>) -> bool {
    ||| source == "ios"@ && (stream == "healthkit"@ || stream == "location"@ || stream == "microphone"@
        || stream == "mic"@)
    ||| source == "mac"@ && (stream == "apps"@ || stream == "browser"@ || stream == "imessage"@ || stream
        == "screentime"@)
    ||| source == "google"@ && (stream == "calendar"@ || stream == "gmail"@)
    ||| source == "strava"@ && stream == "activities"@
    ||| source == "notion"@ && stream == "pages"@
}

/// Checks that a batch belongs to a known pair of source type and stream.
pub fn validate_source_stream(source: &str, stream: &str) -> (valid: Result<(), IngestError>)
    ensures
        match valid {
            Ok(()) => known_source_stream(source@, stream@),
            Err(e) => !known_source_stream(source@, stream@) && e@ == (IngestErrorView::UnknownSourceStream {
                source: source@,
                stream: stream@,
            }),
        },
{
    let ios = str_eq(source, "ios") && (str_eq(stream, "healthkit") || str_eq(stream, "location") || str_eq(
        stream,
        "microphone",
    ) || str_eq(stream, "mic"));
    let mac = str_eq(source, "mac") && (str_eq(stream, "apps") || str_eq(stream, "browser") || str_eq(
        stream,
        "imessage",
    ) || str_eq(stream, "screentime"));
    let google = str_eq(source, "google") && (str_eq(stream, "calendar") || str_eq(stream, "gmail"));
    let strava = str_eq(source, "strava") && str_eq(stream, "activities");
    let notion = str_eq(source, "notion") && str_eq(stream, "pages");
    let known = ios || mac || google || strava || notion;
    if known {
        Ok(())
    } else {
        Err(IngestError::UnknownSourceStream { source: source.to_string(), stream: stream.to_string() })
    }
}

/// Accepts a device token. Devices are not authenticated yet: every token
/// passes.
pub fn validate_device_token(token: &str, device_id: &str) -> (valid: Result<(), IngestError>)
    ensures
        valid is Ok,
{
    Ok(())
}

/// The processors that records are handed to.
#[derive(Clone, Copy, Debug, PartialEq, Eq, Structural)]
pub enum Processor {
    IosHealthkit,
    IosLocation,
    IosMicrophone,
    MacApps,
    MacBrowser,
    MacImessage,
}

/// The processor of a stream, or none where the stream has none.
pub open spec fn processor_of(source: Seq<char>, stream: Seq<char>) -> Option<Processor> {
    if source == "ios"@ && stream == "healthkit"@ {
        Some(Processor::IosHealthkit)
    } else if source == "ios"@ && stream == "location"@ {
        Some(Processor::IosLocation)
    } else if source == "ios"@ && (stream == "microphone"@ || stream == "mic"@) {
        Some(Processor::IosMicrophone)
    } else if source == "mac"@ && stream == "apps"@ {
        Some(Processor::MacApps)
    } else if source == "mac"@ && stream == "browser"@ {
        Some(Processor::MacBrowser)
    } else if source == "mac"@ && stream == "imessage"@ {
        Some(Processor::MacImessage)
    } else {
        None
    }
}

/// The text with which a record of a stream without processor is rejected.
pub open spec fn unsupported_text(source: Seq<char>, stream: Seq<char>) -> Seq<char> {
    "Unsupported source/stream combination: "@ + source + "/"@ + stream
}

/// Picks the processor for the records of a stream. A stream without one
/// has each of its records rejected.
pub fn process_single_record(source: &str, stream: &str) -> (routed: Result<Processor, IngestError>)
    ensures
        match routed {
            Ok(p) => processor_of(source@, stream@) == Some(p),
            Err(e) => processor_of(source@, stream@) is None && e@ == (IngestErrorView::PerRecordFailure {
                reason: unsupported_text(source@, stream@),
            }),
        },
{
    let ios = str_eq(source, "ios");
    let mac = str_eq(source, "mac");
    if ios && str_eq(stream, "healthkit") {
        Ok(Processor::IosHealthkit)
    } else if ios && str_eq(stream, "location") {
        Ok(Processor::IosLocation)
    } else if ios && (str_eq(stream, "microphone") || str_eq(stream, "mic")) {
        Ok(Processor::IosMicrophone)
    } else if mac && str_eq(stream, "apps") {
        Ok(Processor::MacApps)
    } else if mac && str_eq(stream, "browser") {
        Ok(Processor::MacBrowser)
    } else if mac && str_eq(stream, "imessage") {
        Ok(Processor::MacImessage)
    } else {
        Err(
            IngestError::PerRecordFailure {
                reason: "Unsupported source/stream combination: ".to_string().concat(source).concat(
                    "/",
                ).concat(stream),
            },
        )
    }
}

/// Where the records of a stream are kept.
#[derive(Clone, Copy, Debug, PartialEq, Eq, Structural)]
pub enum StorageStrategy {
    /// Rows in the database.
    PostgresOnly,
    /// Rows in the database, large payloads in the object store.
    Hybrid,
}

/// The storage strategy of a stream.
pub open spec fn storage_strategy_of(source: Seq<char>, stream: Seq<char>) -> StorageStrategy {
    if (source == "ios"@ && stream == "mic"@) || (source == "mac"@ && stream == "screenshots"@) {
        StorageStrategy::Hybrid
    } else {
        StorageStrategy::PostgresOnly
    }
}

/// The storage strategy of a stream: audio and screenshots go to the
/// object store, everything else to the database alone.
pub fn get_storage_strategy(source: &str, stream: &str) -> (strategy: StorageStrategy)
    ensures
        strategy == storage_strategy_of(source@, stream@),
{
    if (str_eq(source, "ios") && str_eq(stream, "mic")) || (str_eq(source, "mac") && str_eq(
        stream,
        "screenshots",
    )) {
        StorageStrategy::Hybrid
    } else {
        StorageStrategy::PostgresOnly
    }
}

/// The hint that follows a checkpoint token: the token with `_next` behind
/// it.
pub open spec fn next_checkpoint_of(current: Seq<char>) -> Seq<char> {
    current + "_next"@
}

/// The hint for the sender's next checkpoint.
pub fn generate_next_checkpoint(current: &str) -> (next: String)
    ensures
        next@ == next_checkpoint_of(current@),
{
    current.to_string().concat("_next")
}

/// The number of accepted records among the outcomes of a batch.
pub open spec fn count_accepted(outcomes: Seq<bool>) -> nat
    decreases outcomes.len(),
{
    if outcomes.len() == 0 {
        0
    } else {
        count_accepted(outcomes.drop_last()) + if outcomes.last() {
            1nat
        } else {
            0nat
        }
    }
}

/// The number of rejected records among the outcomes of a batch.
pub open spec fn count_rejected(outcomes: Seq<bool>) -> nat
    decreases outcomes.len(),
{
    if outcomes.len() == 0 {
        0
    } else {
        count_rejected(outcomes.drop_last()) + if outcomes.last() {
            0nat
        } else {
            1nat
        }
    }
}

/// Every record of a batch is counted once: as accepted or as rejected.
pub proof fn lemma_counts_add_up(outcomes: Seq<bool>)
    ensures
        count_accepted(outcomes) + count_rejected(outcomes) == outcomes.len(),
    decreases outcomes.len(),
{
    if outcomes.len() > 0 {
        lemma_counts_add_up(outcomes.drop_last());
    }
}

/// Counts a batch from the outcomes of its records, in their order: `true`
/// for a record that its processor took, `false` for one that failed. A
/// batch for a stream without processor has every record rejected.
pub fn process_records(processor: Option<Processor>, outcomes: &Vec<bool>) -> (counts: (usize, usize))
    ensures
        counts.0 == if processor is Some {
            count_accepted(outcomes@)
        } else {
            0
        },
        counts.0 + counts.1 == outcomes@.len(),
        processor is Some ==> counts.1 == count_rejected(outcomes@),
{
    let n = outcomes.len();
    if processor.is_none() {
        return (0, n);
    }
    let mut accepted: usize = 0;
    let mut rejected: usize = 0;
    let mut i: usize = 0;
    assert(outcomes@.take(0) =~= Seq::<bool>::empty());
    while i < n
        invariant
            i <= n,
            n == outcomes@.len(),
            accepted == count_accepted(outcomes@.take(i as int)),
            rejected == count_rejected(outcomes@.take(i as int)),
            accepted + rejected == i,
        decreases n - i,
    {
        proof {
            assert(outcomes@.take(i + 1).drop_last() =~= outcomes@.take(i as int));
            assert(outcomes@.take(i + 1).last() == outcomes@[i as int]);
        }
        if outcomes[i] {
            accepted += 1;
        } else {
            rejected += 1;
        }
        i += 1;
    }
    assert(outcomes@.take(n as int) =~= outcomes@);
    (accepted, rejected)
}

/// Where an ingestion batch stands.
#[derive(Clone, Copy, Debug, PartialEq, Eq, Structural)]
pub enum ActivityStatus {
    /// Written down; its records are being processed.
    InProgress,
    /// All records were seen and the counts are final.
    Completed,
}

/// The record kept of one ingestion batch.
#[derive(Clone, Debug, PartialEq, Eq)]
pub struct PipelineActivity {
    /// The identifier handed back to the sender.
    pub id: String,
    pub source: String,
    pub stream: String,
    pub device_id: String,
    /// The number of records that the batch came with.
    pub record_count: usize,
    /// The number of records accepted.
    pub records_processed: usize,
    /// The number of records rejected.
    pub records_rejected: usize,
    pub status: ActivityStatus,
    pub started_at: u64,
    pub finished_at: Option<u64>,
}

/// The model of a [`PipelineActivity`].
pub struct PipelineActivityView {
    pub id: Seq<char>,
    pub source: Seq<char>,
    pub stream: Seq<char>,
    pub device_id: Seq<char>,
    pub record_count: usize,
    pub records_processed: usize,
    pub records_rejected: usize,
    pub status: ActivityStatus,
    pub started_at: u64,
    pub finished_at: Option<u64>,
}

impl View for PipelineActivity {
    type V = PipelineActivityView;

    open spec fn view(&self) -> PipelineActivityView {
        PipelineActivityView {
            id: self.id@,
            source: self.source@,
            stream: self.stream@,
            device_id: self.device_id@,
            record_count: self.record_count,
            records_processed: self.records_processed,
            records_rejected: self.records_rejected,
            status: self.status,
            started_at: self.started_at,
            finished_at: self.finished_at,
        }
    }
}

/// The models of a sequence of activities.
pub open spec fn activity_views(activities: Seq<PipelineActivity>) -> Seq<PipelineActivityView> {
    activities.map_values(|a: PipelineActivity| a@)
}

/// The log after a batch was written down, before any of its records was
/// touched.
pub open spec fn opened(
    log: Seq<PipelineActivityView>,
    id: Seq<char>,
    source: Seq<char>,
    stream: Seq<char>,
    device_id: Seq<char>,
    record_count: usize,
    now: u64,
) -> Seq<PipelineActivityView> {
    log.push(
        PipelineActivityView {
            id,
            source,
            stream,
            device_id,
            record_count,
            records_processed: 0,
            records_rejected: 0,
            status: ActivityStatus::InProgress,
            started_at: now,
            finished_at: None,
        },
    )
}

/// The log after the batch at `index` was closed with its counts. Only a
/// batch in progress can be closed; otherwise the log stays as it is.
pub open spec fn closed(
    log: Seq<PipelineActivityView>,
    index: int,
    accepted: usize,
    rejected: usize,
    now: u64,
) -> Seq<PipelineActivityView> {
    if 0 <= index < log.len() && log[index].status == ActivityStatus::InProgress {
        log.update(
            index,
            PipelineActivityView {
                records_processed: accepted,
                records_rejected: rejected,
                status: ActivityStatus::Completed,
                finished_at: Some(now),
                ..log[index]
            },
        )
    } else {
        log
    }
}

/// The ingestion batches ever taken in, oldest first. Entries are added and
/// closed, never removed.
pub struct ActivityLog {
    activities: Vec<PipelineActivity>,
}

impl View for ActivityLog {
    type V = Seq<PipelineActivityView>;

    closed spec fn view(&self) -> Seq<PipelineActivityView> {
        activity_views(self.activities@)
    }
}

impl ActivityLog {
    /// An empty log.
    pub fn new() -> (log: ActivityLog)
        ensures
            log@ == Seq::<PipelineActivityView>::empty(),
    {
        let log = ActivityLog { activities: Vec::new() };
        assert(log@ =~= Seq::<PipelineActivityView>::empty());
        log
    }

    /// The number of batches ever written down.
    pub fn len(&self) -> (n: usize)
        ensures
            n == self@.len(),
    {
        self.activities.len()
    }

    /// The batch at the given place.
    pub fn get(&self, index: usize) -> (found: Option<&PipelineActivity>)
        ensures
            match found {
                Some(a) => index < self@.len() && a@ == self@[index as int],
                None => index >= self@.len(),
            },
    {
        if index < self.activities.len() {
            Some(&self.activities[index])
        } else {
            None
        }
    }

    /// Writes a batch down under the given identifier and tells its place.
    pub fn open(
        &mut self,
        id: String,
        source: &str,
        stream: &str,
        device_id: &str,
        record_count: usize,
        now: u64,
    ) -> (index: usize)
        ensures
            index == old(self)@.len(),
            final(self)@ == opened(old(self)@, id@, source@, stream@, device_id@, record_count, now),
    {
        let index = self.activities.len();
        self.activities.push(
            PipelineActivity {
                id,
                source: source.to_string(),
                stream: stream.to_string(),
                device_id: device_id.to_string(),
                record_count,
                records_processed: 0,
                records_rejected: 0,
                status: ActivityStatus::InProgress,
                started_at: now,
                finished_at: None,
            },
        );
        assert(self@ =~= opened(old(self)@, id@, source@, stream@, device_id@, record_count, now));
        index
    }

    /// Closes the batch at `index` with its counts. Tells whether there was
    /// a batch in progress at that place; if not, nothing changes.
    pub fn close(&mut self, index: usize, accepted: usize, rejected: usize, now: u64) -> (done: bool)
        ensures
            done == (index < old(self)@.len() && old(self)@[index as int].status == ActivityStatus::InProgress),
            final(self)@ == closed(old(self)@, index as int, accepted, rejected, now),
    {
        if index >= self.activities.len() {
            return false;
        }
        match self.activities[index].status {
            ActivityStatus::Completed => false,
            ActivityStatus::InProgress => {
                self.activities[index].records_processed = accepted;
                self.activities[index].records_rejected = rejected;
                self.activities[index].status = ActivityStatus::Completed;
                self.activities[index].finished_at = Some(now);
                assert(self@ =~= closed(old(self)@, index as int, accepted, rejected, now));
                true
            },
        }
    }
}

/// `uuid::Uuid::new_v4`, written out through the `Display` of `uuid::Uuid`:
/// a random identifier in text form. Which identifier comes back is left
/// open; the text is the hyphenated form, 36 characters long. The outside
/// function panics where the operating system hands out no random bytes.
#[verifier::external_body]
fn random_uuid_text() -> (id: String)
    ensures
        id@.len() == 36,
{
    uuid::Uuid::new_v4().to_string()
}

/// Writes a batch down under a fresh random identifier and hands the
/// identifier back.
pub fn create_pipeline_activity(
    log: &mut ActivityLog,
    source: &str,
    stream: &str,
    device_id: &str,
    record_count: usize,
    now: u64,
) -> (id: String)
    ensures
        id@.len() == 36,
        final(log)@ == opened(old(log)@, id@, source@, stream@, device_id@, record_count, now),
{
    let id = random_uuid_text();
    log.open(id.clone(), source, stream, device_id, record_count, now);
    id
}

/// The model of an [`IngestSession`].
pub struct IngestSessionView {
    /// The place of the batch in the activity log.
    pub activity_index: usize,
    pub activity_id: Seq<char>,
    /// The processor of the batch's records, or none.
    pub processor: Option<Processor>,
    /// The number of records that the batch came with.
    pub total: usize,
    /// What became of the records seen so far, in their order.
    pub outcomes: Seq<bool>,
}

/// The answer to a batch: the accepted records are those that were seen and
/// taken, every other record of the batch counts as rejected; the hint for
/// the next checkpoint is there only where a token came and was kept.
pub open spec fn ingest_response(
    session: IngestSessionView,
    checkpoint: Option<Seq<char>>,
    persisted: bool,
) -> IngestResponseView {
    IngestResponseView {
        accepted: count_accepted(session.outcomes) as usize,
        rejected: (session.total - count_accepted(session.outcomes)) as usize,
        next_checkpoint: match checkpoint {
            Some(token) => if persisted {
                Some(next_checkpoint_of(token))
            } else {
                None
            },
            None => None,
        },
        activity_id: session.activity_id,
    }
}

/// A batch on its way through the router.
pub struct IngestSession {
    activity_index: usize,
    activity_id: String,
    processor: Option<Processor>,
    total: usize,
    accepted: usize,
    rejected: usize,
    outcomes: Ghost<Seq<bool>>,
}

impl View for IngestSession {
    type V = IngestSessionView;

    closed spec fn view(&self) -> IngestSessionView {
        IngestSessionView {
            activity_index: self.activity_index,
            activity_id: self.activity_id@,
            processor: self.processor,
            total: self.total,
            outcomes: self.outcomes@,
        }
    }
}

impl IngestSession {
    /// The invariant of a session: the counters agree with the outcomes
    /// seen, and no more records were seen than the batch has.
    pub closed spec fn wf(&self) -> bool {
        &&& self.accepted == count_accepted(self.outcomes@)
        &&& self.rejected == count_rejected(self.outcomes@)
        &&& self.outcomes@.len() <= self.total
    }

    /// Takes a batch in: checks the pair of source and stream, and writes
    /// the batch down in the log before any record is touched. An unknown
    /// pair refuses the whole batch and leaves the log as it is.
    pub fn begin(
        log: &mut ActivityLog,
        source: &str,
        stream: &str,
        device_id: &str,
        record_count: usize,
        activity_id: String,
        now: u64,
    ) -> (begun: Result<IngestSession, IngestError>)
        ensures
            match begun {
                Ok(session) => {
                    &&& known_source_stream(source@, stream@)
                    &&& session.wf()
                    &&& session@ == (IngestSessionView {
                        activity_index: old(log)@.len() as usize,
                        activity_id: activity_id@,
                        processor: processor_of(source@, stream@),
                        total: record_count,
                        outcomes: Seq::empty(),
                    })
                    &&& final(log)@ == opened(
                        old(log)@,
                        activity_id@,
                        source@,
                        stream@,
                        device_id@,
                        record_count,
                        now,
                    )
                },
                Err(e) => {
                    &&& !known_source_stream(source@, stream@)
                    &&& e@ == (IngestErrorView::UnknownSourceStream { source: source@, stream: stream@ })
                    &&& final(log)@ == old(log)@
                },
            },
    {
        match validate_source_stream(source, stream) {
            Err(e) => Err(e),
            Ok(()) => {
                let processor = match process_single_record(source, stream) {
                    Ok(p) => Some(p),
                    Err(_) => None,
                };
                let activity_index = log.open(activity_id.clone(), source, stream, device_id, record_count, now);
                Ok(
                    IngestSession {
                        activity_index,
                        activity_id,
                        processor,
                        total: record_count,
                        accepted: 0,
                        rejected: 0,
                        outcomes: Ghost(Seq::empty()),
                    },
                )
            },
        }
    }

    /// The processor to hand the records to; none where the stream has
    /// none, and then every record is rejected.
    pub fn processor(&self) -> (p: Option<Processor>)
        ensures
            p == self@.processor,
    {
        self.processor
    }

    /// The identifier of the batch.
    pub fn activity_id(&self) -> (id: &String)
        ensures
            id@ == self@.activity_id,
    {
        &self.activity_id
    }

    /// The place in the batch of the record to process next, or none when
    /// every record was seen.
    pub fn next_record(&self) -> (next: Option<usize>)
        requires
            self.wf(),
        ensures
            next == if self@.outcomes.len() < self@.total {
                Some(self@.outcomes.len() as usize)
            } else {
                None
            },
    {
        proof {
            lemma_counts_add_up(self.outcomes@);
        }
        let seen = self.accepted + self.rejected;
        if seen < self.total {
            Some(seen)
        } else {
            None
        }
    }

    /// Takes note of what became of the next record: `true` where its
    /// processor took it. A record of a stream without processor is
    /// rejected whatever is reported. Tells whether a record was still
    /// outstanding; a report beyond the end of the batch changes nothing.
    pub fn record(&mut self, taken: bool) -> (counted: bool)
        requires
            old(self).wf(),
        ensures
            final(self).wf(),
            counted == (old(self)@.outcomes.len() < old(self)@.total),
            final(self)@ == if counted {
                IngestSessionView {
                    outcomes: old(self)@.outcomes.push(taken && old(self)@.processor is Some),
                    ..old(self)@
                }
            } else {
                old(self)@
            },
    {
        proof {
            lemma_counts_add_up(self.outcomes@);
        }
        if self.accepted + self.rejected >= self.total {
            return false;
        }
        let outcome = taken && self.processor.is_some();
        proof {
            assert(self.outcomes@.push(outcome).drop_last() =~= self.outcomes@);
        }
        if outcome {
            self.accepted += 1;
        } else {
            self.rejected += 1;
        }
        self.outcomes = Ghost(self.outcomes@.push(outcome));
        true
    }

    /// Closes the batch and answers the sender.
    ///
    /// `checkpoint` is the token that came with the batch and `persisted`
    /// tells whether it could be kept: where it could not, the batch is
    /// answered all the same, without a hint for the next checkpoint. The
    /// batch is closed in the log with its counts; where the log has no
    /// batch in progress at the session's place, the log stays as it is and
    /// the answer is the same.
    pub fn finish(self, log: &mut ActivityLog, checkpoint: Option<String>, persisted: bool, now: u64) -> (response:
        IngestResponse)
        requires
            self.wf(),
        ensures
            response@ == ingest_response(self@, opt_chars(checkpoint), persisted),
            final(log)@ == closed(
                old(log)@,
                self@.activity_index as int,
                response.accepted,
                response.rejected,
                now,
            ),
    {
        proof {
            lemma_counts_add_up(self.outcomes@);
        }
        let accepted = self.accepted;
        let rejected = self.total - self.accepted;
        let next_checkpoint = match checkpoint {
            Some(token) => if persisted {
                Some(generate_next_checkpoint(token.as_str()))
            } else {
                None
            },
            None => None,
        };
        log.close(self.activity_index, accepted, rejected, now);
        IngestResponse { accepted, rejected, next_checkpoint, activity_id: self.activity_id }
    }
}

/// A batch of `outcomes.len()` records of which some failed is answered
/// with exactly the number of those that were taken as accepted and the
/// number of those that failed as rejected.
pub proof fn lemma_every_record_counts(session: IngestSessionView, checkpoint: Option<Seq<char>>, persisted: bool)
    requires
        session.outcomes.len() == session.total,
    ensures
        ingest_response(session, checkpoint, persisted).accepted == session.total - count_rejected(
            session.outcomes,
        ),
        ingest_response(session, checkpoint, persisted).rejected == count_rejected(session.outcomes),
{
    lemma_counts_add_up(session.outcomes);
}

/// What holds of a batch that [`ingest`] took in, given what became of its
/// records and of its checkpoint token.
///
/// Every record was handed to the stream's processor, with the stream's
/// storage strategy, and `outcomes` holds what the processor said of each,
/// in order (all `false` where the stream has no processor); `persisted`
/// is what the attempt to keep the token gave. The log holds the batch,
/// written down and closed with its counts, and the response is the answer
/// to the batch.
pub open spec fn batch_taken<P: Fn(Processor, StorageStrategy, &serde_json::Value) -> bool, C: Fn(&String) -> bool>(
    process: P,
    persist: C,
    log_before: Seq<PipelineActivityView>,
    log_after: Seq<PipelineActivityView>,
    request: IngestRequest,
    response: IngestResponseView,
    outcomes: Seq<bool>,
    persisted: bool,
    now: u64,
) -> bool {
    let session = IngestSessionView {
        activity_index: log_before.len() as usize,
        activity_id: response.activity_id,
        processor: processor_of(request.source@, request.stream@),
        total: request.records@.len() as usize,
        outcomes,
    };
    &&& outcomes.len() == request.records@.len()
    &&& forall|i: int|
        0 <= i < outcomes.len() ==> match session.processor {
            Some(p) => call_ensures(
                process,
                (p, storage_strategy_of(request.source@, request.stream@), &request.records@[i]),
                #[trigger] outcomes[i],
            ),
            None => !outcomes[i],
        }
    &&& match request.checkpoint {
        Some(token) => call_ensures(persist, (&token,), persisted),
        None => true,
    }
    &&& response == ingest_response(session, opt_chars(request.checkpoint), persisted)
    &&& log_after == closed(
        opened(
            log_before,
            response.activity_id,
            request.source@,
            request.stream@,
            request.device_id@,
            request.records@.len() as usize,
            now,
        ),
        log_before.len() as int,
        response.accepted,
        response.rejected,
        now,
    )
}

/// Takes a pushed batch in and answers it.
///
/// The pair of source and stream is checked first: an unknown pair refuses
/// the whole batch, and nothing is written down. Then the batch is written
/// down in the log under a fresh identifier, before any record is touched.
/// Each record is handed to `process` with the stream's processor and
/// storage strategy, by itself and in order; a record that fails counts as
/// rejected and the next one is processed all the same. Where a checkpoint
/// token came with the batch, `persist` is asked to keep it; if it cannot,
/// the batch is answered without a hint for the next checkpoint. At the end
/// the batch is closed in the log with its counts.
pub fn ingest<P: Fn(Processor, StorageStrategy, &serde_json::Value) -> bool, C: Fn(&String) -> bool>(
    log: &mut ActivityLog,
    auth: &AuthQuery,
    request: &IngestRequest,
    process: P,
    persist: C,
    now: u64,
) -> (answer: Result<IngestResponse, IngestError>)
    requires
        forall|p: Processor, strategy: StorageStrategy, i: int|
            0 <= i < request.records@.len() ==> call_requires(
                process,
                (p, strategy, &#[trigger] request.records@[i]),
            ),
        forall|token: &String| call_requires(persist, (token,)),
    ensures
        match answer {
            Ok(response) => {
                &&& known_source_stream(request.source@, request.stream@)
                &&& response@.activity_id.len() == 36
                &&& exists|outcomes: Seq<bool>, persisted: bool| #[trigger]
                    batch_taken(process, persist, old(log)@, final(log)@, *request, response@, outcomes, persisted, now)
            },
            Err(e) => {
                &&& !known_source_stream(request.source@, request.stream@)
                &&& e@ == (IngestErrorView::UnknownSourceStream {
                    source: request.source@,
                    stream: request.stream@,
                })
                &&& final(log)@ == old(log)@
            },
        },
{
    if let Some(token) = &auth.device_token {
        let checked = validate_device_token(token.as_str(), request.device_id.as_str());
        assert(checked is Ok);
    }
    let activity_id = random_uuid_text();
    let n = request.records.len();
    let at = log.len();
    let mut session = match IngestSession::begin(
        log,
        request.source.as_str(),
        request.stream.as_str(),
        request.device_id.as_str(),
        n,
        activity_id,
        now,
    ) {
        Err(e) => {
            return Err(e);
        },
        Ok(session) => session,
    };
    let ghost begun = session@;
    let strategy = get_storage_strategy(request.source.as_str(), request.stream.as_str());
    let mut i: usize = 0;
    while i < n
        invariant
            i <= n,
            n == request.records@.len(),
            session.wf(),
            session@ == (IngestSessionView { outcomes: session@.outcomes, ..begun }),
            begun.total == n,
            begun.processor == processor_of(request.source@, request.stream@),
            session@.outcomes.len() == i,
            begun.activity_index == at,
            begun.activity_id.len() == 36,
            at == old(log)@.len(),
            log@ == opened(
                old(log)@,
                begun.activity_id,
                request.source@,
                request.stream@,
                request.device_id@,
                n,
                now,
            ),
            strategy == storage_strategy_of(request.source@, request.stream@),
            forall|p: Processor, any: StorageStrategy, k: int|
                0 <= k < request.records@.len() ==> call_requires(
                    process,
                    (p, any, &#[trigger] request.records@[k]),
                ),
            forall|k: int|
                0 <= k < i ==> match begun.processor {
                    Some(p) => call_ensures(
                        process,
                        (p, strategy, &request.records@[k]),
                        #[trigger] session@.outcomes[k],
                    ),
                    None => !session@.outcomes[k],
                },
        decreases n - i,
    {
        let taken = match session.processor() {
            Some(p) => process(p, strategy, &request.records[i]),
            None => false,
        };
        let ghost before = session@.outcomes;
        session.record(taken);
        proof {
            assert forall|k: int| 0 <= k < i + 1 implies match begun.processor {
                Some(p) => call_ensures(
                    process,
                    (p, strategy, &request.records@[k]),
                    #[trigger] session@.outcomes[k],
                ),
                None => !session@.outcomes[k],
            } by {
                if k < i {
                    assert(session@.outcomes[k] == before[k]);
                }
            }
        }
        i += 1;
    }
    let persisted = match &request.checkpoint {
        Some(token) => persist(token),
        None => false,
    };
    let ghost outcomes = session@.outcomes;
    let ghost final_session = session@;
    let response = session.finish(log, clone_opt_string(&request.checkpoint), persisted, now);
    proof {
        assert(final_session == (IngestSessionView {
            activity_index: old(log)@.len() as usize,
            activity_id: response@.activity_id,
            processor: processor_of(request.source@, request.stream@),
            total: request.records@.len() as usize,
            outcomes,
        }));
        assert(batch_taken(process, persist, old(log)@, log@, *request, response@, outcomes, persisted, now));
    }
    Ok(response)
}

} // verus!
