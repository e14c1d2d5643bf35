//! Request and query types of the HTTP surface, and the rules that read
//! them: page sizes, sync modes, status lists, and the status code that
//! answers each endpoint.

use vstd::prelude::*;
use crate::engine::AdmissionError;
use crate::job::{JobStatus, SyncMode, SyncModeView};
use crate::ledger::JobFilter;
use crate::text::{split_and_trim, str_eq, string_views};

verus! {

/// The page size used when a query names none.
pub open spec fn spec_default_limit() -> i64 {
    10
}

/// The page size used when a query names none.
pub fn default_limit() -> (limit: i64)
    ensures
        limit == spec_default_limit(),
{
    10
}

/// The number of items that a limit allows: none for a limit below one,
/// and no more than a `usize` holds.
pub open spec fn page_size_of(limit: i64) -> usize {
    if limit <= 0 {
        0
    } else if limit > usize::MAX {
        usize::MAX
    } else {
        limit as usize
    }
}

/// The number of items that a limit allows.
pub fn page_size(limit: i64) -> (size: usize)
    ensures
        size == page_size_of(limit),
{
    if limit <= 0 {
        0
    } else if limit as u64 > usize::MAX as u64 {
        usize::MAX
    } else {
        limit as usize
    }
}

/// Query parameters for pagination.
#[derive(Clone, Copy, Debug, PartialEq, Eq, Structural)]
pub struct PaginationQuery {
    pub limit: i64,
}

impl PaginationQuery {
    /// A page of the given size, or of the default size where none is
    /// given.
    pub fn new(limit: Option<i64>) -> (query: PaginationQuery)
        ensures
            query.limit == match limit {
                Some(n) => n,
                None => spec_default_limit(),
            },
    {
        match limit {
            Some(n) => PaginationQuery { limit: n },
            None => PaginationQuery { limit: default_limit() },
        }
    }
}

/// The body of a request to sync a stream.
#[derive(Clone, Debug, PartialEq, Eq)]
pub struct SyncStreamRequest {
    pub sync_mode: Option<String>,
}

/// The mode that a mode name asks for: `full_refresh` asks for a full
/// refresh, every other name for an incremental sync without a cursor of
/// its own.
pub open spec fn mode_named(name: Seq<char>) -> SyncModeView {
    if name == "full_refresh"@ {
        SyncModeView::FullRefresh
    } else {
        SyncModeView::Incremental { cursor: None }
    }
}

/// The mode that the body of a sync request asks for, or none where there
/// is no body or the body names no mode.
pub open spec fn requested_mode_of(request: Option<SyncStreamRequest>) -> Option<SyncModeView> {
    match request {
        Some(r) => match r.sync_mode {
            Some(name) => Some(mode_named(name@)),
            None => None,
        },
        None => None,
    }
}

/// The mode that the body of a sync request asks for.
pub fn requested_mode(request: &Option<SyncStreamRequest>) -> (mode: Option<SyncMode>)
    ensures
        crate::engine::opt_mode(mode) == requested_mode_of(*request),
{
    match request {
        Some(r) => match &r.sync_mode {
            Some(name) => if str_eq(name.as_str(), "full_refresh") {
                Some(SyncMode::FullRefresh)
            } else {
                Some(SyncMode::Incremental { cursor: None })
            },
            None => None,
        },
        None => None,
    }
}

/// The statuses that a sequence of names names, in order; a text that
/// names no status is passed over.
pub open spec fn statuses_named(names: Seq<Seq<char>>) -> Seq<JobStatus>
    decreases names.len(),
{
    if names.len() == 0 {
        Seq::empty()
    } else {
        match JobStatus::named(names.last()) {
            Some(status) => statuses_named(names.drop_last()).push(status),
            None => statuses_named(names.drop_last()),
        }
    }
}

/// The statuses that a comma-separated list names: the list is cut at its
/// commas, each piece loses the white space around it, and the pieces that
/// name a status give the statuses, in order.
pub open spec fn status_list_of(list: Seq<char>) -> Seq<JobStatus> {
    statuses_named(crate::text::split_trimmed(list, ','))
}

/// Reads a comma-separated list of status names.
pub fn parse_status_list(list: &str) -> (statuses: Vec<JobStatus>)
    ensures
        statuses@ == status_list_of(list@),
{
    let names = split_and_trim(list, ',');
    let mut statuses: Vec<JobStatus> = Vec::new();
    let n = names.len();
    let mut i: usize = 0;
    assert(string_views(names@).take(0) =~= Seq::<Seq<char>>::empty());
    while i < n
        invariant
            i <= n,
            n == names@.len(),
            statuses@ == statuses_named(string_views(names@).take(i as int)),
        decreases n - i,
    {
        proof {
            let upto = string_views(names@).take(i + 1);
            assert(upto.drop_last() =~= string_views(names@).take(i as int));
            assert(upto.last() == names@[i as int]@);
        }
        match JobStatus::from_name(names[i].as_str()) {
            Some(status) => {
                statuses.push(status);
            },
            None => {},
        }
        i += 1;
    }
    assert(string_views(names@).take(n as int) =~= string_views(names@));
    statuses
}

/// The parameters of a query for jobs.
#[derive(Clone, Debug, PartialEq, Eq)]
pub struct QueryJobsParams {
    /// Only jobs of this source.
    pub source_id: Option<u128>,
    /// Only jobs in one of these statuses: a comma-separated list of names.
    pub status: Option<String>,
    /// The largest number of jobs to hand back.
    pub limit: Option<i64>,
}

impl QueryJobsParams {
    /// The filter that the parameters stand for. Without a limit the
    /// default page size holds.
    pub fn to_filter(&self) -> (filter: JobFilter)
        ensures
            filter.source_id == self.source_id,
            filter.stream_name is None,
            match self.status {
                Some(list) => filter.statuses matches Some(statuses) && statuses@ == status_list_of(list@),
                None => filter.statuses is None,
            },
            filter.limit == page_size_of(
                match self.limit {
                    Some(n) => n,
                    None => spec_default_limit(),
                },
            ),
    {
        let statuses = match &self.status {
            Some(list) => Some(parse_status_list(list.as_str())),
            None => None,
        };
        let limit = match self.limit {
            Some(n) => n,
            None => default_limit(),
        };
        JobFilter { source_id: self.source_id, stream_name: None, statuses, limit: page_size(limit) }
    }
}

/// The endpoints of the HTTP surface.
#[derive(Clone, Copy, Debug, PartialEq, Eq, Structural)]
pub enum Endpoint {
    ListSources,
    GetSource,
    PauseSource,
    ResumeSource,
    DeleteSource,
    GetSourceStatus,
    OauthAuthorize,
    OauthCallback,
    CreateSource,
    RegisterDevice,
    ListStreams,
    GetStream,
    EnableStream,
    DisableStream,
    UpdateStreamConfig,
    UpdateStreamSchedule,
    SyncStream,
    ListCatalogSources,
    GetJob,
    QueryJobs,
    CancelJob,
    Ingest,
}

/// 200 OK.
pub const STATUS_OK: u16 = 200;

/// 201 Created.
pub const STATUS_CREATED: u16 = 201;

/// 400 Bad Request.
pub const STATUS_BAD_REQUEST: u16 = 400;

/// 401 Unauthorized.
pub const STATUS_UNAUTHORIZED: u16 = 401;

/// 404 Not Found.
pub const STATUS_NOT_FOUND: u16 = 404;

/// 409 Conflict.
pub const STATUS_CONFLICT: u16 = 409;

/// 500 Internal Server Error.
pub const STATUS_INTERNAL_SERVER_ERROR: u16 = 500;

/// The status code of a successful answer: 201 where the endpoint makes
/// something new, 200 everywhere else.
pub open spec fn success_status_of(endpoint: Endpoint) -> u16 {
    match endpoint {
        Endpoint::OauthCallback
        | Endpoint::CreateSource
        | Endpoint::RegisterDevice
        | Endpoint::SyncStream => STATUS_CREATED,
        _ => STATUS_OK,
    }
}

/// The status code of a failed answer: 404 where one thing was asked for
/// by its id, 400 where the request itself is at fault, 500 everywhere
/// else. A sync that is refused is answered by
/// [`sync_failure_status`].
pub open spec fn failure_status_of(endpoint: Endpoint) -> u16 {
    match endpoint {
        Endpoint::GetSource
        | Endpoint::GetSourceStatus
        | Endpoint::GetStream
        | Endpoint::GetJob => STATUS_NOT_FOUND,
        Endpoint::OauthAuthorize
        | Endpoint::OauthCallback
        | Endpoint::CreateSource
        | Endpoint::RegisterDevice
        | Endpoint::EnableStream
        | Endpoint::DisableStream
        | Endpoint::UpdateStreamConfig
        | Endpoint::UpdateStreamSchedule
        | Endpoint::CancelJob
        | Endpoint::Ingest => STATUS_BAD_REQUEST,
        _ => STATUS_INTERNAL_SERVER_ERROR,
    }
}

/// The status code of a successful answer.
pub fn success_status(endpoint: Endpoint) -> (code: u16)
    ensures
        code == success_status_of(endpoint),
{
    match endpoint {
        Endpoint::OauthCallback
        | Endpoint::CreateSource
        | Endpoint::RegisterDevice
        | Endpoint::SyncStream => STATUS_CREATED,
        _ => STATUS_OK,
    }
}

/// The status code of a failed answer.
pub fn failure_status(endpoint: Endpoint) -> (code: u16)
    ensures
        code == failure_status_of(endpoint),
{
    match endpoint {
        Endpoint::GetSource
        | Endpoint::GetSourceStatus
        | Endpoint::GetStream
        | Endpoint::GetJob => STATUS_NOT_FOUND,
        Endpoint::OauthAuthorize
        | Endpoint::OauthCallback
        | Endpoint::CreateSource
        | Endpoint::RegisterDevice
        | Endpoint::EnableStream
        | Endpoint::DisableStream
        | Endpoint::UpdateStreamConfig
        | Endpoint::UpdateStreamSchedule
        | Endpoint::CancelJob
        | Endpoint::Ingest => STATUS_BAD_REQUEST,
        _ => STATUS_INTERNAL_SERVER_ERROR,
    }
}

/// The status code that answers a refused sync: 409 where the stream has a
/// live job, 500 for every other refusal.
pub fn sync_failure_status(error: AdmissionError) -> (code: u16)
    ensures
        code == if error == AdmissionError::Conflict {
            STATUS_CONFLICT
        } else {
            STATUS_INTERNAL_SERVER_ERROR
        },
{
    match error {
        AdmissionError::Conflict => STATUS_CONFLICT,
        _ => STATUS_INTERNAL_SERVER_ERROR,
    }
}

} // verus!
