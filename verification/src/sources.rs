//! Configured sources and their streams.
//!
//! A source is one connected account or device of some source type; a
//! stream is one feed of a source that can be synced. Sources are switched
//! off, never dropped; a stream exists from the moment it is first enabled.

use vstd::prelude::*;
use crate::text::{opt_chars, str_eq};

verus! {

/// A configured instance of a connector type.
#[derive(Clone, Debug, PartialEq, Eq)]
pub struct Source {
    pub id: u128,
    pub source_type: String,
    pub name: String,
    pub is_active: bool,
    pub last_error: Option<String>,
    pub created_at: u64,
    pub updated_at: u64,
}

/// The model of a [`Source`].
pub struct SourceView {
    pub id: u128,
    pub source_type: Seq<char>,
    pub name: Seq<char>,
    pub is_active: bool,
    pub last_error: Option<Seq<char>>,
    pub created_at: u64,
    pub updated_at: u64,
}

impl View for Source {
    type V = SourceView;

    open spec fn view(&self) -> SourceView {
        SourceView {
            id: self.id,
            source_type: self.source_type@,
            name: self.name@,
            is_active: self.is_active,
            last_error: opt_chars(self.last_error),
            created_at: self.created_at,
            updated_at: self.updated_at,
        }
    }
}

impl SourceView {
    /// A source as it is first written down: active, without an error.
    pub open spec fn created(id: u128, source_type: Seq<char>, name: Seq<char>, now: u64) -> SourceView {
        SourceView {
            id,
            source_type,
            name,
            is_active: true,
            last_error: None,
            created_at: now,
            updated_at: now,
        }
    }
}

/// The models of a sequence of sources.
pub open spec fn source_views(sources: Seq<Source>) -> Seq<SourceView> {
    sources.map_values(|s: Source| s@)
}

/// No two sources share an id.
pub open spec fn distinct_source_ids(sources: Seq<SourceView>) -> bool {
    forall|i: int, j: int|
        0 <= i < sources.len() && 0 <= j < sources.len() && i != j ==> (#[trigger] sources[i]).id != (
        #[trigger] sources[j]).id
}

/// Tells whether `sources` holds a source of the given id.
pub open spec fn has_source(sources: Seq<SourceView>, id: u128) -> bool {
    exists|i: int| 0 <= i < sources.len() && (#[trigger] sources[i]).id == id
}

/// The source of the given id, where `sources` holds one.
pub open spec fn source_with_id(sources: Seq<SourceView>, id: u128) -> SourceView {
    sources[choose|i: int| 0 <= i < sources.len() && (#[trigger] sources[i]).id == id]
}

/// The sources after the one of the given id had its last error set (or
/// cleared, with `None`) at time `now`.
pub open spec fn with_last_error(sources: Seq<SourceView>, id: u128, error: Option<Seq<char>>, now: u64) -> Seq<
    SourceView,
> {
    sources.map_values(
        |s: SourceView|
            if s.id == id {
                SourceView { last_error: error, updated_at: now, ..s }
            } else {
                s
            },
    )
}

/// The sources after the one of the given id was switched on or off at
/// time `now`.
pub open spec fn with_active(sources: Seq<SourceView>, id: u128, active: bool, now: u64) -> Seq<SourceView> {
    sources.map_values(
        |s: SourceView|
            if s.id == id {
                SourceView { is_active: active, updated_at: now, ..s }
            } else {
                s
            },
    )
}

/// The sources without the one of the given id, in their order.
pub open spec fn sources_except(sources: Seq<SourceView>, id: u128) -> Seq<SourceView>
    decreases sources.len(),
{
    if sources.len() == 0 {
        Seq::empty()
    } else if sources.last().id == id {
        sources_except(sources.drop_last(), id)
    } else {
        sources_except(sources.drop_last(), id).push(sources.last())
    }
}

/// Among the sources without the one of an id there is none of that id.
pub proof fn lemma_sources_except(sources: Seq<SourceView>, id: u128)
    ensures
        !has_source(sources_except(sources, id), id),
    decreases sources.len(),
{
    if sources.len() > 0 {
        lemma_sources_except(sources.drop_last(), id);
    }
    let kept = sources_except(sources, id);
    assert forall|i: int| 0 <= i < kept.len() implies (#[trigger] kept[i]).id != id by {
        if sources.last().id != id && i < kept.len() - 1 {
            assert(kept[i] == sources_except(sources.drop_last(), id)[i]);
        }
    }
}

/// Taking out a source that is not there changes nothing.
pub proof fn lemma_sources_except_absent(sources: Seq<SourceView>, id: u128)
    requires
        !has_source(sources, id),
    ensures
        sources_except(sources, id) == sources,
    decreases sources.len(),
{
    if sources.len() > 0 {
        let rest = sources.drop_last();
        assert(sources.last() == sources[sources.len() - 1]);
        assert forall|i: int| 0 <= i < rest.len() implies (#[trigger] rest[i]).id != id by {
            assert(rest[i] == sources[i]);
        }
        lemma_sources_except_absent(rest, id);
        assert(rest.push(sources.last()) =~= sources);
    }
}

proof fn lemma_remove_is_except(sources: Seq<SourceView>, at: int)
    requires
        distinct_source_ids(sources),
        0 <= at < sources.len(),
    ensures
        sources.remove(at) == sources_except(sources, sources[at].id),
        distinct_source_ids(sources.remove(at)),
        !has_source(sources.remove(at), sources[at].id),
    decreases sources.len(),
{
    let id = sources[at].id;
    let rest = sources.drop_last();
    let after = sources.remove(at);
    assert forall|i: int, j: int| 0 <= i < after.len() && 0 <= j < after.len() && i != j implies (
    #[trigger] after[i]).id != (#[trigger] after[j]).id by {
        let a = if i < at { i } else { i + 1 };
        let b = if j < at { j } else { j + 1 };
        assert(after[i] == sources[a]);
        assert(after[j] == sources[b]);
    }
    assert forall|i: int| 0 <= i < after.len() implies (#[trigger] after[i]).id != id by {
        let a = if i < at { i } else { i + 1 };
        assert(after[i] == sources[a]);
    }
    assert(sources.last() == sources[sources.len() - 1]);
    if at == sources.len() - 1 {
        assert(after =~= rest);
        assert forall|i: int| 0 <= i < rest.len() implies (#[trigger] rest[i]).id != id by {
            assert(rest[i] == sources[i]);
        }
        lemma_sources_except_absent(rest, id);
    } else {
        assert forall|i: int, j: int| 0 <= i < rest.len() && 0 <= j < rest.len() && i != j implies (
        #[trigger] rest[i]).id != (#[trigger] rest[j]).id by {
            assert(rest[i] == sources[i]);
            assert(rest[j] == sources[j]);
        }
        assert(rest[at] == sources[at]);
        lemma_remove_is_except(rest, at);
        assert(after =~= rest.remove(at).push(sources.last()));
    }
}

/// A source was refused: one of that id exists already.
#[derive(Clone, Copy, Debug, PartialEq, Eq, Structural)]
pub struct DuplicateSource;

/// The configured sources, in the order of their creation.
pub struct SourceTable {
    sources: Vec<Source>,
}

impl View for SourceTable {
    type V = Seq<SourceView>;

    closed spec fn view(&self) -> Seq<SourceView> {
        source_views(self.sources@)
    }
}

impl SourceTable {
    /// The invariant of the table: an id names one source.
    pub open spec fn wf(&self) -> bool {
        distinct_source_ids(self@)
    }

    /// A table without sources.
    pub fn new() -> (table: SourceTable)
        ensures
            table.wf(),
            table@ == Seq::<SourceView>::empty(),
    {
        let table = SourceTable { sources: Vec::new() };
        assert(table@ =~= Seq::<SourceView>::empty());
        table
    }

    fn position(&self, id: u128) -> (found: Option<usize>)
        ensures
            match found {
                Some(at) => at < self@.len() && self@[at as int].id == id,
                None => !has_source(self@, id),
            },
    {
        let n = self.sources.len();
        let mut i: usize = 0;
        while i < n
            invariant
                i <= n,
                n == self.sources@.len(),
                forall|k: int| 0 <= k < i ==> (#[trigger] self@[k]).id != id,
            decreases n - i,
        {
            if self.sources[i].id == id {
                return Some(i);
            }
            i += 1;
        }
        None
    }

    /// The source of the given id.
    pub fn find(&self, id: u128) -> (found: Option<&Source>)
        requires
            self.wf(),
        ensures
            match found {
                Some(s) => has_source(self@, id) && s@ == source_with_id(self@, id),
                None => !has_source(self@, id),
            },
    {
        match self.position(id) {
            Some(at) => {
                assert(self@[at as int] == self.sources@[at as int]@);
                Some(&self.sources[at])
            },
            None => None,
        }
    }

    /// All sources, in the order of their creation.
    pub fn list(&self) -> (all: &Vec<Source>)
        ensures
            source_views(all@) == self@,
    {
        &self.sources
    }

    /// Writes down a new, active source, unless the id is taken.
    pub fn create(&mut self, id: u128, source_type: String, name: String, now: u64) -> (created: Result<
        (),
        DuplicateSource,
    >)
        requires
            old(self).wf(),
        ensures
            final(self).wf(),
            match created {
                Ok(()) => !has_source(old(self)@, id) && final(self)@ == old(self)@.push(
                    SourceView::created(id, source_type@, name@, now),
                ),
                Err(_) => has_source(old(self)@, id) && final(self)@ == old(self)@,
            },
    {
        match self.position(id) {
            Some(_) => Err(DuplicateSource),
            None => {
                let source = Source {
                    id,
                    source_type,
                    name,
                    is_active: true,
                    last_error: None,
                    created_at: now,
                    updated_at: now,
                };
                self.sources.push(source);
                proof {
                    assert(self@ =~= old(self)@.push(SourceView::created(id, source_type@, name@, now)));
                    assert forall|i: int, j: int|
                        0 <= i < self@.len() && 0 <= j < self@.len() && i != j implies (#[trigger] self@[i]).id
                        != (#[trigger] self@[j]).id by {
                        if i < old(self)@.len() {
                            assert(self@[i] == old(self)@[i]);
                        }
                        if j < old(self)@.len() {
                            assert(self@[j] == old(self)@[j]);
                        }
                    }
                }
                Ok(())
            },
        }
    }

    /// Takes a source out of the table. Tells whether there was one of
    /// that id.
    pub fn remove(&mut self, id: u128) -> (found: bool)
        requires
            old(self).wf(),
        ensures
            final(self).wf(),
            found == has_source(old(self)@, id),
            final(self)@ == sources_except(old(self)@, id),
            !has_source(final(self)@, id),
    {
        match self.position(id) {
            Some(at) => {
                proof {
                    lemma_remove_is_except(self@, at as int);
                }
                self.sources.remove(at);
                assert(self@ =~= old(self)@.remove(at as int));
                true
            },
            None => {
                proof {
                    lemma_sources_except_absent(self@, id);
                }
                false
            },
        }
    }

    /// Sets the last error of a source, or clears it with `None`. Tells
    /// whether the source exists; a table without it stays as it is.
    pub fn set_last_error(&mut self, id: u128, error: Option<String>, now: u64) -> (found: bool)
        requires
            old(self).wf(),
        ensures
            final(self).wf(),
            found == has_source(old(self)@, id),
            final(self)@ == with_last_error(old(self)@, id, opt_chars(error), now),
    {
        match self.position(id) {
            Some(at) => {
                self.sources[at].last_error = error;
                self.sources[at].updated_at = now;
                proof {
                    let want = with_last_error(old(self)@, id, opt_chars(error), now);
                    assert forall|k: int| 0 <= k < want.len() implies self@[k] == want[k] by {
                        if k != at {
                            assert(old(self)@[k].id != old(self)@[at as int].id);
                        }
                    }
                    assert(self@ =~= want);
                    assert forall|i: int, j: int|
                        0 <= i < self@.len() && 0 <= j < self@.len() && i != j implies (#[trigger] self@[i]).id
                        != (#[trigger] self@[j]).id by {
                        assert(self@[i].id == old(self)@[i].id);
                        assert(self@[j].id == old(self)@[j].id);
                    }
                }
                true
            },
            None => {
                proof {
                    let want = with_last_error(old(self)@, id, opt_chars(error), now);
                    assert forall|k: int| 0 <= k < want.len() implies self@[k] == want[k] by {
                        assert(old(self)@[k].id != id);
                    }
                    assert(self@ =~= want);
                }
                false
            },
        }
    }

    /// Switches a source on or off. Tells whether the source exists; a
    /// table without it stays as it is.
    pub fn set_active(&mut self, id: u128, active: bool, now: u64) -> (found: bool)
        requires
            old(self).wf(),
        ensures
            final(self).wf(),
            found == has_source(old(self)@, id),
            final(self)@ == with_active(old(self)@, id, active, now),
    {
        match self.position(id) {
            Some(at) => {
                self.sources[at].is_active = active;
                self.sources[at].updated_at = now;
                proof {
                    let want = with_active(old(self)@, id, active, now);
                    assert forall|k: int| 0 <= k < want.len() implies self@[k] == want[k] by {
                        if k != at {
                            assert(old(self)@[k].id != old(self)@[at as int].id);
                        }
                    }
                    assert(self@ =~= want);
                    assert forall|i: int, j: int|
                        0 <= i < self@.len() && 0 <= j < self@.len() && i != j implies (#[trigger] self@[i]).id
                        != (#[trigger] self@[j]).id by {
                        assert(self@[i].id == old(self)@[i].id);
                        assert(self@[j].id == old(self)@[j].id);
                    }
                }
                true
            },
            None => {
                proof {
                    let want = with_active(old(self)@, id, active, now);
                    assert forall|k: int| 0 <= k < want.len() implies self@[k] == want[k] by {
                        assert(old(self)@[k].id != id);
                    }
                    assert(self@ =~= want);
                }
                false
            },
        }
    }
}

/// One sync-capable feed of a source.
#[derive(Clone, Debug, PartialEq, Eq)]
pub struct Stream {
    pub source_id: u128,
    pub name: String,
    pub enabled: bool,
    pub supports_incremental: bool,
    pub supports_full_refresh: bool,
    /// The stream's configuration, a document that only its connector reads.
    pub config: String,
    pub cron_schedule: Option<String>,
    pub last_sync_at: Option<u64>,
    pub table_name: String,
}

/// The model of a [`Stream`].
pub struct StreamView {
    pub source_id: u128,
    pub name: Seq<char>,
    pub enabled: bool,
    pub supports_incremental: bool,
    pub supports_full_refresh: bool,
    pub config: Seq<char>,
    pub cron_schedule: Option<Seq<char>>,
    pub last_sync_at: Option<u64>,
    pub table_name: Seq<char>,
}

impl View for Stream {
    type V = StreamView;

    open spec fn view(&self) -> StreamView {
        StreamView {
            source_id: self.source_id,
            name: self.name@,
            enabled: self.enabled,
            supports_incremental: self.supports_incremental,
            supports_full_refresh: self.supports_full_refresh,
            config: self.config@,
            cron_schedule: opt_chars(self.cron_schedule),
            last_sync_at: self.last_sync_at,
            table_name: self.table_name@,
        }
    }
}

impl StreamView {
    /// Tells whether this is the stream `name` of the source `source_id`.
    pub open spec fn is(self, source_id: u128, name: Seq<char>) -> bool {
        self.source_id == source_id && self.name == name
    }
}

/// The models of a sequence of streams.
pub open spec fn stream_views(streams: Seq<Stream>) -> Seq<StreamView> {
    streams.map_values(|s: Stream| s@)
}

/// No two streams of one source share a name.
pub open spec fn distinct_streams(streams: Seq<StreamView>) -> bool {
    forall|i: int, j: int|
        0 <= i < streams.len() && 0 <= j < streams.len() && i != j ==> !(#[trigger] streams[i]).is(
            (#[trigger] streams[j]).source_id,
            streams[j].name,
        )
}

/// Tells whether `streams` holds the given stream of the given source.
pub open spec fn has_stream(streams: Seq<StreamView>, source_id: u128, name: Seq<char>) -> bool {
    exists|i: int| 0 <= i < streams.len() && (#[trigger] streams[i]).is(source_id, name)
}

/// The given stream of the given source, where `streams` holds it.
pub open spec fn stream_named(streams: Seq<StreamView>, source_id: u128, name: Seq<char>) -> StreamView {
    streams[choose|i: int| 0 <= i < streams.len() && (#[trigger] streams[i]).is(source_id, name)]
}

/// The streams of one source among `streams`, in their order.
pub open spec fn streams_of(streams: Seq<StreamView>, source_id: u128) -> Seq<StreamView>
    decreases streams.len(),
{
    if streams.len() == 0 {
        Seq::empty()
    } else if streams.last().source_id == source_id {
        streams_of(streams.drop_last(), source_id).push(streams.last())
    } else {
        streams_of(streams.drop_last(), source_id)
    }
}

/// The streams of all sources but one among `streams`, in their order.
pub open spec fn streams_except(streams: Seq<StreamView>, source_id: u128) -> Seq<StreamView>
    decreases streams.len(),
{
    if streams.len() == 0 {
        Seq::empty()
    } else if streams.last().source_id == source_id {
        streams_except(streams.drop_last(), source_id)
    } else {
        streams_except(streams.drop_last(), source_id).push(streams.last())
    }
}

/// Among the streams of all sources but one there is none of that one.
pub proof fn lemma_streams_except(streams: Seq<StreamView>, source_id: u128)
    ensures
        forall|i: int|
            0 <= i < streams_except(streams, source_id).len() ==> (#[trigger] streams_except(
                streams,
                source_id,
            )[i]).source_id != source_id,
        forall|name: Seq<char>| !has_stream(streams_except(streams, source_id), source_id, name),
    decreases streams.len(),
{
    if streams.len() > 0 {
        lemma_streams_except(streams.drop_last(), source_id);
    }
    let kept = streams_except(streams, source_id);
    assert forall|i: int| 0 <= i < kept.len() implies (#[trigger] kept[i]).source_id != source_id by {
        if streams.last().source_id != source_id && i < kept.len() - 1 {
            assert(kept[i] == streams_except(streams.drop_last(), source_id)[i]);
        }
    }
}

/// The streams after the given one was enabled or disabled.
pub open spec fn with_enabled(streams: Seq<StreamView>, source_id: u128, name: Seq<char>, enabled: bool) -> Seq<
    StreamView,
> {
    streams.map_values(
        |s: StreamView|
            if s.is(source_id, name) {
                StreamView { enabled, ..s }
            } else {
                s
            },
    )
}

/// The streams after the given one finished a sync at time `now`.
pub open spec fn with_synced(streams: Seq<StreamView>, source_id: u128, name: Seq<char>, now: u64) -> Seq<
    StreamView,
> {
    streams.map_values(
        |s: StreamView|
            if s.is(source_id, name) {
                StreamView { last_sync_at: Some(now), ..s }
            } else {
                s
            },
    )
}

/// The streams after the given one took a new schedule, or lost its
/// schedule with `None`.
pub open spec fn with_schedule(
    streams: Seq<StreamView>,
    source_id: u128,
    name: Seq<char>,
    cron_schedule: Option<Seq<char>>,
) -> Seq<StreamView> {
    streams.map_values(
        |s: StreamView|
            if s.is(source_id, name) {
                StreamView { cron_schedule, ..s }
            } else {
                s
            },
    )
}

/// The streams after the given one took a new configuration.
pub open spec fn with_config(streams: Seq<StreamView>, source_id: u128, name: Seq<char>, config: Seq<char>) -> Seq<
    StreamView,
> {
    streams.map_values(
        |s: StreamView|
            if s.is(source_id, name) {
                StreamView { config, ..s }
            } else {
                s
            },
    )
}

/// A stream was refused: the source has one of that name already.
#[derive(Clone, Copy, Debug, PartialEq, Eq, Structural)]
pub struct DuplicateStream;

/// The streams of all sources, in the order in which they were first
/// enabled.
pub struct StreamTable {
    streams: Vec<Stream>,
}

impl View for StreamTable {
    type V = Seq<StreamView>;

    closed spec fn view(&self) -> Seq<StreamView> {
        stream_views(self.streams@)
    }
}

impl StreamTable {
    /// The invariant of the table: a source and a name pick one stream.
    pub open spec fn wf(&self) -> bool {
        distinct_streams(self@)
    }

    /// A table without streams.
    pub fn new() -> (table: StreamTable)
        ensures
            table.wf(),
            table@ == Seq::<StreamView>::empty(),
    {
        let table = StreamTable { streams: Vec::new() };
        assert(table@ =~= Seq::<StreamView>::empty());
        table
    }

    fn position(&self, source_id: u128, name: &str) -> (found: Option<usize>)
        ensures
            match found {
                Some(at) => at < self@.len() && self@[at as int].is(source_id, name@),
                None => !has_stream(self@, source_id, name@),
            },
    {
        let n = self.streams.len();
        let mut i: usize = 0;
        while i < n
            invariant
                i <= n,
                n == self.streams@.len(),
                forall|k: int| 0 <= k < i ==> !(#[trigger] self@[k]).is(source_id, name@),
            decreases n - i,
        {
            if self.streams[i].source_id == source_id && str_eq(self.streams[i].name.as_str(), name) {
                return Some(i);
            }
            i += 1;
        }
        None
    }

    /// The given stream of the given source.
    pub fn find(&self, source_id: u128, name: &str) -> (found: Option<&Stream>)
        requires
            self.wf(),
        ensures
            match found {
                Some(s) => has_stream(self@, source_id, name@) && s@ == stream_named(self@, source_id, name@),
                None => !has_stream(self@, source_id, name@),
            },
    {
        match self.position(source_id, name) {
            Some(at) => {
                assert(self@[at as int] == self.streams@[at as int]@);
                Some(&self.streams[at])
            },
            None => None,
        }
    }

    /// All streams, in the order in which they were first enabled.
    pub fn list(&self) -> (all: &Vec<Stream>)
        ensures
            stream_views(all@) == self@,
    {
        &self.streams
    }

    /// The streams of one source, in the order in which they were first
    /// enabled.
    pub fn of_source(&self, source_id: u128) -> (found: Vec<&Stream>)
        ensures
            found@.map_values(|s: &Stream| s@) == streams_of(self@, source_id),
    {
        let mut found: Vec<&Stream> = Vec::new();
        let n = self.streams.len();
        let mut i: usize = 0;
        assert(self@.take(0) =~= Seq::<StreamView>::empty());
        assert(found@.map_values(|s: &Stream| s@) =~= Seq::<StreamView>::empty());
        while i < n
            invariant
                i <= n,
                n == self.streams@.len(),
                found@.map_values(|s: &Stream| s@) == streams_of(self@.take(i as int), source_id),
            decreases n - i,
        {
            proof {
                assert(self@.take(i + 1).drop_last() =~= self@.take(i as int));
                assert(self@.take(i + 1).last() == self.streams@[i as int]@);
            }
            if self.streams[i].source_id == source_id {
                let ghost before = found@.map_values(|s: &Stream| s@);
                found.push(&self.streams[i]);
                assert(found@.map_values(|s: &Stream| s@) =~= before.push(self.streams@[i as int]@));
            }
            i += 1;
        }
        assert(self@.take(n as int) =~= self@);
        found
    }

    /// Adds a stream at the end, unless its source has one of that name.
    pub fn add(&mut self, stream: Stream) -> (added: Result<(), DuplicateStream>)
        requires
            old(self).wf(),
        ensures
            final(self).wf(),
            match added {
                Ok(()) => !has_stream(old(self)@, stream.source_id, stream@.name) && final(self)@ == old(
                    self,
                )@.push(stream@),
                Err(_) => has_stream(old(self)@, stream.source_id, stream@.name) && final(self)@ == old(self)@,
            },
    {
        match self.position(stream.source_id, stream.name.as_str()) {
            Some(_) => Err(DuplicateStream),
            None => {
                self.streams.push(stream);
                proof {
                    assert(self@ =~= old(self)@.push(stream@));
                    assert forall|i: int, j: int|
                        0 <= i < self@.len() && 0 <= j < self@.len() && i != j implies !(#[trigger] self@[i]).is(
                        (#[trigger] self@[j]).source_id,
                        self@[j].name,
                    ) by {
                        if i < old(self)@.len() {
                            assert(self@[i] == old(self)@[i]);
                        }
                        if j < old(self)@.len() {
                            assert(self@[j] == old(self)@[j]);
                        }
                    }
                }
                Ok(())
            },
        }
    }

    /// Takes every stream of a source out of the table. Tells how many
    /// there were.
    pub fn remove_source(&mut self, source_id: u128) -> (removed: usize)
        requires
            old(self).wf(),
        ensures
            final(self).wf(),
            final(self)@ == streams_except(old(self)@, source_id),
            removed == old(self)@.len() - final(self)@.len(),
    {
        let mut removed: usize = 0;
        let mut i: usize = 0;
        let total = self.streams.len();
        proof {
            assert(old(self)@.take(0) =~= Seq::<StreamView>::empty());
            assert(self@.take(0) =~= Seq::<StreamView>::empty());
            assert(self@.skip(0) =~= old(self)@.skip(0));
        }
        while i < self.streams.len()
            invariant
                i <= self.streams@.len(),
                self.wf(),
                total == old(self)@.len(),
                i + removed <= total,
                self.streams@.len() + removed == total,
                self@.take(i as int) == streams_except(old(self)@.take(i + removed), source_id),
                self@.skip(i as int) == old(self)@.skip(i + removed),
            decreases self.streams@.len() - i,
        {
            let ghost before = self@;
            let ghost seen = i + removed;
            proof {
                assert(before[i as int] == before.skip(i as int)[0]);
                assert(before[i as int] == old(self)@[seen]);
                assert(old(self)@.take(seen + 1).drop_last() =~= old(self)@.take(seen));
                assert(old(self)@.take(seen + 1).last() == old(self)@[seen]);
            }
            if self.streams[i].source_id == source_id {
                self.streams.remove(i);
                proof {
                    assert(self@ =~= before.remove(i as int));
                    assert(self@.take(i as int) =~= before.take(i as int));
                    assert(self@.skip(i as int) =~= before.skip(i as int).drop_first());
                    assert(before.skip(i as int).drop_first() =~= old(self)@.skip(seen + 1));
                    assert forall|a: int, b: int| 0 <= a < self@.len() && 0 <= b < self@.len() && a != b implies !(
                    #[trigger] self@[a]).is((#[trigger] self@[b]).source_id, self@[b].name) by {
                        let a0 = if a < i { a } else { a + 1 };
                        let b0 = if b < i { b } else { b + 1 };
                        assert(self@[a] == before[a0]);
                        assert(self@[b] == before[b0]);
                    }
                }
                removed += 1;
            } else {
                proof {
                    assert(self@.take(i + 1) =~= self@.take(i as int).push(self@[i as int]));
                    assert(self@.skip(i + 1) =~= self@.skip(i as int).drop_first());
                    assert(self@.skip(i as int).drop_first() =~= old(self)@.skip(seen + 1));
                }
                i += 1;
            }
        }
        proof {
            assert(self@.take(i as int) =~= self@);
            assert(self@.skip(i as int).len() == 0);
            assert(old(self)@.take(i + removed) =~= old(self)@);
        }
        removed
    }

    /// Enables or disables a stream. Tells whether the stream exists; a
    /// table without it stays as it is.
    pub fn set_enabled(&mut self, source_id: u128, name: &str, enabled: bool) -> (found: bool)
        requires
            old(self).wf(),
        ensures
            final(self).wf(),
            found == has_stream(old(self)@, source_id, name@),
            final(self)@ == with_enabled(old(self)@, source_id, name@, enabled),
    {
        match self.position(source_id, name) {
            Some(at) => {
                self.streams[at].enabled = enabled;
                proof {
                    let want = with_enabled(old(self)@, source_id, name@, enabled);
                    assert forall|k: int| 0 <= k < want.len() implies self@[k] == want[k] by {
                        if k != at {
                            assert(!old(self)@[k].is(old(self)@[at as int].source_id, old(self)@[at as int].name));
                        }
                    }
                    assert(self@ =~= want);
                    assert forall|i: int, j: int|
                        0 <= i < self@.len() && 0 <= j < self@.len() && i != j implies !(#[trigger] self@[i]).is(
                        (#[trigger] self@[j]).source_id,
                        self@[j].name,
                    ) by {
                        assert(self@[i].is(old(self)@[i].source_id, old(self)@[i].name));
                        assert(self@[j].is(old(self)@[j].source_id, old(self)@[j].name));
                    }
                }
                true
            },
            None => {
                proof {
                    let want = with_enabled(old(self)@, source_id, name@, enabled);
                    assert forall|k: int| 0 <= k < want.len() implies self@[k] == want[k] by {
                        assert(!old(self)@[k].is(source_id, name@));
                    }
                    assert(self@ =~= want);
                }
                false
            },
        }
    }

    /// Stamps the end of a sync on a stream. Tells whether the stream
    /// exists; a table without it stays as it is.
    pub fn mark_synced(&mut self, source_id: u128, name: &str, now: u64) -> (found: bool)
        requires
            old(self).wf(),
        ensures
            final(self).wf(),
            found == has_stream(old(self)@, source_id, name@),
            final(self)@ == with_synced(old(self)@, source_id, name@, now),
    {
        match self.position(source_id, name) {
            Some(at) => {
                self.streams[at].last_sync_at = Some(now);
                proof {
                    let want = with_synced(old(self)@, source_id, name@, now);
                    assert forall|k: int| 0 <= k < want.len() implies self@[k] == want[k] by {
                        if k != at {
                            assert(!old(self)@[k].is(old(self)@[at as int].source_id, old(self)@[at as int].name));
                        }
                    }
                    assert(self@ =~= want);
                    assert forall|i: int, j: int|
                        0 <= i < self@.len() && 0 <= j < self@.len() && i != j implies !(#[trigger] self@[i]).is(
                        (#[trigger] self@[j]).source_id,
                        self@[j].name,
                    ) by {
                        assert(self@[i].is(old(self)@[i].source_id, old(self)@[i].name));
                        assert(self@[j].is(old(self)@[j].source_id, old(self)@[j].name));
                    }
                }
                true
            },
            None => {
                proof {
                    let want = with_synced(old(self)@, source_id, name@, now);
                    assert forall|k: int| 0 <= k < want.len() implies self@[k] == want[k] by {
                        assert(!old(self)@[k].is(source_id, name@));
                    }
                    assert(self@ =~= want);
                }
                false
            },
        }
    }

    /// Gives a stream a new configuration. Tells whether the stream
    /// exists; a table without it stays as it is.
    pub fn set_config(&mut self, source_id: u128, name: &str, config: String) -> (found: bool)
        requires
            old(self).wf(),
        ensures
            final(self).wf(),
            found == has_stream(old(self)@, source_id, name@),
            final(self)@ == with_config(old(self)@, source_id, name@, config@),
    {
        match self.position(source_id, name) {
            Some(at) => {
                self.streams[at].config = config;
                proof {
                    let want = with_config(old(self)@, source_id, name@, config@);
                    assert forall|k: int| 0 <= k < want.len() implies self@[k] == want[k] by {
                        if k != at {
                            assert(!old(self)@[k].is(old(self)@[at as int].source_id, old(self)@[at as int].name));
                        }
                    }
                    assert(self@ =~= want);
                    assert forall|i: int, j: int|
                        0 <= i < self@.len() && 0 <= j < self@.len() && i != j implies !(#[trigger] self@[i]).is(
                        (#[trigger] self@[j]).source_id,
                        self@[j].name,
                    ) by {
                        assert(self@[i].is(old(self)@[i].source_id, old(self)@[i].name));
                        assert(self@[j].is(old(self)@[j].source_id, old(self)@[j].name));
                    }
                }
                true
            },
            None => {
                proof {
                    let want = with_config(old(self)@, source_id, name@, config@);
                    assert forall|k: int| 0 <= k < want.len() implies self@[k] == want[k] by {
                        assert(!old(self)@[k].is(source_id, name@));
                    }
                    assert(self@ =~= want);
                }
                false
            },
        }
    }

    /// Gives a stream a new schedule, or takes its schedule away with
    /// `None`. Tells whether the stream exists; a table without it stays as
    /// it is.
    pub fn set_schedule(&mut self, source_id: u128, name: &str, cron_schedule: Option<String>) -> (found: bool)
        requires
            old(self).wf(),
        ensures
            final(self).wf(),
            found == has_stream(old(self)@, source_id, name@),
            final(self)@ == with_schedule(old(self)@, source_id, name@, opt_chars(cron_schedule)),
    {
        match self.position(source_id, name) {
            Some(at) => {
                self.streams[at].cron_schedule = cron_schedule;
                proof {
                    let want = with_schedule(old(self)@, source_id, name@, opt_chars(cron_schedule));
                    assert forall|k: int| 0 <= k < want.len() implies self@[k] == want[k] by {
                        if k != at {
                            assert(!old(self)@[k].is(old(self)@[at as int].source_id, old(self)@[at as int].name));
                        }
                    }
                    assert(self@ =~= want);
                    assert forall|i: int, j: int|
                        0 <= i < self@.len() && 0 <= j < self@.len() && i != j implies !(#[trigger] self@[i]).is(
                        (#[trigger] self@[j]).source_id,
                        self@[j].name,
                    ) by {
                        assert(self@[i].is(old(self)@[i].source_id, old(self)@[i].name));
                        assert(self@[j].is(old(self)@[j].source_id, old(self)@[j].name));
                    }
                }
                true
            },
            None => {
                proof {
                    let want = with_schedule(old(self)@, source_id, name@, opt_chars(cron_schedule));
                    assert forall|k: int| 0 <= k < want.len() implies self@[k] == want[k] by {
                        assert(!old(self)@[k].is(source_id, name@));
                    }
                    assert(self@ =~= want);
                }
                false
            },
        }
    }
}

/// Stamping the end of a sync changes the stamp of the one stream and
/// nothing else: every stream is still there, with its switch and its
/// capabilities.
pub proof fn lemma_with_synced_keeps_streams(
    streams: Seq<StreamView>,
    synced: (u128, Seq<char>),
    now: u64,
    source_id: u128,
    name: Seq<char>,
)
    requires
        distinct_streams(streams),
        has_stream(streams, source_id, name),
    ensures
        has_stream(with_synced(streams, synced.0, synced.1, now), source_id, name),
        stream_named(with_synced(streams, synced.0, synced.1, now), source_id, name) == if (source_id, name)
            == synced {
            StreamView { last_sync_at: Some(now), ..stream_named(streams, source_id, name) }
        } else {
            stream_named(streams, source_id, name)
        },
{
    let after = with_synced(streams, synced.0, synced.1, now);
    let at = choose|i: int| 0 <= i < streams.len() && (#[trigger] streams[i]).is(source_id, name);
    assert(after[at].is(source_id, name));
    let chosen = choose|i: int| 0 <= i < after.len() && (#[trigger] after[i]).is(source_id, name);
    assert(streams[chosen].is(source_id, name));
    if chosen != at {
        assert(!streams[chosen].is(streams[at].source_id, streams[at].name));
    }
}

} // verus!
