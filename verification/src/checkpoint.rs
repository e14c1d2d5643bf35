//! The checkpoint store: one opaque cursor, or none, for each stream of each
//! source.
//!
//! No cursor means "from the beginning of time". The store never looks
//! inside a cursor; it only keeps the last one written.

use vstd::prelude::*;
use crate::text::str_eq;

verus! {

/// A write to a store was refused.
#[derive(Clone, Copy, Debug, PartialEq, Eq, Structural)]
pub enum StorageError {
    /// The store holds as many entries as it was made for.
    CapacityExceeded,
}

/// A stream of a source: the source's id and the stream's name.
pub type StreamKey = (u128, Seq<char>);

struct Entry {
    source_id: u128,
    stream_name: String,
    cursor: String,
}

impl Entry {
    spec fn key(self) -> StreamKey {
        (self.source_id, self.stream_name@)
    }
}

/// The map that a list of entries stands for; a later entry would win.
spec fn cursor_map(entries: Seq<Entry>) -> Map<StreamKey, Seq<char>>
    decreases entries.len(),
{
    if entries.len() == 0 {
        Map::empty()
    } else {
        cursor_map(entries.drop_last()).insert(entries.last().key(), entries.last().cursor@)
    }
}

spec fn distinct_keys(entries: Seq<Entry>) -> bool {
    forall|i: int, j: int|
        0 <= i < entries.len() && 0 <= j < entries.len() && i != j ==> (#[trigger] entries[i]).key() != (
        #[trigger] entries[j]).key()
}

proof fn lemma_absent(entries: Seq<Entry>, key: StreamKey)
    requires
        forall|i: int| 0 <= i < entries.len() ==> (#[trigger] entries[i]).key() != key,
    ensures
        !cursor_map(entries).dom().contains(key),
    decreases entries.len(),
{
    if entries.len() > 0 {
        let rest = entries.drop_last();
        assert forall|i: int| 0 <= i < rest.len() implies (#[trigger] rest[i]).key() != key by {
            assert(rest[i] == entries[i]);
        }
        lemma_absent(rest, key);
        assert(entries.last() == entries[entries.len() - 1]);
    }
}

proof fn lemma_present(entries: Seq<Entry>, at: int)
    requires
        distinct_keys(entries),
        0 <= at < entries.len(),
    ensures
        cursor_map(entries).dom().contains(entries[at].key()),
        cursor_map(entries)[entries[at].key()] == entries[at].cursor@,
    decreases entries.len(),
{
    let rest = entries.drop_last();
    if at < entries.len() - 1 {
        assert forall|i: int, j: int|
            0 <= i < rest.len() && 0 <= j < rest.len() && i != j implies (#[trigger] rest[i]).key() != (
        #[trigger] rest[j]).key() by {
            assert(rest[i] == entries[i]);
            assert(rest[j] == entries[j]);
        }
        lemma_present(rest, at);
        assert(rest[at] == entries[at]);
        assert(entries.last() == entries[entries.len() - 1]);
    }
}

proof fn lemma_size(entries: Seq<Entry>)
    requires
        distinct_keys(entries),
    ensures
        cursor_map(entries).dom().finite(),
        cursor_map(entries).dom().len() == entries.len(),
    decreases entries.len(),
{
    if entries.len() > 0 {
        let rest = entries.drop_last();
        assert forall|i: int, j: int|
            0 <= i < rest.len() && 0 <= j < rest.len() && i != j implies (#[trigger] rest[i]).key() != (
        #[trigger] rest[j]).key() by {
            assert(rest[i] == entries[i]);
            assert(rest[j] == entries[j]);
        }
        lemma_size(rest);
        assert forall|i: int| 0 <= i < rest.len() implies (#[trigger] rest[i]).key() != entries.last().key() by {
            assert(rest[i] == entries[i]);
            assert(entries.last() == entries[entries.len() - 1]);
        }
        lemma_absent(rest, entries.last().key());
    }
}

proof fn lemma_overwrite(entries: Seq<Entry>, at: int, entry: Entry)
    requires
        distinct_keys(entries),
        0 <= at < entries.len(),
        entry.key() == entries[at].key(),
    ensures
        distinct_keys(entries.update(at, entry)),
        cursor_map(entries.update(at, entry)) == cursor_map(entries).insert(entry.key(), entry.cursor@),
    decreases entries.len(),
{
    let after = entries.update(at, entry);
    assert forall|i: int, j: int|
        0 <= i < after.len() && 0 <= j < after.len() && i != j implies (#[trigger] after[i]).key() != (
    #[trigger] after[j]).key() by {
        assert(after[i].key() == entries[i].key());
        assert(after[j].key() == entries[j].key());
    }
    let rest = entries.drop_last();
    if at == entries.len() - 1 {
        assert(after.drop_last() =~= rest);
        assert(cursor_map(after) =~= cursor_map(entries).insert(entry.key(), entry.cursor@));
    } else {
        assert forall|i: int, j: int|
            0 <= i < rest.len() && 0 <= j < rest.len() && i != j implies (#[trigger] rest[i]).key() != (
        #[trigger] rest[j]).key() by {
            assert(rest[i] == entries[i]);
            assert(rest[j] == entries[j]);
        }
        assert(rest[at] == entries[at]);
        lemma_overwrite(rest, at, entry);
        assert(after.drop_last() =~= rest.update(at, entry));
        assert(after.last() == entries.last());
        assert(entries.last() == entries[entries.len() - 1]);
        assert(entries.last().key() != entry.key());
        assert(cursor_map(after) =~= cursor_map(entries).insert(entry.key(), entry.cursor@));
    }
}

proof fn lemma_remove_entry(entries: Seq<Entry>, at: int)
    requires
        distinct_keys(entries),
        0 <= at < entries.len(),
    ensures
        distinct_keys(entries.remove(at)),
        cursor_map(entries.remove(at)) == cursor_map(entries).remove(entries[at].key()),
    decreases entries.len(),
{
    let after = entries.remove(at);
    assert forall|i: int, j: int|
        0 <= i < after.len() && 0 <= j < after.len() && i != j implies (#[trigger] after[i]).key() != (
    #[trigger] after[j]).key() by {
        let a = if i < at { i } else { i + 1 };
        let b = if j < at { j } else { j + 1 };
        assert(after[i] == entries[a]);
        assert(after[j] == entries[b]);
    }
    let rest = entries.drop_last();
    assert(entries.last() == entries[entries.len() - 1]);
    if at == entries.len() - 1 {
        assert(after =~= rest);
        assert forall|i: int| 0 <= i < rest.len() implies (#[trigger] rest[i]).key() != entries[at].key() by {
            assert(rest[i] == entries[i]);
        }
        lemma_absent(rest, entries[at].key());
        assert(cursor_map(after) =~= cursor_map(entries).remove(entries[at].key()));
    } else {
        assert forall|i: int, j: int|
            0 <= i < rest.len() && 0 <= j < rest.len() && i != j implies (#[trigger] rest[i]).key() != (
        #[trigger] rest[j]).key() by {
            assert(rest[i] == entries[i]);
            assert(rest[j] == entries[j]);
        }
        assert(rest[at] == entries[at]);
        lemma_remove_entry(rest, at);
        assert(after.drop_last() =~= rest.remove(at));
        assert(after.last() == entries.last());
        assert(entries.last().key() != entries[at].key());
        assert(cursor_map(after) =~= cursor_map(entries).remove(entries[at].key()));
    }
}

/// The cursors of all sources but one.
pub open spec fn cursors_except(cursors: Map<StreamKey, Seq<char>>, source_id: u128) -> Map<
    StreamKey,
    Seq<char>,
> {
    Map::new(|k: StreamKey| cursors.dom().contains(k) && k.0 != source_id, |k: StreamKey| cursors[k])
}

/// The cursors of all streams, in memory, with room for a fixed number of
/// streams.
pub struct CheckpointStore {
    entries: Vec<Entry>,
    capacity: usize,
}

impl View for CheckpointStore {
    type V = Map<StreamKey, Seq<char>>;

    closed spec fn view(&self) -> Map<StreamKey, Seq<char>> {
        cursor_map(self.entries@)
    }
}

impl CheckpointStore {
    /// The invariant of the store: each stream has at most one entry, and
    /// the entries fit the capacity.
    pub closed spec fn wf(&self) -> bool {
        distinct_keys(self.entries@) && self.entries@.len() <= self.capacity
    }

    /// The number of streams that the store has room for.
    pub closed spec fn capacity(&self) -> nat {
        self.capacity as nat
    }

    /// A well-formed store holds finitely many cursors, no more than its
    /// capacity.
    pub proof fn lemma_bounded(&self)
        requires
            self.wf(),
        ensures
            self@.dom().finite(),
            self@.dom().len() <= self.capacity(),
    {
        lemma_size(self.entries@);
    }

    /// An empty store with room for as many streams as memory holds.
    pub fn new() -> (store: CheckpointStore)
        ensures
            store.wf(),
            store@ == Map::<StreamKey, Seq<char>>::empty(),
            store.capacity() == usize::MAX,
    {
        CheckpointStore { entries: Vec::new(), capacity: usize::MAX }
    }

    /// An empty store with room for the cursors of `capacity` streams.
    pub fn with_capacity(capacity: usize) -> (store: CheckpointStore)
        ensures
            store.wf(),
            store@ == Map::<StreamKey, Seq<char>>::empty(),
            store.capacity() == capacity,
    {
        CheckpointStore { entries: Vec::new(), capacity }
    }

    fn position(&self, source_id: u128, stream_name: &str) -> (found: Option<usize>)
        ensures
            match found {
                Some(at) => at < self.entries@.len() && self.entries@[at as int].key() == (
                    source_id,
                    stream_name@,
                ),
                None => forall|i: int|
                    0 <= i < self.entries@.len() ==> (#[trigger] self.entries@[i]).key() != (
                        source_id,
                        stream_name@,
                    ),
            },
    {
        let n = self.entries.len();
        let mut i: usize = 0;
        while i < n
            invariant
                i <= n,
                n == self.entries@.len(),
                forall|k: int|
                    0 <= k < i ==> (#[trigger] self.entries@[k]).key() != (source_id, stream_name@),
            decreases n - i,
        {
            let entry = &self.entries[i];
            if entry.source_id == source_id && str_eq(entry.stream_name.as_str(), stream_name) {
                return Some(i);
            }
            i += 1;
        }
        None
    }

    /// The cursor of the stream, or none where none was ever written.
    pub fn get(&self, source_id: u128, stream_name: &str) -> (cursor: Option<String>)
        requires
            self.wf(),
        ensures
            match cursor {
                Some(c) => self@.dom().contains((source_id, stream_name@)) && self@[(
                    source_id,
                    stream_name@,
                )] == c@,
                None => !self@.dom().contains((source_id, stream_name@)),
            },
    {
        match self.position(source_id, stream_name) {
            Some(at) => {
                proof {
                    lemma_present(self.entries@, at as int);
                }
                Some(self.entries[at].cursor.clone())
            },
            None => {
                proof {
                    lemma_absent(self.entries@, (source_id, stream_name@));
                }
                None
            },
        }
    }

    /// Drops the cursors of all streams of a source. Tells how many there
    /// were.
    pub fn remove_source(&mut self, source_id: u128) -> (removed: usize)
        requires
            old(self).wf(),
        ensures
            final(self).wf(),
            final(self).capacity() == old(self).capacity(),
            final(self)@ == cursors_except(old(self)@, source_id),
            removed == old(self)@.dom().len() - final(self)@.dom().len(),
    {
        let mut removed: usize = 0;
        let mut i: usize = 0;
        let total = self.entries.len();
        proof {
            lemma_size(self.entries@);
        }
        while i < self.entries.len()
            invariant
                i <= self.entries@.len(),
                self.wf(),
                self.capacity == old(self).capacity,
                total == old(self).entries@.len(),
                self.entries@.len() + removed == total,
                forall|j: int| 0 <= j < i ==> (#[trigger] self.entries@[j]).key().0 != source_id,
                forall|k: StreamKey|
                    k.0 != source_id ==> (#[trigger] self@.dom().contains(k)) == old(self)@.dom().contains(k),
                forall|k: StreamKey|
                    k.0 != source_id && self@.dom().contains(k) ==> #[trigger] self@[k] == old(self)@[k],
            decreases self.entries@.len() - i,
        {
            if self.entries[i].source_id == source_id {
                let ghost before = self.entries@;
                let ghost prev = self@;
                proof {
                    lemma_remove_entry(before, i as int);
                }
                self.entries.remove(i);
                proof {
                    let gone = before[i as int].key();
                    assert(gone.0 == source_id);
                    assert(self.entries@ =~= before.remove(i as int));
                    assert(prev == cursor_map(before));
                    assert(self@ == prev.remove(gone));
                    assert forall|j: int| 0 <= j < i implies (#[trigger] self.entries@[j]).key().0 != source_id by {
                        assert(self.entries@[j] == before[j]);
                    }
                    assert forall|k: StreamKey| k.0 != source_id implies (#[trigger] self@.dom().contains(k))
                        == old(self)@.dom().contains(k) by {
                        assert(k != gone);
                        assert(self@.dom().contains(k) == prev.dom().contains(k));
                        assert(prev.dom().contains(k) == old(self)@.dom().contains(k));
                    }
                    assert forall|k: StreamKey| k.0 != source_id && self@.dom().contains(k) implies #[trigger] self@[k]
                        == old(self)@[k] by {
                        assert(k != gone);
                        assert(prev.dom().contains(k));
                        assert(self@[k] == prev[k]);
                        assert(prev[k] == old(self)@[k]);
                    }
                }
                removed += 1;
            } else {
                i += 1;
            }
        }
        proof {
            lemma_size(self.entries@);
            assert forall|k: StreamKey| k.0 == source_id implies !self@.dom().contains(k) by {
                lemma_absent(self.entries@, k);
            }
            assert(self@ =~= cursors_except(old(self)@, source_id));
        }
        removed
    }

    /// Writes the cursor of the stream over the one it had. A stream that
    /// had none takes up new room; where the store has none left, the write
    /// is refused and nothing changes.
    pub fn set(&mut self, source_id: u128, stream_name: &str, cursor: String) -> (written: Result<
        (),
        StorageError,
    >)
        requires
            old(self).wf(),
        ensures
            final(self).wf(),
            final(self).capacity() == old(self).capacity(),
            match written {
                Ok(()) => {
                    &&& final(self)@ == old(self)@.insert((source_id, stream_name@), cursor@)
                    &&& (old(self)@.dom().contains((source_id, stream_name@)) || old(self)@.dom().len()
                        < old(self).capacity())
                },
                Err(e) => {
                    &&& e == StorageError::CapacityExceeded
                    &&& final(self)@ == old(self)@
                    &&& !old(self)@.dom().contains((source_id, stream_name@))
                    &&& old(self)@.dom().len() >= old(self).capacity()
                },
            },
    {
        proof {
            lemma_size(self.entries@);
        }
        match self.position(source_id, stream_name) {
            Some(at) => {
                let entry = Entry { source_id, stream_name: stream_name.to_string(), cursor };
                proof {
                    lemma_present(self.entries@, at as int);
                    lemma_overwrite(self.entries@, at as int, entry);
                }
                self.entries.set(at, entry);
                Ok(())
            },
            None => {
                proof {
                    lemma_absent(self.entries@, (source_id, stream_name@));
                }
                if self.entries.len() >= self.capacity {
                    return Err(StorageError::CapacityExceeded);
                }
                let entry = Entry { source_id, stream_name: stream_name.to_string(), cursor };
                self.entries.push(entry);
                proof {
                    assert(self.entries@.drop_last() =~= old(self).entries@);
                    assert(self.entries@.last() == entry);
                    assert forall|i: int, j: int|
                        0 <= i < self.entries@.len() && 0 <= j < self.entries@.len() && i != j implies (
                    #[trigger] self.entries@[i]).key() != (#[trigger] self.entries@[j]).key() by {
                        if i < old(self).entries@.len() {
                            assert(self.entries@[i] == old(self).entries@[i]);
                        }
                        if j < old(self).entries@.len() {
                            assert(self.entries@[j] == old(self).entries@[j]);
                        }
                    }
                }
                Ok(())
            },
        }
    }
}

} // verus!
