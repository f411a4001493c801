//! The event store: an append-only, ordered log per aggregate id.
//!
//! `append` commits all given events if and only if the stream's current
//! version matches the writer's expected version — otherwise it fails with a
//! concurrency conflict and appends nothing. `read_stream` hands the stream
//! back in ascending sequence order. Sequence numbers are assigned by the
//! store, start at 1 and are gap-free.
//!
//! This adapter keeps the log in memory; a remote adapter with the same
//! append/read contract can stand in its place at the process edge.

use vstd::prelude::*;

use crate::events::{BankAccountEvent, EventView};

verus! {

/// A failure of the store adapter, distinct from any business-rule rejection.
#[derive(Debug, Clone, Copy, PartialEq, Eq, Structural)]
pub enum StoreError {
    /// The stream's current version was not the expected one: another writer
    /// appended between this writer's read and its write.
    ConcurrencyConflict,
    /// The stream has never been appended to.
    StreamNotFound,
    /// The store could not be reached. The in-memory adapter never returns
    /// this; a remote adapter surfaces transport failures with it.
    StoreUnavailable,
}

/// An event wrapped with the stream position the store assigned to it.
#[derive(Debug, PartialEq)]
pub struct EventEnvelope {
    pub aggregate_id: String,
    pub sequence: u64,
    pub payload: BankAccountEvent,
}

/// Mathematical model of an envelope.
pub struct EnvelopeView {
    pub aggregate_id: Seq<char>,
    pub sequence: u64,
    pub payload: EventView,
}

impl View for EventEnvelope {
    type V = EnvelopeView;

    open spec fn view(&self) -> EnvelopeView {
        EnvelopeView {
            aggregate_id: self.aggregate_id@,
            sequence: self.sequence,
            payload: self.payload@,
        }
    }
}

impl DeepView for EventEnvelope {
    type V = EnvelopeView;

    open spec fn deep_view(&self) -> EnvelopeView {
        self.view()
    }
}

impl Clone for EventEnvelope {
    fn clone(&self) -> (r: Self)
        ensures
            r == *self,
    {
        EventEnvelope {
            aggregate_id: self.aggregate_id.clone(),
            sequence: self.sequence,
            payload: self.payload.clone(),
        }
    }
}

/// The events a stream holds, or the empty sequence if it does not exist.
pub open spec fn spec_stream(s: Map<Seq<char>, Seq<EventView>>, id: Seq<char>) -> Seq<EventView> {
    if s.contains_key(id) {
        s[id]
    } else {
        Seq::<EventView>::empty()
    }
}

/// The stream's current version: its last assigned sequence number, which
/// equals its length, or 0 if it does not exist.
pub open spec fn spec_current_version(s: Map<Seq<char>, Seq<EventView>>, id: Seq<char>) -> nat {
    spec_stream(s, id).len()
}

/// What `append` does: all-or-nothing, guarded by the expected version.
pub open spec fn spec_append(
    s: Map<Seq<char>, Seq<EventView>>,
    id: Seq<char>,
    expected_version: u64,
    events: Seq<EventView>,
) -> Result<Map<Seq<char>, Seq<EventView>>, StoreError> {
    if spec_current_version(s, id) == expected_version as nat {
        Ok(s.insert(id, spec_stream(s, id) + events))
    } else {
        Err(StoreError::ConcurrencyConflict)
    }
}

/// What `read_stream` returns: the stream's envelopes with sequence numbers
/// at or above `from`, in ascending order, or `StreamNotFound` for a stream
/// that has never been appended to.
pub open spec fn spec_read(
    s: Map<Seq<char>, Seq<EventView>>,
    id: Seq<char>,
    from: u64,
) -> Result<Seq<EnvelopeView>, StoreError> {
    if s.contains_key(id) {
        let start: int = if from <= 1 {
            0
        } else {
            from - 1
        };
        let stream = s[id];
        if start <= stream.len() {
            Ok(
                Seq::new(
                    (stream.len() - start) as nat,
                    |i: int|
                        EnvelopeView {
                            aggregate_id: id,
                            sequence: (start + i + 1) as u64,
                            payload: stream[start + i],
                        },
                ),
            )
        } else {
            Ok(Seq::<EnvelopeView>::empty())
        }
    } else {
        Err(StoreError::StreamNotFound)
    }
}

struct StoredStream {
    id: String,
    events: Vec<BankAccountEvent>,
}

/// An in-memory append-only event store keyed by aggregate id.
pub struct MemoryEventStore {
    streams: Vec<StoredStream>,
}

impl View for MemoryEventStore {
    type V = Map<Seq<char>, Seq<EventView>>;

    closed spec fn view(&self) -> Map<Seq<char>, Seq<EventView>> {
        Map::new(
            |id: Seq<char>| self.has_stream(id),
            |id: Seq<char>| self.streams@[self.stream_index(id)].events.deep_view(),
        )
    }
}

impl MemoryEventStore {
    /// Each id names at most one stream.
    pub closed spec fn wf(&self) -> bool {
        forall|i: int, j: int|
            0 <= i < j < self.streams@.len() ==> self.streams@[i].id@ != self.streams@[j].id@
    }

    /// Whether some slot holds the stream for `id`.
    spec fn has_stream(&self, id: Seq<char>) -> bool {
        exists|i: int| 0 <= i < self.streams@.len() && self.streams@[i].id@ == id
    }

    /// The slot that holds the stream for `id`.
    spec fn stream_index(&self, id: Seq<char>) -> int {
        choose|i: int| 0 <= i < self.streams@.len() && self.streams@[i].id@ == id
    }

    /// An empty store: no streams at all.
    pub fn new() -> (r: MemoryEventStore)
        ensures
            r.wf(),
            r@ == Map::<Seq<char>, Seq<EventView>>::empty(),
    {
        let r = MemoryEventStore { streams: Vec::new() };
        proof {
            assert(r@ =~= Map::<Seq<char>, Seq<EventView>>::empty());
        }
        r
    }

    /// Find the slot holding `id`, if any.
    fn find(&self, aggregate_id: &String) -> (r: Option<usize>)
        ensures
            match r {
                Some(i) => i < self.streams@.len() && self.streams@[i as int].id@
                    == aggregate_id@,
                None => !self.has_stream(aggregate_id@),
            },
    {
        let mut i: usize = 0;
        while i < self.streams.len()
            invariant
                i <= self.streams@.len(),
                forall|j: int| 0 <= j < i ==> self.streams@[j].id@ != aggregate_id@,
            decreases self.streams@.len() - i,
        {
            if self.streams[i].id == *aggregate_id {
                return Some(i);
            }
            i = i + 1;
        }
        None
    }

    /// Atomically append all given events to the stream if and only if the
    /// stream's current version matches `expected_version`; otherwise fail
    /// with a conflict and append nothing. On success, return the new last
    /// sequence number.
    pub fn append(
        &mut self,
        aggregate_id: &String,
        expected_version: u64,
        events: Vec<BankAccountEvent>,
    ) -> (r: Result<u64, StoreError>)
        requires
            old(self).wf(),
        ensures
            final(self).wf(),
            match spec_append(old(self)@, aggregate_id@, expected_version, events.deep_view()) {
                Ok(m) => r matches Ok(v) && final(self)@ == m && v as nat == spec_current_version(
                    m,
                    aggregate_id@,
                ),
                Err(e) => r == Err::<u64, StoreError>(e) && final(self)@ == old(self)@,
            },
    {
        let ghost pre = *self;
        match self.find(aggregate_id) {
            Some(i) => {
                proof {
                    self.lemma_view_at(aggregate_id@);
                }
                let current = self.streams[i].events.len() as u64;
                if current != expected_version {
                    return Err(StoreError::ConcurrencyConflict);
                }
                let mut events = events;
                let ghost appended = events.deep_view();
                let ghost old_events = self.streams@[i as int].events.deep_view();
                let stream = &mut self.streams[i];
                stream.events.append(&mut events);
                let new_version = stream.events.len() as u64;
                proof {
                    assert(self.streams@[i as int].events.deep_view() =~= old_events + appended);
                    pre.lemma_view_insert(*self, aggregate_id@, i as int);
                    self.lemma_view_at(aggregate_id@);
                }
                Ok(new_version)
            },
            None => {
                proof {
                    pre.lemma_view_absent(aggregate_id@);
                }
                if expected_version != 0 {
                    return Err(StoreError::ConcurrencyConflict);
                }
                let stream = StoredStream { id: aggregate_id.clone(), events };
                let ghost n = self.streams@.len();
                self.streams.push(stream);
                let new_version = self.streams[self.streams.len() - 1].events.len() as u64;
                proof {
                    assert(forall|j: int|
                        0 <= j < n ==> self.streams@[j] == pre.streams@[j]);
                    pre.lemma_view_insert(*self, aggregate_id@, n as int);
                    self.lemma_view_at(aggregate_id@);
                    assert(spec_stream(pre@, aggregate_id@) + self.streams@[n as int
                        ].events.deep_view() =~= self.streams@[n as int].events.deep_view());
                }
                Ok(new_version)
            },
        }
    }

    /// Produce the stream's envelopes in ascending sequence order starting at
    /// `from` (0 and 1 both mean the start; sequences are 1-based), or fail
    /// with `StreamNotFound` if the stream has never been appended to.
    pub fn read_stream(&self, aggregate_id: &String, from: u64) -> (r: Result<
        Vec<EventEnvelope>,
        StoreError,
    >)
        requires
            self.wf(),
        ensures
            match spec_read(self@, aggregate_id@, from) {
                Ok(envelopes) => r matches Ok(v) && v.deep_view() == envelopes,
                Err(e) => r == Err::<Vec<EventEnvelope>, StoreError>(e),
            },
    {
        match self.find(aggregate_id) {
            Some(i) => {
                proof {
                    self.lemma_view_at(aggregate_id@);
                }
                let ghost evs = self.streams@[i as int].events.deep_view();
                let len = self.streams[i].events.len();
                let start: usize = if from <= 1 {
                    0
                } else if from - 1 <= len as u64 {
                    (from - 1) as usize
                } else {
                    len
                };
                let ghost expected = spec_read(self@, aggregate_id@, from).unwrap();
                proof {
                    if !(from <= 1) && from - 1 > len as u64 {
                        assert(expected =~= Seq::<EnvelopeView>::empty());
                    }
                    assert(expected.len() == len - start);
                    assert(forall|k: int|
                        0 <= k < expected.len() ==> expected[k] == (EnvelopeView {
                            aggregate_id: aggregate_id@,
                            sequence: (start + k + 1) as u64,
                            payload: evs[start + k],
                        }));
                }
                let mut out: Vec<EventEnvelope> = Vec::new();
                let mut j: usize = start;
                while j < len
                    invariant
                        start <= j <= len,
                        i < self.streams@.len(),
                        len == self.streams@[i as int].events@.len(),
                        evs == self.streams@[i as int].events.deep_view(),
                        expected.len() == len - start,
                        forall|k: int|
                            0 <= k < expected.len() ==> expected[k] == (EnvelopeView {
                                aggregate_id: aggregate_id@,
                                sequence: (start + k + 1) as u64,
                                payload: evs[start + k],
                            }),
                        out@.len() == j - start,
                        forall|k: int| 0 <= k < out@.len() ==> (#[trigger] out@[k])@ == expected[k],
                    decreases len - j,
                {
                    let envelope = EventEnvelope {
                        aggregate_id: aggregate_id.clone(),
                        sequence: (j + 1) as u64,
                        payload: self.streams[i].events[j].clone(),
                    };
                    proof {
                        assert(envelope@ == expected[j - start]);
                    }
                    out.push(envelope);
                    j = j + 1;
                }
                proof {
                    assert forall|k: int| 0 <= k < out@.len() implies out.deep_view()[k]
                        == expected[k] by {
                        assert(out@[k]@ == expected[k]);
                    }
                    assert(out.deep_view() =~= expected);
                }
                Ok(out)
            },
            None => {
                proof {
                    self.lemma_view_absent(aggregate_id@);
                }
                Err(StoreError::StreamNotFound)
            },
        }
    }

    /// A slot's events are exactly what the view maps its id to.
    proof fn lemma_view_at(&self, id: Seq<char>)
        requires
            self.wf(),
            self.has_stream(id),
        ensures
            self@.contains_key(id),
            self@[id] == self.streams@[self.stream_index(id)].events.deep_view(),
            0 <= self.stream_index(id) < self.streams@.len(),
            self.streams@[self.stream_index(id)].id@ == id,
            forall|i: int|
                0 <= i < self.streams@.len() && self.streams@[i].id@ == id ==> i
                    == self.stream_index(id),
    {
    }

    /// An id no slot holds is outside the view's domain.
    proof fn lemma_view_absent(&self, id: Seq<char>)
        requires
            !self.has_stream(id),
        ensures
            !self@.contains_key(id),
            spec_stream(self@, id) == Seq::<EventView>::empty(),
            spec_current_version(self@, id) == 0,
    {
    }

    /// Changing or adding exactly one slot inserts that stream into the view.
    proof fn lemma_view_insert(&self, post: MemoryEventStore, id: Seq<char>, at: int)
        requires
            self.wf(),
            0 <= at < post.streams@.len(),
            post.streams@[at].id@ == id,
            post.streams@.len() == self.streams@.len() || (post.streams@.len()
                == self.streams@.len() + 1 && at == self.streams@.len()),
            at < self.streams@.len() ==> self.streams@[at].id@ == id,
            forall|j: int|
                0 <= j < self.streams@.len() && j != at ==> post.streams@[j] == self.streams@[j],
            at == self.streams@.len() ==> !self.has_stream(id),
        ensures
            post.wf(),
            post@ =~= self@.insert(id, post.streams@[at].events.deep_view()),
    {
        assert forall|i: int, j: int| 0 <= i < j < post.streams@.len() implies post.streams@[i].id@
            != post.streams@[j].id@ by {
            if j == at && at == self.streams@.len() {
                assert(post.streams@[i] == self.streams@[i]);
            }
        }
        assert forall|other: Seq<char>| other != id implies post.has_stream(other)
            == self.has_stream(other) && (self.has_stream(other) ==> post.streams@[post.stream_index(
            other,
        )] == self.streams@[self.stream_index(other)]) by {
            if self.has_stream(other) {
                let i = self.stream_index(other);
                assert(post.streams@[i].id@ == other);
                assert(post.has_stream(other));
                let k = post.stream_index(other);
                assert(post.streams@[k].id@ == other);
                assert(k != at);
                assert(post.streams@[k] == self.streams@[k]);
            }
            if post.has_stream(other) {
                let k = post.stream_index(other);
                assert(post.streams@[k].id@ == other);
                assert(k != at);
                assert(post.streams@[k] == self.streams@[k]);
                assert(self.has_stream(other));
            }
        }
        assert(post.has_stream(id));
        assert(post.stream_index(id) == at) by {
            let k = post.stream_index(id);
            assert(post.streams@[k].id@ == id);
            if k != at {
                assert(false);
            }
        }
    }
}

/// Optimistic concurrency: two writers that both read the same version and
/// both try to append under it can never both succeed. Once the first append
/// of at least one event commits, the second fails with a conflict.
pub proof fn lemma_optimistic_concurrency(
    s: Map<Seq<char>, Seq<EventView>>,
    id: Seq<char>,
    expected_version: u64,
    first: Seq<EventView>,
    second: Seq<EventView>,
)
    requires
        first.len() > 0,
        spec_append(s, id, expected_version, first) is Ok,
    ensures
        spec_append(spec_append(s, id, expected_version, first).unwrap(), id, expected_version,
            second) == Err::<Map<Seq<char>, Seq<EventView>>, StoreError>(
            StoreError::ConcurrencyConflict,
        ),
{
    let s1 = spec_append(s, id, expected_version, first).unwrap();
    assert(s1[id] == spec_stream(s, id) + first);
    assert(spec_current_version(s1, id) == expected_version + first.len());
}

} // verus!
