//! The aggregate repository: load, decide, persist.
//!
//! `execute` is the single place where the read-modify-write race is
//! resolved: it replays the full history into the current state, lets the
//! state machine decide the command, and appends the resulting events under
//! the version it read. A concurrency conflict — another writer moved the
//! stream between read and write — is retried from the load, a bounded
//! number of times. The holder of exclusive access to the store can never
//! observe such a conflict, and the proofs below show its retry branch is
//! unreachable here; a remote adapter shared between writers is where the
//! bound earns its keep.

use vstd::prelude::*;

use crate::aggregate::{
    spec_default_account, spec_handle, spec_replay, BankAccount, BankAccountView, DomainError,
};
use crate::commands::{BankAccountCommand, CommandView};
use crate::events::{BankAccountEvent, EventView};
use crate::store::{
    spec_current_version, spec_stream, EnvelopeView, EventEnvelope, MemoryEventStore,
};

verus! {

/// Why `execute` failed: the command was rejected by a business rule, or
/// every attempt ended in a concurrency conflict.
#[derive(Debug, Clone, Copy, PartialEq, Eq, Structural)]
pub enum RepositoryError {
    /// The state machine rejected the command; nothing was appended.
    Rejected(DomainError),
    /// Every append attempt found the stream moved by another writer.
    Conflict,
}

/// How many times `execute` reloads and retries after a conflict.
pub const MAX_EXECUTE_ATTEMPTS: u64 = 3;

/// The state a command is evaluated against: the replay of the stream.
pub open spec fn spec_load(s: Map<Seq<char>, Seq<EventView>>, id: Seq<char>) -> BankAccountView {
    spec_replay(spec_default_account(), spec_stream(s, id))
}

/// What `execute` does to the store and returns to the caller.
pub open spec fn spec_execute(
    s: Map<Seq<char>, Seq<EventView>>,
    id: Seq<char>,
    c: CommandView,
) -> Result<(Map<Seq<char>, Seq<EventView>>, Seq<EnvelopeView>), RepositoryError> {
    match spec_handle(spec_load(s, id), c) {
        Err(e) => Err(RepositoryError::Rejected(e)),
        Ok(events) => Ok(
            (
                s.insert(id, spec_stream(s, id) + events),
                Seq::new(
                    events.len(),
                    |i: int|
                        EnvelopeView {
                            aggregate_id: id,
                            sequence: (spec_stream(s, id).len() + i + 1) as u64,
                            payload: events[i],
                        },
                ),
            ),
        ),
    }
}

/// Replay the stream for `aggregate_id` into the current state, and report
/// the version the replay saw (0 for a stream that does not exist yet).
pub fn load(store: &MemoryEventStore, aggregate_id: &String) -> (r: (BankAccount, u64))
    requires
        store.wf(),
    ensures
        r.0@ == spec_load(store@, aggregate_id@),
        r.1 as nat == spec_current_version(store@, aggregate_id@),
{
    match store.read_stream(aggregate_id, 0) {
        Ok(envelopes) => {
            let mut events: Vec<BankAccountEvent> = Vec::new();
            let mut i: usize = 0;
            let ghost stream = spec_stream(store@, aggregate_id@);
            proof {
                let expected = crate::store::spec_read(store@, aggregate_id@, 0).unwrap();
                assert(envelopes.deep_view() == expected);
                assert(envelopes@.len() == expected.len());
                assert(expected.len() == stream.len());
                assert forall|k: int|
                    0 <= k < envelopes@.len() implies (#[trigger] envelopes@[k])@.payload
                    == stream[k] by {
                    assert(envelopes@[k]@ == envelopes.deep_view()[k]);
                    assert(expected[k].payload == stream[k]);
                }
            }
            while i < envelopes.len()
                invariant
                    i <= envelopes@.len(),
                    envelopes@.len() == stream.len(),
                    forall|k: int|
                        0 <= k < envelopes@.len() ==> (#[trigger] envelopes@[k])@.payload
                            == stream[k],
                    events@.len() == i,
                    forall|k: int| 0 <= k < i ==> (#[trigger] events@[k])@ == stream[k],
                decreases envelopes@.len() - i,
            {
                events.push(envelopes[i].payload.clone());
                i = i + 1;
            }
            proof {
                assert(events.deep_view() =~= stream);
            }
            let state = BankAccount::replay(&events);
            (state, envelopes.len() as u64)
        },
        Err(_) => {
            // The stream does not exist: the default state at version 0.
            (BankAccount::default(), 0)
        },
    }
}

/// Run one command against one aggregate: replay the history, let the state
/// machine decide, and append the new events under the version the replay
/// saw. A rejection is surfaced untouched and appends nothing; the returned
/// envelopes carry the sequence numbers the store assigned.
pub fn execute(
    store: &mut MemoryEventStore,
    aggregate_id: &String,
    command: BankAccountCommand,
) -> (r: Result<Vec<EventEnvelope>, RepositoryError>)
    requires
        old(store).wf(),
    ensures
        final(store).wf(),
        match spec_execute(old(store)@, aggregate_id@, command@) {
            Ok(p) => r matches Ok(v) && final(store)@ == p.0 && v.deep_view() == p.1,
            Err(e) => r == Err::<Vec<EventEnvelope>, RepositoryError>(e) && final(store)@ == old(
                store,
            )@,
        },
{
    let mut attempts: u64 = 0;
    while attempts < MAX_EXECUTE_ATTEMPTS
        invariant
            // With exclusive access the first attempt always settles the
            // command, so the loop never comes around.
            attempts == 0,
            store.wf(),
            *store == *old(store),
        decreases MAX_EXECUTE_ATTEMPTS - attempts,
    {
        let (state, version) = load(store, aggregate_id);
        let events = match state.handle(command.clone()) {
            Ok(events) => events,
            Err(e) => {
                return Err(RepositoryError::Rejected(e));
            },
        };
        let payloads = clone_events(&events);
        let ghost pre = store@;
        match store.append(aggregate_id, version, events) {
            Ok(new_version) => {
                let n = payloads.len();
                proof {
                    assert(new_version as nat == version + n);
                }
                let ghost expected = spec_execute(pre, aggregate_id@, command@).unwrap().1;
                let mut envelopes: Vec<EventEnvelope> = Vec::new();
                let mut i: usize = 0;
                while i < n
                    invariant
                        i <= n,
                        n == payloads@.len(),
                        version + n <= u64::MAX,
                        expected.len() == n,
                        forall|k: int|
                            0 <= k < n ==> expected[k] == (EnvelopeView {
                                aggregate_id: aggregate_id@,
                                sequence: (version + k + 1) as u64,
                                payload: payloads@[k]@,
                            }),
                        envelopes@.len() == i,
                        forall|k: int|
                            0 <= k < i ==> (#[trigger] envelopes@[k])@ == expected[k],
                    decreases n - i,
                {
                    let envelope = EventEnvelope {
                        aggregate_id: aggregate_id.clone(),
                        sequence: version + 1 + i as u64,
                        payload: payloads[i].clone(),
                    };
                    envelopes.push(envelope);
                    i = i + 1;
                }
                proof {
                    assert(envelopes.deep_view() =~= expected);
                }
                return Ok(envelopes);
            },
            Err(_) => {
                // Unreachable under exclusive access: the version cannot
                // have moved between the load and the append.
                proof {
                    assert(false);
                }
                attempts = attempts + 1;
            },
        }
    }
    Err(RepositoryError::Conflict)
}

/// An exact copy of an event list, item by item.
fn clone_events(events: &Vec<BankAccountEvent>) -> (r: Vec<BankAccountEvent>)
    ensures
        r@ == events@,
{
    let mut out: Vec<BankAccountEvent> = Vec::new();
    let mut i: usize = 0;
    while i < events.len()
        invariant
            i <= events@.len(),
            out@ =~= events@.take(i as int),
        decreases events@.len() - i,
    {
        out.push(events[i].clone());
        proof {
            assert(out@ =~= events@.take(i + 1));
        }
        i = i + 1;
    }
    proof {
        assert(out@ =~= events@);
    }
    out
}

} // verus!
