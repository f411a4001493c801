//! Projections: read models folded from the same event stream.
//!
//! A projection folds events one at a time, like the aggregate's `apply`,
//! but may keep a different selection of fields. Delivery from the write
//! side is at-least-once, so a projection must be idempotent under
//! redelivery: it tracks the last sequence number it folded and skips any
//! envelope at or below it.

use vstd::prelude::*;

use vstd::slice::slice_index_get;

use crate::codec::{encode_event, spec_encode_event};
use crate::events::{BankAccountEvent, EventView};
use crate::store::{spec_read, EnvelopeView, EventEnvelope, MemoryEventStore};

verus! {

/// Mathematical model of the bank-account read model.
pub struct QueryView {
    pub account_id: Option<Seq<char>>,
    pub balance: u64,
    pub written_checks: Seq<Seq<char>>,
    pub last_sequence: u64,
}

/// A read model of one account: its id, its balance, and the running list
/// of check numbers written against it.
#[derive(Debug, PartialEq)]
pub struct BankAccountQuery {
    account_id: Option<String>,
    balance: u64,
    written_checks: Vec<String>,
    last_sequence: u64,
}

impl View for BankAccountQuery {
    type V = QueryView;

    closed spec fn view(&self) -> QueryView {
        QueryView {
            account_id: self.account_id.deep_view(),
            balance: self.balance,
            written_checks: self.written_checks.deep_view(),
            last_sequence: self.last_sequence,
        }
    }
}

/// The read model before any event: nothing folded yet.
pub open spec fn spec_query_default() -> QueryView {
    QueryView {
        account_id: None,
        balance: 0,
        written_checks: Seq::<Seq<char>>::empty(),
        last_sequence: 0,
    }
}

/// What folding one envelope does: an envelope at or below the last folded
/// sequence number is a redelivery and is skipped; a fresh one updates the
/// fields its event carries and advances the mark.
pub open spec fn spec_query_update(q: QueryView, env: EnvelopeView) -> QueryView {
    if env.sequence <= q.last_sequence {
        q
    } else {
        match env.payload {
            EventView::AccountOpened { account_id } => QueryView {
                account_id: Some(account_id),
                balance: q.balance,
                written_checks: q.written_checks,
                last_sequence: env.sequence,
            },
            EventView::CustomerDepositedMoney { amount, balance } => QueryView {
                account_id: q.account_id,
                balance,
                written_checks: q.written_checks,
                last_sequence: env.sequence,
            },
            EventView::CustomerWithdrewCash { amount, balance } => QueryView {
                account_id: q.account_id,
                balance,
                written_checks: q.written_checks,
                last_sequence: env.sequence,
            },
            EventView::CustomerWroteCheck { check_number, amount, balance } => QueryView {
                account_id: q.account_id,
                balance,
                written_checks: q.written_checks.push(check_number),
                last_sequence: env.sequence,
            },
        }
    }
}

impl BankAccountQuery {
    /// Fold one envelope into the read model.
    pub fn update(&mut self, event: &EventEnvelope)
        ensures
            final(self)@ == spec_query_update(old(self)@, event@),
    {
        if event.sequence <= self.last_sequence {
            return;
        }
        match &event.payload {
            BankAccountEvent::AccountOpened { account_id } => {
                self.account_id = Some(account_id.clone());
            },
            BankAccountEvent::CustomerDepositedMoney { amount: _, balance } => {
                self.balance = *balance;
            },
            BankAccountEvent::CustomerWithdrewCash { amount: _, balance } => {
                self.balance = *balance;
            },
            BankAccountEvent::CustomerWroteCheck {
                check_number,
                amount: _,
                balance,
            } => {
                self.balance = *balance;
                let ghost pre = self.written_checks.deep_view();
                self.written_checks.push(check_number.clone());
                proof {
                    assert(self.written_checks.deep_view() =~= pre.push(check_number@));
                }
            },
        }
        self.last_sequence = event.sequence;
    }

    /// A read model from its parts, for callers that persist one and load
    /// it back.
    pub fn from_parts(
        account_id: Option<String>,
        balance: u64,
        written_checks: Vec<String>,
        last_sequence: u64,
    ) -> (r: BankAccountQuery)
        ensures
            r@ == (QueryView {
                account_id: account_id.deep_view(),
                balance,
                written_checks: written_checks.deep_view(),
                last_sequence,
            }),
    {
        BankAccountQuery { account_id, balance, written_checks, last_sequence }
    }

    /// The id of the account this read model has seen opened, if any.
    pub fn account_id(&self) -> (r: &Option<String>)
        ensures
            r.deep_view() == self@.account_id,
    {
        &self.account_id
    }

    /// The balance as of the last folded event, in minor currency units.
    pub fn balance(&self) -> (b: u64)
        ensures
            b == self@.balance,
    {
        self.balance
    }

    /// Every check number written so far, in stream order.
    pub fn written_checks(&self) -> (r: &Vec<String>)
        ensures
            r.deep_view() == self@.written_checks,
    {
        &self.written_checks
    }

    /// The sequence number of the last envelope folded; 0 before any.
    pub fn last_sequence(&self) -> (s: u64)
        ensures
            s == self@.last_sequence,
    {
        self.last_sequence
    }
}

impl Default for BankAccountQuery {
    /// A read model that has folded nothing.
    fn default() -> (r: Self)
        ensures
            r@ == spec_query_default(),
    {
        let r = BankAccountQuery {
            account_id: None,
            balance: 0,
            written_checks: Vec::new(),
            last_sequence: 0,
        };
        proof {
            assert(r@.written_checks =~= Seq::<Seq<char>>::empty());
        }
        r
    }
}

/// The fold of a whole envelope sequence, in order, from a given read model.
pub open spec fn spec_query_replay(q: QueryView, envelopes: Seq<EnvelopeView>) -> QueryView
    decreases envelopes.len(),
{
    if envelopes.len() == 0 {
        q
    } else {
        spec_query_replay(spec_query_update(q, envelopes[0]), envelopes.drop_first())
    }
}

/// Appending one envelope to a replayed sequence folds that envelope last.
pub proof fn lemma_query_replay_snoc(q: QueryView, envelopes: Seq<EnvelopeView>, env: EnvelopeView)
    ensures
        spec_query_replay(q, envelopes.push(env)) == spec_query_update(
            spec_query_replay(q, envelopes),
            env,
        ),
    decreases envelopes.len(),
{
    if envelopes.len() == 0 {
        assert(envelopes.push(env)[0] == env);
        assert(envelopes.push(env).drop_first() =~= Seq::<EnvelopeView>::empty());
        assert(spec_query_replay(q, envelopes.push(env)) == spec_query_replay(
            spec_query_update(q, env),
            Seq::<EnvelopeView>::empty(),
        ));
        assert(spec_query_replay(q, envelopes) == q);
    } else {
        assert(envelopes.push(env)[0] == envelopes[0]);
        assert(envelopes.push(env).drop_first() =~= envelopes.drop_first().push(env));
        assert(spec_query_replay(q, envelopes.push(env)) == spec_query_replay(
            spec_query_update(q, envelopes[0]),
            envelopes.drop_first().push(env),
        ));
        lemma_query_replay_snoc(spec_query_update(q, envelopes[0]), envelopes.drop_first(), env);
        assert(spec_query_replay(q, envelopes) == spec_query_replay(
            spec_query_update(q, envelopes[0]),
            envelopes.drop_first(),
        ));
    }
}

/// Re-derive a read model offline from the full event history: replay the
/// stream from the start into a fresh model. A stream that does not exist
/// yields the model that has folded nothing.
pub fn rebuild_query(store: &MemoryEventStore, aggregate_id: &String) -> (r: BankAccountQuery)
    requires
        store.wf(),
    ensures
        r@ == (match spec_read(store@, aggregate_id@, 0) {
            Ok(envelopes) => spec_query_replay(spec_query_default(), envelopes),
            Err(e) => spec_query_default(),
        }),
{
    let mut query = BankAccountQuery::default();
    match store.read_stream(aggregate_id, 0) {
        Ok(envelopes) => {
            let ghost all = spec_read(store@, aggregate_id@, 0).unwrap();
            let mut i: usize = 0;
            while i < envelopes.len()
                invariant
                    i <= envelopes@.len(),
                    all == spec_read(store@, aggregate_id@, 0).unwrap(),
                    envelopes.deep_view() == all,
                    envelopes@.len() == all.len(),
                    query@ == spec_query_replay(spec_query_default(), all.take(i as int)),
                decreases envelopes@.len() - i,
            {
                proof {
                    lemma_query_replay_snoc(
                        spec_query_default(),
                        all.take(i as int),
                        all[i as int],
                    );
                    assert(all.take(i as int).push(all[i as int]) =~= all.take(i + 1));
                    assert(envelopes@[i as int]@ == envelopes.deep_view()[i as int]);
                }
                query.update(&envelopes[i]);
                i = i + 1;
            }
            proof {
                assert(all.take(all.len() as int) =~= all);
            }
            query
        },
        Err(_) => query,
    }
}

/// Idempotence under redelivery: folding the same envelope twice leaves the
/// read model exactly as folding it once did.
pub proof fn lemma_idempotent_projection(q: QueryView, env: EnvelopeView)
    ensures
        spec_query_update(spec_query_update(q, env), env) == spec_query_update(q, env),
{
}

/// A projection sink that renders envelopes for a log.
///
/// For each envelope, in order, it yields the aggregate id, the assigned
/// sequence number and the encoded payload; the process edge prints them.
/// A failure there must not roll back the already-committed append, so
/// rendering is kept apart from writing.
pub struct SimpleLoggingQueryProcessor {}

impl SimpleLoggingQueryProcessor {
    /// Render one line per envelope, in stream order.
    pub fn dispatch(&self, aggregate_id: &String, events: &[EventEnvelope]) -> (r: Vec<
        (String, u64, Vec<u8>),
    >)
        ensures
            r@.len() == events@.len(),
            forall|i: int|
                0 <= i < r@.len() ==> (#[trigger] r@[i]).0@ == aggregate_id@ && r@[i].1
                    == events@[i]@.sequence && r@[i].2@ == spec_encode_event(
                    events@[i]@.payload,
                ),
    {
        let mut out: Vec<(String, u64, Vec<u8>)> = Vec::new();
        let mut i: usize = 0;
        while i < events.len()
            invariant
                i <= events@.len(),
                out@.len() == i,
                forall|j: int|
                    0 <= j < i ==> (#[trigger] out@[j]).0@ == aggregate_id@ && out@[j].1
                        == events@[j]@.sequence && out@[j].2@ == spec_encode_event(
                        events@[j]@.payload,
                    ),
            decreases events@.len() - i,
        {
            let envelope = slice_index_get(events, i);
            let line = (aggregate_id.clone(), envelope.sequence, encode_event(&envelope.payload));
            out.push(line);
            i = i + 1;
        }
        out
    }
}

} // verus!
