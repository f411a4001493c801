//! The aggregate state machine: pure `handle` and `apply`.
//!
//! `handle` inspects the current state to decide whether a command is legal
//! and computes the resulting events; `apply` folds one event into the state.
//! Replaying the same event sequence from the default state always yields the
//! same state: both functions are pure, so the fold is a mathematical
//! function of the event sequence alone.

use vstd::prelude::*;

use crate::commands::{BankAccountCommand, CommandView};
use crate::events::{BankAccountEvent, EventView};

verus! {

/// A business-rule rejection: no events are produced and state is unchanged.
#[derive(Debug, Clone, Copy, PartialEq, Eq, Structural)]
pub enum DomainError {
    /// A withdrawal or check would drive the balance below zero.
    InsufficientFunds,
    /// A deposit would push the balance past the largest representable value.
    BalanceOverflow,
}

/// The message a caller sees for each rejection.
pub open spec fn spec_message(e: DomainError) -> Seq<char> {
    match e {
        DomainError::InsufficientFunds => "funds not available"@,
        DomainError::BalanceOverflow => "balance out of range"@,
    }
}

impl DomainError {
    /// The human-readable reason, surfaced to the caller verbatim.
    pub fn message(&self) -> (m: &'static str)
        ensures
            m@ == spec_message(*self),
    {
        match self {
            DomainError::InsufficientFunds => "funds not available",
            DomainError::BalanceOverflow => "balance out of range",
        }
    }
}

/// Mathematical model of the folded state of one account.
pub struct BankAccountView {
    pub account_id: Seq<char>,
    pub balance: u64,
}

/// The folded projection of all events for one account: an id and a balance
/// in minor currency units. Derived, never directly mutated by a caller —
/// only by replaying `apply` across events in order.
#[derive(Debug, PartialEq)]
pub struct BankAccount {
    account_id: String,
    balance: u64,
}

impl View for BankAccount {
    type V = BankAccountView;

    closed spec fn view(&self) -> BankAccountView {
        BankAccountView { account_id: self.account_id@, balance: self.balance }
    }
}

impl DeepView for BankAccount {
    type V = BankAccountView;

    open spec fn deep_view(&self) -> BankAccountView {
        self.view()
    }
}

/// The state before any event: no id, zero balance.
pub open spec fn spec_default_account() -> BankAccountView {
    BankAccountView { account_id: Seq::<char>::empty(), balance: 0 }
}

/// What `handle` decides for each state and command.
pub open spec fn spec_handle(s: BankAccountView, c: CommandView) -> Result<
    Seq<EventView>,
    DomainError,
> {
    match c {
        CommandView::OpenAccount { account_id } => Ok(
            seq![EventView::AccountOpened { account_id }],
        ),
        CommandView::DepositMoney { amount } => {
            if s.balance + amount <= u64::MAX {
                Ok(
                    seq![
                        EventView::CustomerDepositedMoney {
                            amount,
                            balance: (s.balance + amount) as u64,
                        },
                    ],
                )
            } else {
                Err(DomainError::BalanceOverflow)
            }
        },
        CommandView::WithdrawMoney { amount } => {
            if amount <= s.balance {
                Ok(
                    seq![
                        EventView::CustomerWithdrewCash {
                            amount,
                            balance: (s.balance - amount) as u64,
                        },
                    ],
                )
            } else {
                Err(DomainError::InsufficientFunds)
            }
        },
        CommandView::WriteCheck { check_number, amount } => {
            if amount <= s.balance {
                Ok(
                    seq![
                        EventView::CustomerWroteCheck {
                            check_number,
                            amount,
                            balance: (s.balance - amount) as u64,
                        },
                    ],
                )
            } else {
                Err(DomainError::InsufficientFunds)
            }
        },
    }
}

/// What `apply` makes of one event.
pub open spec fn spec_apply(s: BankAccountView, e: EventView) -> BankAccountView {
    match e {
        EventView::AccountOpened { account_id } => BankAccountView {
            account_id,
            balance: s.balance,
        },
        EventView::CustomerDepositedMoney { amount, balance } => BankAccountView {
            account_id: s.account_id,
            balance,
        },
        EventView::CustomerWithdrewCash { amount, balance } => BankAccountView {
            account_id: s.account_id,
            balance,
        },
        EventView::CustomerWroteCheck { check_number, amount, balance } => BankAccountView {
            account_id: s.account_id,
            balance,
        },
    }
}

/// The fold of a whole event sequence, in order, from a given state.
pub open spec fn spec_replay(s: BankAccountView, events: Seq<EventView>) -> BankAccountView
    decreases events.len(),
{
    if events.len() == 0 {
        s
    } else {
        spec_replay(spec_apply(s, events[0]), events.drop_first())
    }
}

impl BankAccount {
    /// The stable identifier namespacing this aggregate's streams from other
    /// aggregate kinds sharing the same store.
    pub fn aggregate_type() -> (t: &'static str)
        ensures
            t@ == "account"@,
    {
        "account"
    }

    /// A state from its parts, for callers that carry one across a process
    /// boundary. Within the engine, state is only ever derived by replay.
    pub fn from_parts(account_id: String, balance: u64) -> (r: BankAccount)
        ensures
            r@ == (BankAccountView { account_id: account_id@, balance }),
    {
        BankAccount { account_id, balance }
    }

    /// The current balance, in minor currency units.
    pub fn balance(&self) -> (b: u64)
        ensures
            b == self@.balance,
    {
        self.balance
    }

    /// The account's id; empty until an opening event has been applied.
    pub fn account_id(&self) -> (id: &str)
        ensures
            id@ == self@.account_id,
    {
        self.account_id.as_str()
    }

    /// Decide a command against the current state.
    ///
    /// Side-effect-free: state is only read. Every valid command yields
    /// exactly one event; an illegal one is rejected with the reason and
    /// yields none.
    pub fn handle(&self, command: BankAccountCommand) -> (r: Result<
        Vec<BankAccountEvent>,
        DomainError,
    >)
        ensures
            match spec_handle(self@, command@) {
                Ok(events) => r matches Ok(v) && v.deep_view() == events,
                Err(e) => r == Err::<Vec<BankAccountEvent>, DomainError>(e),
            },
    {
        match command {
            BankAccountCommand::OpenAccount { account_id } => {
                let mut events: Vec<BankAccountEvent> = Vec::new();
                events.push(BankAccountEvent::AccountOpened { account_id });
                proof {
                    assert(events.deep_view() =~= spec_handle(self@, command@).unwrap());
                }
                Ok(events)
            },
            BankAccountCommand::DepositMoney { amount } => {
                if amount <= u64::MAX - self.balance {
                    let balance = self.balance + amount;
                    let mut events: Vec<BankAccountEvent> = Vec::new();
                    events.push(BankAccountEvent::CustomerDepositedMoney { amount, balance });
                    proof {
                        assert(events.deep_view() =~= spec_handle(self@, command@).unwrap());
                    }
                    Ok(events)
                } else {
                    Err(DomainError::BalanceOverflow)
                }
            },
            BankAccountCommand::WithdrawMoney { amount } => {
                if amount <= self.balance {
                    let balance = self.balance - amount;
                    let mut events: Vec<BankAccountEvent> = Vec::new();
                    events.push(BankAccountEvent::CustomerWithdrewCash { amount, balance });
                    proof {
                        assert(events.deep_view() =~= spec_handle(self@, command@).unwrap());
                    }
                    Ok(events)
                } else {
                    Err(DomainError::InsufficientFunds)
                }
            },
            BankAccountCommand::WriteCheck { check_number, amount } => {
                if amount <= self.balance {
                    let balance = self.balance - amount;
                    let mut events: Vec<BankAccountEvent> = Vec::new();
                    events.push(
                        BankAccountEvent::CustomerWroteCheck { check_number, amount, balance },
                    );
                    proof {
                        assert(events.deep_view() =~= spec_handle(self@, command@).unwrap());
                    }
                    Ok(events)
                } else {
                    Err(DomainError::InsufficientFunds)
                }
            },
        }
    }

    /// Fold one event into the state.
    pub fn apply(&mut self, event: BankAccountEvent)
        ensures
            final(self)@ == spec_apply(old(self)@, event@),
    {
        match event {
            BankAccountEvent::AccountOpened { account_id } => {
                self.account_id = account_id;
            },
            BankAccountEvent::CustomerDepositedMoney { amount: _, balance } => {
                self.balance = balance;
            },
            BankAccountEvent::CustomerWithdrewCash { amount: _, balance } => {
                self.balance = balance;
            },
            BankAccountEvent::CustomerWroteCheck { check_number: _, amount: _, balance } => {
                self.balance = balance;
            },
        }
    }

    /// Reconstruct the current state by applying every historical event in
    /// order from the default state.
    pub fn replay(events: &Vec<BankAccountEvent>) -> (r: BankAccount)
        ensures
            r@ == spec_replay(spec_default_account(), events.deep_view()),
    {
        let mut state = BankAccount::default();
        let mut i: usize = 0;
        while i < events.len()
            invariant
                i <= events.len(),
                state@ == spec_replay(spec_default_account(), events.deep_view().take(i as int)),
            decreases events.len() - i,
        {
            proof {
                lemma_replay_snoc(
                    spec_default_account(),
                    events.deep_view().take(i as int),
                    events.deep_view()[i as int],
                );
                assert(events.deep_view().take(i as int).push(events.deep_view()[i as int])
                    =~= events.deep_view().take(i + 1 as int));
            }
            let event = events[i].clone();
            state.apply(event);
            i = i + 1;
        }
        proof {
            assert(events.deep_view().take(events.len() as int) =~= events.deep_view());
        }
        state
    }
}

impl Default for BankAccount {
    /// The well-defined zero value of the state, before any event.
    fn default() -> (r: Self)
        ensures
            r@ == spec_default_account(),
    {
        BankAccount { account_id: String::new(), balance: 0 }
    }
}

/// Appending one event to a replayed sequence folds that event last.
pub proof fn lemma_replay_snoc(s: BankAccountView, events: Seq<EventView>, e: EventView)
    ensures
        spec_replay(s, events.push(e)) == spec_apply(spec_replay(s, events), e),
    decreases events.len(),
{
    if events.len() == 0 {
        assert(events.push(e)[0] == e);
        assert(events.push(e).drop_first() =~= Seq::<EventView>::empty());
        assert(spec_replay(s, events.push(e)) == spec_replay(
            spec_apply(s, e),
            Seq::<EventView>::empty(),
        ));
        assert(spec_replay(spec_apply(s, e), Seq::<EventView>::empty()) == spec_apply(s, e));
        assert(spec_replay(s, events) == s);
    } else {
        assert(events.push(e)[0] == events[0]);
        assert(events.push(e).drop_first() =~= events.drop_first().push(e));
        assert(spec_replay(s, events.push(e)) == spec_replay(
            spec_apply(s, events[0]),
            events.drop_first().push(e),
        ));
        lemma_replay_snoc(spec_apply(s, events[0]), events.drop_first(), e);
        assert(spec_replay(s, events) == spec_replay(
            spec_apply(s, events[0]),
            events.drop_first(),
        ));
    }
}

/// Determinism: the folded state is a function of the event sequence alone,
/// so two replays of the same history — in this process or after a restart —
/// agree.
pub proof fn lemma_replay_deterministic(
    s1: BankAccountView,
    s2: BankAccountView,
    events: Seq<EventView>,
)
    requires
        s1 == spec_replay(spec_default_account(), events),
        s2 == spec_replay(spec_default_account(), events),
    ensures
        s1 == s2,
{
}

/// Invariant preservation: every reachable balance is non-negative, and a
/// command that would overdraw the account is rejected — it produces no
/// events (a rejection carries none) and `handle` never mutates the state it
/// inspected.
pub proof fn lemma_invariant_preservation(
    events: Seq<EventView>,
    s: BankAccountView,
    c: CommandView,
)
    ensures
        spec_replay(spec_default_account(), events).balance >= 0,
        forall|amount: u64|
            c == (CommandView::WithdrawMoney { amount }) && amount > s.balance ==> spec_handle(
                s,
                c,
            ) == Err::<Seq<EventView>, DomainError>(DomainError::InsufficientFunds),
        forall|check_number: Seq<char>, amount: u64|
            c == (CommandView::WriteCheck { check_number, amount }) && amount > s.balance
                ==> spec_handle(s, c) == Err::<Seq<EventView>, DomainError>(
                DomainError::InsufficientFunds,
            ),
{
}

} // verus!
