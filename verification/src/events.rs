//! The facts of one bank account: immutable events.
//!
//! An event carries the *result* of applying a command (the new balance),
//! never instructions. Once appended to a stream it is never altered.

use vstd::prelude::*;

verus! {

/// Mathematical model of an event; strings are modelled as `Seq<char>`.
pub enum EventView {
    AccountOpened { account_id: Seq<char> },
    CustomerDepositedMoney { amount: u64, balance: u64 },
    CustomerWithdrewCash { amount: u64, balance: u64 },
    CustomerWroteCheck { check_number: Seq<char>, amount: u64, balance: u64 },
}

/// An immutable fact about one bank account.
///
/// Amounts and balances are in minor currency units.
#[derive(Debug, PartialEq)]
pub enum BankAccountEvent {
    AccountOpened { account_id: String },
    CustomerDepositedMoney { amount: u64, balance: u64 },
    CustomerWithdrewCash { amount: u64, balance: u64 },
    CustomerWroteCheck { check_number: String, amount: u64, balance: u64 },
}

impl View for BankAccountEvent {
    type V = EventView;

    open spec fn view(&self) -> EventView {
        match self {
            BankAccountEvent::AccountOpened { account_id } => EventView::AccountOpened {
                account_id: account_id@,
            },
            BankAccountEvent::CustomerDepositedMoney { amount, balance } => {
                EventView::CustomerDepositedMoney { amount: *amount, balance: *balance }
            },
            BankAccountEvent::CustomerWithdrewCash { amount, balance } => {
                EventView::CustomerWithdrewCash { amount: *amount, balance: *balance }
            },
            BankAccountEvent::CustomerWroteCheck { check_number, amount, balance } => {
                EventView::CustomerWroteCheck {
                    check_number: check_number@,
                    amount: *amount,
                    balance: *balance,
                }
            },
        }
    }
}

impl DeepView for BankAccountEvent {
    type V = EventView;

    open spec fn deep_view(&self) -> EventView {
        self.view()
    }
}

impl Clone for BankAccountEvent {
    fn clone(&self) -> (r: Self)
        ensures
            r == *self,
    {
        match self {
            BankAccountEvent::AccountOpened { account_id } => BankAccountEvent::AccountOpened {
                account_id: account_id.clone(),
            },
            BankAccountEvent::CustomerDepositedMoney { amount, balance } => {
                BankAccountEvent::CustomerDepositedMoney { amount: *amount, balance: *balance }
            },
            BankAccountEvent::CustomerWithdrewCash { amount, balance } => {
                BankAccountEvent::CustomerWithdrewCash { amount: *amount, balance: *balance }
            },
            BankAccountEvent::CustomerWroteCheck { check_number, amount, balance } => {
                BankAccountEvent::CustomerWroteCheck {
                    check_number: check_number.clone(),
                    amount: *amount,
                    balance: *balance,
                }
            },
        }
    }
}

} // verus!
