//! The intents a caller may express: commands.
//!
//! A command carries only caller-supplied data; derived state such as the
//! balance is never passed in — it is computed by replay.

use vstd::prelude::*;

verus! {

/// Mathematical model of a command; strings are modelled as `Seq<char>`.
pub enum CommandView {
    OpenAccount { account_id: Seq<char> },
    DepositMoney { amount: u64 },
    WithdrawMoney { amount: u64 },
    WriteCheck { check_number: Seq<char>, amount: u64 },
}

/// A caller's intent towards one bank account.
///
/// Amounts are in minor currency units.
#[derive(Debug, PartialEq)]
pub enum BankAccountCommand {
    OpenAccount { account_id: String },
    DepositMoney { amount: u64 },
    WithdrawMoney { amount: u64 },
    WriteCheck { check_number: String, amount: u64 },
}

impl View for BankAccountCommand {
    type V = CommandView;

    open spec fn view(&self) -> CommandView {
        match self {
            BankAccountCommand::OpenAccount { account_id } => CommandView::OpenAccount {
                account_id: account_id@,
            },
            BankAccountCommand::DepositMoney { amount } => CommandView::DepositMoney {
                amount: *amount,
            },
            BankAccountCommand::WithdrawMoney { amount } => CommandView::WithdrawMoney {
                amount: *amount,
            },
            BankAccountCommand::WriteCheck { check_number, amount } => CommandView::WriteCheck {
                check_number: check_number@,
                amount: *amount,
            },
        }
    }
}

impl DeepView for BankAccountCommand {
    type V = CommandView;

    open spec fn deep_view(&self) -> CommandView {
        self.view()
    }
}

impl Clone for BankAccountCommand {
    fn clone(&self) -> (r: Self)
        ensures
            r == *self,
    {
        match self {
            BankAccountCommand::OpenAccount { account_id } => BankAccountCommand::OpenAccount {
                account_id: account_id.clone(),
            },
            BankAccountCommand::DepositMoney { amount } => BankAccountCommand::DepositMoney {
                amount: *amount,
            },
            BankAccountCommand::WithdrawMoney { amount } => BankAccountCommand::WithdrawMoney {
                amount: *amount,
            },
            BankAccountCommand::WriteCheck { check_number, amount } => {
                BankAccountCommand::WriteCheck {
                    check_number: check_number.clone(),
                    amount: *amount,
                }
            },
        }
    }
}

} // verus!
