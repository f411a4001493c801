use bank_es::aggregate::{BankAccount, DomainError};
use bank_es::commands::BankAccountCommand;
use bank_es::events::BankAccountEvent;

/// Money literals are in currency units; the engine holds minor units.
fn cents(amount: f64) -> u64 {
    (amount * 100.0).round() as u64
}

/// Fold the given previous events into a state, as a replay would.
fn given(previous: Vec<BankAccountEvent>) -> BankAccount {
    BankAccount::replay(&previous)
}

#[test]
fn test_deposit_money() {
    let expected = BankAccountEvent::CustomerDepositedMoney {
        amount: cents(200.0),
        balance: cents(200.0),
    };
    let state = given(vec![]);
    let events = state
        .handle(BankAccountCommand::DepositMoney { amount: cents(200.0) })
        .unwrap();
    assert_eq!(events, vec![expected]);
}

#[test]
fn test_deposit_money_with_balance() {
    let previous = BankAccountEvent::CustomerDepositedMoney {
        amount: cents(200.0),
        balance: cents(200.0),
    };
    let expected = BankAccountEvent::CustomerDepositedMoney {
        amount: cents(200.0),
        balance: cents(400.0),
    };
    let state = given(vec![previous]);
    let events = state
        .handle(BankAccountCommand::DepositMoney { amount: cents(200.0) })
        .unwrap();
    assert_eq!(events, vec![expected]);
}

#[test]
fn test_withdraw_money() {
    let previous = BankAccountEvent::CustomerDepositedMoney {
        amount: cents(200.0),
        balance: cents(200.0),
    };
    let expected = BankAccountEvent::CustomerWithdrewCash {
        amount: cents(100.0),
        balance: cents(100.0),
    };
    let state = given(vec![previous]);
    let events = state
        .handle(BankAccountCommand::WithdrawMoney { amount: cents(100.0) })
        .unwrap();
    assert_eq!(events, vec![expected]);
}

#[test]
fn test_withdraw_money_funds_not_available() {
    let state = given(vec![]);
    let error = state
        .handle(BankAccountCommand::WithdrawMoney { amount: cents(200.0) })
        .unwrap_err();
    assert_eq!(error.message(), "funds not available");
}

#[test]
fn test_wrote_check() {
    let previous = BankAccountEvent::CustomerDepositedMoney {
        amount: cents(200.0),
        balance: cents(200.0),
    };
    let expected = BankAccountEvent::CustomerWroteCheck {
        check_number: "1170".to_string(),
        amount: cents(100.0),
        balance: cents(100.0),
    };
    let state = given(vec![previous]);
    let events = state
        .handle(BankAccountCommand::WriteCheck {
            check_number: "1170".to_string(),
            amount: cents(100.0),
        })
        .unwrap();
    assert_eq!(events, vec![expected]);
}

#[test]
fn test_wrote_check_funds_not_available() {
    let state = given(vec![]);
    let error = state
        .handle(BankAccountCommand::WriteCheck {
            check_number: "1170".to_string(),
            amount: cents(100.0),
        })
        .unwrap_err();
    assert_eq!(error.message(), "funds not available");
}

#[test]
fn open_account_assigns_identity() {
    let state = given(vec![]);
    let events = state
        .handle(BankAccountCommand::OpenAccount {
            account_id: "acct-1".to_string(),
        })
        .unwrap();
    assert_eq!(
        events,
        vec![BankAccountEvent::AccountOpened {
            account_id: "acct-1".to_string()
        }]
    );
    let state = given(events);
    assert_eq!(state.account_id(), "acct-1");
    assert_eq!(state.balance(), 0);
}

#[test]
fn deposit_overflow_is_rejected() {
    let previous = BankAccountEvent::CustomerDepositedMoney {
        amount: u64::MAX,
        balance: u64::MAX,
    };
    let state = given(vec![previous]);
    let error = state
        .handle(BankAccountCommand::DepositMoney { amount: 1 })
        .unwrap_err();
    assert_eq!(error, DomainError::BalanceOverflow);
    assert_eq!(error.message(), "balance out of range");
}

#[test]
fn replay_is_deterministic() {
    let history = vec![
        BankAccountEvent::AccountOpened {
            account_id: "acct-9".to_string(),
        },
        BankAccountEvent::CustomerDepositedMoney {
            amount: cents(200.0),
            balance: cents(200.0),
        },
        BankAccountEvent::CustomerWithdrewCash {
            amount: cents(50.0),
            balance: cents(150.0),
        },
    ];
    let first = BankAccount::replay(&history);
    let second = BankAccount::replay(&history);
    assert_eq!(first, second);
    assert_eq!(first.balance(), cents(150.0));
    assert_eq!(first.account_id(), "acct-9");
}

#[test]
fn rejected_command_leaves_state_unchanged() {
    let history = vec![BankAccountEvent::CustomerDepositedMoney {
        amount: cents(200.0),
        balance: cents(200.0),
    }];
    let state = BankAccount::replay(&history);
    let result = state.handle(BankAccountCommand::WithdrawMoney {
        amount: cents(500.0),
    });
    assert_eq!(result.unwrap_err(), DomainError::InsufficientFunds);
    // `handle` only reads the state: the balance is as replayed.
    assert_eq!(state.balance(), cents(200.0));
}

#[test]
fn aggregate_type_names_the_stream_namespace() {
    assert_eq!(BankAccount::aggregate_type(), "account");
}
