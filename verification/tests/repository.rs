use bank_es::aggregate::DomainError;
use bank_es::commands::BankAccountCommand;
use bank_es::events::BankAccountEvent;
use bank_es::queries::{rebuild_query, BankAccountQuery};
use bank_es::repository::{execute, RepositoryError};
use bank_es::store::{MemoryEventStore, StoreError};

fn cents(amount: f64) -> u64 {
    (amount * 100.0).round() as u64
}

#[test]
fn deposit_into_fresh_account() {
    let mut store = MemoryEventStore::new();
    let id = "acct-1".to_string();
    let envelopes = execute(
        &mut store,
        &id,
        BankAccountCommand::DepositMoney { amount: cents(200.0) },
    )
    .unwrap();
    assert_eq!(envelopes.len(), 1);
    assert_eq!(envelopes[0].aggregate_id, id);
    assert_eq!(envelopes[0].sequence, 1);
    assert_eq!(
        envelopes[0].payload,
        BankAccountEvent::CustomerDepositedMoney {
            amount: cents(200.0),
            balance: cents(200.0),
        }
    );
}

#[test]
fn deposit_on_top_of_prior_balance() {
    let mut store = MemoryEventStore::new();
    let id = "acct-1".to_string();
    execute(
        &mut store,
        &id,
        BankAccountCommand::DepositMoney { amount: cents(200.0) },
    )
    .unwrap();
    let envelopes = execute(
        &mut store,
        &id,
        BankAccountCommand::DepositMoney { amount: cents(200.0) },
    )
    .unwrap();
    assert_eq!(envelopes[0].sequence, 2);
    assert_eq!(
        envelopes[0].payload,
        BankAccountEvent::CustomerDepositedMoney {
            amount: cents(200.0),
            balance: cents(400.0),
        }
    );
}

#[test]
fn withdrawal_computes_the_new_balance() {
    let mut store = MemoryEventStore::new();
    let id = "acct-1".to_string();
    execute(
        &mut store,
        &id,
        BankAccountCommand::DepositMoney { amount: cents(200.0) },
    )
    .unwrap();
    let envelopes = execute(
        &mut store,
        &id,
        BankAccountCommand::WithdrawMoney { amount: cents(100.0) },
    )
    .unwrap();
    assert_eq!(
        envelopes[0].payload,
        BankAccountEvent::CustomerWithdrewCash {
            amount: cents(100.0),
            balance: cents(100.0),
        }
    );
}

#[test]
fn overdraft_is_rejected_and_nothing_is_appended() {
    let mut store = MemoryEventStore::new();
    let id = "acct-1".to_string();
    let result = execute(
        &mut store,
        &id,
        BankAccountCommand::WithdrawMoney { amount: cents(200.0) },
    );
    let error = result.unwrap_err();
    assert_eq!(error, RepositoryError::Rejected(DomainError::InsufficientFunds));
    match error {
        RepositoryError::Rejected(domain) => {
            assert_eq!(domain.message(), "funds not available")
        }
        RepositoryError::Conflict => panic!("a rejection, not a conflict"),
    }
    // No append happened: the stream still does not exist.
    assert_eq!(store.read_stream(&id, 0), Err(StoreError::StreamNotFound));
}

#[test]
fn written_check_reaches_the_projection() {
    let mut store = MemoryEventStore::new();
    let id = "acct-1".to_string();
    let mut query = BankAccountQuery::default();

    let opening = execute(
        &mut store,
        &id,
        BankAccountCommand::DepositMoney { amount: cents(200.0) },
    )
    .unwrap();
    let check = execute(
        &mut store,
        &id,
        BankAccountCommand::WriteCheck {
            check_number: "1170".to_string(),
            amount: cents(100.0),
        },
    )
    .unwrap();
    assert_eq!(
        check[0].payload,
        BankAccountEvent::CustomerWroteCheck {
            check_number: "1170".to_string(),
            amount: cents(100.0),
            balance: cents(100.0),
        }
    );

    for envelope in opening.iter().chain(check.iter()) {
        query.update(envelope);
    }
    assert_eq!(query.balance(), cents(100.0));
    assert_eq!(query.written_checks(), &vec!["1170".to_string()]);
}

#[test]
fn rebuilt_projection_matches_the_incremental_one() {
    let mut store = MemoryEventStore::new();
    let id = "acct-1".to_string();
    let mut incremental = BankAccountQuery::default();

    for command in [
        BankAccountCommand::OpenAccount {
            account_id: id.clone(),
        },
        BankAccountCommand::DepositMoney { amount: cents(200.0) },
        BankAccountCommand::WriteCheck {
            check_number: "1170".to_string(),
            amount: cents(100.0),
        },
    ] {
        for envelope in execute(&mut store, &id, command).unwrap() {
            incremental.update(&envelope);
        }
    }

    let rebuilt = rebuild_query(&store, &id);
    assert_eq!(rebuilt, incremental);
    assert_eq!(rebuilt.balance(), cents(100.0));

    // A stream that does not exist rebuilds to the model that folded nothing.
    let empty = rebuild_query(&store, &"acct-none".to_string());
    assert_eq!(empty, BankAccountQuery::default());
}

#[test]
fn sequential_writers_interleave_without_losing_updates() {
    // Two units of work against one aggregate, each a full
    // load-decide-append; the second evaluates against the state the first
    // committed, so no update is lost.
    let mut store = MemoryEventStore::new();
    let id = "acct-1".to_string();
    execute(
        &mut store,
        &id,
        BankAccountCommand::DepositMoney { amount: cents(100.0) },
    )
    .unwrap();
    let second = execute(
        &mut store,
        &id,
        BankAccountCommand::DepositMoney { amount: cents(100.0) },
    )
    .unwrap();
    assert_eq!(
        second[0].payload,
        BankAccountEvent::CustomerDepositedMoney {
            amount: cents(100.0),
            balance: cents(200.0),
        }
    );
    assert_eq!(store.read_stream(&id, 0).unwrap().len(), 2);
}
