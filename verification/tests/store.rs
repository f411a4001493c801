use bank_es::events::BankAccountEvent;
use bank_es::store::{MemoryEventStore, StoreError};

fn deposit(balance: u64) -> BankAccountEvent {
    BankAccountEvent::CustomerDepositedMoney {
        amount: balance,
        balance,
    }
}

#[test]
fn append_then_read_round_trips_in_order() {
    let mut store = MemoryEventStore::new();
    let id = "acct-1".to_string();
    let version = store.append(&id, 0, vec![deposit(100), deposit(200)]).unwrap();
    assert_eq!(version, 2);

    let envelopes = store.read_stream(&id, 0).unwrap();
    assert_eq!(envelopes.len(), 2);
    assert_eq!(envelopes[0].aggregate_id, id);
    assert_eq!(envelopes[0].sequence, 1);
    assert_eq!(envelopes[0].payload, deposit(100));
    assert_eq!(envelopes[1].sequence, 2);
    assert_eq!(envelopes[1].payload, deposit(200));
}

#[test]
fn append_with_stale_version_conflicts_and_appends_nothing() {
    let mut store = MemoryEventStore::new();
    let id = "acct-1".to_string();
    store.append(&id, 0, vec![deposit(100)]).unwrap();

    // Two writers both read version 1; the first one wins.
    let first = store.append(&id, 1, vec![deposit(200)]);
    assert_eq!(first, Ok(2));
    let second = store.append(&id, 1, vec![deposit(300)]);
    assert_eq!(second, Err(StoreError::ConcurrencyConflict));

    // The losing append left the stream untouched.
    let envelopes = store.read_stream(&id, 0).unwrap();
    assert_eq!(envelopes.len(), 2);
    assert_eq!(envelopes[1].payload, deposit(200));
}

#[test]
fn append_to_new_stream_needs_expected_version_zero() {
    let mut store = MemoryEventStore::new();
    let id = "acct-1".to_string();
    let stale = store.append(&id, 3, vec![deposit(100)]);
    assert_eq!(stale, Err(StoreError::ConcurrencyConflict));
    assert_eq!(store.read_stream(&id, 0), Err(StoreError::StreamNotFound));
}

#[test]
fn read_missing_stream_is_not_found() {
    let store = MemoryEventStore::new();
    let id = "acct-unknown".to_string();
    assert_eq!(store.read_stream(&id, 0), Err(StoreError::StreamNotFound));
}

#[test]
fn read_from_offset_restarts_mid_stream() {
    let mut store = MemoryEventStore::new();
    let id = "acct-1".to_string();
    store
        .append(&id, 0, vec![deposit(100), deposit(200), deposit(300)])
        .unwrap();

    let tail = store.read_stream(&id, 2).unwrap();
    assert_eq!(tail.len(), 2);
    assert_eq!(tail[0].sequence, 2);
    assert_eq!(tail[0].payload, deposit(200));
    assert_eq!(tail[1].sequence, 3);

    // Restartable: the same offset yields the same envelopes again.
    assert_eq!(store.read_stream(&id, 2).unwrap(), tail);

    // Past the end there is nothing left.
    assert_eq!(store.read_stream(&id, 9).unwrap(), vec![]);
}

#[test]
fn streams_are_independent_per_aggregate_id() {
    let mut store = MemoryEventStore::new();
    let a = "acct-a".to_string();
    let b = "acct-b".to_string();
    store.append(&a, 0, vec![deposit(100)]).unwrap();
    store.append(&b, 0, vec![deposit(900)]).unwrap();

    assert_eq!(store.read_stream(&a, 0).unwrap()[0].payload, deposit(100));
    assert_eq!(store.read_stream(&b, 0).unwrap()[0].payload, deposit(900));
}
