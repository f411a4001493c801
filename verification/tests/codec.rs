use bank_es::codec::{decode_command, decode_event, encode_command, encode_event, DecodeError};
use bank_es::commands::BankAccountCommand;
use bank_es::events::BankAccountEvent;

fn event_round_trips(event: BankAccountEvent) {
    let bytes = encode_event(&event);
    assert_eq!(decode_event(&bytes), Ok(event));
}

fn command_round_trips(command: BankAccountCommand) {
    let bytes = encode_command(&command);
    assert_eq!(decode_command(&bytes), Ok(command));
}

#[test]
fn every_event_variant_round_trips() {
    event_round_trips(BankAccountEvent::AccountOpened {
        account_id: "acct-äöü-1".to_string(),
    });
    event_round_trips(BankAccountEvent::CustomerDepositedMoney {
        amount: 20000,
        balance: 20000,
    });
    event_round_trips(BankAccountEvent::CustomerWithdrewCash {
        amount: 1,
        balance: u64::MAX,
    });
    event_round_trips(BankAccountEvent::CustomerWroteCheck {
        check_number: "1170".to_string(),
        amount: 10000,
        balance: 10000,
    });
}

#[test]
fn every_command_variant_round_trips() {
    command_round_trips(BankAccountCommand::OpenAccount {
        account_id: String::new(),
    });
    command_round_trips(BankAccountCommand::DepositMoney { amount: 0 });
    command_round_trips(BankAccountCommand::WithdrawMoney { amount: 20000 });
    command_round_trips(BankAccountCommand::WriteCheck {
        check_number: "1170".to_string(),
        amount: 10000,
    });
}

#[test]
fn encoding_is_tag_then_little_endian_fields() {
    let bytes = encode_event(&BankAccountEvent::CustomerDepositedMoney {
        amount: 1,
        balance: 258,
    });
    assert_eq!(
        bytes,
        vec![2, 1, 0, 0, 0, 0, 0, 0, 0, 2, 1, 0, 0, 0, 0, 0, 0]
    );

    let bytes = encode_event(&BankAccountEvent::AccountOpened {
        account_id: "ab".to_string(),
    });
    assert_eq!(bytes, vec![1, 2, 0, 0, 0, 0, 0, 0, 0, b'a', b'b']);
}

#[test]
fn malformed_input_is_a_decode_error() {
    // Empty buffer.
    assert_eq!(decode_event(&[]), Err(DecodeError));
    // Unknown tag.
    assert_eq!(decode_event(&[9]), Err(DecodeError));
    // Truncated field.
    assert_eq!(decode_event(&[2, 1, 0]), Err(DecodeError));
    // String length runs past the end of the buffer.
    assert_eq!(
        decode_event(&[1, 4, 0, 0, 0, 0, 0, 0, 0, b'a']),
        Err(DecodeError)
    );
    // Bytes that are not UTF-8.
    assert_eq!(
        decode_event(&[1, 1, 0, 0, 0, 0, 0, 0, 0, 0xFF]),
        Err(DecodeError)
    );
    // Trailing garbage after a complete value.
    let mut bytes = encode_command(&BankAccountCommand::DepositMoney { amount: 7 });
    bytes.push(0);
    assert_eq!(decode_command(&bytes), Err(DecodeError));
}

#[test]
fn decoded_string_is_rebuilt_from_the_bytes() {
    // Would fail if decoding handed back anything but the UTF-8 decoding of
    // the string's bytes.
    let bytes = encode_event(&BankAccountEvent::AccountOpened {
        account_id: "snow\u{2603}man".to_string(),
    });
    match decode_event(&bytes).unwrap() {
        BankAccountEvent::AccountOpened { account_id } => {
            assert_eq!(account_id, "snow\u{2603}man");
            assert_eq!(account_id.chars().count(), 8);
        }
        other => panic!("wrong variant decoded: {:?}", other),
    }
}
