//! Byte encoding of events and commands, for crossing the store boundary.
//!
//! The wire form is a one-byte variant tag followed by the variant's fields:
//! a `u64` as eight little-endian bytes, a string as a `u64` byte length
//! followed by its UTF-8 bytes. Decoding rejects anything else — a wrong
//! tag, a truncated buffer, bytes that are not UTF-8, or trailing garbage —
//! with a `DecodeError`; a corrupt historical event must never be folded
//! into state silently.

use vstd::bytes::{
    lemma_auto_spec_u64_to_from_le_bytes, spec_u64_from_le_bytes, spec_u64_to_le_bytes,
    u64_from_le_bytes, u64_to_le_bytes,
};
use vstd::prelude::*;
use vstd::slice::{slice_index_get, slice_subrange, slice_to_vec};
use vstd::utf8::{decode_utf8, encode_utf8, encode_utf8_decode_utf8, encode_utf8_valid_utf8, valid_utf8};

use crate::commands::{BankAccountCommand, CommandView};
use crate::events::{BankAccountEvent, EventView};

verus! {

/// The input was not a well-formed encoding: store corruption or a schema
/// mismatch.
#[derive(Debug, Clone, Copy, PartialEq, Eq, Structural)]
pub struct DecodeError;

/// The byte form of one string: a little-endian byte length, then UTF-8.
pub open spec fn spec_encode_string(s: Seq<char>) -> Seq<u8> {
    spec_u64_to_le_bytes(encode_utf8(s).len() as u64) + encode_utf8(s)
}

/// The byte form of one event.
pub open spec fn spec_encode_event(e: EventView) -> Seq<u8> {
    match e {
        EventView::AccountOpened { account_id } => seq![1u8] + spec_encode_string(account_id),
        EventView::CustomerDepositedMoney { amount, balance } => seq![2u8] + spec_u64_to_le_bytes(
            amount,
        ) + spec_u64_to_le_bytes(balance),
        EventView::CustomerWithdrewCash { amount, balance } => seq![3u8] + spec_u64_to_le_bytes(
            amount,
        ) + spec_u64_to_le_bytes(balance),
        EventView::CustomerWroteCheck { check_number, amount, balance } => seq![4u8]
            + spec_encode_string(check_number) + spec_u64_to_le_bytes(amount)
            + spec_u64_to_le_bytes(balance),
    }
}

/// The byte form of one command.
pub open spec fn spec_encode_command(c: CommandView) -> Seq<u8> {
    match c {
        CommandView::OpenAccount { account_id } => seq![1u8] + spec_encode_string(account_id),
        CommandView::DepositMoney { amount } => seq![2u8] + spec_u64_to_le_bytes(amount),
        CommandView::WithdrawMoney { amount } => seq![3u8] + spec_u64_to_le_bytes(amount),
        CommandView::WriteCheck { check_number, amount } => seq![4u8] + spec_encode_string(
            check_number,
        ) + spec_u64_to_le_bytes(amount),
    }
}

/// Take one `u64` off the front, or nothing if fewer than eight bytes remain.
pub open spec fn spec_decode_u64(b: Seq<u8>) -> Option<(u64, Seq<u8>)> {
    if b.len() >= 8 {
        Some((spec_u64_from_le_bytes(b.subrange(0, 8)), b.skip(8)))
    } else {
        None
    }
}

/// Take one length-prefixed UTF-8 string off the front.
pub open spec fn spec_decode_string(b: Seq<u8>) -> Option<(Seq<char>, Seq<u8>)> {
    match spec_decode_u64(b) {
        Some((n, rest)) => {
            if n <= rest.len() && valid_utf8(rest.take(n as int)) {
                Some((decode_utf8(rest.take(n as int)), rest.skip(n as int)))
            } else {
                None
            }
        },
        None => None,
    }
}

/// Take two `u64`s that must use up the whole buffer.
pub open spec fn spec_decode_two_u64(b: Seq<u8>) -> Option<(u64, u64)> {
    match spec_decode_u64(b) {
        Some((first, r1)) => match spec_decode_u64(r1) {
            Some((second, r2)) => {
                if r2.len() == 0 {
                    Some((first, second))
                } else {
                    None
                }
            },
            None => None,
        },
        None => None,
    }
}

/// The event a whole buffer holds, or nothing if it is malformed.
pub open spec fn spec_decode_event(b: Seq<u8>) -> Option<EventView> {
    if b.len() < 1 {
        None
    } else {
        let rest = b.skip(1);
        if b[0] == 1 {
            match spec_decode_string(rest) {
                Some((account_id, r)) => {
                    if r.len() == 0 {
                        Some(EventView::AccountOpened { account_id })
                    } else {
                        None
                    }
                },
                None => None,
            }
        } else if b[0] == 2 {
            match spec_decode_two_u64(rest) {
                Some((amount, balance)) => Some(
                    EventView::CustomerDepositedMoney { amount, balance },
                ),
                None => None,
            }
        } else if b[0] == 3 {
            match spec_decode_two_u64(rest) {
                Some((amount, balance)) => Some(
                    EventView::CustomerWithdrewCash { amount, balance },
                ),
                None => None,
            }
        } else if b[0] == 4 {
            match spec_decode_string(rest) {
                Some((check_number, r)) => match spec_decode_two_u64(r) {
                    Some((amount, balance)) => Some(
                        EventView::CustomerWroteCheck { check_number, amount, balance },
                    ),
                    None => None,
                },
                None => None,
            }
        } else {
            None
        }
    }
}

/// The command a whole buffer holds, or nothing if it is malformed.
pub open spec fn spec_decode_command(b: Seq<u8>) -> Option<CommandView> {
    if b.len() < 1 {
        None
    } else {
        let rest = b.skip(1);
        if b[0] == 1 {
            match spec_decode_string(rest) {
                Some((account_id, r)) => {
                    if r.len() == 0 {
                        Some(CommandView::OpenAccount { account_id })
                    } else {
                        None
                    }
                },
                None => None,
            }
        } else if b[0] == 2 {
            match spec_decode_u64(rest) {
                Some((amount, r)) => {
                    if r.len() == 0 {
                        Some(CommandView::DepositMoney { amount })
                    } else {
                        None
                    }
                },
                None => None,
            }
        } else if b[0] == 3 {
            match spec_decode_u64(rest) {
                Some((amount, r)) => {
                    if r.len() == 0 {
                        Some(CommandView::WithdrawMoney { amount })
                    } else {
                        None
                    }
                },
                None => None,
            }
        } else if b[0] == 4 {
            match spec_decode_string(rest) {
                Some((check_number, r)) => match spec_decode_u64(r) {
                    Some((amount, r2)) => {
                        if r2.len() == 0 {
                            Some(CommandView::WriteCheck { check_number, amount })
                        } else {
                            None
                        }
                    },
                    None => None,
                },
                None => None,
            }
        } else {
            None
        }
    }
}

/// Whether an event's strings fit the length prefix — true of the view of
/// every event a process can hold.
pub open spec fn spec_event_wf(e: EventView) -> bool {
    match e {
        EventView::AccountOpened { account_id } => encode_utf8(account_id).len() <= u64::MAX,
        EventView::CustomerDepositedMoney { amount, balance } => true,
        EventView::CustomerWithdrewCash { amount, balance } => true,
        EventView::CustomerWroteCheck { check_number, amount, balance } => encode_utf8(
            check_number,
        ).len() <= u64::MAX,
    }
}

/// Whether a command's strings fit the length prefix.
pub open spec fn spec_command_wf(c: CommandView) -> bool {
    match c {
        CommandView::OpenAccount { account_id } => encode_utf8(account_id).len() <= u64::MAX,
        CommandView::DepositMoney { amount } => true,
        CommandView::WithdrawMoney { amount } => true,
        CommandView::WriteCheck { check_number, amount } => encode_utf8(check_number).len()
            <= u64::MAX,
    }
}

/// Decoding undoes encoding a `u64`, leaving the rest untouched.
proof fn lemma_decode_u64_of_encode(x: u64, rest: Seq<u8>)
    ensures
        spec_decode_u64(spec_u64_to_le_bytes(x) + rest) == Some((x, rest)),
{
    lemma_auto_spec_u64_to_from_le_bytes();
    let b = spec_u64_to_le_bytes(x) + rest;
    assert(b.subrange(0, 8) =~= spec_u64_to_le_bytes(x));
    assert(b.skip(8) =~= rest);
}

/// Decoding undoes encoding a string, leaving the rest untouched.
proof fn lemma_decode_string_of_encode(s: Seq<char>, rest: Seq<u8>)
    requires
        encode_utf8(s).len() <= u64::MAX,
    ensures
        spec_decode_string(spec_encode_string(s) + rest) == Some((s, rest)),
{
    broadcast use encode_utf8_valid_utf8, encode_utf8_decode_utf8;

    let u = encode_utf8(s);
    let n = u.len() as u64;
    assert(spec_encode_string(s) + rest =~= spec_u64_to_le_bytes(n) + (u + rest));
    lemma_decode_u64_of_encode(n, u + rest);
    assert((u + rest).take(n as int) =~= u);
    assert((u + rest).skip(n as int) =~= rest);
}

/// Round-trip: decoding the encoding of any event yields that event.
pub proof fn lemma_event_round_trip(e: EventView)
    requires
        spec_event_wf(e),
    ensures
        spec_decode_event(spec_encode_event(e)) == Some(e),
{
    let b = spec_encode_event(e);
    lemma_auto_spec_u64_to_from_le_bytes();
    match e {
        EventView::AccountOpened { account_id } => {
            assert(b[0] == 1);
            assert(b.skip(1) =~= spec_encode_string(account_id) + Seq::<u8>::empty());
            lemma_decode_string_of_encode(account_id, Seq::<u8>::empty());
        },
        EventView::CustomerDepositedMoney { amount, balance } => {
            assert(b[0] == 2);
            assert(b.skip(1) =~= spec_u64_to_le_bytes(amount) + spec_u64_to_le_bytes(balance));
            lemma_decode_u64_of_encode(amount, spec_u64_to_le_bytes(balance));
            assert(spec_u64_to_le_bytes(balance) =~= spec_u64_to_le_bytes(balance)
                + Seq::<u8>::empty());
            lemma_decode_u64_of_encode(balance, Seq::<u8>::empty());
        },
        EventView::CustomerWithdrewCash { amount, balance } => {
            assert(b[0] == 3);
            assert(b.skip(1) =~= spec_u64_to_le_bytes(amount) + spec_u64_to_le_bytes(balance));
            lemma_decode_u64_of_encode(amount, spec_u64_to_le_bytes(balance));
            assert(spec_u64_to_le_bytes(balance) =~= spec_u64_to_le_bytes(balance)
                + Seq::<u8>::empty());
            lemma_decode_u64_of_encode(balance, Seq::<u8>::empty());
        },
        EventView::CustomerWroteCheck { check_number, amount, balance } => {
            assert(b[0] == 4);
            assert(b.skip(1) =~= spec_encode_string(check_number) + (spec_u64_to_le_bytes(amount)
                + spec_u64_to_le_bytes(balance)));
            lemma_decode_string_of_encode(
                check_number,
                spec_u64_to_le_bytes(amount) + spec_u64_to_le_bytes(balance),
            );
            lemma_decode_u64_of_encode(amount, spec_u64_to_le_bytes(balance));
            assert(spec_u64_to_le_bytes(balance) =~= spec_u64_to_le_bytes(balance)
                + Seq::<u8>::empty());
            lemma_decode_u64_of_encode(balance, Seq::<u8>::empty());
        },
    }
}

/// Round-trip: decoding the encoding of any command yields that command.
pub proof fn lemma_command_round_trip(c: CommandView)
    requires
        spec_command_wf(c),
    ensures
        spec_decode_command(spec_encode_command(c)) == Some(c),
{
    let b = spec_encode_command(c);
    lemma_auto_spec_u64_to_from_le_bytes();
    match c {
        CommandView::OpenAccount { account_id } => {
            assert(b[0] == 1);
            assert(b.skip(1) =~= spec_encode_string(account_id) + Seq::<u8>::empty());
            lemma_decode_string_of_encode(account_id, Seq::<u8>::empty());
        },
        CommandView::DepositMoney { amount } => {
            assert(b[0] == 2);
            assert(b.skip(1) =~= spec_u64_to_le_bytes(amount) + Seq::<u8>::empty());
            lemma_decode_u64_of_encode(amount, Seq::<u8>::empty());
        },
        CommandView::WithdrawMoney { amount } => {
            assert(b[0] == 3);
            assert(b.skip(1) =~= spec_u64_to_le_bytes(amount) + Seq::<u8>::empty());
            lemma_decode_u64_of_encode(amount, Seq::<u8>::empty());
        },
        CommandView::WriteCheck { check_number, amount } => {
            assert(b[0] == 4);
            assert(b.skip(1) =~= spec_encode_string(check_number) + spec_u64_to_le_bytes(amount));
            lemma_decode_string_of_encode(check_number, spec_u64_to_le_bytes(amount));
            assert(spec_u64_to_le_bytes(amount) =~= spec_u64_to_le_bytes(amount)
                + Seq::<u8>::empty());
            lemma_decode_u64_of_encode(amount, Seq::<u8>::empty());
        },
    }
}

/// Relies on `String::from_utf8`: it succeeds exactly on valid UTF-8 input,
/// and the string it returns encodes back to the given bytes.
#[verifier::external_body]
fn string_from_utf8(bytes: Vec<u8>) -> (r: Option<String>)
    ensures
        r is Some <==> valid_utf8(bytes@),
        r matches Some(s) ==> encode_utf8(s@) == bytes@,
{
    String::from_utf8(bytes).ok()
}

/// Append the little-endian bytes of `x`.
fn encode_u64_into(out: &mut Vec<u8>, x: u64)
    ensures
        final(out)@ == old(out)@ + spec_u64_to_le_bytes(x),
{
    let mut tail = u64_to_le_bytes(x);
    out.append(&mut tail);
}

/// Append the length-prefixed UTF-8 bytes of `s`.
fn encode_string_into(out: &mut Vec<u8>, s: &String)
    ensures
        final(out)@ == old(out)@ + spec_encode_string(s@),
{
    let ghost pre = out@;
    let utf8: &[u8] = s.as_str().as_bytes();
    encode_u64_into(out, utf8.len() as u64);
    let mut tail = slice_to_vec(utf8);
    out.append(&mut tail);
    proof {
        assert(out@ =~= pre + spec_encode_string(s@));
    }
}

/// Encode one event to bytes.
pub fn encode_event(event: &BankAccountEvent) -> (r: Vec<u8>)
    ensures
        r@ == spec_encode_event(event@),
{
    let mut out: Vec<u8> = Vec::new();
    match event {
        BankAccountEvent::AccountOpened { account_id } => {
            out.push(1);
            encode_string_into(&mut out, account_id);
        },
        BankAccountEvent::CustomerDepositedMoney { amount, balance } => {
            out.push(2);
            encode_u64_into(&mut out, *amount);
            encode_u64_into(&mut out, *balance);
        },
        BankAccountEvent::CustomerWithdrewCash { amount, balance } => {
            out.push(3);
            encode_u64_into(&mut out, *amount);
            encode_u64_into(&mut out, *balance);
        },
        BankAccountEvent::CustomerWroteCheck { check_number, amount, balance } => {
            out.push(4);
            encode_string_into(&mut out, check_number);
            encode_u64_into(&mut out, *amount);
            encode_u64_into(&mut out, *balance);
        },
    }
    proof {
        assert(out@ =~= spec_encode_event(event@));
    }
    out
}

/// Encode one command to bytes.
pub fn encode_command(command: &BankAccountCommand) -> (r: Vec<u8>)
    ensures
        r@ == spec_encode_command(command@),
{
    let mut out: Vec<u8> = Vec::new();
    match command {
        BankAccountCommand::OpenAccount { account_id } => {
            out.push(1);
            encode_string_into(&mut out, account_id);
        },
        BankAccountCommand::DepositMoney { amount } => {
            out.push(2);
            encode_u64_into(&mut out, *amount);
        },
        BankAccountCommand::WithdrawMoney { amount } => {
            out.push(3);
            encode_u64_into(&mut out, *amount);
        },
        BankAccountCommand::WriteCheck { check_number, amount } => {
            out.push(4);
            encode_string_into(&mut out, check_number);
            encode_u64_into(&mut out, *amount);
        },
    }
    proof {
        assert(out@ =~= spec_encode_command(command@));
    }
    out
}

/// Take one `u64` off `bytes` at offset `i`.
fn decode_u64_at(bytes: &[u8], i: usize) -> (r: Result<(u64, usize), DecodeError>)
    requires
        i <= bytes@.len(),
    ensures
        match spec_decode_u64(bytes@.skip(i as int)) {
            Some(p) => r matches Ok(q) && q.0 == p.0 && i <= q.1 <= bytes@.len() && p.1
                == bytes@.skip(q.1 as int),
            None => r is Err,
        },
{
    if bytes.len() - i >= 8 {
        let sub = slice_subrange(bytes, i, i + 8);
        let x = u64_from_le_bytes(sub);
        proof {
            assert(bytes@.skip(i as int).subrange(0, 8) =~= bytes@.subrange(
                i as int,
                i as int + 8,
            ));
            assert(bytes@.skip(i as int).skip(8) =~= bytes@.skip(i as int + 8));
        }
        Ok((x, i + 8))
    } else {
        Err(DecodeError)
    }
}

/// Take one length-prefixed UTF-8 string off `bytes` at offset `i`.
fn decode_string_at(bytes: &[u8], i: usize) -> (r: Result<(String, usize), DecodeError>)
    requires
        i <= bytes@.len(),
    ensures
        match spec_decode_string(bytes@.skip(i as int)) {
            Some(p) => r matches Ok(q) && q.0@ == p.0 && i <= q.1 <= bytes@.len() && p.1
                == bytes@.skip(q.1 as int),
            None => r is Err,
        },
{
    let (n, j) = match decode_u64_at(bytes, i) {
        Ok(p) => p,
        Err(e) => {
            return Err(e);
        },
    };
    if n > (bytes.len() - j) as u64 {
        return Err(DecodeError);
    }
    let k = j + (n as usize);
    let sub = slice_to_vec(slice_subrange(bytes, j, k));
    proof {
        assert(bytes@.skip(j as int).take(n as int) =~= bytes@.subrange(j as int, k as int));
        assert(bytes@.skip(j as int).skip(n as int) =~= bytes@.skip(k as int));
    }
    match string_from_utf8(sub) {
        Some(s) => {
            proof {
                broadcast use encode_utf8_decode_utf8;

            }
            Ok((s, k))
        },
        None => Err(DecodeError),
    }
}

/// Decode one event from a whole buffer; anything malformed — a wrong tag,
/// a truncated field, bytes that are not UTF-8, or trailing garbage — is a
/// `DecodeError`.
pub fn decode_event(bytes: &[u8]) -> (r: Result<BankAccountEvent, DecodeError>)
    ensures
        match spec_decode_event(bytes@) {
            Some(e) => r matches Ok(v) && v@ == e,
            None => r == Err::<BankAccountEvent, DecodeError>(DecodeError),
        },
{
    if bytes.len() < 1 {
        return Err(DecodeError);
    }
    let tag = *slice_index_get(bytes, 0);
    if tag == 1 {
        let (account_id, i) = match decode_string_at(bytes, 1) {
            Ok(p) => p,
            Err(e) => {
                return Err(e);
            },
        };
        if i != bytes.len() {
            return Err(DecodeError);
        }
        Ok(BankAccountEvent::AccountOpened { account_id })
    } else if tag == 2 {
        let (amount, balance) = match decode_two_u64_at(bytes, 1) {
            Ok(p) => p,
            Err(e) => {
                return Err(e);
            },
        };
        Ok(BankAccountEvent::CustomerDepositedMoney { amount, balance })
    } else if tag == 3 {
        let (amount, balance) = match decode_two_u64_at(bytes, 1) {
            Ok(p) => p,
            Err(e) => {
                return Err(e);
            },
        };
        Ok(BankAccountEvent::CustomerWithdrewCash { amount, balance })
    } else if tag == 4 {
        let (check_number, i) = match decode_string_at(bytes, 1) {
            Ok(p) => p,
            Err(e) => {
                return Err(e);
            },
        };
        let (amount, balance) = match decode_two_u64_at(bytes, i) {
            Ok(p) => p,
            Err(e) => {
                return Err(e);
            },
        };
        Ok(BankAccountEvent::CustomerWroteCheck { check_number, amount, balance })
    } else {
        Err(DecodeError)
    }
}

/// Take two `u64`s at offset `i` that must use up the rest of the buffer.
fn decode_two_u64_at(bytes: &[u8], i: usize) -> (r: Result<(u64, u64), DecodeError>)
    requires
        i <= bytes@.len(),
    ensures
        match spec_decode_two_u64(bytes@.skip(i as int)) {
            Some(p) => r matches Ok(q) && q == p,
            None => r is Err,
        },
{
    let (first, j) = match decode_u64_at(bytes, i) {
        Ok(p) => p,
        Err(e) => {
            return Err(e);
        },
    };
    let (second, k) = match decode_u64_at(bytes, j) {
        Ok(p) => p,
        Err(e) => {
            return Err(e);
        },
    };
    if k != bytes.len() {
        return Err(DecodeError);
    }
    Ok((first, second))
}

/// Decode one command from a whole buffer, rejecting anything malformed.
pub fn decode_command(bytes: &[u8]) -> (r: Result<BankAccountCommand, DecodeError>)
    ensures
        match spec_decode_command(bytes@) {
            Some(c) => r matches Ok(v) && v@ == c,
            None => r == Err::<BankAccountCommand, DecodeError>(DecodeError),
        },
{
    if bytes.len() < 1 {
        return Err(DecodeError);
    }
    let tag = *slice_index_get(bytes, 0);
    if tag == 1 {
        let (account_id, i) = match decode_string_at(bytes, 1) {
            Ok(p) => p,
            Err(e) => {
                return Err(e);
            },
        };
        if i != bytes.len() {
            return Err(DecodeError);
        }
        Ok(BankAccountCommand::OpenAccount { account_id })
    } else if tag == 2 {
        let (amount, i) = match decode_u64_at(bytes, 1) {
            Ok(p) => p,
            Err(e) => {
                return Err(e);
            },
        };
        if i != bytes.len() {
            return Err(DecodeError);
        }
        Ok(BankAccountCommand::DepositMoney { amount })
    } else if tag == 3 {
        let (amount, i) = match decode_u64_at(bytes, 1) {
            Ok(p) => p,
            Err(e) => {
                return Err(e);
            },
        };
        if i != bytes.len() {
            return Err(DecodeError);
        }
        Ok(BankAccountCommand::WithdrawMoney { amount })
    } else if tag == 4 {
        let (check_number, i) = match decode_string_at(bytes, 1) {
            Ok(p) => p,
            Err(e) => {
                return Err(e);
            },
        };
        let (amount, j) = match decode_u64_at(bytes, i) {
            Ok(p) => p,
            Err(e) => {
                return Err(e);
            },
        };
        if j != bytes.len() {
            return Err(DecodeError);
        }
        Ok(BankAccountCommand::WriteCheck { check_number, amount })
    } else {
        Err(DecodeError)
    }
}

} // verus!
