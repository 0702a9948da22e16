//! The byte format of persisted snapshots.
//!
//! A snapshot is the name of the role, the name of the variant, then the
//! variant's fields in order. A name is written as its ASCII bytes, an
//! end state as its name, an amount as a `u64` in little-endian order, and
//! a piece of cryptographic material as its bytes. Names and material are
//! each preceded by their length as such a `u64`. Nothing may follow the
//! last field. The names are part of the on-disk format: a snapshot is read
//! back by them, so they are never changed.

use crate::state::{Alice, Bob, BobEndState, EndState, Role, Swap, SwapAmounts};
use vstd::bytes::{
    lemma_auto_spec_u64_to_from_le_bytes, spec_u64_from_le_bytes, spec_u64_to_le_bytes,
    u64_from_le_bytes, u64_to_le_bytes,
};
use vstd::prelude::*;
use vstd::slice::{slice_subrange, slice_to_vec};
use vstd::string::is_ascii_spec_bytes;
use vstd::utf8::is_ascii_chars;

verus! {

impl View for Alice<Vec<u8>> {
    type V = Alice<Seq<u8>>;

    open spec fn view(&self) -> Alice<Seq<u8>> {
        match *self {
            Alice::Started { amounts, state0 } => Alice::Started { amounts, state0: state0@ },
            Alice::Negotiated(state3) => Alice::Negotiated(state3@),
            Alice::BtcLocked(state3) => Alice::BtcLocked(state3@),
            Alice::XmrLocked(state3) => Alice::XmrLocked(state3@),
            Alice::EncSigLearned { state, encrypted_signature } => Alice::EncSigLearned {
                state: state@,
                encrypted_signature: encrypted_signature@,
            },
            Alice::CancelTimelockExpired(state3) => Alice::CancelTimelockExpired(state3@),
            Alice::BtcCancelled(state3) => Alice::BtcCancelled(state3@),
            Alice::BtcPunishable(state3) => Alice::BtcPunishable(state3@),
            Alice::BtcRefunded { state3, spend_key } => Alice::BtcRefunded {
                state3: state3@,
                spend_key: spend_key@,
            },
            Alice::Done(end) => Alice::Done(end),
        }
    }
}

impl View for Bob<Vec<u8>> {
    type V = Bob<Seq<u8>>;

    open spec fn view(&self) -> Bob<Seq<u8>> {
        match *self {
            Bob::Negotiated { state2, peer_id } => Bob::Negotiated {
                state2: state2@,
                peer_id: peer_id@,
            },
            Bob::BtcLocked { state3, peer_id } => Bob::BtcLocked {
                state3: state3@,
                peer_id: peer_id@,
            },
            Bob::XmrLocked { state4, peer_id } => Bob::XmrLocked {
                state4: state4@,
                peer_id: peer_id@,
            },
            Bob::EncSigSent { state4, peer_id } => Bob::EncSigSent {
                state4: state4@,
                peer_id: peer_id@,
            },
            Bob::BtcRedeemed(state5) => Bob::BtcRedeemed(state5@),
            Bob::CancelTimelockExpired(state4) => Bob::CancelTimelockExpired(state4@),
            Bob::BtcCancelled(state4) => Bob::BtcCancelled(state4@),
            Bob::Done(end) => Bob::Done(end),
        }
    }
}

impl View for Swap<Vec<u8>> {
    type V = Swap<Seq<u8>>;

    open spec fn view(&self) -> Swap<Seq<u8>> {
        match *self {
            Swap::Alice(alice) => Swap::Alice(alice@),
            Swap::Bob(bob) => Swap::Bob(bob@),
        }
    }
}

/// An amount on the wire: eight bytes, least significant first.
pub open spec fn encode_u64(value: u64) -> Seq<u8> {
    spec_u64_to_le_bytes(value)
}

/// A piece of material on the wire: its length, then its bytes.
pub open spec fn encode_payload(payload: Seq<u8>) -> Seq<u8> {
    spec_u64_to_le_bytes(payload.len() as u64) + payload
}

/// Reads an amount off the front of `input`; gives it with what follows.
pub open spec fn parse_u64(input: Seq<u8>) -> Option<(u64, Seq<u8>)> {
    if input.len() >= 8 {
        Some((spec_u64_from_le_bytes(input.subrange(0, 8)), input.skip(8)))
    } else {
        None
    }
}

/// Reads a piece of material off the front of `input`; gives it with what
/// follows.
pub open spec fn parse_payload(input: Seq<u8>) -> Option<(Seq<u8>, Seq<u8>)> {
    match parse_u64(input) {
        Some((length, rest)) => if rest.len() >= length {
            Some((rest.take(length as int), rest.skip(length as int)))
        } else {
            None
        },
        None => None,
    }
}

/// Reads a piece of material that makes up all of `input`.
pub open spec fn parse_last_payload(input: Seq<u8>) -> Option<Seq<u8>> {
    match parse_payload(input) {
        Some((payload, rest)) => if rest.len() == 0 {
            Some(payload)
        } else {
            None
        },
        None => None,
    }
}

/// Reads two pieces of material that together make up all of `input`.
pub open spec fn parse_two_payloads(input: Seq<u8>) -> Option<(Seq<u8>, Seq<u8>)> {
    match parse_payload(input) {
        Some((first, rest)) => match parse_last_payload(rest) {
            Some(second) => Some((first, second)),
            None => None,
        },
        None => None,
    }
}

/// Reads two amounts and a last piece of material.
pub open spec fn parse_amounts_and_payload(input: Seq<u8>) -> Option<(SwapAmounts, Seq<u8>)> {
    match parse_u64(input) {
        Some((btc, rest)) => match parse_u64(rest) {
            Some((xmr, rest)) => match parse_last_payload(rest) {
                Some(payload) => Some((SwapAmounts { btc, xmr }, payload)),
                None => None,
            },
            None => None,
        },
        None => None,
    }
}


/// A name's bytes: one for each of its characters.
pub open spec fn text_bytes(text: Seq<char>) -> Seq<u8> {
    Seq::new(text.len(), |i: int| text[i] as u8)
}

/// A name on the wire: the length of its bytes, then its bytes.
pub open spec fn encode_text(text: Seq<char>) -> Seq<u8> {
    encode_payload(text_bytes(text))
}

/// The end state of Alice's that a name stands for.
pub open spec fn end_state_of(name: Seq<u8>) -> Option<EndState> {
    if name == text_bytes(EndState::SafelyAborted.name()) {
        Some(EndState::SafelyAborted)
    } else if name == text_bytes(EndState::BtcRedeemed.name()) {
        Some(EndState::BtcRedeemed)
    } else if name == text_bytes(EndState::XmrRefunded.name()) {
        Some(EndState::XmrRefunded)
    } else if name == text_bytes(EndState::BtcPunished.name()) {
        Some(EndState::BtcPunished)
    } else {
        None
    }
}

/// The end state of Bob's that a name stands for.
pub open spec fn bob_end_state_of(name: Seq<u8>) -> Option<BobEndState> {
    if name == text_bytes(BobEndState::SafelyAborted.name()) {
        Some(BobEndState::SafelyAborted)
    } else if name == text_bytes(BobEndState::XmrRedeemed.name()) {
        Some(BobEndState::XmrRedeemed)
    } else if name == text_bytes(BobEndState::BtcRefunded.name()) {
        Some(BobEndState::BtcRefunded)
    } else {
        None
    }
}

/// The fields of Alice's state, in order.
pub open spec fn alice_fields(state: Alice<Seq<u8>>) -> Seq<u8> {
    match state {
        Alice::Started { amounts, state0 } => encode_u64(amounts.btc) + encode_u64(amounts.xmr)
            + encode_payload(state0),
        Alice::Negotiated(state3) => encode_payload(state3),
        Alice::BtcLocked(state3) => encode_payload(state3),
        Alice::XmrLocked(state3) => encode_payload(state3),
        Alice::EncSigLearned { state, encrypted_signature } => encode_payload(state)
            + encode_payload(encrypted_signature),
        Alice::CancelTimelockExpired(state3) => encode_payload(state3),
        Alice::BtcCancelled(state3) => encode_payload(state3),
        Alice::BtcPunishable(state3) => encode_payload(state3),
        Alice::BtcRefunded { state3, spend_key } => encode_payload(state3) + encode_payload(
            spend_key,
        ),
        Alice::Done(end) => encode_text(end.name()),
    }
}

/// Alice's state as bytes: the variant's tag, then its fields.
pub open spec fn encode_alice(state: Alice<Seq<u8>>) -> Seq<u8> {
    encode_text(state.tag_text()) + alice_fields(state)
}

/// The state of Alice's with the variant named `name` and the fields
/// `fields`, if there is one.
pub open spec fn alice_of(name: Seq<u8>, fields: Seq<u8>) -> Option<Alice<Seq<u8>>> {
    if name == text_bytes("Started"@) {
        match parse_amounts_and_payload(fields) {
            Some((amounts, state0)) => Some(Alice::Started { amounts, state0 }),
            None => None,
        }
    } else if name == text_bytes("EncSigLearned"@) {
        match parse_two_payloads(fields) {
            Some((state, encrypted_signature)) => Some(
                Alice::EncSigLearned { state, encrypted_signature },
            ),
            None => None,
        }
    } else if name == text_bytes("BtcRefunded"@) {
        match parse_two_payloads(fields) {
            Some((state3, spend_key)) => Some(Alice::BtcRefunded { state3, spend_key }),
            None => None,
        }
    } else if name == text_bytes("Done"@) {
        match parse_last_payload(fields) {
            Some(end_name) => match end_state_of(end_name) {
                Some(end) => Some(Alice::Done(end)),
                None => None,
            },
            None => None,
        }
    } else {
        match parse_last_payload(fields) {
            Some(state3) => if name == text_bytes("Negotiated"@) {
                Some(Alice::Negotiated(state3))
            } else if name == text_bytes("BtcLocked"@) {
                Some(Alice::BtcLocked(state3))
            } else if name == text_bytes("XmrLocked"@) {
                Some(Alice::XmrLocked(state3))
            } else if name == text_bytes("CancelTimelockExpired"@) {
                Some(Alice::CancelTimelockExpired(state3))
            } else if name == text_bytes("BtcCancelled"@) {
                Some(Alice::BtcCancelled(state3))
            } else if name == text_bytes("BtcPunishable"@) {
                Some(Alice::BtcPunishable(state3))
            } else {
                None
            },
            None => None,
        }
    }
}

/// The state of Alice's that `input` encodes, if it encodes one.
pub open spec fn decode_alice(input: Seq<u8>) -> Option<Alice<Seq<u8>>> {
    match parse_payload(input) {
        Some((name, fields)) => alice_of(name, fields),
        None => None,
    }
}

/// The fields of Bob's state, in order.
pub open spec fn bob_fields(state: Bob<Seq<u8>>) -> Seq<u8> {
    match state {
        Bob::Negotiated { state2, peer_id } => encode_payload(state2) + encode_payload(peer_id),
        Bob::BtcLocked { state3, peer_id } => encode_payload(state3) + encode_payload(peer_id),
        Bob::XmrLocked { state4, peer_id } => encode_payload(state4) + encode_payload(peer_id),
        Bob::EncSigSent { state4, peer_id } => encode_payload(state4) + encode_payload(peer_id),
        Bob::BtcRedeemed(state5) => encode_payload(state5),
        Bob::CancelTimelockExpired(state4) => encode_payload(state4),
        Bob::BtcCancelled(state4) => encode_payload(state4),
        Bob::Done(end) => encode_text(end.name()),
    }
}

/// Bob's state as bytes: the variant's tag, then its fields.
pub open spec fn encode_bob(state: Bob<Seq<u8>>) -> Seq<u8> {
    encode_text(state.tag_text()) + bob_fields(state)
}

/// The state of Bob's with the variant named `name` and the fields
/// `fields`, if there is one.
pub open spec fn bob_of(name: Seq<u8>, fields: Seq<u8>) -> Option<Bob<Seq<u8>>> {
    if name == text_bytes("Negotiated"@) || name == text_bytes("BtcLocked"@) || name == text_bytes(
        "XmrLocked"@,
    ) || name == text_bytes("EncSigSent"@) {
        match parse_two_payloads(fields) {
            Some((state, peer_id)) => if name == text_bytes("Negotiated"@) {
                Some(Bob::Negotiated { state2: state, peer_id })
            } else if name == text_bytes("BtcLocked"@) {
                Some(Bob::BtcLocked { state3: state, peer_id })
            } else if name == text_bytes("XmrLocked"@) {
                Some(Bob::XmrLocked { state4: state, peer_id })
            } else {
                Some(Bob::EncSigSent { state4: state, peer_id })
            },
            None => None,
        }
    } else if name == text_bytes("Done"@) {
        match parse_last_payload(fields) {
            Some(end_name) => match bob_end_state_of(end_name) {
                Some(end) => Some(Bob::Done(end)),
                None => None,
            },
            None => None,
        }
    } else {
        match parse_last_payload(fields) {
            Some(state) => if name == text_bytes("BtcRedeemed"@) {
                Some(Bob::BtcRedeemed(state))
            } else if name == text_bytes("CancelTimelockExpired"@) {
                Some(Bob::CancelTimelockExpired(state))
            } else if name == text_bytes("BtcCancelled"@) {
                Some(Bob::BtcCancelled(state))
            } else {
                None
            },
            None => None,
        }
    }
}

/// The state of Bob's that `input` encodes, if it encodes one.
pub open spec fn decode_bob(input: Seq<u8>) -> Option<Bob<Seq<u8>>> {
    match parse_payload(input) {
        Some((name, fields)) => bob_of(name, fields),
        None => None,
    }
}

/// A snapshot as bytes: the role's name, then the role's state.
pub open spec fn encode_spec(swap: Swap<Seq<u8>>) -> Seq<u8> {
    match swap {
        Swap::Alice(alice) => encode_text(Role::Alice.name()) + encode_alice(alice),
        Swap::Bob(bob) => encode_text(Role::Bob.name()) + encode_bob(bob),
    }
}

/// The snapshot that `input` encodes, if it encodes one.
pub open spec fn decode_spec(input: Seq<u8>) -> Option<Swap<Seq<u8>>> {
    match parse_payload(input) {
        Some((role, state)) => if role == text_bytes(Role::Alice.name()) {
            match decode_alice(state) {
                Some(alice) => Some(Swap::Alice(alice)),
                None => None,
            }
        } else if role == text_bytes(Role::Bob.name()) {
            match decode_bob(state) {
                Some(bob) => Some(Swap::Bob(bob)),
                None => None,
            }
        } else {
            None
        },
        None => None,
    }
}

/// `text` is ASCII, has `length` characters and begins with the character
/// whose code is `first`.
pub open spec fn spelled(text: Seq<char>, length: nat, first: u8) -> bool {
    &&& is_ascii_chars(text)
    &&& text_bytes(text).len() == length
    &&& text_bytes(text)[0] == first
}

/// How the names of the format are spelled, as far as it takes to tell
/// them apart: no two names that can stand in the same place have the
/// same bytes.
pub proof fn lemma_names_are_spelled()
    ensures
        spelled("Alice"@, 5, 65),
        spelled("Bob"@, 3, 66),
        spelled("Started"@, 7, 83),
        spelled("Negotiated"@, 10, 78),
        spelled("BtcLocked"@, 9, 66),
        spelled("XmrLocked"@, 9, 88),
        spelled("EncSigLearned"@, 13, 69),
        spelled("EncSigSent"@, 10, 69),
        spelled("CancelTimelockExpired"@, 21, 67),
        spelled("BtcCancelled"@, 12, 66),
        spelled("BtcPunishable"@, 13, 66),
        spelled("BtcRefunded"@, 11, 66),
        spelled("BtcRedeemed"@, 11, 66),
        spelled("Done"@, 4, 68),
        spelled("SafelyAborted"@, 13, 83),
        spelled("XmrRefunded"@, 11, 88),
        spelled("XmrRedeemed"@, 11, 88),
        spelled("BtcPunished"@, 11, 66),
        text_bytes("BtcRedeemed"@)[3] == 82,
        text_bytes("BtcPunished"@)[3] == 80,
{
    reveal_strlit("Alice");
    reveal_strlit("Bob");
    reveal_strlit("Started");
    reveal_strlit("Negotiated");
    reveal_strlit("BtcLocked");
    reveal_strlit("XmrLocked");
    reveal_strlit("EncSigLearned");
    reveal_strlit("EncSigSent");
    reveal_strlit("CancelTimelockExpired");
    reveal_strlit("BtcCancelled");
    reveal_strlit("BtcPunishable");
    reveal_strlit("BtcRefunded");
    reveal_strlit("BtcRedeemed");
    reveal_strlit("Done");
    reveal_strlit("SafelyAborted");
    reveal_strlit("XmrRefunded");
    reveal_strlit("XmrRedeemed");
    reveal_strlit("BtcPunished");
}

/// Every piece of material in the state has a length that fits the length
/// field. This holds of whatever a machine can hold in memory.
pub open spec fn alice_fits(state: Alice<Seq<u8>>) -> bool {
    match state {
        Alice::Started { state0, .. } => state0.len() <= u64::MAX,
        Alice::Negotiated(state3) => state3.len() <= u64::MAX,
        Alice::BtcLocked(state3) => state3.len() <= u64::MAX,
        Alice::XmrLocked(state3) => state3.len() <= u64::MAX,
        Alice::EncSigLearned { state, encrypted_signature } => state.len() <= u64::MAX
            && encrypted_signature.len() <= u64::MAX,
        Alice::CancelTimelockExpired(state3) => state3.len() <= u64::MAX,
        Alice::BtcCancelled(state3) => state3.len() <= u64::MAX,
        Alice::BtcPunishable(state3) => state3.len() <= u64::MAX,
        Alice::BtcRefunded { state3, spend_key } => state3.len() <= u64::MAX && spend_key.len()
            <= u64::MAX,
        Alice::Done(_) => true,
    }
}

/// Every piece of material in the state has a length that fits the length
/// field.
pub open spec fn bob_fits(state: Bob<Seq<u8>>) -> bool {
    match state {
        Bob::Negotiated { state2, peer_id } => state2.len() <= u64::MAX && peer_id.len()
            <= u64::MAX,
        Bob::BtcLocked { state3, peer_id } => state3.len() <= u64::MAX && peer_id.len()
            <= u64::MAX,
        Bob::XmrLocked { state4, peer_id } => state4.len() <= u64::MAX && peer_id.len()
            <= u64::MAX,
        Bob::EncSigSent { state4, peer_id } => state4.len() <= u64::MAX && peer_id.len()
            <= u64::MAX,
        Bob::BtcRedeemed(state5) => state5.len() <= u64::MAX,
        Bob::CancelTimelockExpired(state4) => state4.len() <= u64::MAX,
        Bob::BtcCancelled(state4) => state4.len() <= u64::MAX,
        Bob::Done(_) => true,
    }
}

/// Every piece of material in the snapshot has a length that fits the
/// length field.
pub open spec fn fits(swap: Swap<Seq<u8>>) -> bool {
    match swap {
        Swap::Alice(alice) => alice_fits(alice),
        Swap::Bob(bob) => bob_fits(bob),
    }
}

/// An amount is read back as it was written, with what followed it.
pub proof fn lemma_parse_u64_inverts(value: u64, rest: Seq<u8>)
    ensures
        encode_u64(value).len() == 8,
        parse_u64(encode_u64(value) + rest) == Some((value, rest)),
{
    lemma_auto_spec_u64_to_from_le_bytes();
    let input = encode_u64(value) + rest;
    assert(input.subrange(0, 8) =~= encode_u64(value));
    assert(input.skip(8) =~= rest);
}

/// A piece of material is read back as it was written, with what followed
/// it.
pub proof fn lemma_parse_payload_inverts(payload: Seq<u8>, rest: Seq<u8>)
    requires
        payload.len() <= u64::MAX,
    ensures
        parse_payload(encode_payload(payload) + rest) == Some((payload, rest)),
{
    let length = payload.len() as u64;
    lemma_parse_u64_inverts(length, payload + rest);
    assert(encode_payload(payload) + rest =~= encode_u64(length) + (payload + rest));
    assert((payload + rest).take(length as int) =~= payload);
    assert((payload + rest).skip(length as int) =~= rest);
}

/// A last piece of material is read back as it was written.
pub proof fn lemma_parse_last_payload_inverts(payload: Seq<u8>)
    requires
        payload.len() <= u64::MAX,
    ensures
        parse_last_payload(encode_payload(payload)) == Some(payload),
{
    lemma_parse_payload_inverts(payload, Seq::empty());
    assert(encode_payload(payload) + Seq::<u8>::empty() =~= encode_payload(payload));
}

/// Two pieces of material are read back as they were written.
pub proof fn lemma_parse_two_payloads_inverts(first: Seq<u8>, second: Seq<u8>)
    requires
        first.len() <= u64::MAX,
        second.len() <= u64::MAX,
    ensures
        parse_two_payloads(encode_payload(first) + encode_payload(second)) == Some((first, second)),
{
    lemma_parse_payload_inverts(first, encode_payload(second));
    lemma_parse_last_payload_inverts(second);
}


/// Decoding Alice's encoded state gives the state back.
pub proof fn lemma_alice_round_trip(state: Alice<Seq<u8>>)
    requires
        alice_fits(state),
    ensures
        decode_alice(encode_alice(state)) == Some(state),
{
    lemma_names_are_spelled();
    let fields = alice_fields(state);
    lemma_parse_payload_inverts(text_bytes(state.tag_text()), fields);
    match state {
        Alice::Started { amounts, state0 } => {
            let tail = encode_u64(amounts.xmr) + encode_payload(state0);
            lemma_parse_u64_inverts(amounts.btc, tail);
            lemma_parse_u64_inverts(amounts.xmr, encode_payload(state0));
            lemma_parse_last_payload_inverts(state0);
            assert(fields =~= encode_u64(amounts.btc) + tail);
        },
        Alice::Negotiated(state3) => {
            lemma_parse_last_payload_inverts(state3);
        },
        Alice::BtcLocked(state3) => {
            lemma_parse_last_payload_inverts(state3);
        },
        Alice::XmrLocked(state3) => {
            lemma_parse_last_payload_inverts(state3);
        },
        Alice::EncSigLearned { state, encrypted_signature } => {
            lemma_parse_two_payloads_inverts(state, encrypted_signature);
        },
        Alice::CancelTimelockExpired(state3) => {
            lemma_parse_last_payload_inverts(state3);
        },
        Alice::BtcCancelled(state3) => {
            lemma_parse_last_payload_inverts(state3);
        },
        Alice::BtcPunishable(state3) => {
            lemma_parse_last_payload_inverts(state3);
        },
        Alice::BtcRefunded { state3, spend_key } => {
            lemma_parse_two_payloads_inverts(state3, spend_key);
        },
        Alice::Done(end) => {
            lemma_parse_last_payload_inverts(text_bytes(end.name()));
        },
    }
}

/// Decoding Bob's encoded state gives the state back.
pub proof fn lemma_bob_round_trip(state: Bob<Seq<u8>>)
    requires
        bob_fits(state),
    ensures
        decode_bob(encode_bob(state)) == Some(state),
{
    lemma_names_are_spelled();
    lemma_parse_payload_inverts(text_bytes(state.tag_text()), bob_fields(state));
    match state {
        Bob::Negotiated { state2, peer_id } => {
            lemma_parse_two_payloads_inverts(state2, peer_id);
        },
        Bob::BtcLocked { state3, peer_id } => {
            lemma_parse_two_payloads_inverts(state3, peer_id);
        },
        Bob::XmrLocked { state4, peer_id } => {
            lemma_parse_two_payloads_inverts(state4, peer_id);
        },
        Bob::EncSigSent { state4, peer_id } => {
            lemma_parse_two_payloads_inverts(state4, peer_id);
        },
        Bob::BtcRedeemed(state5) => {
            lemma_parse_last_payload_inverts(state5);
        },
        Bob::CancelTimelockExpired(state4) => {
            lemma_parse_last_payload_inverts(state4);
        },
        Bob::BtcCancelled(state4) => {
            lemma_parse_last_payload_inverts(state4);
        },
        Bob::Done(end) => {
            lemma_parse_last_payload_inverts(text_bytes(end.name()));
        },
    }
}

/// Decoding an encoded snapshot gives the snapshot back.
pub proof fn lemma_round_trip(swap: Swap<Seq<u8>>)
    requires
        fits(swap),
    ensures
        decode_spec(encode_spec(swap)) == Some(swap),
{
    lemma_names_are_spelled();
    match swap {
        Swap::Alice(alice) => {
            lemma_alice_round_trip(alice);
            lemma_parse_payload_inverts(text_bytes(Role::Alice.name()), encode_alice(alice));
        },
        Swap::Bob(bob) => {
            lemma_bob_round_trip(bob);
            lemma_parse_payload_inverts(text_bytes(Role::Bob.name()), encode_bob(bob));
        },
    }
}

/// Appends `bytes` to `out`.
fn put_bytes(out: &mut Vec<u8>, bytes: &[u8])
    ensures
        final(out)@ == old(out)@ + bytes@,
{
    let mut i: usize = 0;
    while i < bytes.len()
        invariant
            i <= bytes@.len(),
            out@ == old(out)@ + bytes@.take(i as int),
        decreases bytes@.len() - i,
    {
        out.push(bytes[i]);
        i = i + 1;
        assert(bytes@.take(i as int) =~= bytes@.take(i - 1).push(bytes@[i - 1]));
    }
    assert(bytes@.take(i as int) =~= bytes@);
}

/// Appends an amount to `out`.
fn put_u64(out: &mut Vec<u8>, value: u64)
    ensures
        final(out)@ == old(out)@ + encode_u64(value),
{
    let mut bytes = u64_to_le_bytes(value);
    out.append(&mut bytes);
}

/// Appends a piece of material to `out`.
fn put_payload(out: &mut Vec<u8>, payload: &Vec<u8>)
    ensures
        final(out)@ == old(out)@ + encode_payload(payload@),
{
    put_u64(out, payload.len() as u64);
    put_bytes(out, payload.as_slice());
    assert(out@ =~= old(out)@ + encode_payload(payload@));
}


/// Appends a name to `out`.
fn put_text(out: &mut Vec<u8>, text: &str)
    requires
        is_ascii_chars(text@),
    ensures
        final(out)@ == old(out)@ + encode_text(text@),
{
    proof {
        is_ascii_spec_bytes(text);
    }
    let bytes = text.as_bytes();
    put_u64(out, bytes.len() as u64);
    put_bytes(out, bytes);
    assert(out@ =~= old(out)@ + encode_text(text@));
}

/// Appends Alice's state to `out`.
fn put_alice(out: &mut Vec<u8>, state: &Alice<Vec<u8>>)
    ensures
        final(out)@ == old(out)@ + encode_alice(state@),
{
    proof {
        lemma_names_are_spelled();
    }
    put_text(out, state.tag());
    match state {
        Alice::Started { amounts, state0 } => {
            put_u64(out, amounts.btc);
            put_u64(out, amounts.xmr);
            put_payload(out, state0);
        },
        Alice::Negotiated(state3) => {
            put_payload(out, state3);
        },
        Alice::BtcLocked(state3) => {
            put_payload(out, state3);
        },
        Alice::XmrLocked(state3) => {
            put_payload(out, state3);
        },
        Alice::EncSigLearned { state, encrypted_signature } => {
            put_payload(out, state);
            put_payload(out, encrypted_signature);
        },
        Alice::CancelTimelockExpired(state3) => {
            put_payload(out, state3);
        },
        Alice::BtcCancelled(state3) => {
            put_payload(out, state3);
        },
        Alice::BtcPunishable(state3) => {
            put_payload(out, state3);
        },
        Alice::BtcRefunded { state3, spend_key } => {
            put_payload(out, state3);
            put_payload(out, spend_key);
        },
        Alice::Done(end) => {
            put_text(out, end.as_str());
        },
    }
    assert(out@ =~= old(out)@ + encode_alice(state@));
}

/// Appends Bob's state to `out`.
fn put_bob(out: &mut Vec<u8>, state: &Bob<Vec<u8>>)
    ensures
        final(out)@ == old(out)@ + encode_bob(state@),
{
    proof {
        lemma_names_are_spelled();
    }
    put_text(out, state.tag());
    match state {
        Bob::Negotiated { state2, peer_id } => {
            put_payload(out, state2);
            put_payload(out, peer_id);
        },
        Bob::BtcLocked { state3, peer_id } => {
            put_payload(out, state3);
            put_payload(out, peer_id);
        },
        Bob::XmrLocked { state4, peer_id } => {
            put_payload(out, state4);
            put_payload(out, peer_id);
        },
        Bob::EncSigSent { state4, peer_id } => {
            put_payload(out, state4);
            put_payload(out, peer_id);
        },
        Bob::BtcRedeemed(state5) => {
            put_payload(out, state5);
        },
        Bob::CancelTimelockExpired(state4) => {
            put_payload(out, state4);
        },
        Bob::BtcCancelled(state4) => {
            put_payload(out, state4);
        },
        Bob::Done(end) => {
            put_text(out, end.as_str());
        },
    }
    assert(out@ =~= old(out)@ + encode_bob(state@));
}

/// Writes a snapshot of Alice's out as bytes.
pub fn encode_alice_snapshot(state: &Alice<Vec<u8>>) -> (bytes: Vec<u8>)
    ensures
        bytes@ == encode_spec(Swap::Alice(state@)),
{
    proof {
        lemma_names_are_spelled();
    }
    let mut out: Vec<u8> = Vec::new();
    put_text(&mut out, Role::Alice.as_str());
    put_alice(&mut out, state);
    assert(out@ =~= encode_spec(Swap::Alice(state@)));
    out
}

/// Writes a snapshot of Bob's out as bytes.
pub fn encode_bob_snapshot(state: &Bob<Vec<u8>>) -> (bytes: Vec<u8>)
    ensures
        bytes@ == encode_spec(Swap::Bob(state@)),
{
    proof {
        lemma_names_are_spelled();
    }
    let mut out: Vec<u8> = Vec::new();
    put_text(&mut out, Role::Bob.as_str());
    put_bob(&mut out, state);
    assert(out@ =~= encode_spec(Swap::Bob(state@)));
    out
}

/// Writes a snapshot out as bytes.
pub fn encode(swap: &Swap<Vec<u8>>) -> (bytes: Vec<u8>)
    ensures
        bytes@ == encode_spec(swap@),
{
    match swap {
        Swap::Alice(alice) => encode_alice_snapshot(alice),
        Swap::Bob(bob) => encode_bob_snapshot(bob),
    }
}

/// An amount that was read is the only way to write what was read.
pub proof fn lemma_parse_u64_is_canonical(input: Seq<u8>)
    requires
        parse_u64(input) is Some,
    ensures
        input == encode_u64(parse_u64(input).unwrap().0) + parse_u64(input).unwrap().1,
{
    lemma_auto_spec_u64_to_from_le_bytes();
    let head = input.subrange(0, 8);
    assert(spec_u64_to_le_bytes(spec_u64_from_le_bytes(head)) == head);
    assert(input =~= head + input.skip(8));
}

/// A piece of material that was read is the only way to write what was
/// read.
pub proof fn lemma_parse_payload_is_canonical(input: Seq<u8>)
    requires
        parse_payload(input) is Some,
    ensures
        parse_payload(input).unwrap().0.len() <= u64::MAX,
        input == encode_payload(parse_payload(input).unwrap().0) + parse_payload(input).unwrap().1,
{
    lemma_parse_u64_is_canonical(input);
    let (length, after) = parse_u64(input)->0;
    let (payload, rest) = parse_payload(input)->0;
    assert(payload.len() == length);
    assert(after =~= payload + rest);
    assert(input =~= encode_payload(payload) + rest);
}

/// A last piece of material that was read is the only way to write what
/// was read.
pub proof fn lemma_parse_last_payload_is_canonical(input: Seq<u8>)
    requires
        parse_last_payload(input) is Some,
    ensures
        parse_last_payload(input)->0.len() <= u64::MAX,
        input == encode_payload(parse_last_payload(input)->0),
{
    lemma_parse_payload_is_canonical(input);
    let (payload, rest) = parse_payload(input)->0;
    assert(encode_payload(payload) + rest =~= encode_payload(payload));
}

/// Two pieces of material that were read are the only way to write what
/// was read.
pub proof fn lemma_parse_two_payloads_is_canonical(input: Seq<u8>)
    requires
        parse_two_payloads(input) is Some,
    ensures
        parse_two_payloads(input).unwrap().0.len() <= u64::MAX,
        parse_two_payloads(input).unwrap().1.len() <= u64::MAX,
        input == encode_payload(parse_two_payloads(input).unwrap().0) + encode_payload(
            parse_two_payloads(input).unwrap().1,
        ),
{
    lemma_parse_payload_is_canonical(input);
    lemma_parse_last_payload_is_canonical(parse_payload(input).unwrap().1);
}

/// The format is canonical for Alice's states: bytes that decode to a

/// The format is canonical for Alice's states: bytes that decode to a
/// state are the bytes that the state encodes to.
pub proof fn lemma_alice_encoding_is_canonical(input: Seq<u8>)
    requires
        decode_alice(input) is Some,
    ensures
        alice_fits(decode_alice(input)->0),
        encode_alice(decode_alice(input)->0) == input,
{
    lemma_parse_payload_is_canonical(input);
    let (name, fields) = parse_payload(input)->0;
    let state = decode_alice(input)->0;
    if name == text_bytes("Started"@) {
        lemma_parse_u64_is_canonical(fields);
        let after_btc = parse_u64(fields).unwrap().1;
        lemma_parse_u64_is_canonical(after_btc);
        let after_xmr = parse_u64(after_btc).unwrap().1;
        lemma_parse_last_payload_is_canonical(after_xmr);
        assert(alice_fields(state) =~= fields);
    } else if name == text_bytes("EncSigLearned"@) || name == text_bytes("BtcRefunded"@) {
        lemma_parse_two_payloads_is_canonical(fields);
    } else {
        lemma_parse_last_payload_is_canonical(fields);
    }
}

/// The format is canonical for Bob's states: bytes that decode to a state
/// are the bytes that the state encodes to.
pub proof fn lemma_bob_encoding_is_canonical(input: Seq<u8>)
    requires
        decode_bob(input) is Some,
    ensures
        bob_fits(decode_bob(input)->0),
        encode_bob(decode_bob(input)->0) == input,
{
    lemma_parse_payload_is_canonical(input);
    let (name, fields) = parse_payload(input)->0;
    if name == text_bytes("Negotiated"@) || name == text_bytes("BtcLocked"@) || name == text_bytes(
        "XmrLocked"@,
    ) || name == text_bytes("EncSigSent"@) {
        lemma_parse_two_payloads_is_canonical(fields);
    } else {
        lemma_parse_last_payload_is_canonical(fields);
    }
}

/// The format is canonical: bytes that decode to a snapshot are the bytes
/// that the snapshot encodes to, so no two byte strings stand for the same
/// snapshot.
pub proof fn lemma_encoding_is_canonical(input: Seq<u8>)
    requires
        decode_spec(input) is Some,
    ensures
        fits(decode_spec(input)->0),
        encode_spec(decode_spec(input)->0) == input,
{
    lemma_parse_payload_is_canonical(input);
    let (role, state) = parse_payload(input)->0;
    if role == text_bytes(Role::Alice.name()) {
        lemma_alice_encoding_is_canonical(state);
    } else {
        lemma_bob_encoding_is_canonical(state);
    }
}

/// What is held in memory fits the format, so a snapshot that was written
/// with [`encode`] is read back by [`decode`] as it was.
pub proof fn lemma_snapshot_round_trip(swap: Swap<Vec<u8>>)
    ensures
        fits(swap@),
        decode_spec(encode_spec(swap@)) == Some(swap@),
{
    broadcast use vstd::std_specs::vec::axiom_spec_len;

    assert(fits(swap@)) by {
        match swap {
            Swap::Alice(alice) => {
                match alice {
                    Alice::Started { state0, .. } => {
                        assert(state0@.len() == state0.len());
                    },
                    Alice::Negotiated(state3) => {
                        assert(state3@.len() == state3.len());
                    },
                    Alice::BtcLocked(state3) => {
                        assert(state3@.len() == state3.len());
                    },
                    Alice::XmrLocked(state3) => {
                        assert(state3@.len() == state3.len());
                    },
                    Alice::EncSigLearned { state, encrypted_signature } => {
                        assert(state@.len() == state.len());
                        assert(encrypted_signature@.len() == encrypted_signature.len());
                    },
                    Alice::CancelTimelockExpired(state3) => {
                        assert(state3@.len() == state3.len());
                    },
                    Alice::BtcCancelled(state3) => {
                        assert(state3@.len() == state3.len());
                    },
                    Alice::BtcPunishable(state3) => {
                        assert(state3@.len() == state3.len());
                    },
                    Alice::BtcRefunded { state3, spend_key } => {
                        assert(state3@.len() == state3.len());
                        assert(spend_key@.len() == spend_key.len());
                    },
                    Alice::Done(_) => {},
                }
            },
            Swap::Bob(bob) => {
                match bob {
                    Bob::Negotiated { state2, peer_id } => {
                        assert(state2@.len() == state2.len());
                        assert(peer_id@.len() == peer_id.len());
                    },
                    Bob::BtcLocked { state3, peer_id } => {
                        assert(state3@.len() == state3.len());
                        assert(peer_id@.len() == peer_id.len());
                    },
                    Bob::XmrLocked { state4, peer_id } => {
                        assert(state4@.len() == state4.len());
                        assert(peer_id@.len() == peer_id.len());
                    },
                    Bob::EncSigSent { state4, peer_id } => {
                        assert(state4@.len() == state4.len());
                        assert(peer_id@.len() == peer_id.len());
                    },
                    Bob::BtcRedeemed(state5) => {
                        assert(state5@.len() == state5.len());
                    },
                    Bob::CancelTimelockExpired(state4) => {
                        assert(state4@.len() == state4.len());
                    },
                    Bob::BtcCancelled(state4) => {
                        assert(state4@.len() == state4.len());
                    },
                    Bob::Done(_) => {},
                }
            },
        }
    }
    lemma_round_trip(swap@);
}

/// Reads an amount at `at`; gives it with the place that follows it.
fn read_u64(input: &[u8], at: usize) -> (read: Option<(u64, usize)>)
    requires
        at <= input@.len(),
    ensures
        match read {
            Some((value, next)) => at <= next <= input@.len() && parse_u64(input@.skip(at as int))
                == Some((value, input@.skip(next as int))),
            None => parse_u64(input@.skip(at as int)) is None,
        },
{
    if input.len() - at < 8 {
        return None;
    }
    let value = u64_from_le_bytes(slice_subrange(input, at, at + 8));
    assert(input@.skip(at as int).subrange(0, 8) =~= input@.subrange(at as int, at + 8));
    assert(input@.skip(at as int).skip(8) =~= input@.skip(at + 8));
    Some((value, at + 8))
}

/// Reads a piece of material at `at`; gives it with the place that follows
/// it.
fn read_payload(input: &[u8], at: usize) -> (read: Option<(Vec<u8>, usize)>)
    requires
        at <= input@.len(),
    ensures
        match read {
            Some((payload, next)) => at <= next <= input@.len() && parse_payload(
                input@.skip(at as int),
            ) == Some((payload@, input@.skip(next as int))),
            None => parse_payload(input@.skip(at as int)) is None,
        },
{
    match read_u64(input, at) {
        Some((length, start)) => {
            if length > (input.len() - start) as u64 {
                return None;
            }
            let end: usize = start + length as usize;
            let payload = slice_to_vec(slice_subrange(input, start, end));
            assert(input@.skip(start as int).take(length as int) =~= input@.subrange(
                start as int,
                end as int,
            ));
            assert(input@.skip(start as int).skip(length as int) =~= input@.skip(end as int));
            Some((payload, end))
        },
        None => None,
    }
}

/// Reads a piece of material that runs from `at` to the end.
fn read_last_payload(input: &[u8], at: usize) -> (read: Option<Vec<u8>>)
    requires
        at <= input@.len(),
    ensures
        match read {
            Some(payload) => parse_last_payload(input@.skip(at as int)) == Some(payload@),
            None => parse_last_payload(input@.skip(at as int)) is None,
        },
{
    match read_payload(input, at) {
        Some((payload, next)) => if next == input.len() {
            Some(payload)
        } else {
            None
        },
        None => None,
    }
}

/// Reads two pieces of material that run from `at` to the end.
fn read_two_payloads(input: &[u8], at: usize) -> (read: Option<(Vec<u8>, Vec<u8>)>)
    requires
        at <= input@.len(),
    ensures
        match read {
            Some((first, second)) => parse_two_payloads(input@.skip(at as int)) == Some(
                (first@, second@),
            ),
            None => parse_two_payloads(input@.skip(at as int)) is None,
        },
{
    match read_payload(input, at) {
        Some((first, next)) => match read_last_payload(input, next) {
            Some(second) => Some((first, second)),
            None => None,
        },
        None => None,
    }
}

/// Reads two amounts and a piece of material that run from `at` to the end.
fn read_amounts_and_payload(input: &[u8], at: usize) -> (read: Option<(SwapAmounts, Vec<u8>)>)
    requires
        at <= input@.len(),
    ensures
        match read {
            Some((amounts, payload)) => parse_amounts_and_payload(input@.skip(at as int)) == Some(
                (amounts, payload@),
            ),
            None => parse_amounts_and_payload(input@.skip(at as int)) is None,
        },
{
    match read_u64(input, at) {
        Some((btc, next)) => match read_u64(input, next) {
            Some((xmr, next)) => match read_last_payload(input, next) {
                Some(payload) => Some((SwapAmounts { btc, xmr }, payload)),
                None => None,
            },
            None => None,
        },
        None => None,
    }
}


/// Whether `bytes` are the bytes of the name `text`.
fn is_text(bytes: &[u8], text: &str) -> (same: bool)
    requires
        is_ascii_chars(text@),
    ensures
        same == (bytes@ == text_bytes(text@)),
{
    proof {
        is_ascii_spec_bytes(text);
    }
    let name = text.as_bytes();
    if bytes.len() != name.len() {
        return false;
    }
    let mut i: usize = 0;
    while i < bytes.len()
        invariant
            i <= bytes@.len(),
            bytes@.len() == name@.len(),
            name@ == text_bytes(text@),
            forall|k: int| 0 <= k < i ==> bytes@[k] == name@[k],
        decreases bytes@.len() - i,
    {
        if bytes[i] != name[i] {
            return false;
        }
        i = i + 1;
    }
    assert(bytes@ =~= name@);
    true
}

/// The end state of Alice's that is named by `name`.
fn read_end_state(name: &[u8]) -> (end: Option<EndState>)
    ensures
        end == end_state_of(name@),
{
    proof {
        lemma_names_are_spelled();
    }
    if is_text(name, "SafelyAborted") {
        Some(EndState::SafelyAborted)
    } else if is_text(name, "BtcRedeemed") {
        Some(EndState::BtcRedeemed)
    } else if is_text(name, "XmrRefunded") {
        Some(EndState::XmrRefunded)
    } else if is_text(name, "BtcPunished") {
        Some(EndState::BtcPunished)
    } else {
        None
    }
}

/// The end state of Bob's that is named by `name`.
fn read_bob_end_state(name: &[u8]) -> (end: Option<BobEndState>)
    ensures
        end == bob_end_state_of(name@),
{
    proof {
        lemma_names_are_spelled();
    }
    if is_text(name, "SafelyAborted") {
        Some(BobEndState::SafelyAborted)
    } else if is_text(name, "XmrRedeemed") {
        Some(BobEndState::XmrRedeemed)
    } else if is_text(name, "BtcRefunded") {
        Some(BobEndState::BtcRefunded)
    } else {
        None
    }
}

/// Reads Alice's state, which runs from `at` to the end.
fn read_alice(input: &[u8], at: usize) -> (read: Option<Alice<Vec<u8>>>)
    requires
        at <= input@.len(),
    ensures
        match read {
            Some(state) => decode_alice(input@.skip(at as int)) == Some(state@),
            None => decode_alice(input@.skip(at as int)) is None,
        },
{
    proof {
        lemma_names_are_spelled();
    }
    let (tag, fields) = match read_payload(input, at) {
        Some(found) => found,
        None => {
            return None;
        },
    };
    let name = tag.as_slice();
    if is_text(name, "Started") {
        match read_amounts_and_payload(input, fields) {
            Some((amounts, state0)) => Some(Alice::Started { amounts, state0 }),
            None => None,
        }
    } else if is_text(name, "EncSigLearned") {
        match read_two_payloads(input, fields) {
            Some((state, encrypted_signature)) => Some(
                Alice::EncSigLearned { state, encrypted_signature },
            ),
            None => None,
        }
    } else if is_text(name, "BtcRefunded") {
        match read_two_payloads(input, fields) {
            Some((state3, spend_key)) => Some(Alice::BtcRefunded { state3, spend_key }),
            None => None,
        }
    } else if is_text(name, "Done") {
        match read_last_payload(input, fields) {
            Some(end_name) => match read_end_state(end_name.as_slice()) {
                Some(end) => Some(Alice::Done(end)),
                None => None,
            },
            None => None,
        }
    } else {
        match read_last_payload(input, fields) {
            Some(state3) => if is_text(name, "Negotiated") {
                Some(Alice::Negotiated(state3))
            } else if is_text(name, "BtcLocked") {
                Some(Alice::BtcLocked(state3))
            } else if is_text(name, "XmrLocked") {
                Some(Alice::XmrLocked(state3))
            } else if is_text(name, "CancelTimelockExpired") {
                Some(Alice::CancelTimelockExpired(state3))
            } else if is_text(name, "BtcCancelled") {
                Some(Alice::BtcCancelled(state3))
            } else if is_text(name, "BtcPunishable") {
                Some(Alice::BtcPunishable(state3))
            } else {
                None
            },
            None => None,
        }
    }
}

/// Reads Bob's state, which runs from `at` to the end.
fn read_bob(input: &[u8], at: usize) -> (read: Option<Bob<Vec<u8>>>)
    requires
        at <= input@.len(),
    ensures
        match read {
            Some(state) => decode_bob(input@.skip(at as int)) == Some(state@),
            None => decode_bob(input@.skip(at as int)) is None,
        },
{
    proof {
        lemma_names_are_spelled();
    }
    let (tag, fields) = match read_payload(input, at) {
        Some(found) => found,
        None => {
            return None;
        },
    };
    let name = tag.as_slice();
    if is_text(name, "Negotiated") || is_text(name, "BtcLocked") || is_text(name, "XmrLocked")
        || is_text(name, "EncSigSent") {
        match read_two_payloads(input, fields) {
            Some((state, peer_id)) => if is_text(name, "Negotiated") {
                Some(Bob::Negotiated { state2: state, peer_id })
            } else if is_text(name, "BtcLocked") {
                Some(Bob::BtcLocked { state3: state, peer_id })
            } else if is_text(name, "XmrLocked") {
                Some(Bob::XmrLocked { state4: state, peer_id })
            } else {
                Some(Bob::EncSigSent { state4: state, peer_id })
            },
            None => None,
        }
    } else if is_text(name, "Done") {
        match read_last_payload(input, fields) {
            Some(end_name) => match read_bob_end_state(end_name.as_slice()) {
                Some(end) => Some(Bob::Done(end)),
                None => None,
            },
            None => None,
        }
    } else {
        match read_last_payload(input, fields) {
            Some(state) => if is_text(name, "BtcRedeemed") {
                Some(Bob::BtcRedeemed(state))
            } else if is_text(name, "CancelTimelockExpired") {
                Some(Bob::CancelTimelockExpired(state))
            } else if is_text(name, "BtcCancelled") {
                Some(Bob::BtcCancelled(state))
            } else {
                None
            },
            None => None,
        }
    }
}

/// Reads a snapshot back from bytes. Gives `None` for bytes that are no
/// snapshot: an unknown role, variant or end state, a field cut short, or
/// bytes left over after the last field.
pub fn decode(input: &[u8]) -> (read: Option<Swap<Vec<u8>>>)
    ensures
        match read {
            Some(swap) => decode_spec(input@) == Some(swap@),
            None => decode_spec(input@) is None,
        },
{
    proof {
        lemma_names_are_spelled();
        assert(input@.skip(0) =~= input@);
    }
    let (role, state) = match read_payload(input, 0) {
        Some(found) => found,
        None => {
            return None;
        },
    };
    if is_text(role.as_slice(), "Alice") {
        match read_alice(input, state) {
            Some(alice) => Some(Swap::Alice(alice)),
            None => None,
        }
    } else if is_text(role.as_slice(), "Bob") {
        match read_bob(input, state) {
            Some(bob) => Some(Swap::Bob(bob)),
            None => None,
        }
    } else {
        None
    }
}

} // verus!
