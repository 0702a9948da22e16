//! The two messages of the negotiation and their bytes.
//!
//! Bob asks with the amount of bitcoin he offers; Alice answers with both
//! amounts. On the wire a message is the variant's index in one byte, then
//! the variant's fields as one length-prefixed payload. Nothing may follow.

use crate::codec::{encode_payload, encode_u64, parse_last_payload, parse_u64};
use crate::state::SwapAmounts;
use vstd::bytes::{
    lemma_auto_spec_u64_to_from_le_bytes, spec_u64_to_le_bytes, u64_from_le_bytes,
    u64_to_le_bytes,
};
use vstd::prelude::*;
use vstd::slice::slice_subrange;

verus! {

/// Seconds after which a request without a response has failed.
pub const TIMEOUT: u64 = 60;

/// Messages Bob sends to Alice.
#[derive(Clone, Copy, Debug, PartialEq, Eq, Structural)]
pub enum BobToAlice {
    /// The amount of bitcoin, in satoshis, that Bob wants to swap.
    AmountsFromBtc(u64),
}

/// Messages Alice sends to Bob.
#[derive(Clone, Copy, Debug, PartialEq, Eq, Structural)]
pub enum AliceToBob {
    Amounts(SwapAmounts),
}

impl BobToAlice {
    /// The message's bytes.
    pub open spec fn encoding(self) -> Seq<u8> {
        match self {
            BobToAlice::AmountsFromBtc(btc) => seq![0u8] + encode_payload(encode_u64(btc)),
        }
    }

    /// The message that `input` encodes, if it encodes one.
    pub open spec fn decoding(input: Seq<u8>) -> Option<BobToAlice> {
        if input.len() >= 1 && input[0] == 0 {
            match parse_last_payload(input.skip(1)) {
                Some(fields) => match parse_u64(fields) {
                    Some((btc, rest)) => if rest.len() == 0 {
                        Some(BobToAlice::AmountsFromBtc(btc))
                    } else {
                        None
                    },
                    None => None,
                },
                None => None,
            }
        } else {
            None
        }
    }

    /// Writes the message out as bytes.
    pub fn encode(&self) -> (bytes: Vec<u8>)
        ensures
            bytes@ == self.encoding(),
    {
        proof {
            lemma_auto_spec_u64_to_from_le_bytes();
        }
        match self {
            BobToAlice::AmountsFromBtc(btc) => {
                let mut out: Vec<u8> = Vec::new();
                out.push(0);
                let mut length = u64_to_le_bytes(8);
                out.append(&mut length);
                let mut amount = u64_to_le_bytes(*btc);
                out.append(&mut amount);
                assert(out@ =~= self.encoding());
                out
            },
        }
    }

    /// Reads a message back from bytes; `None` for bytes that are no
    /// message of Bob's.
    pub fn decode(input: &[u8]) -> (read: Option<BobToAlice>)
        ensures
            read == BobToAlice::decoding(input@),
    {
        if input.len() != 17 || input[0] != 0 {
            proof {
                lemma_decoding_needs_length(input@);
            }
            return None;
        }
        let length = u64_from_le_bytes(slice_subrange(input, 1, 9));
        assert(input@.skip(1).subrange(0, 8) =~= input@.subrange(1, 9));
        if length != 8 {
            return None;
        }
        let btc = u64_from_le_bytes(slice_subrange(input, 9, 17));
        proof {
            let fields = input@.skip(1).skip(8).take(8);
            assert(fields =~= input@.subrange(9, 17));
            assert(fields.subrange(0, 8) =~= fields);
        }
        Some(BobToAlice::AmountsFromBtc(btc))
    }
}

impl AliceToBob {
    /// The message's bytes.
    pub open spec fn encoding(self) -> Seq<u8> {
        match self {
            AliceToBob::Amounts(amounts) => seq![0u8] + encode_payload(
                encode_u64(amounts.btc) + encode_u64(amounts.xmr),
            ),
        }
    }

    /// The message that `input` encodes, if it encodes one.
    pub open spec fn decoding(input: Seq<u8>) -> Option<AliceToBob> {
        if input.len() >= 1 && input[0] == 0 {
            match parse_last_payload(input.skip(1)) {
                Some(fields) => match parse_u64(fields) {
                    Some((btc, rest)) => match parse_u64(rest) {
                        Some((xmr, rest)) => if rest.len() == 0 {
                            Some(AliceToBob::Amounts(SwapAmounts { btc, xmr }))
                        } else {
                            None
                        },
                        None => None,
                    },
                    None => None,
                },
                None => None,
            }
        } else {
            None
        }
    }

    /// Writes the message out as bytes.
    pub fn encode(&self) -> (bytes: Vec<u8>)
        ensures
            bytes@ == self.encoding(),
    {
        proof {
            lemma_auto_spec_u64_to_from_le_bytes();
        }
        match self {
            AliceToBob::Amounts(amounts) => {
                let mut out: Vec<u8> = Vec::new();
                out.push(0);
                let mut length = u64_to_le_bytes(16);
                out.append(&mut length);
                let mut btc = u64_to_le_bytes(amounts.btc);
                out.append(&mut btc);
                let mut xmr = u64_to_le_bytes(amounts.xmr);
                out.append(&mut xmr);
                assert(out@ =~= self.encoding());
                out
            },
        }
    }

    /// Reads a message back from bytes; `None` for bytes that are no
    /// message of Alice's.
    pub fn decode(input: &[u8]) -> (read: Option<AliceToBob>)
        ensures
            read == AliceToBob::decoding(input@),
    {
        if input.len() != 25 || input[0] != 0 {
            proof {
                lemma_decoding_needs_length(input@);
            }
            return None;
        }
        let length = u64_from_le_bytes(slice_subrange(input, 1, 9));
        assert(input@.skip(1).subrange(0, 8) =~= input@.subrange(1, 9));
        if length != 16 {
            return None;
        }
        let btc = u64_from_le_bytes(slice_subrange(input, 9, 17));
        let xmr = u64_from_le_bytes(slice_subrange(input, 17, 25));
        proof {
            let fields = input@.skip(1).skip(8).take(16);
            assert(fields =~= input@.subrange(9, 25));
            assert(fields.subrange(0, 8) =~= input@.subrange(9, 17));
            assert(fields.skip(8).subrange(0, 8) =~= input@.subrange(17, 25));
        }
        Some(AliceToBob::Amounts(SwapAmounts { btc, xmr }))
    }
}

/// A payload that takes up all that follows the first byte makes an input
/// of one byte, the eight bytes of the length, and the payload's bytes.
proof fn lemma_decoding_needs_length(input: Seq<u8>)
    ensures
        input.len() >= 1 ==> match parse_last_payload(input.skip(1)) {
            Some(fields) => input.len() == 9 + fields.len(),
            None => true,
        },
{
}

/// A request is read back as it was written.
pub proof fn lemma_request_round_trip(message: BobToAlice)
    ensures
        BobToAlice::decoding(message.encoding()) == Some(message),
{
    let BobToAlice::AmountsFromBtc(btc) = message;
    crate::codec::lemma_parse_u64_inverts(btc, Seq::empty());
    crate::codec::lemma_parse_last_payload_inverts(encode_u64(btc));
    assert(encode_u64(btc) + Seq::<u8>::empty() =~= encode_u64(btc));
    assert(message.encoding().skip(1) =~= encode_payload(encode_u64(btc)));
}

/// A response is read back as it was written.
pub proof fn lemma_response_round_trip(message: AliceToBob)
    ensures
        AliceToBob::decoding(message.encoding()) == Some(message),
{
    let AliceToBob::Amounts(amounts) = message;
    let fields = encode_u64(amounts.btc) + encode_u64(amounts.xmr);
    crate::codec::lemma_parse_u64_inverts(amounts.btc, encode_u64(amounts.xmr));
    crate::codec::lemma_parse_u64_inverts(amounts.xmr, Seq::empty());
    crate::codec::lemma_parse_last_payload_inverts(fields);
    assert(encode_u64(amounts.xmr) + Seq::<u8>::empty() =~= encode_u64(amounts.xmr));
    assert(message.encoding().skip(1) =~= encode_payload(fields));
}

} // verus!
