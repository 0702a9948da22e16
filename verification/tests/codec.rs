use swap::codec::{decode, encode, encode_alice_snapshot, encode_bob_snapshot};
use swap::state::{Alice, Bob, BobEndState, EndState, Swap, SwapAmounts};

/// A name or a piece of material as it is written: length, then bytes.
fn framed(bytes: &[u8]) -> Vec<u8> {
    let mut out = (bytes.len() as u64).to_le_bytes().to_vec();
    out.extend_from_slice(bytes);
    out
}

fn name(text: &str) -> Vec<u8> {
    framed(text.as_bytes())
}

fn join(parts: &[Vec<u8>]) -> Vec<u8> {
    parts.concat()
}

fn every_swap() -> Vec<Swap<Vec<u8>>> {
    let s = |b: u8| vec![b, b.wrapping_add(1), 0xFF];
    vec![
        Swap::Alice(Alice::Started {
            amounts: SwapAmounts { btc: 100_000, xmr: 100_000_000_000 },
            state0: s(0),
        }),
        Swap::Alice(Alice::Started {
            amounts: SwapAmounts { btc: u64::MAX, xmr: 0 },
            state0: vec![],
        }),
        Swap::Alice(Alice::Negotiated(s(1))),
        Swap::Alice(Alice::BtcLocked(s(2))),
        Swap::Alice(Alice::XmrLocked(s(3))),
        Swap::Alice(Alice::EncSigLearned { state: s(4), encrypted_signature: vec![9; 300] }),
        Swap::Alice(Alice::CancelTimelockExpired(s(5))),
        Swap::Alice(Alice::BtcCancelled(s(6))),
        Swap::Alice(Alice::BtcPunishable(s(7))),
        Swap::Alice(Alice::BtcRefunded { state3: s(8), spend_key: vec![7; 32] }),
        Swap::Alice(Alice::Done(EndState::SafelyAborted)),
        Swap::Alice(Alice::Done(EndState::BtcRedeemed)),
        Swap::Alice(Alice::Done(EndState::XmrRefunded)),
        Swap::Alice(Alice::Done(EndState::BtcPunished)),
        Swap::Bob(Bob::Negotiated { state2: s(10), peer_id: s(20) }),
        Swap::Bob(Bob::BtcLocked { state3: s(11), peer_id: s(20) }),
        Swap::Bob(Bob::XmrLocked { state4: s(12), peer_id: vec![] }),
        Swap::Bob(Bob::EncSigSent { state4: vec![], peer_id: s(20) }),
        Swap::Bob(Bob::BtcRedeemed(s(13))),
        Swap::Bob(Bob::CancelTimelockExpired(s(14))),
        Swap::Bob(Bob::BtcCancelled(s(15))),
        Swap::Bob(Bob::Done(BobEndState::SafelyAborted)),
        Swap::Bob(Bob::Done(BobEndState::XmrRedeemed)),
        Swap::Bob(Bob::Done(BobEndState::BtcRefunded)),
    ]
}

#[test]
fn every_snapshot_is_read_back_as_written() {
    for swap in every_swap() {
        assert_eq!(decode(&encode(&swap)), Some(swap));
    }
}

#[test]
fn different_snapshots_have_different_bytes() {
    let all = every_swap();
    for (i, a) in all.iter().enumerate() {
        for b in all.iter().skip(i + 1) {
            assert_ne!(encode(a), encode(b));
        }
    }
}

#[test]
fn a_concluded_swap_is_three_names() {
    assert_eq!(
        encode(&Swap::<Vec<u8>>::Bob(Bob::Done(BobEndState::BtcRefunded))),
        vec![
            3, 0, 0, 0, 0, 0, 0, 0, b'B', b'o', b'b', // the role
            4, 0, 0, 0, 0, 0, 0, 0, b'D', b'o', b'n', b'e', // the variant
            11, 0, 0, 0, 0, 0, 0, 0, // the end state
            b'B', b't', b'c', b'R', b'e', b'f', b'u', b'n', b'd', b'e', b'd',
        ]
    );
}

#[test]
fn started_is_role_variant_amounts_and_material() {
    let swap = Swap::Alice(Alice::Started {
        amounts: SwapAmounts { btc: 100_000, xmr: 100_000_000_000 },
        state0: vec![0xA0],
    });
    assert_eq!(
        encode(&swap),
        join(&[
            name("Alice"),
            name("Started"),
            vec![0xA0, 0x86, 0x01, 0, 0, 0, 0, 0], // 100 000 satoshis
            vec![0x00, 0xE8, 0x76, 0x48, 0x17, 0, 0, 0], // 100 000 000 000 piconero
            vec![1, 0, 0, 0, 0, 0, 0, 0, 0xA0], // one byte of material
        ])
    );
}

#[test]
fn two_pieces_of_material_follow_each_other() {
    let swap =
        Swap::Alice(Alice::EncSigLearned { state: vec![1, 2], encrypted_signature: vec![3] });
    assert_eq!(
        encode(&swap),
        join(&[
            name("Alice"),
            name("EncSigLearned"),
            vec![2, 0, 0, 0, 0, 0, 0, 0, 1, 2],
            vec![1, 0, 0, 0, 0, 0, 0, 0, 3],
        ])
    );
    let swap = Swap::Bob(Bob::Negotiated { state2: vec![], peer_id: vec![0x12, 0x20] });
    assert_eq!(
        encode(&swap),
        join(&[
            name("Bob"),
            name("Negotiated"),
            vec![0, 0, 0, 0, 0, 0, 0, 0],
            vec![2, 0, 0, 0, 0, 0, 0, 0, 0x12, 0x20],
        ])
    );
}

#[test]
fn a_snapshot_begins_with_the_names_of_role_and_variant() {
    for swap in every_swap() {
        let (role, tag) = match &swap {
            Swap::Alice(state) => ("Alice", state.tag()),
            Swap::Bob(state) => ("Bob", state.tag()),
        };
        assert!(encode(&swap).starts_with(&join(&[name(role), name(tag)])));
    }
}

#[test]
fn end_states_are_written_by_name() {
    let alice = |end: EndState| encode(&Swap::<Vec<u8>>::Alice(Alice::Done(end)));
    let bob = |end: BobEndState| encode(&Swap::<Vec<u8>>::Bob(Bob::Done(end)));
    let expect = |role: &str, end: &str| join(&[name(role), name("Done"), name(end)]);
    assert_eq!(alice(EndState::SafelyAborted), expect("Alice", "SafelyAborted"));
    assert_eq!(alice(EndState::BtcRedeemed), expect("Alice", "BtcRedeemed"));
    assert_eq!(alice(EndState::XmrRefunded), expect("Alice", "XmrRefunded"));
    assert_eq!(alice(EndState::BtcPunished), expect("Alice", "BtcPunished"));
    assert_eq!(bob(BobEndState::SafelyAborted), expect("Bob", "SafelyAborted"));
    assert_eq!(bob(BobEndState::XmrRedeemed), expect("Bob", "XmrRedeemed"));
    assert_eq!(bob(BobEndState::BtcRefunded), expect("Bob", "BtcRefunded"));
}

#[test]
fn role_snapshots_agree_with_the_general_one() {
    let alice = Alice::BtcRefunded { state3: vec![1, 2, 3], spend_key: vec![4; 32] };
    assert_eq!(encode_alice_snapshot(&alice), encode(&Swap::Alice(alice)));
    let bob = Bob::EncSigSent { state4: vec![1, 2, 3], peer_id: vec![9] };
    assert_eq!(encode_bob_snapshot(&bob), encode(&Swap::Bob(bob)));
}

#[test]
fn empty_input_is_no_snapshot() {
    assert_eq!(decode(&[]), None);
}

#[test]
fn an_unknown_role_is_refused() {
    let state = join(&[name("Done"), name("SafelyAborted")]);
    assert_eq!(decode(&join(&[name("Carol"), state.clone()])), None);
    assert_eq!(decode(&join(&[name("alice"), state.clone()])), None);
    assert_eq!(decode(&join(&[name(""), state.clone()])), None);
    assert_eq!(decode(&join(&[name("Alice"), state])), Some(Swap::Alice(Alice::Done(EndState::SafelyAborted))));
    // A number is no name.
    assert_eq!(decode(&[0, 9, 0]), None);
}

#[test]
fn a_role_without_a_state_is_refused() {
    assert_eq!(decode(&name("Alice")), None);
    assert_eq!(decode(&name("Bob")), None);
}

#[test]
fn an_unknown_variant_is_refused() {
    assert_eq!(decode(&join(&[name("Alice"), name("Paused"), framed(&[1])])), None);
    assert_eq!(decode(&join(&[name("Alice"), name("negotiated"), framed(&[1])])), None);
    assert_eq!(decode(&join(&[name("Alice"), name("Negotiated "), framed(&[1])])), None);
    // Each role has its own variants.
    assert_eq!(decode(&join(&[name("Alice"), name("BtcRedeemed"), framed(&[1])])), None);
    assert_eq!(decode(&join(&[name("Bob"), name("BtcPunishable"), framed(&[1])])), None);
    assert_eq!(decode(&join(&[name("Bob"), name("Started"), framed(&[1])])), None);
    assert_eq!(
        decode(&join(&[name("Bob"), name("BtcRedeemed"), framed(&[1])])),
        Some(Swap::Bob(Bob::BtcRedeemed(vec![1])))
    );
}

#[test]
fn an_unknown_end_state_is_refused() {
    assert_eq!(decode(&join(&[name("Alice"), name("Done"), name("Lost")])), None);
    assert_eq!(decode(&join(&[name("Alice"), name("Done"), name("XmrRedeemed")])), None);
    assert_eq!(decode(&join(&[name("Bob"), name("Done"), name("BtcPunished")])), None);
    assert_eq!(decode(&join(&[name("Alice"), name("Done")])), None);
    assert_eq!(
        decode(&join(&[name("Alice"), name("Done"), name("BtcRedeemed"), vec![0]])),
        None
    );
}

#[test]
fn material_cut_short_is_refused() {
    let mut bytes = encode(&Swap::Alice(Alice::Negotiated(vec![1, 2, 3, 4])));
    bytes.pop();
    assert_eq!(decode(&bytes), None);
    // A length field cut short.
    assert_eq!(decode(&join(&[name("Alice"), name("Negotiated"), vec![4, 0, 0]])), None);
    // A length that claims more than any input holds.
    let claims = vec![255, 255, 255, 255, 255, 255, 255, 255, 1];
    assert_eq!(decode(&join(&[name("Alice"), name("Negotiated"), claims.clone()])), None);
    assert_eq!(decode(&claims), None);
}

#[test]
fn bytes_after_the_last_field_are_refused() {
    for swap in every_swap() {
        let mut bytes = encode(&swap);
        bytes.push(0);
        assert_eq!(decode(&bytes), None);
    }
}

#[test]
fn a_missing_second_field_is_refused() {
    // EncSigLearned with the state only.
    assert_eq!(decode(&join(&[name("Alice"), name("EncSigLearned"), framed(&[7])])), None);
    // Started with one amount only.
    assert_eq!(decode(&join(&[name("Alice"), name("Started"), vec![1, 0, 0, 0, 0, 0, 0, 0]])), None);
}

#[test]
fn bytes_that_decode_are_the_bytes_of_what_they_decode_to() {
    for swap in every_swap() {
        let bytes = encode(&swap);
        let decoded = decode(&bytes).expect("a snapshot");
        assert_eq!(encode(&decoded), bytes);
    }
    // Hand-written bytes, too.
    let bytes = join(&[name("Bob"), name("EncSigSent"), framed(&[0xAA]), framed(&[])]);
    let decoded = decode(&bytes).expect("a snapshot");
    assert_eq!(decoded, Swap::Bob(Bob::EncSigSent { state4: vec![0xAA], peer_id: vec![] }));
    assert_eq!(encode(&decoded), bytes);
}
