use swap::alice::{BehaviourOutEvent, PeerTrackerEvent};
use swap::network::request_response::BobToAlice;
use swap::state::{Alice, Bob, BobEndState, EndState, Role, Swap, SwapAmounts, Trigger};

fn m(byte: u8) -> Vec<u8> {
    vec![byte]
}

fn all_alice_states() -> Vec<Alice<Vec<u8>>> {
    vec![
        Alice::Started { amounts: SwapAmounts { btc: 1, xmr: 2 }, state0: m(0) },
        Alice::Negotiated(m(3)),
        Alice::BtcLocked(m(3)),
        Alice::XmrLocked(m(3)),
        Alice::EncSigLearned { state: m(3), encrypted_signature: m(9) },
        Alice::CancelTimelockExpired(m(3)),
        Alice::BtcCancelled(m(3)),
        Alice::BtcPunishable(m(3)),
        Alice::BtcRefunded { state3: m(3), spend_key: m(7) },
        Alice::Done(EndState::BtcRedeemed),
    ]
}

fn all_bob_states() -> Vec<Bob<Vec<u8>>> {
    vec![
        Bob::Negotiated { state2: m(2), peer_id: m(1) },
        Bob::BtcLocked { state3: m(3), peer_id: m(1) },
        Bob::XmrLocked { state4: m(4), peer_id: m(1) },
        Bob::EncSigSent { state4: m(4), peer_id: m(1) },
        Bob::BtcRedeemed(m(5)),
        Bob::CancelTimelockExpired(m(4)),
        Bob::BtcCancelled(m(4)),
        Bob::Done(BobEndState::XmrRedeemed),
    ]
}

#[test]
fn alice_states_are_numbered_in_protocol_order() {
    let positions: Vec<u8> = all_alice_states().iter().map(|s| s.position()).collect();
    assert_eq!(positions, vec![1, 2, 3, 4, 5, 6, 7, 8, 9, 10]);
}

#[test]
fn bob_states_are_numbered_in_protocol_order() {
    let positions: Vec<u8> = all_bob_states().iter().map(|s| s.position()).collect();
    assert_eq!(positions, vec![1, 2, 3, 4, 5, 6, 7, 8]);
}

#[test]
fn alice_tags_are_the_variant_names() {
    let tags: Vec<&str> = all_alice_states().iter().map(|s| s.tag()).collect();
    assert_eq!(
        tags,
        vec![
            "Started",
            "Negotiated",
            "BtcLocked",
            "XmrLocked",
            "EncSigLearned",
            "CancelTimelockExpired",
            "BtcCancelled",
            "BtcPunishable",
            "BtcRefunded",
            "Done",
        ]
    );
}

#[test]
fn bob_tags_are_the_variant_names() {
    let tags: Vec<&str> = all_bob_states().iter().map(|s| s.tag()).collect();
    assert_eq!(
        tags,
        vec![
            "Negotiated",
            "BtcLocked",
            "XmrLocked",
            "EncSigSent",
            "BtcRedeemed",
            "CancelTimelockExpired",
            "BtcCancelled",
            "Done",
        ]
    );
}

#[test]
fn alice_states_read_as_sentences() {
    let texts: Vec<String> = all_alice_states().iter().map(|s| s.to_string()).collect();
    assert_eq!(
        texts,
        vec![
            "Started",
            "Handshake complete",
            "Bitcoin locked",
            "Monero locked",
            "Encrypted signature learned",
            "Cancel timelock is expired",
            "Bitcoin cancel transaction published",
            "Bitcoin punishable",
            "Monero refundable",
            "Done: BtcRedeemed",
        ]
    );
    assert_eq!(Alice::<Vec<u8>>::Done(EndState::SafelyAborted).to_string(), "Done: SafelyAborted");
    assert_eq!(Alice::<Vec<u8>>::Done(EndState::XmrRefunded).to_string(), "Done: XmrRefunded");
    assert_eq!(Alice::<Vec<u8>>::Done(EndState::BtcPunished).to_string(), "Done: BtcPunished");
}

#[test]
fn bob_states_read_as_sentences() {
    let texts: Vec<String> = all_bob_states().iter().map(|s| s.to_string()).collect();
    assert_eq!(
        texts,
        vec![
            "Handshake complete",
            "Bitcoin locked",
            "Monero locked",
            "Encrypted signature sent",
            "Monero redeemable",
            "Cancel timelock is expired",
            "Bitcoin refundable",
            "Done: XmrRedeemed",
        ]
    );
    assert_eq!(Bob::<Vec<u8>>::Done(BobEndState::SafelyAborted).to_string(), "Done: SafelyAborted");
    assert_eq!(Bob::<Vec<u8>>::Done(BobEndState::BtcRefunded).to_string(), "Done: BtcRefunded");
}

#[test]
fn a_swap_reads_as_its_state() {
    assert_eq!(Swap::Alice(Alice::XmrLocked(m(3))).to_string(), "Monero locked");
    assert_eq!(Swap::Bob(Bob::BtcCancelled(m(4))).to_string(), "Bitcoin refundable");
}

#[test]
fn end_states_read_as_their_names() {
    assert_eq!(EndState::SafelyAborted.to_string(), "SafelyAborted");
    assert_eq!(EndState::BtcRedeemed.to_string(), "BtcRedeemed");
    assert_eq!(EndState::XmrRefunded.to_string(), "XmrRefunded");
    assert_eq!(EndState::BtcPunished.to_string(), "BtcPunished");
    assert_eq!(BobEndState::SafelyAborted.to_string(), "SafelyAborted");
    assert_eq!(BobEndState::XmrRedeemed.to_string(), "XmrRedeemed");
    assert_eq!(BobEndState::BtcRefunded.to_string(), "BtcRefunded");
}

#[test]
fn triggers_have_log_names() {
    assert_eq!(Trigger::ChainEvent.as_str(), "chain_event");
    assert_eq!(Trigger::PeerMessage.as_str(), "peer_message");
    assert_eq!(Trigger::TimelockExpired.as_str(), "timelock_expired");
    assert_eq!(Trigger::Timeout.as_str(), "timeout");
}

#[test]
fn only_done_is_done() {
    for state in all_alice_states() {
        assert_eq!(state.is_done(), state.position() == 10);
        assert_eq!(Swap::Alice(state.clone()).is_done(), state.is_done());
    }
    for state in all_bob_states() {
        assert_eq!(state.is_done(), state.position() == 8);
        assert_eq!(Swap::Bob(state.clone()).is_done(), state.is_done());
    }
}

#[test]
fn a_state_becomes_a_swap_of_its_role() {
    let alice: Swap<Vec<u8>> = Alice::Negotiated(m(3)).into();
    assert_eq!(alice, Swap::Alice(Alice::Negotiated(m(3))));
    assert_eq!(alice.role(), Role::Alice);
    let bob: Swap<Vec<u8>> = Swap::from(Bob::BtcRedeemed(m(5)));
    assert_eq!(bob, Swap::Bob(Bob::BtcRedeemed(m(5))));
    assert_eq!(bob.role(), Role::Bob);
}

#[test]
fn network_events_become_behaviour_events() {
    let connected: BehaviourOutEvent<Vec<u8>> =
        BehaviourOutEvent::from(PeerTrackerEvent::ConnectionEstablished(m(1)));
    assert_eq!(connected, BehaviourOutEvent::ConnectionEstablished(m(1)));
    let request: BehaviourOutEvent<Vec<u8>> = BobToAlice::AmountsFromBtc(5).into();
    assert_eq!(request, BehaviourOutEvent::Request(BobToAlice::AmountsFromBtc(5)));
}

#[test]
fn roles_and_end_states_have_persisted_names() {
    assert_eq!(Role::Alice.as_str(), "Alice");
    assert_eq!(Role::Bob.as_str(), "Bob");
    assert_eq!(EndState::SafelyAborted.as_str(), "SafelyAborted");
    assert_eq!(EndState::BtcRedeemed.as_str(), "BtcRedeemed");
    assert_eq!(EndState::XmrRefunded.as_str(), "XmrRefunded");
    assert_eq!(EndState::BtcPunished.as_str(), "BtcPunished");
    assert_eq!(BobEndState::SafelyAborted.as_str(), "SafelyAborted");
    assert_eq!(BobEndState::XmrRedeemed.as_str(), "XmrRedeemed");
    assert_eq!(BobEndState::BtcRefunded.as_str(), "BtcRefunded");
}
