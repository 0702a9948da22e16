use swap::alice::{swap, BehaviourOutEvent, Negotiation, Rate, Reply};
use swap::bob::amounts::{Amounts, Event, Failure, OutEvent};
use swap::network::request_response::{AliceToBob, BobToAlice};
use swap::state::{Alice, Bob, BobEndState, EndState, SwapAmounts};

fn rate() -> Rate {
    Rate { piconero_per_satoshi: 1_000_000 }
}

fn request(btc: u64) -> BehaviourOutEvent<Vec<u8>> {
    BehaviourOutEvent::Request(BobToAlice::AmountsFromBtc(btc))
}

#[test]
fn alice_answers_the_first_request_with_the_amounts() {
    let amounts = SwapAmounts { btc: 100_000, xmr: 100_000_000_000 };
    assert_eq!(
        swap(Negotiation::AwaitingRequest, request(100_000), rate()),
        Reply {
            negotiation: Negotiation::AmountsSent(amounts),
            message: Some(AliceToBob::Amounts(amounts)),
        }
    );
}

#[test]
fn alice_can_quote_one_to_one() {
    let reply = swap(Negotiation::AwaitingRequest, request(42), Rate { piconero_per_satoshi: 1 });
    assert_eq!(reply.message, Some(AliceToBob::Amounts(SwapAmounts { btc: 42, xmr: 42 })));
}

#[test]
fn alice_has_no_quote_for_an_amount_that_overflows() {
    let too_much = u64::MAX / 1_000_000 + 1;
    assert_eq!(
        swap(Negotiation::AwaitingRequest, request(too_much), rate()),
        Reply { negotiation: Negotiation::Aborted, message: None }
    );
    // The largest amount that still has a quote.
    let most = u64::MAX / 1_000_000;
    assert_eq!(
        swap(Negotiation::AwaitingRequest, request(most), rate()).message,
        Some(AliceToBob::Amounts(SwapAmounts { btc: most, xmr: most * 1_000_000 }))
    );
}

#[test]
fn alice_takes_no_second_request() {
    let sent = Negotiation::AmountsSent(SwapAmounts { btc: 1, xmr: 2 });
    assert_eq!(
        swap(sent, request(1), rate()),
        Reply { negotiation: Negotiation::Aborted, message: None }
    );
}

#[test]
fn other_events_leave_the_negotiation_alone() {
    let sent = Negotiation::AmountsSent(SwapAmounts { btc: 1, xmr: 2 });
    for negotiation in [Negotiation::AwaitingRequest, sent, Negotiation::Aborted] {
        assert_eq!(
            swap(negotiation, BehaviourOutEvent::ConnectionEstablished(vec![1u8]), rate()),
            Reply { negotiation, message: None }
        );
        assert_eq!(
            swap(negotiation, BehaviourOutEvent::<Vec<u8>>::Never, rate()),
            Reply { negotiation, message: None }
        );
    }
}

#[test]
fn an_aborted_negotiation_stays_aborted() {
    assert_eq!(
        swap(Negotiation::Aborted, request(5), rate()),
        Reply { negotiation: Negotiation::Aborted, message: None }
    );
}

#[test]
fn the_negotiation_decides_where_alice_starts() {
    let amounts = SwapAmounts { btc: 1, xmr: 2 };
    assert_eq!(Negotiation::AwaitingRequest.first_state(vec![0u8]), None);
    assert_eq!(
        Negotiation::AmountsSent(amounts).first_state(vec![0u8]),
        Some(Alice::Started { amounts, state0: vec![0u8] })
    );
    assert_eq!(
        Negotiation::Aborted.first_state(vec![0u8]),
        Some(Alice::Done(EndState::SafelyAborted))
    );
}

#[test]
fn a_new_negotiation_of_bobs_has_nothing_to_report() {
    let mut amounts = Amounts::new(60);
    assert_eq!(amounts.timeout(), 60);
    assert_eq!(amounts.poll(), None);
    assert_eq!(amounts.poll(), None);
}

#[test]
fn bob_gets_the_amounts_he_asked_for() {
    let mut amounts = Amounts::new(60);
    let request = amounts.request_amounts("alice", 7);
    assert_eq!(request.peer, "alice");
    assert_eq!(request.message, BobToAlice::AmountsFromBtc(7));
    let answer = SwapAmounts { btc: 7, xmr: 7_000 };
    amounts.inject_event(Event::Response(AliceToBob::Amounts(answer)));
    assert_eq!(amounts.poll(), Some(OutEvent::Amounts(answer)));
    assert_eq!(amounts.poll(), None);
}

#[test]
fn every_response_gives_its_amounts() {
    let mut amounts = Amounts::new(60);
    let first = SwapAmounts { btc: 1, xmr: 10 };
    let second = SwapAmounts { btc: 2, xmr: 20 };
    amounts.inject_event(Event::Response(AliceToBob::Amounts(first)));
    amounts.inject_event(Event::Response(AliceToBob::Amounts(second)));
    assert_eq!(amounts.poll(), Some(OutEvent::Amounts(first)));
    assert_eq!(amounts.poll(), Some(OutEvent::Amounts(second)));
    assert_eq!(amounts.poll(), None);
}

#[test]
fn the_answer_to_a_second_request_counts() {
    let mut amounts = Amounts::new(60);
    amounts.request_amounts("alice", 1);
    amounts.request_amounts("alice", 2);
    amounts.inject_event(Event::Response(AliceToBob::Amounts(SwapAmounts { btc: 1, xmr: 10 })));
    amounts.inject_event(Event::Response(AliceToBob::Amounts(SwapAmounts { btc: 2, xmr: 20 })));
    assert_eq!(amounts.poll(), Some(OutEvent::Amounts(SwapAmounts { btc: 1, xmr: 10 })));
    assert_eq!(amounts.poll(), Some(OutEvent::Amounts(SwapAmounts { btc: 2, xmr: 20 })));
}

#[test]
fn asking_changes_nothing_in_the_queue() {
    let mut amounts = Amounts::new(60);
    amounts.inject_event(Event::OutboundFailure);
    amounts.request_amounts("alice", 1);
    assert_eq!(amounts.timeout(), 60);
    assert_eq!(amounts.poll(), Some(OutEvent::Aborted(Failure::Unanswered)));
    assert_eq!(amounts.poll(), None);
}

#[test]
fn a_failed_negotiation_aborts_only_while_nothing_is_at_stake() {
    let aborted = OutEvent::Aborted(Failure::Unanswered);
    let done = Some(Bob::Done(BobEndState::SafelyAborted));
    assert_eq!(aborted.applied_to::<Vec<u8>>(None), done);
    assert_eq!(
        aborted.applied_to(Some(Bob::Negotiated { state2: vec![2u8], peer_id: vec![1u8] })),
        done
    );
    let later = vec![
        Bob::BtcLocked { state3: vec![3u8], peer_id: vec![1u8] },
        Bob::XmrLocked { state4: vec![4u8], peer_id: vec![1u8] },
        Bob::EncSigSent { state4: vec![4u8], peer_id: vec![1u8] },
        Bob::BtcRedeemed(vec![5u8]),
        Bob::CancelTimelockExpired(vec![4u8]),
        Bob::BtcCancelled(vec![4u8]),
        Bob::Done(BobEndState::XmrRedeemed),
    ];
    for state in later {
        assert_eq!(aborted.applied_to(Some(state.clone())), Some(state.clone()));
        assert_eq!(
            OutEvent::Aborted(Failure::Violation).applied_to(Some(state.clone())),
            Some(state)
        );
    }
}

#[test]
fn amounts_leave_the_stored_state_alone() {
    let amounts = OutEvent::Amounts(SwapAmounts { btc: 1, xmr: 2 });
    assert_eq!(amounts.applied_to::<Vec<u8>>(None), None);
    let negotiated = Bob::Negotiated { state2: vec![2u8], peer_id: vec![1u8] };
    assert_eq!(amounts.applied_to(Some(negotiated.clone())), Some(negotiated));
}

#[test]
fn bob_takes_no_request_from_alice() {
    let mut amounts = Amounts::new(60);
    amounts.request_amounts("alice", 7);
    amounts.inject_event(Event::Request);
    assert_eq!(amounts.poll(), Some(OutEvent::Aborted(Failure::Violation)));
    amounts.inject_event(Event::InboundFailure);
    assert_eq!(amounts.poll(), Some(OutEvent::Aborted(Failure::Violation)));
}

#[test]
fn outcomes_are_polled_oldest_first() {
    let mut amounts = Amounts::new(60);
    amounts.request_amounts("alice", 7);
    amounts.inject_event(Event::OutboundFailure);
    amounts.inject_event(Event::Request);
    amounts.request_amounts("alice", 8);
    amounts.inject_event(Event::Response(AliceToBob::Amounts(SwapAmounts { btc: 8, xmr: 9 })));
    assert_eq!(amounts.poll(), Some(OutEvent::Aborted(Failure::Unanswered)));
    assert_eq!(amounts.poll(), Some(OutEvent::Aborted(Failure::Violation)));
    assert_eq!(amounts.poll(), Some(OutEvent::Amounts(SwapAmounts { btc: 8, xmr: 9 })));
    assert_eq!(amounts.poll(), None);
}
