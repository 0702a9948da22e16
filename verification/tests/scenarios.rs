use swap::alice;
use swap::bob;
use swap::bob::amounts::{Amounts, Event, Failure, OutEvent};
use swap::chain::{BtcView, CancelTimelock, PunishTimelock};
use swap::database::{Database, SwapId};
use swap::execution_params::{ExecutionParams, GetExecutionParams, Regtest};
use swap::network::request_response::{AliceToBob, BobToAlice, TIMEOUT};
use swap::orchestrator::{advance_alice, create, run_alice, run_bob, Error};
use swap::state::{Alice, Bob, BobEndState, EndState, Role, Swap, SwapAmounts, Trigger};

const LOCK_HEIGHT: u32 = 1_000;

fn amounts() -> SwapAmounts {
    SwapAmounts { btc: 100_000, xmr: 100_000_000_000 }
}

fn s0() -> Vec<u8> {
    vec![0xA0]
}

fn s3() -> Vec<u8> {
    vec![0xA3, 0x01]
}

fn encsig() -> Vec<u8> {
    vec![0xE5, 0x16]
}

fn spend_key() -> Vec<u8> {
    vec![0x5B; 32]
}

fn peer() -> Vec<u8> {
    vec![0x12, 0x20, 0x01]
}

fn b2() -> Vec<u8> {
    vec![0xB2]
}

fn b3() -> Vec<u8> {
    vec![0xB3]
}

fn b4() -> Vec<u8> {
    vec![0xB4]
}

fn b5() -> Vec<u8> {
    vec![0xB5]
}

fn chain(tip: u32) -> BtcView {
    BtcView::new(tip)
}

fn locked(tip: u32) -> BtcView {
    BtcView { lock: Some(LOCK_HEIGHT), ..BtcView::new(tip) }
}

fn alice_sees(bitcoin: BtcView) -> alice::Observation<Vec<u8>> {
    alice::Observation {
        elapsed: 0,
        bitcoin,
        monero_lock_confirmations: 0,
        monero_swept: false,
        delivery: alice::Delivery::Nothing,
    }
}

fn bob_sees(bitcoin: BtcView) -> bob::Observation<Vec<u8>> {
    bob::Observation {
        bitcoin,
        monero_lock_confirmations: 0,
        monero_swept: false,
        lock_published: false,
        encsig_sent: false,
        delivery: bob::Delivery::Nothing,
    }
}

/// Regtest with the short cancel timelock of twelve blocks.
fn short_timelocks() -> ExecutionParams {
    ExecutionParams {
        bitcoin_cancel_timelock: CancelTimelock::new(12),
        bitcoin_punish_timelock: PunishTimelock::new(6),
        ..Regtest::get_execution_params()
    }
}

fn tags(records: &[swap::orchestrator::TransitionRecord]) -> Vec<(&'static str, &'static str)> {
    records.iter().map(|r| (r.previous, r.next)).collect()
}

#[test]
fn happy_path() {
    let params = Regtest::get_execution_params();
    let mut db = Database::new();
    let alice_id = SwapId(1);
    let bob_id = SwapId(2);
    create(&mut db, alice_id, &Swap::Alice(Alice::Started { amounts: amounts(), state0: s0() }))
        .unwrap();
    create(&mut db, bob_id, &Swap::Bob(Bob::Negotiated { state2: b2(), peer_id: peer() }))
        .unwrap();

    // Bob locks his bitcoin; the lock is confirmed after one block.
    let bob_log = run_bob(
        &mut db,
        bob_id,
        vec![
            bob_sees(chain(LOCK_HEIGHT - 1)),
            bob::Observation {
                delivery: bob::Delivery::State3(b3()),
                ..bob_sees(locked(LOCK_HEIGHT))
            },
        ],
        &params,
    )
    .unwrap();
    assert_eq!(tags(&bob_log), vec![("Negotiated", "BtcLocked")]);

    // Alice shakes hands, sees the lock, locks her monero: ten blocks.
    let alice_log = run_alice(
        &mut db,
        alice_id,
        vec![
            alice::Observation {
                delivery: alice::Delivery::Handshake(s3()),
                ..alice_sees(chain(LOCK_HEIGHT - 1))
            },
            alice_sees(locked(LOCK_HEIGHT)),
            alice::Observation { monero_lock_confirmations: 9, ..alice_sees(locked(LOCK_HEIGHT + 1)) },
            alice::Observation { monero_lock_confirmations: 10, ..alice_sees(locked(LOCK_HEIGHT + 2)) },
        ],
        &params,
    )
    .unwrap();
    assert_eq!(
        tags(&alice_log),
        vec![("Started", "Negotiated"), ("Negotiated", "BtcLocked"), ("BtcLocked", "XmrLocked")]
    );
    assert_eq!(db.get(alice_id).unwrap(), Swap::Alice(Alice::XmrLocked(s3())));

    // Bob sees the monero locked and sends his encrypted signature.
    run_bob(
        &mut db,
        bob_id,
        vec![
            bob::Observation {
                monero_lock_confirmations: 10,
                delivery: bob::Delivery::State4(b4()),
                ..bob_sees(locked(LOCK_HEIGHT + 2))
            },
            bob::Observation { encsig_sent: true, ..bob_sees(locked(LOCK_HEIGHT + 2)) },
        ],
        &params,
    )
    .unwrap();
    assert_eq!(
        db.get(bob_id).unwrap(),
        Swap::Bob(Bob::EncSigSent { state4: b4(), peer_id: peer() })
    );

    // Alice learns the signature and redeems.
    let redeemed = BtcView { redeem: Some(LOCK_HEIGHT + 4), ..locked(LOCK_HEIGHT + 4) };
    run_alice(
        &mut db,
        alice_id,
        vec![
            alice::Observation {
                monero_lock_confirmations: 11,
                delivery: alice::Delivery::EncryptedSignature(encsig()),
                ..alice_sees(locked(LOCK_HEIGHT + 3))
            },
            alice_sees(redeemed),
        ],
        &params,
    )
    .unwrap();

    // Bob sees the redeem transaction, takes the keys from it, sweeps.
    run_bob(
        &mut db,
        bob_id,
        vec![
            bob::Observation { delivery: bob::Delivery::State5(b5()), ..bob_sees(redeemed) },
            bob::Observation { monero_swept: true, ..bob_sees(redeemed) },
        ],
        &params,
    )
    .unwrap();

    assert_eq!(db.get(alice_id).unwrap(), Swap::Alice(Alice::Done(EndState::BtcRedeemed)));
    assert_eq!(db.get(bob_id).unwrap(), Swap::Bob(Bob::Done(BobEndState::XmrRedeemed)));
}

#[test]
fn bob_disappears_after_btc_lock() {
    let params = short_timelocks();
    let mut alice_state = Alice::XmrLocked(s3());
    // Eleven blocks after the lock nothing happens.
    let step = alice::step(alice_state, alice_sees(locked(LOCK_HEIGHT + 11)), &params);
    assert_eq!(step.trigger, None);
    alice_state = step.state;
    // After twelve blocks the cancel timelock fires.
    let step = alice::step(alice_state, alice_sees(locked(LOCK_HEIGHT + 12)), &params);
    assert_eq!(step.state, Alice::CancelTimelockExpired(s3()));
    assert_eq!(step.trigger, Some(Trigger::TimelockExpired));
    // Alice publishes the cancel transaction.
    let cancelled = BtcView { cancel: Some(LOCK_HEIGHT + 13), ..locked(LOCK_HEIGHT + 13) };
    let step = alice::step(step.state, alice_sees(cancelled), &params);
    assert_eq!(step.state, Alice::BtcCancelled(s3()));

    // Bob comes back in `BtcLocked`, finds the timelock expired, refunds.
    let bob_state = Bob::BtcLocked { state3: b3(), peer_id: peer() };
    let step_b = bob::step(
        bob_state,
        bob::Observation { delivery: bob::Delivery::State4(b4()), ..bob_sees(cancelled) },
        &params,
    );
    assert_eq!(step_b.state, Bob::CancelTimelockExpired(b4()));
    let step_b = bob::step(step_b.state, bob_sees(cancelled), &params);
    assert_eq!(step_b.state, Bob::BtcCancelled(b4()));
    let refunded = BtcView { refund: Some(LOCK_HEIGHT + 14), ..BtcView { tip: LOCK_HEIGHT + 14, ..cancelled } };
    let step_b = bob::step(step_b.state, bob_sees(refunded), &params);
    assert_eq!(step_b.state, Bob::Done(BobEndState::BtcRefunded));

    // Alice reads the spend key off the refund and takes her monero back.
    let step = alice::step(
        step.state,
        alice::Observation { delivery: alice::Delivery::SpendKey(spend_key()), ..alice_sees(refunded) },
        &params,
    );
    assert_eq!(step.state, Alice::BtcRefunded { state3: s3(), spend_key: spend_key() });
    let step = alice::step(
        step.state,
        alice::Observation { monero_swept: true, ..alice_sees(refunded) },
        &params,
    );
    assert_eq!(step.state, Alice::Done(EndState::XmrRefunded));
}

#[test]
fn alice_disappears_after_xmr_lock() {
    let params = short_timelocks();
    let mut db = Database::new();
    let alice_id = SwapId(7);
    let bob_id = SwapId(8);
    create(&mut db, alice_id, &Swap::Alice(Alice::XmrLocked(s3()))).unwrap();
    create(&mut db, bob_id, &Swap::Bob(Bob::XmrLocked { state4: b4(), peer_id: peer() })).unwrap();

    let cancelled = BtcView { cancel: Some(LOCK_HEIGHT + 13), ..locked(LOCK_HEIGHT + 13) };
    let refunded = BtcView { tip: LOCK_HEIGHT + 15, refund: Some(LOCK_HEIGHT + 15), ..cancelled };
    let log = run_bob(
        &mut db,
        bob_id,
        vec![
            bob::Observation { encsig_sent: true, ..bob_sees(locked(LOCK_HEIGHT + 3)) },
            bob_sees(locked(LOCK_HEIGHT + 11)),
            bob_sees(locked(LOCK_HEIGHT + 12)),
            bob_sees(cancelled),
            bob_sees(refunded),
        ],
        &params,
    )
    .unwrap();
    assert_eq!(
        tags(&log),
        vec![
            ("XmrLocked", "EncSigSent"),
            ("EncSigSent", "CancelTimelockExpired"),
            ("CancelTimelockExpired", "BtcCancelled"),
            ("BtcCancelled", "Done"),
        ]
    );
    assert_eq!(db.get(bob_id).unwrap(), Swap::Bob(Bob::Done(BobEndState::BtcRefunded)));
    // Alice never came back: her snapshot is where she left it.
    assert_eq!(db.get(alice_id).unwrap(), Swap::Alice(Alice::XmrLocked(s3())));
}

#[test]
fn bob_withholds_the_encrypted_signature() {
    let params = short_timelocks();
    let mut db = Database::new();
    let id = SwapId(9);
    create(&mut db, id, &Swap::Alice(Alice::XmrLocked(s3()))).unwrap();

    let cancelled = BtcView { cancel: Some(LOCK_HEIGHT + 13), ..locked(LOCK_HEIGHT + 13) };
    let punished = BtcView { tip: LOCK_HEIGHT + 20, punish: Some(LOCK_HEIGHT + 20), ..cancelled };
    let log = run_alice(
        &mut db,
        id,
        vec![
            // The signature comes, but the timelock has run out: too late.
            alice::Observation {
                delivery: alice::Delivery::EncryptedSignature(encsig()),
                ..alice_sees(locked(LOCK_HEIGHT + 12))
            },
            alice_sees(cancelled),
            // Five blocks after the cancel transaction: not yet.
            alice_sees(BtcView { tip: LOCK_HEIGHT + 18, ..cancelled }),
            // Six blocks after it, and no refund in sight.
            alice_sees(BtcView { tip: LOCK_HEIGHT + 19, ..cancelled }),
            alice_sees(punished),
        ],
        &params,
    )
    .unwrap();
    assert_eq!(
        tags(&log),
        vec![
            ("XmrLocked", "CancelTimelockExpired"),
            ("CancelTimelockExpired", "BtcCancelled"),
            ("BtcCancelled", "BtcPunishable"),
            ("BtcPunishable", "Done"),
        ]
    );
    assert_eq!(
        log.iter().map(|r| r.trigger).collect::<Vec<_>>(),
        vec![
            Trigger::TimelockExpired,
            Trigger::ChainEvent,
            Trigger::TimelockExpired,
            Trigger::ChainEvent
        ]
    );
    assert_eq!(db.get(id).unwrap(), Swap::Alice(Alice::Done(EndState::BtcPunished)));

    // Bob, stuck in `BtcCancelled`, has nothing left to refund.
    let bob_step = bob::step(Bob::BtcCancelled(b4()), bob_sees(punished), &params);
    assert_eq!(bob_step.state, Bob::BtcCancelled(b4()));
    assert_eq!(bob_step.trigger, None);
}

#[test]
fn crash_resume_after_btc_locked() {
    let params = Regtest::get_execution_params();
    let mut db = Database::new();
    let id = SwapId(0xC0FFEE);
    create(&mut db, id, &Swap::Alice(Alice::Negotiated(s3()))).unwrap();

    // Alice decides to move on, and dies before the new state is written.
    let in_memory = alice::step(Alice::Negotiated(s3()), alice_sees(locked(LOCK_HEIGHT)), &params);
    assert_eq!(in_memory.state, Alice::BtcLocked(s3()));
    drop(in_memory);

    // On restart she is where the store says, and is asked to watch, not
    // to lock monero.
    let resumed = match db.get(id).unwrap() {
        Swap::Alice(state) => state,
        Swap::Bob(_) => panic!("an Alice state was stored"),
    };
    assert_eq!(resumed, Alice::Negotiated(s3()));
    assert_eq!(
        alice::next_action(&resumed, &params),
        alice::Action::WatchBtcLock { confirmations: 1, timeout: 30 }
    );

    // She sees the lock again, by now deeper in the chain, and moves once.
    let first = advance_alice(&mut db, id, alice_sees(locked(LOCK_HEIGHT + 3)), &params).unwrap();
    let record = first.expect("a transition");
    assert_eq!((record.previous, record.next), ("Negotiated", "BtcLocked"));
    assert_eq!(record.swap_id, id);
    assert_eq!(record.role, Role::Alice);
    assert_eq!(record.trigger, Trigger::ChainEvent);
    let second = advance_alice(&mut db, id, alice_sees(locked(LOCK_HEIGHT + 3)), &params).unwrap();
    assert_eq!(second, None);
    assert_eq!(db.get(id).unwrap(), Swap::Alice(Alice::BtcLocked(s3())));
    assert_eq!(
        alice::next_action(&Alice::BtcLocked(s3()), &params),
        alice::Action::LockXmr { confirmations: 10 }
    );
}

#[test]
fn negotiation_timeout() {
    assert_eq!(TIMEOUT, 60);
    let mut negotiation = Amounts::new(TIMEOUT);
    assert_eq!(negotiation.timeout(), 60);
    let request = negotiation.request_amounts(peer(), 100_000);
    assert_eq!(request.peer, peer());
    assert_eq!(request.message, BobToAlice::AmountsFromBtc(100_000));
    assert_eq!(negotiation.poll(), None);

    // Sixty seconds pass without an answer.
    negotiation.inject_event(Event::OutboundFailure);
    let outcome = negotiation.poll().expect("an outcome");
    assert_eq!(outcome, OutEvent::Aborted(Failure::Unanswered));
    assert_eq!(outcome.applied_to::<Vec<u8>>(None), Some(Bob::Done(BobEndState::SafelyAborted)));
    assert_eq!(negotiation.poll(), None);

    // Nothing was locked: the state asks for nothing more.
    let params = Regtest::get_execution_params();
    assert_eq!(
        bob::next_action(&Bob::<Vec<u8>>::Done(BobEndState::SafelyAborted), &params),
        bob::Action::Stop
    );
}

#[test]
fn negotiation_answer_starts_the_swap() {
    let mut negotiation = Amounts::new(TIMEOUT);
    negotiation.request_amounts(peer(), 100_000);
    negotiation.inject_event(Event::Response(AliceToBob::Amounts(amounts())));
    let outcome = negotiation.poll().expect("an outcome");
    assert_eq!(outcome, OutEvent::Amounts(amounts()));
    assert_eq!(outcome.applied_to::<Vec<u8>>(None), None);
}

#[test]
fn running_a_swap_of_the_other_role_is_refused() {
    let params = Regtest::get_execution_params();
    let mut db = Database::new();
    let id = SwapId(5);
    create(&mut db, id, &Swap::Alice(Alice::Negotiated(s3()))).unwrap();
    assert_eq!(run_bob(&mut db, id, vec![bob_sees(chain(1))], &params), Err(Error::UnexpectedState));
    assert_eq!(db.get(id).unwrap(), Swap::Alice(Alice::Negotiated(s3())));
}

/// Both parties watch the same chain from the moment the monero is locked
/// and Bob's signature is out.
fn outcomes_on(views: Vec<BtcView>, alice_sweeps: bool) -> (Alice<Vec<u8>>, Bob<Vec<u8>>) {
    let params = short_timelocks();
    let mut alice_state = Alice::EncSigLearned { state: s3(), encrypted_signature: encsig() };
    let mut bob_state = Bob::EncSigSent { state4: b4(), peer_id: peer() };
    for view in views {
        alice_state = alice::step(
            alice_state,
            alice::Observation {
                monero_swept: alice_sweeps,
                delivery: alice::Delivery::SpendKey(spend_key()),
                ..alice_sees(view)
            },
            &params,
        )
        .state;
        bob_state = bob::step(
            bob_state,
            bob::Observation {
                monero_swept: true,
                delivery: bob::Delivery::State5(b5()),
                ..bob_sees(view)
            },
            &params,
        )
        .state;
    }
    (alice_state, bob_state)
}

#[test]
fn on_one_chain_both_redeem() {
    let redeemed = |tip: u32| BtcView { redeem: Some(LOCK_HEIGHT + 2), ..locked(tip) };
    let (alice_end, bob_end) = outcomes_on(
        vec![locked(LOCK_HEIGHT + 1), redeemed(LOCK_HEIGHT + 2), redeemed(LOCK_HEIGHT + 3)],
        true,
    );
    assert_eq!(alice_end, Alice::Done(EndState::BtcRedeemed));
    assert_eq!(bob_end, Bob::Done(BobEndState::XmrRedeemed));
}

#[test]
fn on_one_chain_a_refund_leaves_alice_nothing_to_redeem() {
    // Alice learned the signature but never got her redeem transaction
    // mined; Bob cancelled and took his bitcoin back.
    let cancelled = |tip: u32| BtcView { cancel: Some(LOCK_HEIGHT + 12), ..locked(tip) };
    let refunded = |tip: u32| BtcView { refund: Some(LOCK_HEIGHT + 13), ..cancelled(tip) };
    let (alice_end, bob_end) = outcomes_on(
        vec![
            locked(LOCK_HEIGHT + 12),
            cancelled(LOCK_HEIGHT + 12),
            refunded(LOCK_HEIGHT + 13),
            refunded(LOCK_HEIGHT + 40),
        ],
        true,
    );
    assert_eq!(bob_end, Bob::Done(BobEndState::BtcRefunded));
    assert_eq!(alice_end, Alice::EncSigLearned { state: s3(), encrypted_signature: encsig() });
}

#[test]
fn on_one_chain_a_punishment_leaves_bob_nothing_to_refund() {
    let params = short_timelocks();
    let cancelled = |tip: u32| BtcView { cancel: Some(LOCK_HEIGHT + 12), ..locked(tip) };
    let punished = |tip: u32| BtcView { punish: Some(LOCK_HEIGHT + 18), ..cancelled(tip) };
    let views = vec![
        locked(LOCK_HEIGHT + 12),
        cancelled(LOCK_HEIGHT + 12),
        cancelled(LOCK_HEIGHT + 18),
        punished(LOCK_HEIGHT + 18),
        punished(LOCK_HEIGHT + 60),
    ];
    let mut alice_state = Alice::XmrLocked(s3());
    let mut bob_state = Bob::EncSigSent { state4: b4(), peer_id: peer() };
    for view in views {
        alice_state = alice::step(alice_state, alice_sees(view), &params).state;
        bob_state = bob::step(bob_state, bob_sees(view), &params).state;
    }
    assert_eq!(alice_state, Alice::Done(EndState::BtcPunished));
    assert_eq!(bob_state, Bob::BtcCancelled(b4()));
}
