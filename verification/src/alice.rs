//! Alice's side of a swap: she holds XMR and wishes to receive BTC.
//!
//! The driver is a function from a state and one observation of the world
//! to the next state. The caller does what the state asks for (see
//! [`next_action`]), looks at the chains and the peer channel, and reports
//! what it saw; the decision is taken here.

use crate::chain::{
    confirmations, has_confirmations, is_timelock_expired, timelock_expired, BtcView,
    CancelTimelock, PunishTimelock,
};
use crate::execution_params::ExecutionParams;
use crate::network::request_response::{AliceToBob, BobToAlice};
use crate::state::{Alice, EndState, SwapAmounts, Trigger};
use vstd::prelude::*;

verus! {

/// What the peer tracker reports.
#[derive(Clone, Debug, PartialEq, Eq)]
pub enum PeerTrackerEvent<P> {
    ConnectionEstablished(P),
}

/// What reaches Alice from the network, with the peer's identity of type
/// `P`.
#[derive(Clone, Debug, PartialEq, Eq)]
pub enum BehaviourOutEvent<P> {
    /// Bob sent a request.
    Request(BobToAlice),
    /// A connection to a peer is up.
    ConnectionEstablished(P),
    /// Nothing of interest.
    Never,
}

impl<P> From<BobToAlice> for BehaviourOutEvent<P> {
    fn from(event: BobToAlice) -> (out: Self) {
        BehaviourOutEvent::Request(event)
    }
}

impl<P> vstd::std_specs::convert::FromSpecImpl<BobToAlice> for BehaviourOutEvent<P> {
    open spec fn obeys_from_spec() -> bool {
        true
    }

    open spec fn from_spec(event: BobToAlice) -> Self {
        BehaviourOutEvent::Request(event)
    }
}

impl<P> From<PeerTrackerEvent<P>> for BehaviourOutEvent<P> {
    fn from(event: PeerTrackerEvent<P>) -> (out: Self) {
        match event {
            PeerTrackerEvent::ConnectionEstablished(id) => {
                BehaviourOutEvent::ConnectionEstablished(id)
            },
        }
    }
}

impl<P> vstd::std_specs::convert::FromSpecImpl<PeerTrackerEvent<P>> for BehaviourOutEvent<P> {
    open spec fn obeys_from_spec() -> bool {
        true
    }

    open spec fn from_spec(event: PeerTrackerEvent<P>) -> Self {
        match event {
            PeerTrackerEvent::ConnectionEstablished(id) => BehaviourOutEvent::ConnectionEstablished(
                id,
            ),
        }
    }
}

/// The price Alice quotes: piconero for one satoshi.
#[derive(Clone, Copy, Debug, PartialEq, Eq, Structural)]
pub struct Rate {
    pub piconero_per_satoshi: u64,
}

/// Where Alice stands in the negotiation.
#[derive(Clone, Copy, Debug, PartialEq, Eq, Structural)]
pub enum Negotiation {
    /// Bob has not asked yet.
    AwaitingRequest,
    /// Alice has answered with these amounts; from here on the channel
    /// carries no further request.
    AmountsSent(SwapAmounts),
    /// The negotiation is over and nothing was agreed.
    Aborted,
}

/// Alice's move in the negotiation: where she stands afterwards and what
/// she sends, if anything.
#[derive(Clone, Copy, Debug, PartialEq, Eq, Structural)]
pub struct Reply {
    pub negotiation: Negotiation,
    pub message: Option<AliceToBob>,
}

/// The amounts Alice quotes for `btc` satoshis, if the Monero amount is one
/// that can be written down.
pub open spec fn quote(btc: u64, rate: Rate) -> Option<SwapAmounts> {
    if btc * rate.piconero_per_satoshi <= u64::MAX {
        Some(SwapAmounts { btc, xmr: (btc * rate.piconero_per_satoshi) as u64 })
    } else {
        None
    }
}

/// Alice's part in the negotiation. Bob's first request is answered with
/// the amounts at Alice's rate; a request for which she has no quote, and
/// any request after the amounts went out, ends the negotiation. Other
/// events change nothing.
pub open spec fn swap_spec<P>(
    negotiation: Negotiation,
    event: BehaviourOutEvent<P>,
    rate: Rate,
) -> Reply {
    match negotiation {
        Negotiation::AwaitingRequest => match event {
            BehaviourOutEvent::Request(BobToAlice::AmountsFromBtc(btc)) => match quote(btc, rate) {
                Some(amounts) => Reply {
                    negotiation: Negotiation::AmountsSent(amounts),
                    message: Some(AliceToBob::Amounts(amounts)),
                },
                None => Reply { negotiation: Negotiation::Aborted, message: None },
            },
            _ => Reply { negotiation, message: None },
        },
        Negotiation::AmountsSent(_) => match event {
            BehaviourOutEvent::Request(_) => Reply {
                negotiation: Negotiation::Aborted,
                message: None,
            },
            _ => Reply { negotiation, message: None },
        },
        Negotiation::Aborted => Reply { negotiation, message: None },
    }
}

impl Negotiation {
    /// The state with which the swap begins once the negotiation is over:
    /// `Started` with the agreed amounts, or `Done(SafelyAborted)`. While
    /// Bob has not asked, there is none.
    pub open spec fn opening<B>(self, state0: B) -> Option<Alice<B>> {
        match self {
            Negotiation::AwaitingRequest => None,
            Negotiation::AmountsSent(amounts) => Some(Alice::Started { amounts, state0 }),
            Negotiation::Aborted => Some(Alice::Done(EndState::SafelyAborted)),
        }
    }

    /// The state with which the swap begins once the negotiation is over.
    pub fn first_state<B>(&self, state0: B) -> (state: Option<Alice<B>>)
        ensures
            state == self.opening(state0),
    {
        match self {
            Negotiation::AwaitingRequest => None,
            Negotiation::AmountsSent(amounts) => Some(
                Alice::Started { amounts: *amounts, state0 },
            ),
            Negotiation::Aborted => Some(Alice::Done(EndState::SafelyAborted)),
        }
    }
}

/// Takes Alice's part in the negotiation on one event from the network.
pub fn swap<P>(negotiation: Negotiation, event: BehaviourOutEvent<P>, rate: Rate) -> (reply: Reply)
    ensures
        reply == swap_spec(negotiation, event, rate),
{
    match negotiation {
        Negotiation::AwaitingRequest => match event {
            BehaviourOutEvent::Request(BobToAlice::AmountsFromBtc(btc)) => {
                match btc.checked_mul(rate.piconero_per_satoshi) {
                    Some(xmr) => {
                        let amounts = SwapAmounts { btc, xmr };
                        Reply {
                            negotiation: Negotiation::AmountsSent(amounts),
                            message: Some(AliceToBob::Amounts(amounts)),
                        }
                    },
                    None => Reply { negotiation: Negotiation::Aborted, message: None },
                }
            },
            _ => Reply { negotiation, message: None },
        },
        Negotiation::AmountsSent(_) => match event {
            BehaviourOutEvent::Request(_) => Reply {
                negotiation: Negotiation::Aborted,
                message: None,
            },
            _ => Reply { negotiation, message: None },
        },
        Negotiation::Aborted => Reply { negotiation, message: None },
    }
}

/// What the peer or the cryptographic layer handed over in one round.
#[derive(Clone, Debug, PartialEq, Eq)]
pub enum Delivery<B> {
    Nothing,
    /// The handshake with Bob is complete; this is the state it produced.
    Handshake(B),
    /// Bob's encrypted signature, checked.
    EncryptedSignature(B),
    /// The Monero spend key that Bob's refund transaction revealed.
    SpendKey(B),
    /// The peer sent something that failed verification.
    Invalid,
}

/// One observation round: the Bitcoin chain, the Monero lock, the clock and
/// the peer, all seen at one moment.
#[derive(Clone, Debug, PartialEq, Eq)]
pub struct Observation<B> {
    /// Seconds since the negotiation was concluded.
    pub elapsed: u64,
    pub bitcoin: BtcView,
    /// Confirmations of Alice's Monero lock transaction, 0 if unseen.
    pub monero_lock_confirmations: u32,
    /// Whether the Monero was swept back to Alice's own wallet.
    pub monero_swept: bool,
    pub delivery: Delivery<B>,
}

/// The outcome of one step: the state to persist and, if it differs from
/// the one before, what caused the move.
#[derive(Clone, Debug, PartialEq, Eq)]
pub struct Step<B> {
    pub state: Alice<B>,
    pub trigger: Option<Trigger>,
}

/// What the caller has to do, and to watch for, while Alice is in a state.
#[derive(Clone, Copy, Debug, PartialEq, Eq)]
pub enum Action {
    /// Exchange the handshake messages with Bob; give up after `timeout`
    /// seconds.
    Handshake { timeout: u64 },
    /// Watch for Bob's lock transaction to reach `confirmations`; give up
    /// after `timeout` seconds.
    WatchBtcLock { confirmations: u32, timeout: u64 },
    /// Publish the Monero lock and wait for `confirmations`.
    LockXmr { confirmations: u32 },
    /// Wait for Bob's encrypted signature or for the cancel timelock.
    AwaitEncSig { cancel_timelock: CancelTimelock },
    /// Publish the redeem transaction and wait for `confirmations`.
    RedeemBtc { confirmations: u32 },
    /// Publish the cancel transaction and wait for `confirmations`.
    CancelBtc { confirmations: u32 },
    /// Watch for Bob's refund transaction or for the punish timelock.
    AwaitRefund { punish_timelock: PunishTimelock },
    /// Publish the punish transaction and wait for `confirmations`.
    PunishBtc { confirmations: u32 },
    /// Sweep the Monero back with the revealed spend key.
    SweepXmr,
    /// Nothing is left to do.
    Stop,
}

impl View for Delivery<Vec<u8>> {
    type V = Delivery<Seq<u8>>;

    open spec fn view(&self) -> Delivery<Seq<u8>> {
        match *self {
            Delivery::Nothing => Delivery::Nothing,
            Delivery::Handshake(payload) => Delivery::Handshake(payload@),
            Delivery::EncryptedSignature(payload) => Delivery::EncryptedSignature(payload@),
            Delivery::SpendKey(payload) => Delivery::SpendKey(payload@),
            Delivery::Invalid => Delivery::Invalid,
        }
    }
}

impl View for Observation<Vec<u8>> {
    type V = Observation<Seq<u8>>;

    open spec fn view(&self) -> Observation<Seq<u8>> {
        Observation {
            elapsed: self.elapsed,
            bitcoin: self.bitcoin,
            monero_lock_confirmations: self.monero_lock_confirmations,
            monero_swept: self.monero_swept,
            delivery: self.delivery@,
        }
    }
}

impl View for Step<Vec<u8>> {
    type V = Step<Seq<u8>>;

    open spec fn view(&self) -> Step<Seq<u8>> {
        Step { state: self.state@, trigger: self.trigger }
    }
}

/// The observations with their material seen as plain bytes.
pub open spec fn views(observations: Seq<Observation<Vec<u8>>>) -> Seq<Observation<Seq<u8>>> {
    observations.map_values(|seen: Observation<Vec<u8>>| seen@)
}

/// The step does not look into the material: on values held in memory it
/// decides as it does on their bytes.
pub proof fn lemma_step_respects_views(
    state: Alice<Vec<u8>>,
    seen: Observation<Vec<u8>>,
    params: ExecutionParams,
)
    ensures
        step_spec(state, seen, params)@ == step_spec(state@, seen@, params),
        state@.tag_text() == state.tag_text(),
        state@.index() == state.index(),
{
}

/// A run on values held in memory goes as it does on their bytes.
pub proof fn lemma_run_respects_views(
    state: Alice<Vec<u8>>,
    observations: Seq<Observation<Vec<u8>>>,
    params: ExecutionParams,
)
    ensures
        run_spec(state, observations, params)@ == run_spec(state@, views(observations), params),
        log_spec(state, observations, params) == log_spec(state@, views(observations), params),
    decreases observations.len(),
{
    if observations.len() > 0 {
        let init = observations.drop_last();
        let from = run_spec(state, init, params);
        lemma_run_respects_views(state, init, params);
        lemma_step_respects_views(from, observations.last(), params);
        lemma_step_respects_views(
            step_spec(from, observations.last(), params).state,
            observations.last(),
            params,
        );
        assert(views(observations).drop_last() =~= views(init));
        assert(views(observations).last() == observations.last()@);
    }
}

/// The state is kept.
pub open spec fn stay<B>(state: Alice<B>) -> Step<B> {
    Step { state, trigger: None }
}

/// The state changes to `state` because of `trigger`.
pub open spec fn go<B>(state: Alice<B>, trigger: Trigger) -> Step<B> {
    Step { state, trigger: Some(trigger) }
}

/// Alice's transition function.
///
/// An observation that no valid chain can produce is discarded. Where two
/// conditions compete, a timelock that has run out wins over a message from
/// the peer, and a transaction that is in the chain wins over a timelock.
/// Only before the Bitcoin is locked can Alice leave with
/// `Done(SafelyAborted)`; `Done` is never left.
pub open spec fn step_spec<B>(state: Alice<B>, seen: Observation<B>, params: ExecutionParams) -> Step<B> {
    let chain = seen.bitcoin;
    let final_depth = params.bitcoin_finality_confirmations;
    if !chain.consistent(params.bitcoin_cancel_timelock, params.bitcoin_punish_timelock) {
        stay(state)
    } else {
        match state {
            Alice::Started { amounts, state0 } => match seen.delivery {
                Delivery::Handshake(state3) => go(Alice::Negotiated(state3), Trigger::PeerMessage),
                Delivery::Invalid => go(Alice::Done(EndState::SafelyAborted), Trigger::PeerMessage),
                _ => if seen.elapsed >= params.bob_time_to_act {
                    go(Alice::Done(EndState::SafelyAborted), Trigger::Timeout)
                } else {
                    stay(state)
                },
            },
            Alice::Negotiated(state3) => if confirmations(chain.tip, chain.lock) >= final_depth {
                go(Alice::BtcLocked(state3), Trigger::ChainEvent)
            } else if seen.delivery is Invalid {
                go(Alice::Done(EndState::SafelyAborted), Trigger::PeerMessage)
            } else if seen.elapsed >= params.bob_time_to_act {
                go(Alice::Done(EndState::SafelyAborted), Trigger::Timeout)
            } else {
                stay(state)
            },
            Alice::BtcLocked(state3) => if seen.monero_lock_confirmations
                >= params.monero_finality_confirmations {
                go(Alice::XmrLocked(state3), Trigger::ChainEvent)
            } else {
                stay(state)
            },
            Alice::XmrLocked(state3) => if timelock_expired(
                chain.tip,
                chain.lock,
                params.bitcoin_cancel_timelock.blocks,
            ) {
                go(Alice::CancelTimelockExpired(state3), Trigger::TimelockExpired)
            } else {
                match seen.delivery {
                    Delivery::EncryptedSignature(encrypted_signature) => go(
                        Alice::EncSigLearned { state: state3, encrypted_signature },
                        Trigger::PeerMessage,
                    ),
                    _ => stay(state),
                }
            },
            Alice::EncSigLearned { .. } => if confirmations(chain.tip, chain.redeem)
                >= final_depth {
                go(Alice::Done(EndState::BtcRedeemed), Trigger::ChainEvent)
            } else {
                stay(state)
            },
            Alice::CancelTimelockExpired(state3) => if confirmations(chain.tip, chain.cancel)
                >= final_depth {
                go(Alice::BtcCancelled(state3), Trigger::ChainEvent)
            } else {
                stay(state)
            },
            Alice::BtcCancelled(state3) => if chain.refund is Some {
                match seen.delivery {
                    Delivery::SpendKey(spend_key) => go(
                        Alice::BtcRefunded { state3, spend_key },
                        Trigger::ChainEvent,
                    ),
                    _ => stay(state),
                }
            } else if timelock_expired(chain.tip, chain.cancel, params.bitcoin_punish_timelock.blocks) {
                go(Alice::BtcPunishable(state3), Trigger::TimelockExpired)
            } else {
                stay(state)
            },
            Alice::BtcPunishable(_) => if confirmations(chain.tip, chain.punish) >= final_depth {
                go(Alice::Done(EndState::BtcPunished), Trigger::ChainEvent)
            } else {
                stay(state)
            },
            Alice::BtcRefunded { .. } => if seen.monero_swept {
                go(Alice::Done(EndState::XmrRefunded), Trigger::ChainEvent)
            } else {
                stay(state)
            },
            Alice::Done(_) => stay(state),
        }
    }
}

/// What Alice's state asks of the caller.
pub open spec fn action_spec<B>(state: Alice<B>, params: ExecutionParams) -> Action {
    match state {
        Alice::Started { .. } => Action::Handshake { timeout: params.bob_time_to_act },
        Alice::Negotiated(_) => Action::WatchBtcLock {
            confirmations: params.bitcoin_finality_confirmations,
            timeout: params.bob_time_to_act,
        },
        Alice::BtcLocked(_) => Action::LockXmr {
            confirmations: params.monero_finality_confirmations,
        },
        Alice::XmrLocked(_) => Action::AwaitEncSig {
            cancel_timelock: params.bitcoin_cancel_timelock,
        },
        Alice::EncSigLearned { .. } => Action::RedeemBtc {
            confirmations: params.bitcoin_finality_confirmations,
        },
        Alice::CancelTimelockExpired(_) => Action::CancelBtc {
            confirmations: params.bitcoin_finality_confirmations,
        },
        Alice::BtcCancelled(_) => Action::AwaitRefund {
            punish_timelock: params.bitcoin_punish_timelock,
        },
        Alice::BtcPunishable(_) => Action::PunishBtc {
            confirmations: params.bitcoin_finality_confirmations,
        },
        Alice::BtcRefunded { .. } => Action::SweepXmr,
        Alice::Done(_) => Action::Stop,
    }
}

/// Takes one step of Alice's protocol on what was seen.
pub fn step<B>(state: Alice<B>, seen: Observation<B>, params: &ExecutionParams) -> (next: Step<B>)
    ensures
        next == step_spec(state, seen, *params),
{
    let chain = seen.bitcoin;
    let final_depth: u32 = params.bitcoin_finality_confirmations;
    if !chain.is_consistent(params.bitcoin_cancel_timelock, params.bitcoin_punish_timelock) {
        return Step { state, trigger: None };
    }
    match state {
        Alice::Started { amounts, state0 } => match seen.delivery {
            Delivery::Handshake(state3) => Step {
                state: Alice::Negotiated(state3),
                trigger: Some(Trigger::PeerMessage),
            },
            Delivery::Invalid => Step {
                state: Alice::Done(EndState::SafelyAborted),
                trigger: Some(Trigger::PeerMessage),
            },
            _ => if seen.elapsed >= params.bob_time_to_act {
                Step { state: Alice::Done(EndState::SafelyAborted), trigger: Some(Trigger::Timeout) }
            } else {
                Step { state: Alice::Started { amounts, state0 }, trigger: None }
            },
        },
        Alice::Negotiated(state3) => {
            if has_confirmations(chain.tip, chain.lock, final_depth) {
                Step { state: Alice::BtcLocked(state3), trigger: Some(Trigger::ChainEvent) }
            } else {
                match seen.delivery {
                    Delivery::Invalid => Step {
                        state: Alice::Done(EndState::SafelyAborted),
                        trigger: Some(Trigger::PeerMessage),
                    },
                    _ => if seen.elapsed >= params.bob_time_to_act {
                        Step {
                            state: Alice::Done(EndState::SafelyAborted),
                            trigger: Some(Trigger::Timeout),
                        }
                    } else {
                        Step { state: Alice::Negotiated(state3), trigger: None }
                    },
                }
            }
        },
        Alice::BtcLocked(state3) => {
            if seen.monero_lock_confirmations >= params.monero_finality_confirmations {
                Step { state: Alice::XmrLocked(state3), trigger: Some(Trigger::ChainEvent) }
            } else {
                Step { state: Alice::BtcLocked(state3), trigger: None }
            }
        },
        Alice::XmrLocked(state3) => {
            if is_timelock_expired(chain.tip, chain.lock, params.bitcoin_cancel_timelock.blocks) {
                Step {
                    state: Alice::CancelTimelockExpired(state3),
                    trigger: Some(Trigger::TimelockExpired),
                }
            } else {
                match seen.delivery {
                    Delivery::EncryptedSignature(encrypted_signature) => Step {
                        state: Alice::EncSigLearned { state: state3, encrypted_signature },
                        trigger: Some(Trigger::PeerMessage),
                    },
                    _ => Step { state: Alice::XmrLocked(state3), trigger: None },
                }
            }
        },
        Alice::EncSigLearned { state, encrypted_signature } => {
            if has_confirmations(chain.tip, chain.redeem, final_depth) {
                Step { state: Alice::Done(EndState::BtcRedeemed), trigger: Some(Trigger::ChainEvent) }
            } else {
                Step { state: Alice::EncSigLearned { state, encrypted_signature }, trigger: None }
            }
        },
        Alice::CancelTimelockExpired(state3) => {
            if has_confirmations(chain.tip, chain.cancel, final_depth) {
                Step { state: Alice::BtcCancelled(state3), trigger: Some(Trigger::ChainEvent) }
            } else {
                Step { state: Alice::CancelTimelockExpired(state3), trigger: None }
            }
        },
        Alice::BtcCancelled(state3) => {
            if chain.refund.is_some() {
                match seen.delivery {
                    Delivery::SpendKey(spend_key) => Step {
                        state: Alice::BtcRefunded { state3, spend_key },
                        trigger: Some(Trigger::ChainEvent),
                    },
                    _ => Step { state: Alice::BtcCancelled(state3), trigger: None },
                }
            } else if is_timelock_expired(
                chain.tip,
                chain.cancel,
                params.bitcoin_punish_timelock.blocks,
            ) {
                Step { state: Alice::BtcPunishable(state3), trigger: Some(Trigger::TimelockExpired) }
            } else {
                Step { state: Alice::BtcCancelled(state3), trigger: None }
            }
        },
        Alice::BtcPunishable(state3) => {
            if has_confirmations(chain.tip, chain.punish, final_depth) {
                Step { state: Alice::Done(EndState::BtcPunished), trigger: Some(Trigger::ChainEvent) }
            } else {
                Step { state: Alice::BtcPunishable(state3), trigger: None }
            }
        },
        Alice::BtcRefunded { state3, spend_key } => {
            if seen.monero_swept {
                Step { state: Alice::Done(EndState::XmrRefunded), trigger: Some(Trigger::ChainEvent) }
            } else {
                Step { state: Alice::BtcRefunded { state3, spend_key }, trigger: None }
            }
        },
        Alice::Done(end) => Step { state: Alice::Done(end), trigger: None },
    }
}

/// What the state asks of the caller.
pub fn next_action<B>(state: &Alice<B>, params: &ExecutionParams) -> (action: Action)
    ensures
        action == action_spec(*state, *params),
{
    match state {
        Alice::Started { .. } => Action::Handshake { timeout: params.bob_time_to_act },
        Alice::Negotiated(_) => Action::WatchBtcLock {
            confirmations: params.bitcoin_finality_confirmations,
            timeout: params.bob_time_to_act,
        },
        Alice::BtcLocked(_) => Action::LockXmr {
            confirmations: params.monero_finality_confirmations,
        },
        Alice::XmrLocked(_) => Action::AwaitEncSig {
            cancel_timelock: params.bitcoin_cancel_timelock,
        },
        Alice::EncSigLearned { .. } => Action::RedeemBtc {
            confirmations: params.bitcoin_finality_confirmations,
        },
        Alice::CancelTimelockExpired(_) => Action::CancelBtc {
            confirmations: params.bitcoin_finality_confirmations,
        },
        Alice::BtcCancelled(_) => Action::AwaitRefund {
            punish_timelock: params.bitcoin_punish_timelock,
        },
        Alice::BtcPunishable(_) => Action::PunishBtc {
            confirmations: params.bitcoin_finality_confirmations,
        },
        Alice::BtcRefunded { .. } => Action::SweepXmr,
        Alice::Done(_) => Action::Stop,
    }
}

/// The state after a whole sequence of observations, taken in order.
pub open spec fn run_spec<B>(
    state: Alice<B>,
    observations: Seq<Observation<B>>,
    params: ExecutionParams,
) -> Alice<B>
    decreases observations.len(),
{
    if observations.len() == 0 {
        state
    } else {
        step_spec(
            run_spec(state, observations.drop_last(), params),
            observations.last(),
            params,
        ).state
    }
}

/// The snapshots that are persisted while the observations come in: the
/// state at the start, then each state that a step moved to.
pub open spec fn snapshots_spec<B>(
    state: Alice<B>,
    observations: Seq<Observation<B>>,
    params: ExecutionParams,
) -> Seq<Alice<B>>
    decreases observations.len(),
{
    if observations.len() == 0 {
        seq![state]
    } else {
        let before = snapshots_spec(state, observations.drop_last(), params);
        let last = step_spec(
            run_spec(state, observations.drop_last(), params),
            observations.last(),
            params,
        );
        if last.trigger is Some {
            before.push(last.state)
        } else {
            before
        }
    }
}

/// The transitions that are logged while the observations come in: for
/// each step that moved, the tag of the state before, the tag of the state
/// after, and the trigger.
pub open spec fn log_spec<B>(
    state: Alice<B>,
    observations: Seq<Observation<B>>,
    params: ExecutionParams,
) -> Seq<(Seq<char>, Seq<char>, Trigger)>
    decreases observations.len(),
{
    if observations.len() == 0 {
        Seq::empty()
    } else {
        let before = log_spec(state, observations.drop_last(), params);
        let from = run_spec(state, observations.drop_last(), params);
        let last = step_spec(from, observations.last(), params);
        match last.trigger {
            Some(trigger) => before.push((from.tag_text(), last.state.tag_text(), trigger)),
            None => before,
        }
    }
}

/// The cryptographic state that Alice holds from the handshake on.
pub open spec fn handshake_state<B>(state: Alice<B>) -> Option<B> {
    match state {
        Alice::Started { .. } => None,
        Alice::Negotiated(state3) => Some(state3),
        Alice::BtcLocked(state3) => Some(state3),
        Alice::XmrLocked(state3) => Some(state3),
        Alice::EncSigLearned { state, .. } => Some(state),
        Alice::CancelTimelockExpired(state3) => Some(state3),
        Alice::BtcCancelled(state3) => Some(state3),
        Alice::BtcPunishable(state3) => Some(state3),
        Alice::BtcRefunded { state3, .. } => Some(state3),
        Alice::Done(_) => None,
    }
}

/// A step either keeps the state and names no trigger, or names a trigger
/// and moves to a state of strictly higher index.
pub proof fn lemma_step_raises_index<B>(
    state: Alice<B>,
    seen: Observation<B>,
    params: ExecutionParams,
)
    ensures
        step_spec(state, seen, params).trigger is None ==> step_spec(state, seen, params).state
            == state,
        step_spec(state, seen, params).trigger is Some ==> step_spec(
            state,
            seen,
            params,
        ).state.index() > state.index(),
{
}

/// `Done` is never left, whatever is seen.
pub proof fn lemma_done_is_final<B>(state: Alice<B>, seen: Observation<B>, params: ExecutionParams)
    requires
        state is Done,
    ensures
        step_spec(state, seen, params) == stay(state),
{
}

/// Taking a step again after the step that concluded the swap changes
/// nothing: a crash between the final transition and its write is harmless.
pub proof fn lemma_replay_after_conclusion<B>(
    state: Alice<B>,
    seen: Observation<B>,
    seen_after: Observation<B>,
    params: ExecutionParams,
)
    requires
        step_spec(state, seen, params).state is Done,
    ensures
        step_spec(step_spec(state, seen, params).state, seen_after, params).state == step_spec(
            state,
            seen,
            params,
        ).state,
{
}

/// Alice turns to locking her Monero only on a chain in which Bob's lock
/// transaction has the confirmations that make it final.
pub proof fn lemma_xmr_lock_follows_btc_finality<B>(
    state: Alice<B>,
    seen: Observation<B>,
    params: ExecutionParams,
)
    requires
        !(state is BtcLocked),
        step_spec(state, seen, params).state is BtcLocked,
    ensures
        state is Negotiated,
        confirmations(seen.bitcoin.tip, seen.bitcoin.lock)
            >= params.bitcoin_finality_confirmations,
        forall|other: Alice<B>| #[trigger]
            action_spec(other, params) is LockXmr <==> other is BtcLocked,
{
}

/// Alice enters `BtcPunishable` only from `BtcCancelled`, and only when the
/// tip is at least both timelocks above the lock transaction's block.
pub proof fn lemma_punishable_after_both_timelocks<B>(
    state: Alice<B>,
    seen: Observation<B>,
    params: ExecutionParams,
)
    requires
        !(state is BtcPunishable),
        step_spec(state, seen, params).state is BtcPunishable,
    ensures
        state is BtcCancelled,
        seen.bitcoin.lock is Some,
        seen.bitcoin.cancel is Some,
        seen.bitcoin.cancel->0 >= seen.bitcoin.lock->0 + params.bitcoin_cancel_timelock.blocks,
        seen.bitcoin.tip >= seen.bitcoin.lock->0 + params.bitcoin_cancel_timelock.blocks
            + params.bitcoin_punish_timelock.blocks,
{
}

/// From the handshake on, a step hands the cryptographic state through
/// unchanged, and with it what was agreed, until the swap is done.
pub proof fn lemma_commitment_is_kept<B>(
    state: Alice<B>,
    seen: Observation<B>,
    params: ExecutionParams,
)
    requires
        handshake_state(state) is Some,
        !(step_spec(state, seen, params).state is Done),
    ensures
        handshake_state(step_spec(state, seen, params).state) == handshake_state(state),
{
}

/// Only before she has seen the Bitcoin locked can Alice abort.
pub proof fn lemma_abort_only_before_lock<B>(
    state: Alice<B>,
    seen: Observation<B>,
    params: ExecutionParams,
)
    requires
        !(state is Done),
        step_spec(state, seen, params).state == Alice::<B>::Done(EndState::SafelyAborted),
    ensures
        state is Started || state is Negotiated,
{
}

/// A late encrypted signature loses against a cancel timelock that has run
/// out in the same round.
pub proof fn lemma_timelock_beats_message<B>(
    state3: B,
    seen: Observation<B>,
    params: ExecutionParams,
)
    requires
        seen.bitcoin.consistent(params.bitcoin_cancel_timelock, params.bitcoin_punish_timelock),
        timelock_expired(seen.bitcoin.tip, seen.bitcoin.lock, params.bitcoin_cancel_timelock.blocks),
    ensures
        step_spec(Alice::XmrLocked(state3), seen, params) == go(
            Alice::CancelTimelockExpired(state3),
            Trigger::TimelockExpired,
        ),
{
}

/// Over any sequence of observations the index never falls.
pub proof fn lemma_run_never_lowers_index<B>(
    state: Alice<B>,
    observations: Seq<Observation<B>>,
    params: ExecutionParams,
)
    ensures
        run_spec(state, observations, params).index() >= state.index(),
    decreases observations.len(),
{
    if observations.len() > 0 {
        lemma_run_never_lowers_index(state, observations.drop_last(), params);
        lemma_step_raises_index(
            run_spec(state, observations.drop_last(), params),
            observations.last(),
            params,
        );
    }
}

/// The persisted snapshots of one swap start with the state at the start,
/// end with the state reached, and rise strictly in index from each to the
/// next. There is one more of them than there are logged transitions.
pub proof fn lemma_snapshots_rise_strictly<B>(
    state: Alice<B>,
    observations: Seq<Observation<B>>,
    params: ExecutionParams,
)
    ensures
        snapshots_spec(state, observations, params).len() == log_spec(
            state,
            observations,
            params,
        ).len() + 1,
        snapshots_spec(state, observations, params).first() == state,
        snapshots_spec(state, observations, params).last() == run_spec(state, observations, params),
        forall|i: int, j: int|
            0 <= i < j < snapshots_spec(state, observations, params).len() ==> (
            #[trigger] snapshots_spec(state, observations, params)[i]).index() < (
            #[trigger] snapshots_spec(state, observations, params)[j]).index(),
    decreases observations.len(),
{
    if observations.len() > 0 {
        let before = snapshots_spec(state, observations.drop_last(), params);
        let from = run_spec(state, observations.drop_last(), params);
        let last = step_spec(from, observations.last(), params);
        lemma_snapshots_rise_strictly(state, observations.drop_last(), params);
        lemma_step_raises_index(from, observations.last(), params);
        if last.trigger is Some {
            let all = before.push(last.state);
            assert(all == snapshots_spec(state, observations, params));
            assert(before[before.len() - 1] == from);
            assert forall|i: int, j: int| 0 <= i < j < all.len() implies (#[trigger] all[i]).index()
                < (#[trigger] all[j]).index() by {
                if j < before.len() {
                    assert(all[i] == before[i] && all[j] == before[j]);
                } else if i < before.len() - 1 {
                    assert(all[i] == before[i]);
                    assert(before[i].index() < before[before.len() - 1].index());
                }
            }
        }
    }
}

} // verus!
