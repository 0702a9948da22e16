//! Bob's side of a swap: he holds BTC and wishes to receive XMR.
//!
//! As for Alice, the driver is a function from a state and one observation
//! of the world to the next state; see [`next_action`] for what each state
//! asks of the caller.

pub mod amounts;

use crate::chain::{
    confirmations, has_confirmations, is_timelock_expired, timelock_expired, BtcView,
    CancelTimelock,
};
use crate::execution_params::ExecutionParams;
use crate::state::{Bob, BobEndState, Trigger};
use vstd::prelude::*;

verus! {

/// What the cryptographic layer handed over in one round.
#[derive(Clone, Debug, PartialEq, Eq)]
pub enum Delivery<B> {
    Nothing,
    /// The state after the lock transaction was signed and published.
    State3(B),
    /// The state after Alice's transfer proof was checked, or the one from
    /// which the cancel transaction is built.
    State4(B),
    /// The state that holds the keys read off Alice's redeem transaction.
    State5(B),
    /// The peer sent something that failed verification.
    Invalid,
}

/// One observation round: the Bitcoin chain, the Monero lock and the peer
/// channel, all seen at one moment.
#[derive(Clone, Debug, PartialEq, Eq)]
pub struct Observation<B> {
    pub bitcoin: BtcView,
    /// Confirmations of Alice's Monero lock transaction, 0 if unseen.
    pub monero_lock_confirmations: u32,
    /// Whether the Monero was swept to Bob's own wallet.
    pub monero_swept: bool,
    /// Whether Bob has handed his lock transaction to the network, be it
    /// in a block yet or not.
    pub lock_published: bool,
    /// Whether Bob has sent his encrypted signature: handed it to the
    /// channel, whether or not Alice is there to read it.
    pub encsig_sent: bool,
    pub delivery: Delivery<B>,
}

/// The outcome of one step: the state to persist and, if it differs from
/// the one before, what caused the move.
#[derive(Clone, Debug, PartialEq, Eq)]
pub struct Step<B> {
    pub state: Bob<B>,
    pub trigger: Option<Trigger>,
}

/// What the caller has to do, and to watch for, while Bob is in a state.
#[derive(Clone, Copy, Debug, PartialEq, Eq)]
pub enum Action {
    /// Publish the lock transaction and wait for `confirmations`.
    LockBtc { confirmations: u32 },
    /// Watch for Alice's Monero lock to reach `confirmations`, or for the
    /// cancel timelock.
    WatchXmrLock { confirmations: u32, cancel_timelock: CancelTimelock },
    /// Send the encrypted signature to Alice.
    SendEncSig,
    /// Watch for Alice's redeem transaction or for the cancel timelock.
    WatchRedeem { cancel_timelock: CancelTimelock },
    /// Sweep the Monero with the keys read off the redeem transaction.
    SweepXmr,
    /// Publish the cancel transaction and wait for `confirmations`.
    CancelBtc { confirmations: u32 },
    /// Publish the refund transaction and wait for `confirmations`.
    RefundBtc { confirmations: u32 },
    /// Nothing is left to do.
    Stop,
}

impl View for Delivery<Vec<u8>> {
    type V = Delivery<Seq<u8>>;

    open spec fn view(&self) -> Delivery<Seq<u8>> {
        match *self {
            Delivery::Nothing => Delivery::Nothing,
            Delivery::State3(payload) => Delivery::State3(payload@),
            Delivery::State4(payload) => Delivery::State4(payload@),
            Delivery::State5(payload) => Delivery::State5(payload@),
            Delivery::Invalid => Delivery::Invalid,
        }
    }
}

impl View for Observation<Vec<u8>> {
    type V = Observation<Seq<u8>>;

    open spec fn view(&self) -> Observation<Seq<u8>> {
        Observation {
            bitcoin: self.bitcoin,
            monero_lock_confirmations: self.monero_lock_confirmations,
            monero_swept: self.monero_swept,
            lock_published: self.lock_published,
            encsig_sent: self.encsig_sent,
            delivery: self.delivery@,
        }
    }
}

impl View for Step<Vec<u8>> {
    type V = Step<Seq<u8>>;

    open spec fn view(&self) -> Step<Seq<u8>> {
        Step { state: self.state@, trigger: self.trigger }
    }
}

/// The observations with their material seen as plain bytes.
pub open spec fn views(observations: Seq<Observation<Vec<u8>>>) -> Seq<Observation<Seq<u8>>> {
    observations.map_values(|seen: Observation<Vec<u8>>| seen@)
}

/// The step does not look into the material: on values held in memory it
/// decides as it does on their bytes.
pub proof fn lemma_step_respects_views(
    state: Bob<Vec<u8>>,
    seen: Observation<Vec<u8>>,
    params: ExecutionParams,
)
    ensures
        step_spec(state, seen, params)@ == step_spec(state@, seen@, params),
        state@.tag_text() == state.tag_text(),
        state@.index() == state.index(),
{
}

/// A run on values held in memory goes as it does on their bytes.
pub proof fn lemma_run_respects_views(
    state: Bob<Vec<u8>>,
    observations: Seq<Observation<Vec<u8>>>,
    params: ExecutionParams,
)
    ensures
        run_spec(state, observations, params)@ == run_spec(state@, views(observations), params),
        log_spec(state, observations, params) == log_spec(state@, views(observations), params),
    decreases observations.len(),
{
    if observations.len() > 0 {
        let init = observations.drop_last();
        let from = run_spec(state, init, params);
        lemma_run_respects_views(state, init, params);
        lemma_step_respects_views(from, observations.last(), params);
        lemma_step_respects_views(
            step_spec(from, observations.last(), params).state,
            observations.last(),
            params,
        );
        assert(views(observations).drop_last() =~= views(init));
        assert(views(observations).last() == observations.last()@);
    }
}

/// The state is kept.
pub open spec fn stay<B>(state: Bob<B>) -> Step<B> {
    Step { state, trigger: None }
}

/// The state changes to `state` because of `trigger`.
pub open spec fn go<B>(state: Bob<B>, trigger: Trigger) -> Step<B> {
    Step { state, trigger: Some(trigger) }
}

/// Bob's transition function.
///
/// An observation that no valid chain can produce is discarded. A cancel
/// timelock that has run out wins over Alice's Monero lock; Alice's redeem
/// transaction, once in the chain, wins over the timelock, because then the
/// cancel transaction can no longer be published. Bob can leave with
/// `Done(SafelyAborted)` only while his lock transaction is neither
/// published nor in the chain; `Done` is never left.
pub open spec fn step_spec<B>(state: Bob<B>, seen: Observation<B>, params: ExecutionParams) -> Step<B> {
    let chain = seen.bitcoin;
    let final_depth = params.bitcoin_finality_confirmations;
    let cancel_blocks = params.bitcoin_cancel_timelock.blocks;
    if !chain.consistent(params.bitcoin_cancel_timelock, params.bitcoin_punish_timelock) {
        stay(state)
    } else {
        match state {
            Bob::Negotiated { state2, peer_id } => match seen.delivery {
                Delivery::State3(state3) => if confirmations(chain.tip, chain.lock)
                    >= final_depth {
                    go(Bob::BtcLocked { state3, peer_id }, Trigger::ChainEvent)
                } else {
                    stay(state)
                },
                Delivery::Invalid => if !seen.lock_published && chain.lock is None {
                    go(Bob::Done(BobEndState::SafelyAborted), Trigger::PeerMessage)
                } else {
                    stay(state)
                },
                _ => stay(state),
            },
            Bob::BtcLocked { state3, peer_id } => match seen.delivery {
                Delivery::State4(state4) => if timelock_expired(
                    chain.tip,
                    chain.lock,
                    cancel_blocks,
                ) {
                    go(Bob::CancelTimelockExpired(state4), Trigger::TimelockExpired)
                } else if seen.monero_lock_confirmations >= params.monero_finality_confirmations {
                    go(Bob::XmrLocked { state4, peer_id }, Trigger::ChainEvent)
                } else {
                    stay(state)
                },
                _ => stay(state),
            },
            Bob::XmrLocked { state4, peer_id } => if seen.encsig_sent {
                go(Bob::EncSigSent { state4, peer_id }, Trigger::PeerMessage)
            } else {
                stay(state)
            },
            Bob::EncSigSent { state4, peer_id } => if chain.redeem is Some {
                match seen.delivery {
                    Delivery::State5(state5) => go(Bob::BtcRedeemed(state5), Trigger::ChainEvent),
                    _ => stay(state),
                }
            } else if timelock_expired(chain.tip, chain.lock, cancel_blocks) {
                go(Bob::CancelTimelockExpired(state4), Trigger::TimelockExpired)
            } else {
                stay(state)
            },
            Bob::BtcRedeemed(_) => if seen.monero_swept {
                go(Bob::Done(BobEndState::XmrRedeemed), Trigger::ChainEvent)
            } else {
                stay(state)
            },
            Bob::CancelTimelockExpired(state4) => if confirmations(chain.tip, chain.cancel)
                >= final_depth {
                go(Bob::BtcCancelled(state4), Trigger::ChainEvent)
            } else {
                stay(state)
            },
            Bob::BtcCancelled(_) => if confirmations(chain.tip, chain.refund) >= final_depth {
                go(Bob::Done(BobEndState::BtcRefunded), Trigger::ChainEvent)
            } else {
                stay(state)
            },
            Bob::Done(_) => stay(state),
        }
    }
}

/// What Bob's state asks of the caller.
pub open spec fn action_spec<B>(state: Bob<B>, params: ExecutionParams) -> Action {
    match state {
        Bob::Negotiated { .. } => Action::LockBtc {
            confirmations: params.bitcoin_finality_confirmations,
        },
        Bob::BtcLocked { .. } => Action::WatchXmrLock {
            confirmations: params.monero_finality_confirmations,
            cancel_timelock: params.bitcoin_cancel_timelock,
        },
        Bob::XmrLocked { .. } => Action::SendEncSig,
        Bob::EncSigSent { .. } => Action::WatchRedeem {
            cancel_timelock: params.bitcoin_cancel_timelock,
        },
        Bob::BtcRedeemed(_) => Action::SweepXmr,
        Bob::CancelTimelockExpired(_) => Action::CancelBtc {
            confirmations: params.bitcoin_finality_confirmations,
        },
        Bob::BtcCancelled(_) => Action::RefundBtc {
            confirmations: params.bitcoin_finality_confirmations,
        },
        Bob::Done(_) => Action::Stop,
    }
}

/// Takes one step of Bob's protocol on what was seen.
pub fn step<B>(state: Bob<B>, seen: Observation<B>, params: &ExecutionParams) -> (next: Step<B>)
    ensures
        next == step_spec(state, seen, *params),
{
    let chain = seen.bitcoin;
    let final_depth: u32 = params.bitcoin_finality_confirmations;
    let cancel_blocks: u32 = params.bitcoin_cancel_timelock.blocks;
    if !chain.is_consistent(params.bitcoin_cancel_timelock, params.bitcoin_punish_timelock) {
        return Step { state, trigger: None };
    }
    match state {
        Bob::Negotiated { state2, peer_id } => match seen.delivery {
            Delivery::State3(state3) => {
                if has_confirmations(chain.tip, chain.lock, final_depth) {
                    Step {
                        state: Bob::BtcLocked { state3, peer_id },
                        trigger: Some(Trigger::ChainEvent),
                    }
                } else {
                    Step { state: Bob::Negotiated { state2, peer_id }, trigger: None }
                }
            },
            Delivery::Invalid => {
                if !seen.lock_published && chain.lock.is_none() {
                    Step {
                        state: Bob::Done(BobEndState::SafelyAborted),
                        trigger: Some(Trigger::PeerMessage),
                    }
                } else {
                    Step { state: Bob::Negotiated { state2, peer_id }, trigger: None }
                }
            },
            _ => Step { state: Bob::Negotiated { state2, peer_id }, trigger: None },
        },
        Bob::BtcLocked { state3, peer_id } => match seen.delivery {
            Delivery::State4(state4) => {
                if is_timelock_expired(chain.tip, chain.lock, cancel_blocks) {
                    Step {
                        state: Bob::CancelTimelockExpired(state4),
                        trigger: Some(Trigger::TimelockExpired),
                    }
                } else if seen.monero_lock_confirmations >= params.monero_finality_confirmations {
                    Step {
                        state: Bob::XmrLocked { state4, peer_id },
                        trigger: Some(Trigger::ChainEvent),
                    }
                } else {
                    Step { state: Bob::BtcLocked { state3, peer_id }, trigger: None }
                }
            },
            _ => Step { state: Bob::BtcLocked { state3, peer_id }, trigger: None },
        },
        Bob::XmrLocked { state4, peer_id } => {
            if seen.encsig_sent {
                Step {
                    state: Bob::EncSigSent { state4, peer_id },
                    trigger: Some(Trigger::PeerMessage),
                }
            } else {
                Step { state: Bob::XmrLocked { state4, peer_id }, trigger: None }
            }
        },
        Bob::EncSigSent { state4, peer_id } => {
            if chain.redeem.is_some() {
                match seen.delivery {
                    Delivery::State5(state5) => Step {
                        state: Bob::BtcRedeemed(state5),
                        trigger: Some(Trigger::ChainEvent),
                    },
                    _ => Step { state: Bob::EncSigSent { state4, peer_id }, trigger: None },
                }
            } else if is_timelock_expired(chain.tip, chain.lock, cancel_blocks) {
                Step {
                    state: Bob::CancelTimelockExpired(state4),
                    trigger: Some(Trigger::TimelockExpired),
                }
            } else {
                Step { state: Bob::EncSigSent { state4, peer_id }, trigger: None }
            }
        },
        Bob::BtcRedeemed(state5) => {
            if seen.monero_swept {
                Step {
                    state: Bob::Done(BobEndState::XmrRedeemed),
                    trigger: Some(Trigger::ChainEvent),
                }
            } else {
                Step { state: Bob::BtcRedeemed(state5), trigger: None }
            }
        },
        Bob::CancelTimelockExpired(state4) => {
            if has_confirmations(chain.tip, chain.cancel, final_depth) {
                Step { state: Bob::BtcCancelled(state4), trigger: Some(Trigger::ChainEvent) }
            } else {
                Step { state: Bob::CancelTimelockExpired(state4), trigger: None }
            }
        },
        Bob::BtcCancelled(state4) => {
            if has_confirmations(chain.tip, chain.refund, final_depth) {
                Step {
                    state: Bob::Done(BobEndState::BtcRefunded),
                    trigger: Some(Trigger::ChainEvent),
                }
            } else {
                Step { state: Bob::BtcCancelled(state4), trigger: None }
            }
        },
        Bob::Done(end) => Step { state: Bob::Done(end), trigger: None },
    }
}

/// What the state asks of the caller.
pub fn next_action<B>(state: &Bob<B>, params: &ExecutionParams) -> (action: Action)
    ensures
        action == action_spec(*state, *params),
{
    match state {
        Bob::Negotiated { .. } => Action::LockBtc {
            confirmations: params.bitcoin_finality_confirmations,
        },
        Bob::BtcLocked { .. } => Action::WatchXmrLock {
            confirmations: params.monero_finality_confirmations,
            cancel_timelock: params.bitcoin_cancel_timelock,
        },
        Bob::XmrLocked { .. } => Action::SendEncSig,
        Bob::EncSigSent { .. } => Action::WatchRedeem {
            cancel_timelock: params.bitcoin_cancel_timelock,
        },
        Bob::BtcRedeemed(_) => Action::SweepXmr,
        Bob::CancelTimelockExpired(_) => Action::CancelBtc {
            confirmations: params.bitcoin_finality_confirmations,
        },
        Bob::BtcCancelled(_) => Action::RefundBtc {
            confirmations: params.bitcoin_finality_confirmations,
        },
        Bob::Done(_) => Action::Stop,
    }
}

/// The state after a whole sequence of observations, taken in order.
pub open spec fn run_spec<B>(
    state: Bob<B>,
    observations: Seq<Observation<B>>,
    params: ExecutionParams,
) -> Bob<B>
    decreases observations.len(),
{
    if observations.len() == 0 {
        state
    } else {
        step_spec(
            run_spec(state, observations.drop_last(), params),
            observations.last(),
            params,
        ).state
    }
}

/// The snapshots that are persisted while the observations come in: the
/// state at the start, then each state that a step moved to.
pub open spec fn snapshots_spec<B>(
    state: Bob<B>,
    observations: Seq<Observation<B>>,
    params: ExecutionParams,
) -> Seq<Bob<B>>
    decreases observations.len(),
{
    if observations.len() == 0 {
        seq![state]
    } else {
        let before = snapshots_spec(state, observations.drop_last(), params);
        let last = step_spec(
            run_spec(state, observations.drop_last(), params),
            observations.last(),
            params,
        );
        if last.trigger is Some {
            before.push(last.state)
        } else {
            before
        }
    }
}

/// The transitions that are logged while the observations come in: for
/// each step that moved, the tag of the state before, the tag of the state
/// after, and the trigger.
pub open spec fn log_spec<B>(
    state: Bob<B>,
    observations: Seq<Observation<B>>,
    params: ExecutionParams,
) -> Seq<(Seq<char>, Seq<char>, Trigger)>
    decreases observations.len(),
{
    if observations.len() == 0 {
        Seq::empty()
    } else {
        let before = log_spec(state, observations.drop_last(), params);
        let from = run_spec(state, observations.drop_last(), params);
        let last = step_spec(from, observations.last(), params);
        match last.trigger {
            Some(trigger) => before.push((from.tag_text(), last.state.tag_text(), trigger)),
            None => before,
        }
    }
}

/// A step either keeps the state and names no trigger, or names a trigger
/// and moves to a state of strictly higher index.
pub proof fn lemma_step_raises_index<B>(state: Bob<B>, seen: Observation<B>, params: ExecutionParams)
    ensures
        step_spec(state, seen, params).trigger is None ==> step_spec(state, seen, params).state
            == state,
        step_spec(state, seen, params).trigger is Some ==> step_spec(
            state,
            seen,
            params,
        ).state.index() > state.index(),
{
}

/// `Done` is never left, whatever is seen.
pub proof fn lemma_done_is_final<B>(state: Bob<B>, seen: Observation<B>, params: ExecutionParams)
    requires
        state is Done,
    ensures
        step_spec(state, seen, params) == stay(state),
{
}

/// Taking a step again after the step that concluded the swap changes
/// nothing: a crash between the final transition and its write is harmless.
pub proof fn lemma_replay_after_conclusion<B>(
    state: Bob<B>,
    seen: Observation<B>,
    seen_after: Observation<B>,
    params: ExecutionParams,
)
    requires
        step_spec(state, seen, params).state is Done,
    ensures
        step_spec(step_spec(state, seen, params).state, seen_after, params).state == step_spec(
            state,
            seen,
            params,
        ).state,
{
}

/// Bob aborts only from `Negotiated`, and only while his lock transaction
/// is neither published nor in the chain.
pub proof fn lemma_abort_only_before_lock<B>(
    state: Bob<B>,
    seen: Observation<B>,
    params: ExecutionParams,
)
    requires
        !(state is Done),
        step_spec(state, seen, params).state == Bob::<B>::Done(BobEndState::SafelyAborted),
    ensures
        state is Negotiated,
        !seen.lock_published,
        seen.bitcoin.lock is None,
{
}

/// Bob turns to the cancel transaction only when the cancel timelock has
/// run out on the chain he sees.
pub proof fn lemma_cancel_only_after_timelock<B>(
    state: Bob<B>,
    seen: Observation<B>,
    params: ExecutionParams,
)
    requires
        !(state is CancelTimelockExpired),
        step_spec(state, seen, params).state is CancelTimelockExpired,
    ensures
        state is BtcLocked || state is EncSigSent,
        timelock_expired(seen.bitcoin.tip, seen.bitcoin.lock, params.bitcoin_cancel_timelock.blocks),
{
}

/// Once his signature is out, Bob gets his bitcoin back by the chain
/// alone: whatever the peer delivers or withholds, an expired timelock
/// without a redeem transaction takes him to the cancel transaction, the
/// cancel transaction's finality to the refund, and the refund's finality
/// to `Done(BtcRefunded)`.
pub proof fn lemma_refund_needs_only_the_chain<B>(
    state: Bob<B>,
    seen: Observation<B>,
    params: ExecutionParams,
)
    requires
        seen.bitcoin.consistent(params.bitcoin_cancel_timelock, params.bitcoin_punish_timelock),
    ensures
        state is XmrLocked && seen.encsig_sent ==> step_spec(state, seen, params).state == (
            Bob::EncSigSent {
                state4: state->XmrLocked_state4,
                peer_id: state->XmrLocked_peer_id,
            }),
        state is EncSigSent && seen.bitcoin.redeem is None && timelock_expired(
            seen.bitcoin.tip,
            seen.bitcoin.lock,
            params.bitcoin_cancel_timelock.blocks,
        ) ==> step_spec(state, seen, params).state == Bob::CancelTimelockExpired(
            state->EncSigSent_state4,
        ),
        state is CancelTimelockExpired && confirmations(seen.bitcoin.tip, seen.bitcoin.cancel)
            >= params.bitcoin_finality_confirmations ==> step_spec(state, seen, params).state
            == Bob::BtcCancelled(state->CancelTimelockExpired_0),
        state is BtcCancelled && confirmations(seen.bitcoin.tip, seen.bitcoin.refund)
            >= params.bitcoin_finality_confirmations ==> step_spec(state, seen, params).state
            == Bob::<B>::Done(BobEndState::BtcRefunded),
{
}

/// The peer whose swap this is, while Bob still has to talk to it.
pub open spec fn peer_of<B>(state: Bob<B>) -> Option<B> {
    match state {
        Bob::Negotiated { peer_id, .. } => Some(peer_id),
        Bob::BtcLocked { peer_id, .. } => Some(peer_id),
        Bob::XmrLocked { peer_id, .. } => Some(peer_id),
        Bob::EncSigSent { peer_id, .. } => Some(peer_id),
        _ => None,
    }
}

/// A step never changes whom Bob is swapping with.
pub proof fn lemma_peer_is_kept<B>(state: Bob<B>, seen: Observation<B>, params: ExecutionParams)
    requires
        peer_of(step_spec(state, seen, params).state) is Some,
    ensures
        peer_of(step_spec(state, seen, params).state) == peer_of(state),
{
}

/// Over any sequence of observations the index never falls.
pub proof fn lemma_run_never_lowers_index<B>(
    state: Bob<B>,
    observations: Seq<Observation<B>>,
    params: ExecutionParams,
)
    ensures
        run_spec(state, observations, params).index() >= state.index(),
    decreases observations.len(),
{
    if observations.len() > 0 {
        lemma_run_never_lowers_index(state, observations.drop_last(), params);
        lemma_step_raises_index(
            run_spec(state, observations.drop_last(), params),
            observations.last(),
            params,
        );
    }
}

/// The persisted snapshots of one swap start with the state at the start,
/// end with the state reached, and rise strictly in index from each to the
/// next. There is one more of them than there are logged transitions.
pub proof fn lemma_snapshots_rise_strictly<B>(
    state: Bob<B>,
    observations: Seq<Observation<B>>,
    params: ExecutionParams,
)
    ensures
        snapshots_spec(state, observations, params).len() == log_spec(
            state,
            observations,
            params,
        ).len() + 1,
        snapshots_spec(state, observations, params).first() == state,
        snapshots_spec(state, observations, params).last() == run_spec(state, observations, params),
        forall|i: int, j: int|
            0 <= i < j < snapshots_spec(state, observations, params).len() ==> (
            #[trigger] snapshots_spec(state, observations, params)[i]).index() < (
            #[trigger] snapshots_spec(state, observations, params)[j]).index(),
    decreases observations.len(),
{
    if observations.len() > 0 {
        let before = snapshots_spec(state, observations.drop_last(), params);
        let from = run_spec(state, observations.drop_last(), params);
        let last = step_spec(from, observations.last(), params);
        lemma_snapshots_rise_strictly(state, observations.drop_last(), params);
        lemma_step_raises_index(from, observations.last(), params);
        if last.trigger is Some {
            let all = before.push(last.state);
            assert(all == snapshots_spec(state, observations, params));
            assert(before[before.len() - 1] == from);
            assert forall|i: int, j: int| 0 <= i < j < all.len() implies (#[trigger] all[i]).index()
                < (#[trigger] all[j]).index() by {
                if j < before.len() {
                    assert(all[i] == before[i] && all[j] == before[j]);
                } else if i < before.len() - 1 {
                    assert(all[i] == before[i]);
                    assert(before[i].index() < before[before.len() - 1].index());
                }
            }
        }
    }
}

} // verus!
