//! What holds of the two parties together.
//!
//! Alice and Bob never see each other's state. What ties them together is
//! the Bitcoin chain: each observation either party makes is a view of one
//! and the same history. The laws here follow a state back to the
//! transactions that must be in that history, and conclude from the rule
//! that an output is spent once.

use crate::alice;
use crate::bob;
use crate::chain::BtcView;
use crate::execution_params::ExecutionParams;
use crate::state::{Alice, Bob, BobEndState, EndState};
use vstd::prelude::*;

verus! {

/// The transactions that must be in the chain's history for Alice to be in
/// `state`.
pub open spec fn alice_backed<B>(state: Alice<B>, history: BtcView) -> bool {
    match state {
        Alice::Started { .. } => true,
        Alice::Negotiated(_) => true,
        Alice::BtcLocked(_) => history.lock is Some,
        Alice::XmrLocked(_) => history.lock is Some,
        Alice::EncSigLearned { .. } => history.lock is Some,
        Alice::CancelTimelockExpired(_) => history.lock is Some,
        Alice::BtcCancelled(_) => history.cancel is Some,
        Alice::BtcPunishable(_) => history.cancel is Some,
        Alice::BtcRefunded { .. } => history.refund is Some,
        Alice::Done(EndState::SafelyAborted) => true,
        Alice::Done(EndState::BtcRedeemed) => history.redeem is Some,
        Alice::Done(EndState::XmrRefunded) => history.refund is Some,
        Alice::Done(EndState::BtcPunished) => history.punish is Some,
    }
}

/// The transactions that must be in the chain's history for Bob to be in
/// `state`.
pub open spec fn bob_backed<B>(state: Bob<B>, history: BtcView) -> bool {
    match state {
        Bob::Negotiated { .. } => true,
        Bob::BtcLocked { .. } => history.lock is Some,
        Bob::XmrLocked { .. } => history.lock is Some,
        Bob::EncSigSent { .. } => history.lock is Some,
        Bob::BtcRedeemed(_) => history.redeem is Some,
        Bob::CancelTimelockExpired(_) => history.lock is Some,
        Bob::BtcCancelled(_) => history.cancel is Some,
        Bob::Done(BobEndState::SafelyAborted) => true,
        Bob::Done(BobEndState::XmrRedeemed) => history.redeem is Some,
        Bob::Done(BobEndState::BtcRefunded) => history.refund is Some,
    }
}

/// The pairs of outcomes that one swap can have: both parties got what they
/// wanted, both got their own coins back, or one of them left before
/// anything was at stake for it.
pub open spec fn outcomes_agree(alice: EndState, bob: BobEndState) -> bool {
    ||| alice is SafelyAborted
    ||| bob is SafelyAborted
    ||| (alice is BtcRedeemed && bob is XmrRedeemed)
    ||| (alice is XmrRefunded && bob is BtcRefunded)
}

/// Every observation is a view of `history`.
pub open spec fn alice_saw_history<B>(
    observations: Seq<alice::Observation<B>>,
    history: BtcView,
) -> bool {
    forall|i: int| 0 <= i < observations.len() ==> history.extends((#[trigger] observations[i]).bitcoin)
}

/// Every observation is a view of `history`.
pub open spec fn bob_saw_history<B>(observations: Seq<bob::Observation<B>>, history: BtcView) -> bool {
    forall|i: int| 0 <= i < observations.len() ==> history.extends((#[trigger] observations[i]).bitcoin)
}

/// A step of Alice's on a view of the history leads to a state that the
/// history backs.
pub proof fn lemma_alice_step_stays_backed<B>(
    state: Alice<B>,
    seen: alice::Observation<B>,
    params: ExecutionParams,
    history: BtcView,
)
    requires
        params.well_formed(),
        alice_backed(state, history),
        history.extends(seen.bitcoin),
    ensures
        alice_backed(alice::step_spec(state, seen, params).state, history),
{
}

/// A step of Bob's on a view of the history leads to a state that the
/// history backs.
pub proof fn lemma_bob_step_stays_backed<B>(
    state: Bob<B>,
    seen: bob::Observation<B>,
    params: ExecutionParams,
    history: BtcView,
)
    requires
        params.well_formed(),
        bob_backed(state, history),
        history.extends(seen.bitcoin),
    ensures
        bob_backed(bob::step_spec(state, seen, params).state, history),
{
}

/// Whatever Alice sees of the history, the state she reaches is backed by
/// it.
pub proof fn lemma_alice_run_stays_backed<B>(
    state: Alice<B>,
    observations: Seq<alice::Observation<B>>,
    params: ExecutionParams,
    history: BtcView,
)
    requires
        params.well_formed(),
        alice_backed(state, history),
        alice_saw_history(observations, history),
    ensures
        alice_backed(alice::run_spec(state, observations, params), history),
    decreases observations.len(),
{
    if observations.len() > 0 {
        let init = observations.drop_last();
        assert forall|i: int| 0 <= i < init.len() implies history.extends(
            (#[trigger] init[i]).bitcoin,
        ) by {
            assert(init[i] == observations[i]);
        }
        lemma_alice_run_stays_backed(state, init, params, history);
        assert(history.extends(observations[observations.len() - 1].bitcoin));
        lemma_alice_step_stays_backed(
            alice::run_spec(state, init, params),
            observations.last(),
            params,
            history,
        );
    }
}

/// Whatever Bob sees of the history, the state he reaches is backed by it.
pub proof fn lemma_bob_run_stays_backed<B>(
    state: Bob<B>,
    observations: Seq<bob::Observation<B>>,
    params: ExecutionParams,
    history: BtcView,
)
    requires
        params.well_formed(),
        bob_backed(state, history),
        bob_saw_history(observations, history),
    ensures
        bob_backed(bob::run_spec(state, observations, params), history),
    decreases observations.len(),
{
    if observations.len() > 0 {
        let init = observations.drop_last();
        assert forall|i: int| 0 <= i < init.len() implies history.extends(
            (#[trigger] init[i]).bitcoin,
        ) by {
            assert(init[i] == observations[i]);
        }
        lemma_bob_run_stays_backed(state, init, params, history);
        assert(history.extends(observations[observations.len() - 1].bitcoin));
        lemma_bob_step_stays_backed(
            bob::run_spec(state, init, params),
            observations.last(),
            params,
            history,
        );
    }
}

/// The chain has grown past both timelocks since the lock transaction.
pub open spec fn both_timelocks_passed(history: BtcView, params: ExecutionParams) -> bool {
    &&& history.lock is Some
    &&& history.tip >= history.lock->0 + params.bitcoin_cancel_timelock.blocks
        + params.bitcoin_punish_timelock.blocks
}

/// Whenever Alice is in `BtcPunishable`, the chain she has been watching
/// is at least both timelocks past the block of the lock transaction.
pub proof fn lemma_punishable_only_after_both_timelocks<B>(
    state: Alice<B>,
    observations: Seq<alice::Observation<B>>,
    params: ExecutionParams,
    history: BtcView,
)
    requires
        alice_saw_history(observations, history),
        state is BtcPunishable ==> both_timelocks_passed(history, params),
        alice::run_spec(state, observations, params) is BtcPunishable,
    ensures
        both_timelocks_passed(history, params),
    decreases observations.len(),
{
    if observations.len() > 0 {
        let init = observations.drop_last();
        let from = alice::run_spec(state, init, params);
        assert forall|i: int| 0 <= i < init.len() implies history.extends(
            (#[trigger] init[i]).bitcoin,
        ) by {
            assert(init[i] == observations[i]);
        }
        if from is BtcPunishable {
            lemma_punishable_only_after_both_timelocks(state, init, params, history);
        } else {
            assert(history.extends(observations[observations.len() - 1].bitcoin));
            alice::lemma_punishable_after_both_timelocks(from, observations.last(), params);
        }
    }
}

/// When both parties of a swap have concluded on views of one valid chain,
/// their outcomes agree: the Bitcoin went to Alice and the Monero to Bob,
/// or each got its own coins back, or one of them aborted before it had
/// anything at stake. Never did both end up with the Bitcoin, nor both
/// with the Monero, and Bob concluded nothing if Alice punished him.
pub proof fn lemma_outcomes_agree<B>(
    alice: Alice<B>,
    alice_saw: Seq<alice::Observation<B>>,
    bob: Bob<B>,
    bob_saw: Seq<bob::Observation<B>>,
    params: ExecutionParams,
    history: BtcView,
)
    requires
        params.well_formed(),
        history.consistent(params.bitcoin_cancel_timelock, params.bitcoin_punish_timelock),
        alice_backed(alice, history),
        bob_backed(bob, history),
        alice_saw_history(alice_saw, history),
        bob_saw_history(bob_saw, history),
        alice::run_spec(alice, alice_saw, params) is Done,
        bob::run_spec(bob, bob_saw, params) is Done,
    ensures
        outcomes_agree(
            alice::run_spec(alice, alice_saw, params)->Done_0,
            bob::run_spec(bob, bob_saw, params)->Done_0,
        ),
{
    lemma_alice_run_stays_backed(alice, alice_saw, params, history);
    lemma_bob_run_stays_backed(bob, bob_saw, params, history);
}

/// Alice redeemed the locked bitcoin.
pub open spec fn alice_redeemed<B>(alice: Alice<B>) -> bool {
    alice == Alice::<B>::Done(EndState::BtcRedeemed)
}

/// Bob got the locked bitcoin back.
pub open spec fn bob_refunded<B>(bob: Bob<B>) -> bool {
    bob == Bob::<B>::Done(BobEndState::BtcRefunded)
}

/// Alice took the locked bitcoin as a punishment.
pub open spec fn alice_punished<B>(alice: Alice<B>) -> bool {
    alice == Alice::<B>::Done(EndState::BtcPunished)
}

/// The locked bitcoin leaves the swap at most once: of "Alice redeemed",
/// "Bob was refunded" and "Alice punished" no two hold of states that one
/// valid chain backs, whether or not both parties have concluded.
pub proof fn lemma_bitcoin_leaves_at_most_once<B>(
    alice: Alice<B>,
    bob: Bob<B>,
    history: BtcView,
    params: ExecutionParams,
)
    requires
        history.consistent(params.bitcoin_cancel_timelock, params.bitcoin_punish_timelock),
        alice_backed(alice, history),
        bob_backed(bob, history),
    ensures
        !(alice_redeemed(alice) && bob_refunded(bob)),
        !(alice_punished(alice) && bob_refunded(bob)),
        !(alice_redeemed(alice) && alice_punished(alice)),
{
}

/// When both parties have concluded on views of one valid chain and
/// neither of them aborted, the bitcoin has left the swap in exactly one
/// of the three ways, and the pair of outcomes is "both redeemed" or "both
/// refunded".
pub proof fn lemma_bitcoin_leaves_exactly_once<B>(
    alice: Alice<B>,
    alice_saw: Seq<alice::Observation<B>>,
    bob: Bob<B>,
    bob_saw: Seq<bob::Observation<B>>,
    params: ExecutionParams,
    history: BtcView,
)
    requires
        params.well_formed(),
        history.consistent(params.bitcoin_cancel_timelock, params.bitcoin_punish_timelock),
        alice_backed(alice, history),
        bob_backed(bob, history),
        alice_saw_history(alice_saw, history),
        bob_saw_history(bob_saw, history),
        alice::run_spec(alice, alice_saw, params) is Done,
        bob::run_spec(bob, bob_saw, params) is Done,
        alice::run_spec(alice, alice_saw, params)->Done_0 != EndState::SafelyAborted,
        bob::run_spec(bob, bob_saw, params)->Done_0 != BobEndState::SafelyAborted,
    ensures
        ({
            let alice_end = alice::run_spec(alice, alice_saw, params);
            let bob_end = bob::run_spec(bob, bob_saw, params);
            &&& alice_redeemed(alice_end) || bob_refunded(bob_end) || alice_punished(alice_end)
            &&& !(alice_redeemed(alice_end) && bob_refunded(bob_end))
            &&& !(alice_punished(alice_end) && bob_refunded(bob_end))
            &&& !(alice_redeemed(alice_end) && alice_punished(alice_end))
            &&& (alice_end->Done_0, bob_end->Done_0) == (
                EndState::BtcRedeemed,
                BobEndState::XmrRedeemed,
            ) || (alice_end->Done_0, bob_end->Done_0) == (
                EndState::XmrRefunded,
                BobEndState::BtcRefunded,
            )
        }),
{
    lemma_outcomes_agree(alice, alice_saw, bob, bob_saw, params, history);
}

} // verus!
