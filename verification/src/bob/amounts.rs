//! Bob's request for the amounts of a swap.
//!
//! Bob opens the negotiation: he names the bitcoin he offers and waits for
//! Alice's answer. The transport reports what happened to the request; this
//! module decides what that means for the swap and queues the outcome for
//! whoever polls.

use crate::network::request_response::{AliceToBob, BobToAlice};
use crate::state::{Bob, BobEndState, SwapAmounts};
use std::collections::VecDeque;
use vstd::prelude::*;

verus! {

/// Why a negotiation ended without amounts.
#[derive(Clone, Copy, Debug, PartialEq, Eq, Structural)]
pub enum Failure {
    /// No response came within the request's timeout, or the request could
    /// not be delivered.
    Unanswered,
    /// Alice broke the protocol: Bob only ever receives responses.
    Violation,
}

/// What the negotiation produced.
#[derive(Clone, Copy, Debug, PartialEq, Eq, Structural)]
pub enum OutEvent {
    /// Alice answered with the amounts of the swap.
    Amounts(SwapAmounts),
    /// The negotiation is over and nothing was agreed.
    Aborted(Failure),
}

/// What the transport reports of the request/response channel.
#[derive(Clone, Copy, Debug, PartialEq, Eq, Structural)]
pub enum Event {
    /// Alice sent a request.
    Request,
    /// Alice sent a response.
    Response(AliceToBob),
    /// An inbound request failed.
    InboundFailure,
    /// Bob's request failed: it timed out or could not be sent.
    OutboundFailure,
}

/// A request that the caller has to send.
#[derive(Clone, Debug, PartialEq, Eq)]
pub struct OutboundRequest<P> {
    pub peer: P,
    pub message: BobToAlice,
}

/// The state of Bob's negotiation: the outcomes that nobody has polled
/// yet, oldest first.
pub struct Amounts {
    timeout: u64,
    events: VecDeque<OutEvent>,
}

/// What a report of the transport means for the negotiation: a response
/// gives the amounts, a request that failed leaves it unanswered, and a
/// request from Alice, or the failure of one, breaks the protocol.
pub open spec fn outcome_of(event: Event) -> OutEvent {
    match event {
        Event::Response(AliceToBob::Amounts(amounts)) => OutEvent::Amounts(amounts),
        Event::OutboundFailure => OutEvent::Aborted(Failure::Unanswered),
        Event::Request => OutEvent::Aborted(Failure::Violation),
        Event::InboundFailure => OutEvent::Aborted(Failure::Violation),
    }
}

/// Where an outcome of the negotiation leaves Bob, given the state that is
/// stored for the swap, if any. Amounts change nothing. A negotiation that
/// failed ends the swap with `Done(SafelyAborted)`, but only while nothing
/// is at stake: when no state is stored yet, or from `Negotiated`. From
/// any later state the swap goes on as the chain decides.
pub open spec fn state_after<B>(stored: Option<Bob<B>>, outcome: OutEvent) -> Option<Bob<B>> {
    match outcome {
        OutEvent::Amounts(_) => stored,
        OutEvent::Aborted(_) => match stored {
            None => Some(Bob::Done(BobEndState::SafelyAborted)),
            Some(Bob::Negotiated { .. }) => Some(Bob::Done(BobEndState::SafelyAborted)),
            Some(later) => Some(later),
        },
    }
}

impl OutEvent {
    /// Where the outcome leaves Bob, given the state that is stored for
    /// the swap, if any.
    pub fn applied_to<B>(&self, stored: Option<Bob<B>>) -> (state: Option<Bob<B>>)
        ensures
            state == state_after(stored, *self),
    {
        match self {
            OutEvent::Amounts(_) => stored,
            OutEvent::Aborted(_) => match stored {
                None => Some(Bob::Done(BobEndState::SafelyAborted)),
                Some(Bob::Negotiated { .. }) => Some(Bob::Done(BobEndState::SafelyAborted)),
                Some(later) => Some(later),
            },
        }
    }
}

impl Amounts {
    /// Seconds after which a request counts as unanswered.
    pub closed spec fn timeout_secs(self) -> u64 {
        self.timeout
    }

    /// The outcomes that wait to be polled, oldest first.
    pub closed spec fn pending(self) -> Seq<OutEvent> {
        self.events@
    }

    /// A negotiation in which nothing has happened yet.
    pub fn new(timeout: u64) -> (amounts: Self)
        ensures
            amounts.timeout_secs() == timeout,
            amounts.pending() == Seq::<OutEvent>::empty(),
    {
        Amounts { timeout, events: VecDeque::new() }
    }

    /// Seconds after which a request counts as unanswered.
    pub fn timeout(&self) -> (secs: u64)
        ensures
            secs == self.timeout_secs(),
    {
        self.timeout
    }

    /// Asks `alice` for the amounts of a swap of `btc` satoshis: gives the
    /// request to send. The negotiation itself is as it was.
    pub fn request_amounts<P>(&mut self, alice: P, btc: u64) -> (request: OutboundRequest<P>)
        ensures
            request.peer == alice,
            request.message == BobToAlice::AmountsFromBtc(btc),
            final(self).timeout_secs() == old(self).timeout_secs(),
            final(self).pending() == old(self).pending(),
    {
        OutboundRequest { peer: alice, message: BobToAlice::AmountsFromBtc(btc) }
    }

    /// Takes the oldest outcome off the queue, if there is one.
    pub fn poll(&mut self) -> (event: Option<OutEvent>)
        ensures
            old(self).pending().len() == 0 ==> event is None,
            old(self).pending().len() == 0 ==> final(self).pending() == old(self).pending(),
            old(self).pending().len() > 0 ==> event == Some(old(self).pending()[0]),
            old(self).pending().len() > 0 ==> final(self).pending() == old(
                self
            ).pending().drop_first(),
            final(self).timeout_secs() == old(self).timeout_secs(),
    {
        self.events.pop_front()
    }

    /// Takes in a report of the transport and queues what it means: every
    /// response gives its amounts, in the order in which the responses
    /// came; every other report ends the negotiation.
    pub fn inject_event(&mut self, event: Event)
        ensures
            final(self).pending() == old(self).pending().push(outcome_of(event)),
            final(self).timeout_secs() == old(self).timeout_secs(),
    {
        let outcome = match event {
            Event::Response(AliceToBob::Amounts(amounts)) => OutEvent::Amounts(amounts),
            Event::OutboundFailure => OutEvent::Aborted(Failure::Unanswered),
            Event::Request => OutEvent::Aborted(Failure::Violation),
            Event::InboundFailure => OutEvent::Aborted(Failure::Violation),
        };
        self.events.push_back(outcome);
    }
}

} // verus!
