//! The checkpointable states of both roles.
//!
//! A state names the position a party has reached in one swap and carries
//! the cryptographic material gathered so far. That material is never read
//! here: it is handed through as it came, so the types are generic in the
//! type `B` that holds it (bytes, in a running node).

use vstd::prelude::*;

verus! {

/// The two amounts fixed at negotiation: satoshis and piconero.
#[derive(Clone, Copy, Debug, PartialEq, Eq, Structural)]
pub struct SwapAmounts {
    pub btc: u64,
    pub xmr: u64,
}

/// How a swap ended for Alice.
#[derive(Clone, Copy, Debug, PartialEq, Eq, Structural)]
pub enum EndState {
    SafelyAborted,
    BtcRedeemed,
    XmrRefunded,
    BtcPunished,
}

/// How a swap ended for Bob.
#[derive(Clone, Copy, Debug, PartialEq, Eq, Structural)]
pub enum BobEndState {
    SafelyAborted,
    XmrRedeemed,
    BtcRefunded,
}

/// Alice's position in a swap.
#[derive(Clone, Debug, PartialEq, Eq)]
pub enum Alice<B> {
    Started { amounts: SwapAmounts, state0: B },
    Negotiated(B),
    BtcLocked(B),
    XmrLocked(B),
    EncSigLearned { state: B, encrypted_signature: B },
    CancelTimelockExpired(B),
    BtcCancelled(B),
    BtcPunishable(B),
    BtcRefunded { state3: B, spend_key: B },
    Done(EndState),
}

/// Bob's position in a swap.
#[derive(Clone, Debug, PartialEq, Eq)]
pub enum Bob<B> {
    Negotiated { state2: B, peer_id: B },
    BtcLocked { state3: B, peer_id: B },
    XmrLocked { state4: B, peer_id: B },
    EncSigSent { state4: B, peer_id: B },
    BtcRedeemed(B),
    CancelTimelockExpired(B),
    BtcCancelled(B),
    Done(BobEndState),
}

/// A persisted swap: one role's state.
#[derive(Clone, Debug, PartialEq, Eq)]
pub enum Swap<B> {
    Alice(Alice<B>),
    Bob(Bob<B>),
}

/// Which party a state belongs to.
#[derive(Clone, Copy, Debug, PartialEq, Eq, Structural)]
pub enum Role {
    Alice,
    Bob,
}

/// What made a party move from one state to the next.
#[derive(Clone, Copy, Debug, PartialEq, Eq, Structural)]
pub enum Trigger {
    /// A transaction of the swap reached the depth that was waited for.
    ChainEvent,
    /// The peer delivered something, valid or not.
    PeerMessage,
    /// A timelock on the Bitcoin chain ran out.
    TimelockExpired,
    /// The peer stayed silent for too long before anything was locked.
    Timeout,
}

impl Trigger {
    /// The trigger's name in log records.
    pub open spec fn name(self) -> Seq<char> {
        match self {
            Trigger::ChainEvent => "chain_event"@,
            Trigger::PeerMessage => "peer_message"@,
            Trigger::TimelockExpired => "timelock_expired"@,
            Trigger::Timeout => "timeout"@,
        }
    }

    /// The trigger's name in log records.
    pub fn as_str(&self) -> (t: &'static str)
        ensures
            t@ == self.name(),
    {
        match self {
            Trigger::ChainEvent => "chain_event",
            Trigger::PeerMessage => "peer_message",
            Trigger::TimelockExpired => "timelock_expired",
            Trigger::Timeout => "timeout",
        }
    }
}

impl Role {
    /// The role's name, as it is persisted and logged.
    pub open spec fn name(self) -> Seq<char> {
        match self {
            Role::Alice => "Alice"@,
            Role::Bob => "Bob"@,
        }
    }

    /// The role's name, as it is persisted and logged.
    pub fn as_str(&self) -> (t: &'static str)
        ensures
            t@ == self.name(),
    {
        match self {
            Role::Alice => "Alice",
            Role::Bob => "Bob",
        }
    }
}

impl EndState {
    /// The variant's name as text.
    pub open spec fn name(self) -> Seq<char> {
        match self {
            EndState::SafelyAborted => "SafelyAborted"@,
            EndState::BtcRedeemed => "BtcRedeemed"@,
            EndState::XmrRefunded => "XmrRefunded"@,
            EndState::BtcPunished => "BtcPunished"@,
        }
    }

    /// The variant's name, as it is persisted.
    pub fn as_str(&self) -> (t: &'static str)
        ensures
            t@ == self.name(),
    {
        match self {
            EndState::SafelyAborted => "SafelyAborted",
            EndState::BtcRedeemed => "BtcRedeemed",
            EndState::XmrRefunded => "XmrRefunded",
            EndState::BtcPunished => "BtcPunished",
        }
    }

    /// The variant's name.
    pub fn to_string(&self) -> (s: String)
        ensures
            s@ == self.name(),
    {
        match self {
            EndState::SafelyAborted => "SafelyAborted".to_owned(),
            EndState::BtcRedeemed => "BtcRedeemed".to_owned(),
            EndState::XmrRefunded => "XmrRefunded".to_owned(),
            EndState::BtcPunished => "BtcPunished".to_owned(),
        }
    }
}

impl BobEndState {
    /// The variant's name as text.
    pub open spec fn name(self) -> Seq<char> {
        match self {
            BobEndState::SafelyAborted => "SafelyAborted"@,
            BobEndState::XmrRedeemed => "XmrRedeemed"@,
            BobEndState::BtcRefunded => "BtcRefunded"@,
        }
    }

    /// The variant's name, as it is persisted.
    pub fn as_str(&self) -> (t: &'static str)
        ensures
            t@ == self.name(),
    {
        match self {
            BobEndState::SafelyAborted => "SafelyAborted",
            BobEndState::XmrRedeemed => "XmrRedeemed",
            BobEndState::BtcRefunded => "BtcRefunded",
        }
    }

    /// The variant's name.
    pub fn to_string(&self) -> (s: String)
        ensures
            s@ == self.name(),
    {
        match self {
            BobEndState::SafelyAborted => "SafelyAborted".to_owned(),
            BobEndState::XmrRedeemed => "XmrRedeemed".to_owned(),
            BobEndState::BtcRefunded => "BtcRefunded".to_owned(),
        }
    }
}

impl<B> Alice<B> {
    /// The state's place in the protocol, from 1 for `Started` to 10 for
    /// `Done`. No transition lowers it.
    pub open spec fn index(self) -> nat {
        match self {
            Alice::Started { .. } => 1,
            Alice::Negotiated(_) => 2,
            Alice::BtcLocked(_) => 3,
            Alice::XmrLocked(_) => 4,
            Alice::EncSigLearned { .. } => 5,
            Alice::CancelTimelockExpired(_) => 6,
            Alice::BtcCancelled(_) => 7,
            Alice::BtcPunishable(_) => 8,
            Alice::BtcRefunded { .. } => 9,
            Alice::Done(_) => 10,
        }
    }

    /// The state's place in the protocol.
    pub fn position(&self) -> (i: u8)
        ensures
            i == self.index(),
    {
        match self {
            Alice::Started { .. } => 1,
            Alice::Negotiated(_) => 2,
            Alice::BtcLocked(_) => 3,
            Alice::XmrLocked(_) => 4,
            Alice::EncSigLearned { .. } => 5,
            Alice::CancelTimelockExpired(_) => 6,
            Alice::BtcCancelled(_) => 7,
            Alice::BtcPunishable(_) => 8,
            Alice::BtcRefunded { .. } => 9,
            Alice::Done(_) => 10,
        }
    }

    /// Whether the swap has concluded.
    pub fn is_done(&self) -> (done: bool)
        ensures
            done == (*self is Done),
    {
        match self {
            Alice::Done(_) => true,
            _ => false,
        }
    }

    /// The stable name under which the variant is persisted and logged.
    pub open spec fn tag_text(self) -> Seq<char> {
        match self {
            Alice::Started { .. } => "Started"@,
            Alice::Negotiated(_) => "Negotiated"@,
            Alice::BtcLocked(_) => "BtcLocked"@,
            Alice::XmrLocked(_) => "XmrLocked"@,
            Alice::EncSigLearned { .. } => "EncSigLearned"@,
            Alice::CancelTimelockExpired(_) => "CancelTimelockExpired"@,
            Alice::BtcCancelled(_) => "BtcCancelled"@,
            Alice::BtcPunishable(_) => "BtcPunishable"@,
            Alice::BtcRefunded { .. } => "BtcRefunded"@,
            Alice::Done(_) => "Done"@,
        }
    }

    /// The stable name under which the variant is persisted and logged.
    pub fn tag(&self) -> (t: &'static str)
        ensures
            t@ == self.tag_text(),
    {
        match self {
            Alice::Started { .. } => "Started",
            Alice::Negotiated(_) => "Negotiated",
            Alice::BtcLocked(_) => "BtcLocked",
            Alice::XmrLocked(_) => "XmrLocked",
            Alice::EncSigLearned { .. } => "EncSigLearned",
            Alice::CancelTimelockExpired(_) => "CancelTimelockExpired",
            Alice::BtcCancelled(_) => "BtcCancelled",
            Alice::BtcPunishable(_) => "BtcPunishable",
            Alice::BtcRefunded { .. } => "BtcRefunded",
            Alice::Done(_) => "Done",
        }
    }

    /// What a person reads about the state.
    pub open spec fn description(self) -> Seq<char> {
        match self {
            Alice::Started { .. } => "Started"@,
            Alice::Negotiated(_) => "Handshake complete"@,
            Alice::BtcLocked(_) => "Bitcoin locked"@,
            Alice::XmrLocked(_) => "Monero locked"@,
            Alice::EncSigLearned { .. } => "Encrypted signature learned"@,
            Alice::CancelTimelockExpired(_) => "Cancel timelock is expired"@,
            Alice::BtcCancelled(_) => "Bitcoin cancel transaction published"@,
            Alice::BtcPunishable(_) => "Bitcoin punishable"@,
            Alice::BtcRefunded { .. } => "Monero refundable"@,
            Alice::Done(EndState::SafelyAborted) => "Done: SafelyAborted"@,
            Alice::Done(EndState::BtcRedeemed) => "Done: BtcRedeemed"@,
            Alice::Done(EndState::XmrRefunded) => "Done: XmrRefunded"@,
            Alice::Done(EndState::BtcPunished) => "Done: BtcPunished"@,
        }
    }

    /// What a person reads about the state.
    pub fn to_string(&self) -> (s: String)
        ensures
            s@ == self.description(),
    {
        match self {
            Alice::Started { .. } => "Started".to_owned(),
            Alice::Negotiated(_) => "Handshake complete".to_owned(),
            Alice::BtcLocked(_) => "Bitcoin locked".to_owned(),
            Alice::XmrLocked(_) => "Monero locked".to_owned(),
            Alice::EncSigLearned { .. } => "Encrypted signature learned".to_owned(),
            Alice::CancelTimelockExpired(_) => "Cancel timelock is expired".to_owned(),
            Alice::BtcCancelled(_) => "Bitcoin cancel transaction published".to_owned(),
            Alice::BtcPunishable(_) => "Bitcoin punishable".to_owned(),
            Alice::BtcRefunded { .. } => "Monero refundable".to_owned(),
            Alice::Done(EndState::SafelyAborted) => "Done: SafelyAborted".to_owned(),
            Alice::Done(EndState::BtcRedeemed) => "Done: BtcRedeemed".to_owned(),
            Alice::Done(EndState::XmrRefunded) => "Done: XmrRefunded".to_owned(),
            Alice::Done(EndState::BtcPunished) => "Done: BtcPunished".to_owned(),
        }
    }
}

impl<B> Bob<B> {
    /// The state's place in the protocol, from 1 for `Negotiated` to 8 for
    /// `Done`. No transition lowers it.
    pub open spec fn index(self) -> nat {
        match self {
            Bob::Negotiated { .. } => 1,
            Bob::BtcLocked { .. } => 2,
            Bob::XmrLocked { .. } => 3,
            Bob::EncSigSent { .. } => 4,
            Bob::BtcRedeemed(_) => 5,
            Bob::CancelTimelockExpired(_) => 6,
            Bob::BtcCancelled(_) => 7,
            Bob::Done(_) => 8,
        }
    }

    /// The state's place in the protocol.
    pub fn position(&self) -> (i: u8)
        ensures
            i == self.index(),
    {
        match self {
            Bob::Negotiated { .. } => 1,
            Bob::BtcLocked { .. } => 2,
            Bob::XmrLocked { .. } => 3,
            Bob::EncSigSent { .. } => 4,
            Bob::BtcRedeemed(_) => 5,
            Bob::CancelTimelockExpired(_) => 6,
            Bob::BtcCancelled(_) => 7,
            Bob::Done(_) => 8,
        }
    }

    /// Whether the swap has concluded.
    pub fn is_done(&self) -> (done: bool)
        ensures
            done == (*self is Done),
    {
        match self {
            Bob::Done(_) => true,
            _ => false,
        }
    }

    /// The stable name under which the variant is persisted and logged.
    pub open spec fn tag_text(self) -> Seq<char> {
        match self {
            Bob::Negotiated { .. } => "Negotiated"@,
            Bob::BtcLocked { .. } => "BtcLocked"@,
            Bob::XmrLocked { .. } => "XmrLocked"@,
            Bob::EncSigSent { .. } => "EncSigSent"@,
            Bob::BtcRedeemed(_) => "BtcRedeemed"@,
            Bob::CancelTimelockExpired(_) => "CancelTimelockExpired"@,
            Bob::BtcCancelled(_) => "BtcCancelled"@,
            Bob::Done(_) => "Done"@,
        }
    }

    /// The stable name under which the variant is persisted and logged.
    pub fn tag(&self) -> (t: &'static str)
        ensures
            t@ == self.tag_text(),
    {
        match self {
            Bob::Negotiated { .. } => "Negotiated",
            Bob::BtcLocked { .. } => "BtcLocked",
            Bob::XmrLocked { .. } => "XmrLocked",
            Bob::EncSigSent { .. } => "EncSigSent",
            Bob::BtcRedeemed(_) => "BtcRedeemed",
            Bob::CancelTimelockExpired(_) => "CancelTimelockExpired",
            Bob::BtcCancelled(_) => "BtcCancelled",
            Bob::Done(_) => "Done",
        }
    }

    /// What a person reads about the state.
    pub open spec fn description(self) -> Seq<char> {
        match self {
            Bob::Negotiated { .. } => "Handshake complete"@,
            Bob::BtcLocked { .. } => "Bitcoin locked"@,
            Bob::XmrLocked { .. } => "Monero locked"@,
            Bob::EncSigSent { .. } => "Encrypted signature sent"@,
            Bob::BtcRedeemed(_) => "Monero redeemable"@,
            Bob::CancelTimelockExpired(_) => "Cancel timelock is expired"@,
            Bob::BtcCancelled(_) => "Bitcoin refundable"@,
            Bob::Done(BobEndState::SafelyAborted) => "Done: SafelyAborted"@,
            Bob::Done(BobEndState::XmrRedeemed) => "Done: XmrRedeemed"@,
            Bob::Done(BobEndState::BtcRefunded) => "Done: BtcRefunded"@,
        }
    }

    /// What a person reads about the state.
    pub fn to_string(&self) -> (s: String)
        ensures
            s@ == self.description(),
    {
        match self {
            Bob::Negotiated { .. } => "Handshake complete".to_owned(),
            Bob::BtcLocked { .. } => "Bitcoin locked".to_owned(),
            Bob::XmrLocked { .. } => "Monero locked".to_owned(),
            Bob::EncSigSent { .. } => "Encrypted signature sent".to_owned(),
            Bob::BtcRedeemed(_) => "Monero redeemable".to_owned(),
            Bob::CancelTimelockExpired(_) => "Cancel timelock is expired".to_owned(),
            Bob::BtcCancelled(_) => "Bitcoin refundable".to_owned(),
            Bob::Done(BobEndState::SafelyAborted) => "Done: SafelyAborted".to_owned(),
            Bob::Done(BobEndState::XmrRedeemed) => "Done: XmrRedeemed".to_owned(),
            Bob::Done(BobEndState::BtcRefunded) => "Done: BtcRefunded".to_owned(),
        }
    }
}

impl<B> Swap<B> {
    /// The party whose state this is.
    pub open spec fn role_of(self) -> Role {
        match self {
            Swap::Alice(_) => Role::Alice,
            Swap::Bob(_) => Role::Bob,
        }
    }

    /// The party whose state this is.
    pub fn role(&self) -> (r: Role)
        ensures
            r == self.role_of(),
    {
        match self {
            Swap::Alice(_) => Role::Alice,
            Swap::Bob(_) => Role::Bob,
        }
    }

    /// Whether the swap has concluded.
    pub open spec fn done(self) -> bool {
        match self {
            Swap::Alice(a) => a is Done,
            Swap::Bob(b) => b is Done,
        }
    }

    /// Whether the swap has concluded.
    pub fn is_done(&self) -> (done: bool)
        ensures
            done == self.done(),
    {
        match self {
            Swap::Alice(a) => a.is_done(),
            Swap::Bob(b) => b.is_done(),
        }
    }

    /// What a person reads about the state: the description of the role's
    /// state.
    pub open spec fn description(self) -> Seq<char> {
        match self {
            Swap::Alice(a) => a.description(),
            Swap::Bob(b) => b.description(),
        }
    }

    /// What a person reads about the state.
    pub fn to_string(&self) -> (s: String)
        ensures
            s@ == self.description(),
    {
        match self {
            Swap::Alice(a) => a.to_string(),
            Swap::Bob(b) => b.to_string(),
        }
    }
}

impl<B> From<Alice<B>> for Swap<B> {
    fn from(from: Alice<B>) -> (swap: Self) {
        Swap::Alice(from)
    }
}

impl<B> vstd::std_specs::convert::FromSpecImpl<Alice<B>> for Swap<B> {
    open spec fn obeys_from_spec() -> bool {
        true
    }

    open spec fn from_spec(from: Alice<B>) -> Self {
        Swap::Alice(from)
    }
}

impl<B> From<Bob<B>> for Swap<B> {
    fn from(from: Bob<B>) -> (swap: Self) {
        Swap::Bob(from)
    }
}

impl<B> vstd::std_specs::convert::FromSpecImpl<Bob<B>> for Swap<B> {
    open spec fn obeys_from_spec() -> bool {
        true
    }

    open spec fn from_spec(from: Bob<B>) -> Self {
        Swap::Bob(from)
    }
}

} // verus!
