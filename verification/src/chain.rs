//! The Bitcoin chain as the protocol sees it: block heights, confirmations
//! and the two relative timelocks.
//!
//! Four transactions matter. The lock transaction pays Bob's coins into an
//! output that either the redeem or the cancel transaction spends; the
//! cancel transaction's output is spent by either the refund or the punish
//! transaction. Cancel and punish carry relative timelocks that the Bitcoin
//! script enforces.

use vstd::prelude::*;

verus! {

/// Number of blocks after the lock transaction's confirmation from which
/// the cancel transaction can be published.
#[derive(Clone, Copy, Debug, PartialEq, Eq, Structural)]
pub struct CancelTimelock {
    pub blocks: u32,
}

/// Number of blocks after the cancel transaction's confirmation from which
/// Alice can publish the punish transaction.
#[derive(Clone, Copy, Debug, PartialEq, Eq, Structural)]
pub struct PunishTimelock {
    pub blocks: u32,
}

impl CancelTimelock {
    pub fn new(blocks: u32) -> (t: Self)
        ensures
            t.blocks == blocks,
    {
        CancelTimelock { blocks }
    }
}

impl PunishTimelock {
    pub fn new(blocks: u32) -> (t: Self)
        ensures
            t.blocks == blocks,
    {
        PunishTimelock { blocks }
    }
}

/// The confirmations of a transaction included at `height`, seen from a
/// chain whose tip is at `tip`: the including block counts as the first.
/// A transaction that is not included has none.
pub open spec fn confirmations(tip: u32, height: Option<u32>) -> nat {
    match height {
        Some(h) => if h <= tip {
            (tip - h + 1) as nat
        } else {
            0
        },
        None => 0,
    }
}

/// Whether a relative timelock of `blocks` blocks, counted from the block
/// at `since`, has run out at `tip`.
pub open spec fn timelock_expired(tip: u32, since: Option<u32>, blocks: u32) -> bool {
    match since {
        Some(h) => h <= tip && tip - h >= blocks,
        None => false,
    }
}

/// Whether the transaction included at `height` has at least `wanted`
/// confirmations at `tip`.
pub fn has_confirmations(tip: u32, height: Option<u32>, wanted: u32) -> (reached: bool)
    ensures
        reached == (confirmations(tip, height) >= wanted),
{
    match height {
        Some(h) => {
            if h <= tip {
                let depth: u32 = tip - h;
                wanted == 0 || depth >= wanted - 1
            } else {
                wanted == 0
            }
        },
        None => wanted == 0,
    }
}

/// Whether a relative timelock of `blocks` blocks, counted from the block
/// at `since`, has run out at `tip`.
pub fn is_timelock_expired(tip: u32, since: Option<u32>, blocks: u32) -> (expired: bool)
    ensures
        expired == timelock_expired(tip, since, blocks),
{
    match since {
        Some(h) => h <= tip && tip - h >= blocks,
        None => false,
    }
}

/// What one look at the Bitcoin chain shows of a swap: the height of the
/// tip and, for each of the swap's transactions that is included in the
/// chain, the height of the block that includes it.
#[derive(Clone, Copy, Debug, PartialEq, Eq)]
pub struct BtcView {
    pub tip: u32,
    pub lock: Option<u32>,
    pub redeem: Option<u32>,
    pub cancel: Option<u32>,
    pub refund: Option<u32>,
    pub punish: Option<u32>,
}

/// `child` spends an output of `parent`: it is included only if the parent
/// is, no lower than the parent and no lower than `delay` blocks above it.
pub open spec fn spends_after(child: Option<u32>, parent: Option<u32>, delay: u32) -> bool {
    match child {
        Some(c) => match parent {
            Some(p) => c >= p + delay,
            None => false,
        },
        None => true,
    }
}

/// Not above the tip.
pub open spec fn within(tip: u32, height: Option<u32>) -> bool {
    match height {
        Some(h) => h <= tip,
        None => true,
    }
}

impl BtcView {
    /// A view in which no transaction of the swap is included yet.
    pub open spec fn empty_at(tip: u32) -> BtcView {
        BtcView { tip, lock: None, redeem: None, cancel: None, refund: None, punish: None }
    }

    /// What every view of a valid chain satisfies. Nothing lies above the
    /// tip; an output is spent once, so redeem excludes cancel and refund
    /// excludes punish; a transaction follows the one it spends; cancel and
    /// punish respect their timelocks.
    pub open spec fn consistent(self, t1: CancelTimelock, t2: PunishTimelock) -> bool {
        &&& within(self.tip, self.lock)
        &&& within(self.tip, self.redeem)
        &&& within(self.tip, self.cancel)
        &&& within(self.tip, self.refund)
        &&& within(self.tip, self.punish)
        &&& spends_after(self.redeem, self.lock, 0)
        &&& spends_after(self.cancel, self.lock, t1.blocks)
        &&& spends_after(self.refund, self.cancel, 0)
        &&& spends_after(self.punish, self.cancel, t2.blocks)
        &&& !(self.redeem is Some && self.cancel is Some)
        &&& !(self.refund is Some && self.punish is Some)
    }

    /// `self` shows the same chain as `earlier` at the same or a later
    /// moment: the tip is no lower and what was included stays where it was.
    pub open spec fn extends(self, earlier: BtcView) -> bool {
        &&& self.tip >= earlier.tip
        &&& (earlier.lock is Some ==> self.lock == earlier.lock)
        &&& (earlier.redeem is Some ==> self.redeem == earlier.redeem)
        &&& (earlier.cancel is Some ==> self.cancel == earlier.cancel)
        &&& (earlier.refund is Some ==> self.refund == earlier.refund)
        &&& (earlier.punish is Some ==> self.punish == earlier.punish)
    }

    /// A view of a chain without any of the swap's transactions.
    pub fn new(tip: u32) -> (view: BtcView)
        ensures
            view == BtcView::empty_at(tip),
    {
        BtcView { tip, lock: None, redeem: None, cancel: None, refund: None, punish: None }
    }

    /// Whether a valid chain can look like this.
    pub fn is_consistent(&self, t1: CancelTimelock, t2: PunishTimelock) -> (ok: bool)
        ensures
            ok == self.consistent(t1, t2),
    {
        is_within(self.tip, self.lock) && is_within(self.tip, self.redeem) && is_within(
            self.tip,
            self.cancel,
        ) && is_within(self.tip, self.refund) && is_within(self.tip, self.punish)
            && is_spent_after(self.redeem, self.lock, 0) && is_spent_after(
            self.cancel,
            self.lock,
            t1.blocks,
        ) && is_spent_after(self.refund, self.cancel, 0) && is_spent_after(
            self.punish,
            self.cancel,
            t2.blocks,
        ) && !(self.redeem.is_some() && self.cancel.is_some()) && !(self.refund.is_some()
            && self.punish.is_some())
    }
}

fn is_within(tip: u32, height: Option<u32>) -> (ok: bool)
    ensures
        ok == within(tip, height),
{
    match height {
        Some(h) => h <= tip,
        None => true,
    }
}

fn is_spent_after(child: Option<u32>, parent: Option<u32>, delay: u32) -> (ok: bool)
    ensures
        ok == spends_after(child, parent, delay),
{
    match child {
        Some(c) => match parent {
            Some(p) => c >= p && c - p >= delay,
            None => false,
        },
        None => true,
    }
}

/// Under a valid chain's rules, the punish transaction's timelock runs out
/// no earlier than both timelocks after the lock transaction's block.
pub proof fn lemma_punish_follows_both_timelocks(
    view: BtcView,
    t1: CancelTimelock,
    t2: PunishTimelock,
)
    requires
        view.consistent(t1, t2),
        timelock_expired(view.tip, view.cancel, t2.blocks),
    ensures
        view.lock is Some,
        view.tip >= view.lock->0 + t1.blocks + t2.blocks,
{
}

} // verus!
