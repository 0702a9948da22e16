//! Driving a swap from its stored snapshot.
//!
//! The orchestrator owns no state of its own: it reads the snapshot of a
//! swap from the store, lets the role's driver decide on what was seen,
//! writes the new snapshot before anything else happens, and reports the
//! transition. A crash at any point therefore resumes from the last state
//! that was reached.

use crate::alice;
use crate::bob;
use crate::codec::{
    decode_spec, encode_alice_snapshot, encode_bob_snapshot, encode_spec,
    lemma_encoding_is_canonical,
};
use crate::database::{Database, ReadError, SwapId};
use crate::execution_params::ExecutionParams;
use crate::state::{Alice, Bob, Role, Swap, Trigger};
use vstd::arithmetic::power2::{
    lemma2_to64, lemma_pow2_pos, lemma_pow2_strictly_increases, lemma_pow2_unfold, pow2,
};
use vstd::prelude::*;

verus! {

/// Why the orchestrator refuses to work on a swap.
#[derive(Clone, Copy, Debug, PartialEq, Eq, Structural)]
pub enum Error {
    /// Nothing is stored under the identifier.
    UnknownSwap,
    /// What is stored under the identifier is no snapshot.
    CorruptSnapshot,
    /// The stored state belongs to the other role.
    UnexpectedState,
    /// The identifier is taken by another swap.
    IdInUse,
}

/// One line of the transition log.
#[derive(Clone, Copy, Debug, PartialEq, Eq)]
pub struct TransitionRecord {
    pub swap_id: SwapId,
    pub role: Role,
    /// Tag of the state that was left.
    pub previous: &'static str,
    /// Tag of the state that was reached.
    pub next: &'static str,
    pub trigger: Trigger,
}

/// Alice's state as stored under `id`, or why there is none to work on.
pub open spec fn stored_alice(stored: Map<u128, Seq<u8>>, id: u128) -> Result<
    Alice<Seq<u8>>,
    Error,
> {
    if !stored.dom().contains(id) {
        Err(Error::UnknownSwap)
    } else {
        match decode_spec(stored[id]) {
            Some(Swap::Alice(state)) => Ok(state),
            Some(Swap::Bob(_)) => Err(Error::UnexpectedState),
            None => Err(Error::CorruptSnapshot),
        }
    }
}

/// Bob's state as stored under `id`, or why there is none to work on.
pub open spec fn stored_bob(stored: Map<u128, Seq<u8>>, id: u128) -> Result<Bob<Seq<u8>>, Error> {
    if !stored.dom().contains(id) {
        Err(Error::UnknownSwap)
    } else {
        match decode_spec(stored[id]) {
            Some(Swap::Bob(state)) => Ok(state),
            Some(Swap::Alice(_)) => Err(Error::UnexpectedState),
            None => Err(Error::CorruptSnapshot),
        }
    }
}

/// The record tells of swap `id` in `role` what the log entry says.
pub open spec fn record_matches(
    record: TransitionRecord,
    id: SwapId,
    role: Role,
    entry: (Seq<char>, Seq<char>, Trigger),
) -> bool {
    &&& record.swap_id == id
    &&& record.role == role
    &&& record.previous@ == entry.0
    &&& record.next@ == entry.1
    &&& record.trigger == entry.2
}

/// The records tell of swap `id` in `role` what the log says, line by line.
pub open spec fn records_match(
    records: Seq<TransitionRecord>,
    id: SwapId,
    role: Role,
    log: Seq<(Seq<char>, Seq<char>, Trigger)>,
) -> bool {
    &&& records.len() == log.len()
    &&& forall|i: int|
        0 <= i < records.len() ==> record_matches(#[trigger] records[i], id, role, log[i])
}

/// Stores the first snapshot of a new swap under an identifier that the
/// caller has drawn. Refuses an identifier that is taken, so that no swap
/// is ever overwritten by another.
pub fn create(db: &mut Database, id: SwapId, swap: &Swap<Vec<u8>>) -> (created: Result<(), Error>)
    ensures
        old(db)@.dom().contains(id.0) ==> created == Err::<(), Error>(Error::IdInUse),
        old(db)@.dom().contains(id.0) ==> final(db)@ == old(db)@,
        !old(db)@.dom().contains(id.0) ==> created is Ok,
        !old(db)@.dom().contains(id.0) ==> final(db)@ == old(db)@.insert(id.0, encode_spec(swap@)),
{
    if db.contains(id) {
        Err(Error::IdInUse)
    } else {
        db.put(id, swap);
        Ok(())
    }
}

/// Reads Alice's state of swap `id`.
pub fn load_alice(db: &Database, id: SwapId) -> (loaded: Result<Alice<Vec<u8>>, Error>)
    ensures
        match loaded {
            Ok(state) => stored_alice(db@, id.0) == Ok::<Alice<Seq<u8>>, Error>(state@),
            Err(error) => stored_alice(db@, id.0) == Err::<Alice<Seq<u8>>, Error>(error),
        },
{
    match db.get(id) {
        Ok(Swap::Alice(state)) => Ok(state),
        Ok(Swap::Bob(_)) => Err(Error::UnexpectedState),
        Err(ReadError::NotFound) => Err(Error::UnknownSwap),
        Err(ReadError::Corrupt) => Err(Error::CorruptSnapshot),
    }
}

/// Reads Bob's state of swap `id`.
pub fn load_bob(db: &Database, id: SwapId) -> (loaded: Result<Bob<Vec<u8>>, Error>)
    ensures
        match loaded {
            Ok(state) => stored_bob(db@, id.0) == Ok::<Bob<Seq<u8>>, Error>(state@),
            Err(error) => stored_bob(db@, id.0) == Err::<Bob<Seq<u8>>, Error>(error),
        },
{
    match db.get(id) {
        Ok(Swap::Bob(state)) => Ok(state),
        Ok(Swap::Alice(_)) => Err(Error::UnexpectedState),
        Err(ReadError::NotFound) => Err(Error::UnknownSwap),
        Err(ReadError::Corrupt) => Err(Error::CorruptSnapshot),
    }
}

/// Takes Alice's swap `id` one step further on what was seen: when the
/// step moves, the new state is stored and the transition is reported;
/// when it does not, nothing is written.
pub fn advance_alice(
    db: &mut Database,
    id: SwapId,
    seen: alice::Observation<Vec<u8>>,
    params: &ExecutionParams,
) -> (advanced: Result<Option<TransitionRecord>, Error>)
    ensures
        match stored_alice(old(db)@, id.0) {
            Err(error) => {
                &&& advanced == Err::<Option<TransitionRecord>, Error>(error)
                &&& final(db)@ == old(db)@
            },
            Ok(state) => {
                let step = alice::step_spec(state, seen@, *params);
                match step.trigger {
                    None => {
                        &&& advanced == Ok::<Option<TransitionRecord>, Error>(None)
                        &&& final(db)@ == old(db)@
                    },
                    Some(trigger) => {
                        &&& final(db)@ == old(db)@.insert(
                            id.0,
                            encode_spec(Swap::Alice(step.state)),
                        )
                        &&& advanced matches Ok(Some(record))
                        &&& record_matches(
                            record,
                            id,
                            Role::Alice,
                            (state.tag_text(), step.state.tag_text(), trigger),
                        )
                    },
                }
            },
        },
{
    let state = match load_alice(db, id) {
        Ok(state) => state,
        Err(error) => {
            return Err(error);
        },
    };
    let previous = state.tag();
    proof {
        alice::lemma_step_respects_views(state, seen, *params);
    }
    let step = alice::step(state, seen, params);
    proof {
        alice::lemma_step_respects_views(step.state, seen, *params);
    }
    match step.trigger {
        Some(trigger) => {
            let next = step.state.tag();
            db.import(id, encode_alice_snapshot(&step.state));
            Ok(Some(TransitionRecord { swap_id: id, role: Role::Alice, previous, next, trigger }))
        },
        None => Ok(None),
    }
}

/// Takes Bob's swap `id` one step further on what was seen: when the step
/// moves, the new state is stored and the transition is reported; when it
/// does not, nothing is written.
pub fn advance_bob(
    db: &mut Database,
    id: SwapId,
    seen: bob::Observation<Vec<u8>>,
    params: &ExecutionParams,
) -> (advanced: Result<Option<TransitionRecord>, Error>)
    ensures
        match stored_bob(old(db)@, id.0) {
            Err(error) => {
                &&& advanced == Err::<Option<TransitionRecord>, Error>(error)
                &&& final(db)@ == old(db)@
            },
            Ok(state) => {
                let step = bob::step_spec(state, seen@, *params);
                match step.trigger {
                    None => {
                        &&& advanced == Ok::<Option<TransitionRecord>, Error>(None)
                        &&& final(db)@ == old(db)@
                    },
                    Some(trigger) => {
                        &&& final(db)@ == old(db)@.insert(id.0, encode_spec(Swap::Bob(step.state)))
                        &&& advanced matches Ok(Some(record))
                        &&& record_matches(
                            record,
                            id,
                            Role::Bob,
                            (state.tag_text(), step.state.tag_text(), trigger),
                        )
                    },
                }
            },
        },
{
    let state = match load_bob(db, id) {
        Ok(state) => state,
        Err(error) => {
            return Err(error);
        },
    };
    let previous = state.tag();
    proof {
        bob::lemma_step_respects_views(state, seen, *params);
    }
    let step = bob::step(state, seen, params);
    proof {
        bob::lemma_step_respects_views(step.state, seen, *params);
    }
    match step.trigger {
        Some(trigger) => {
            let next = step.state.tag();
            db.import(id, encode_bob_snapshot(&step.state));
            Ok(Some(TransitionRecord { swap_id: id, role: Role::Bob, previous, next, trigger }))
        },
        None => Ok(None),
    }
}

/// Drives Alice's swap `id` through a sequence of observations, taken in
/// order: each state that is reached is stored before the next observation
/// is looked at, and each transition is reported. What is stored in the
/// end is the state that the driver reaches on these observations; the
/// other swaps in the store are left alone.
pub fn run_alice(
    db: &mut Database,
    id: SwapId,
    observations: Vec<alice::Observation<Vec<u8>>>,
    params: &ExecutionParams,
) -> (ran: Result<Vec<TransitionRecord>, Error>)
    ensures
        match stored_alice(old(db)@, id.0) {
            Err(error) => {
                &&& ran == Err::<Vec<TransitionRecord>, Error>(error)
                &&& final(db)@ == old(db)@
            },
            Ok(state) => {
                let seen = alice::views(observations@);
                &&& ran is Ok
                &&& final(db)@ == old(db)@.insert(
                    id.0,
                    encode_spec(Swap::Alice(alice::run_spec(state, seen, *params))),
                )
                &&& records_match(
                    ran->Ok_0@,
                    id,
                    Role::Alice,
                    alice::log_spec(state, seen, *params),
                )
            },
        },
{
    let start = match load_alice(db, id) {
        Ok(state) => state,
        Err(error) => {
            return Err(error);
        },
    };
    proof {
        lemma_encoding_is_canonical(db@[id.0]);
        assert(db@ =~= db@.insert(id.0, encode_spec(Swap::Alice(start@))));
    }
    let ghost first = start;
    let mut state = start;
    let mut records: Vec<TransitionRecord> = Vec::new();
    for seen in it: observations
        invariant
            it.seq() == observations@,
            state == alice::run_spec(first, observations@.take(it.index() as int), *params),
            records_match(
                records@,
                id,
                Role::Alice,
                alice::log_spec(first, observations@.take(it.index() as int), *params),
            ),
            db@ == old(db)@.insert(id.0, encode_spec(Swap::Alice(state@))),
    {
        let ghost done = observations@.take(it.index() as int);
        let ghost now = observations@.take(it.index() + 1);
        proof {
            assert(now.drop_last() =~= done);
            assert(now.last() == seen);
        }
        let previous = state.tag();
        let step = alice::step(state, seen, params);
        match step.trigger {
            Some(trigger) => {
                let next = step.state.tag();
                db.import(id, encode_alice_snapshot(&step.state));
                assert(db@ =~= old(db)@.insert(id.0, encode_spec(Swap::Alice(step.state@))));
                records.push(
                    TransitionRecord { swap_id: id, role: Role::Alice, previous, next, trigger },
                );
            },
            None => {},
        }
        state = step.state;
    }
    proof {
        assert(observations@.take(observations@.len() as int) =~= observations@);
        alice::lemma_run_respects_views(first, observations@, *params);
    }
    Ok(records)
}

/// Drives Bob's swap `id` through a sequence of observations, taken in
/// order: each state that is reached is stored before the next observation
/// is looked at, and each transition is reported. What is stored in the
/// end is the state that the driver reaches on these observations; the
/// other swaps in the store are left alone.
pub fn run_bob(
    db: &mut Database,
    id: SwapId,
    observations: Vec<bob::Observation<Vec<u8>>>,
    params: &ExecutionParams,
) -> (ran: Result<Vec<TransitionRecord>, Error>)
    ensures
        match stored_bob(old(db)@, id.0) {
            Err(error) => {
                &&& ran == Err::<Vec<TransitionRecord>, Error>(error)
                &&& final(db)@ == old(db)@
            },
            Ok(state) => {
                let seen = bob::views(observations@);
                &&& ran is Ok
                &&& final(db)@ == old(db)@.insert(
                    id.0,
                    encode_spec(Swap::Bob(bob::run_spec(state, seen, *params))),
                )
                &&& records_match(
                    ran->Ok_0@,
                    id,
                    Role::Bob,
                    bob::log_spec(state, seen, *params),
                )
            },
        },
{
    let start = match load_bob(db, id) {
        Ok(state) => state,
        Err(error) => {
            return Err(error);
        },
    };
    proof {
        lemma_encoding_is_canonical(db@[id.0]);
        assert(db@ =~= db@.insert(id.0, encode_spec(Swap::Bob(start@))));
    }
    let ghost first = start;
    let mut state = start;
    let mut records: Vec<TransitionRecord> = Vec::new();
    for seen in it: observations
        invariant
            it.seq() == observations@,
            state == bob::run_spec(first, observations@.take(it.index() as int), *params),
            records_match(
                records@,
                id,
                Role::Bob,
                bob::log_spec(first, observations@.take(it.index() as int), *params),
            ),
            db@ == old(db)@.insert(id.0, encode_spec(Swap::Bob(state@))),
    {
        let ghost done = observations@.take(it.index() as int);
        let ghost now = observations@.take(it.index() + 1);
        proof {
            assert(now.drop_last() =~= done);
            assert(now.last() == seen);
        }
        let previous = state.tag();
        let step = bob::step(state, seen, params);
        match step.trigger {
            Some(trigger) => {
                let next = step.state.tag();
                db.import(id, encode_bob_snapshot(&step.state));
                assert(db@ =~= old(db)@.insert(id.0, encode_spec(Swap::Bob(step.state@))));
                records.push(
                    TransitionRecord { swap_id: id, role: Role::Bob, previous, next, trigger },
                );
            },
            None => {},
        }
        state = step.state;
    }
    proof {
        assert(observations@.take(observations@.len() as int) =~= observations@);
        bob::lemma_run_respects_views(first, observations@, *params);
    }
    Ok(records)
}

/// Seconds to wait before retrying after `failures` failures in a row of a
/// call to a chain: one second at first, doubled with each further
/// failure, and never more than the average time between two Bitcoin
/// blocks.
pub open spec fn retry_delay_spec(failures: u32, params: ExecutionParams) -> u64 {
    if pow2(failures as nat) <= params.bitcoin_avg_block_time {
        pow2(failures as nat) as u64
    } else {
        params.bitcoin_avg_block_time
    }
}

/// Seconds to wait before retrying after `failures` failures in a row.
pub fn retry_delay(failures: u32, params: &ExecutionParams) -> (delay: u64)
    ensures
        delay == retry_delay_spec(failures, *params),
{
    let cap: u64 = params.bitcoin_avg_block_time;
    proof {
        lemma2_to64();
        lemma_pow2_pos(failures as nat);
    }
    if cap == 0 {
        return cap;
    }
    let mut delay: u64 = 1;
    let mut doubled: u32 = 0;
    while doubled < failures
        invariant
            doubled <= failures,
            delay == pow2(doubled as nat),
            delay <= cap,
            cap == params.bitcoin_avg_block_time,
        decreases failures - doubled,
    {
        proof {
            lemma_pow2_unfold((doubled + 1) as nat);
        }
        if delay > cap - delay {
            proof {
                if doubled + 1 < failures {
                    lemma_pow2_strictly_increases((doubled + 1) as nat, failures as nat);
                }
            }
            return cap;
        }
        delay = delay * 2;
        doubled = doubled + 1;
    }
    delay
}

} // verus!
