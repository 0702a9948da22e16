//! Per-network constants: confirmations, timelocks and timeouts.

use crate::chain::{CancelTimelock, PunishTimelock};
use vstd::prelude::*;

verus! {

/// The Bitcoin network a swap runs on.
#[derive(Clone, Copy, Debug, PartialEq, Eq, Structural)]
pub enum BitcoinNetwork {
    Bitcoin,
    Testnet,
    Regtest,
}

/// The Monero network a swap runs on.
#[derive(Clone, Copy, Debug, PartialEq, Eq, Structural)]
pub enum MoneroNetwork {
    Mainnet,
    Stagenet,
    Testnet,
}

/// The constants that govern one swap. Durations are whole seconds.
#[derive(Clone, Copy, Debug, PartialEq, Eq, Structural)]
pub struct ExecutionParams {
    /// How long Bob may take before Alice considers the negotiation stale.
    pub bob_time_to_act: u64,
    pub bitcoin_finality_confirmations: u32,
    pub bitcoin_avg_block_time: u64,
    pub bitcoin_cancel_timelock: CancelTimelock,
    pub bitcoin_punish_timelock: PunishTimelock,
    pub bitcoin_network: BitcoinNetwork,
    pub monero_avg_block_time: u64,
    pub monero_finality_confirmations: u32,
    pub monero_network: MoneroNetwork,
}

impl ExecutionParams {
    /// Both timelocks are positive and a transaction needs at least one
    /// confirmation to count as final.
    pub open spec fn well_formed(self) -> bool {
        &&& 0 < self.bitcoin_cancel_timelock.blocks
        &&& 0 < self.bitcoin_punish_timelock.blocks
        &&& 0 < self.bitcoin_finality_confirmations
        &&& 0 < self.monero_finality_confirmations
    }

    /// Tells whether the record can govern a swap.
    pub fn is_well_formed(&self) -> (ok: bool)
        ensures
            ok == self.well_formed(),
    {
        self.bitcoin_cancel_timelock.blocks > 0 && self.bitcoin_punish_timelock.blocks > 0
            && self.bitcoin_finality_confirmations > 0 && self.monero_finality_confirmations > 0
    }
}

/// `time::NumericalStdDurationShort::minutes` on a `u32`, read back in whole
/// seconds. The `time` crate builds the duration from `n * 60` seconds,
/// computed in `u64`, which cannot overflow for a `u32`.
#[verifier::external_body]
fn minutes(n: u32) -> (secs: u64)
    ensures
        secs == n * 60,
{
    time::NumericalStdDurationShort::minutes(n).as_secs()
}

/// `time::NumericalStdDurationShort::seconds` on a `u32`, read back in whole
/// seconds. The `time` crate builds the duration from `n` seconds.
#[verifier::external_body]
fn seconds(n: u32) -> (secs: u64)
    ensures
        secs == n,
{
    time::NumericalStdDurationShort::seconds(n).as_secs()
}

/// A network's canonical parameters.
pub trait GetExecutionParams {
    fn get_execution_params() -> (params: ExecutionParams)
        ensures
            params.well_formed(),
    ;
}

#[derive(Clone, Copy)]
pub struct Mainnet;

#[derive(Clone, Copy)]
pub struct Testnet;

#[derive(Clone, Copy)]
pub struct Regtest;

/// The parameters of a swap on the main networks.
pub open spec fn mainnet_params() -> ExecutionParams {
    ExecutionParams {
        bob_time_to_act: 600,
        bitcoin_finality_confirmations: 3,
        bitcoin_avg_block_time: 600,
        bitcoin_cancel_timelock: CancelTimelock { blocks: 72 },
        bitcoin_punish_timelock: PunishTimelock { blocks: 72 },
        bitcoin_network: BitcoinNetwork::Bitcoin,
        monero_avg_block_time: 120,
        monero_finality_confirmations: 15,
        monero_network: MoneroNetwork::Mainnet,
    }
}

/// The parameters of a swap on the public test networks.
pub open spec fn testnet_params() -> ExecutionParams {
    ExecutionParams {
        bob_time_to_act: 3600,
        bitcoin_finality_confirmations: 1,
        bitcoin_avg_block_time: 300,
        bitcoin_cancel_timelock: CancelTimelock { blocks: 12 },
        bitcoin_punish_timelock: PunishTimelock { blocks: 6 },
        bitcoin_network: BitcoinNetwork::Testnet,
        monero_avg_block_time: 120,
        monero_finality_confirmations: 10,
        monero_network: MoneroNetwork::Stagenet,
    }
}

/// The parameters of a swap on local regression-test networks.
pub open spec fn regtest_params() -> ExecutionParams {
    ExecutionParams {
        bob_time_to_act: 30,
        bitcoin_finality_confirmations: 1,
        bitcoin_avg_block_time: 5,
        bitcoin_cancel_timelock: CancelTimelock { blocks: 100 },
        bitcoin_punish_timelock: PunishTimelock { blocks: 50 },
        bitcoin_network: BitcoinNetwork::Regtest,
        monero_avg_block_time: 1,
        monero_finality_confirmations: 10,
        monero_network: MoneroNetwork::Testnet,
    }
}

impl GetExecutionParams for Mainnet {
    fn get_execution_params() -> (params: ExecutionParams)
        ensures
            params == mainnet_params(),
    {
        ExecutionParams {
            bob_time_to_act: minutes(10),
            bitcoin_finality_confirmations: 3,
            bitcoin_avg_block_time: minutes(10),
            bitcoin_cancel_timelock: CancelTimelock::new(72),
            bitcoin_punish_timelock: PunishTimelock::new(72),
            bitcoin_network: BitcoinNetwork::Bitcoin,
            monero_avg_block_time: minutes(2),
            monero_finality_confirmations: 15,
            monero_network: MoneroNetwork::Mainnet,
        }
    }
}

impl GetExecutionParams for Testnet {
    fn get_execution_params() -> (params: ExecutionParams)
        ensures
            params == testnet_params(),
    {
        ExecutionParams {
            bob_time_to_act: minutes(60),
            bitcoin_finality_confirmations: 1,
            bitcoin_avg_block_time: minutes(5),
            bitcoin_cancel_timelock: CancelTimelock::new(12),
            bitcoin_punish_timelock: PunishTimelock::new(6),
            bitcoin_network: BitcoinNetwork::Testnet,
            monero_avg_block_time: minutes(2),
            monero_finality_confirmations: 10,
            monero_network: MoneroNetwork::Stagenet,
        }
    }
}

impl GetExecutionParams for Regtest {
    fn get_execution_params() -> (params: ExecutionParams)
        ensures
            params == regtest_params(),
    {
        ExecutionParams {
            bob_time_to_act: seconds(30),
            bitcoin_finality_confirmations: 1,
            bitcoin_avg_block_time: seconds(5),
            bitcoin_cancel_timelock: CancelTimelock::new(100),
            bitcoin_punish_timelock: PunishTimelock::new(50),
            bitcoin_network: BitcoinNetwork::Regtest,
            monero_avg_block_time: seconds(1),
            monero_finality_confirmations: 10,
            monero_network: MoneroNetwork::Testnet,
        }
    }
}

} // verus!
