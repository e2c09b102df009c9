//! What the contract keeps in storage.
use vstd::prelude::*;

verus! {

/// The house: its parameters, its capital and the seed of its draws.
#[derive(Clone, Debug, PartialEq, Eq)]
pub struct Casino {
    pub founder: String,
    pub name: String,
    pub description: String,
    pub min_bet_amount: u128,
    /// How much of the capital one payout may take, in millionths.
    pub max_bet_rate: u64,
    /// Taken off the multiplier of every bet, in millionths.
    pub house_fee: u64,
    pub founder_commission_rate: u64,
    pub capital: u128,
    pub bet_cumulative_amount: u128,
    pub seed: Vec<u8>,
}

/// A settled bet.
#[derive(Clone, Debug, PartialEq, Eq)]
pub struct Result {
    pub owner: String,
    pub prediction_number: u64,
    pub lucky_number: u64,
    pub win_results: bool,
    pub position: String,
    pub bet_amount: u128,
    pub payout: u128,
}

/// A member of the staking pool. `ownership_percentage` is the member's
/// share of the capital in hundred-millionths (100000000 is the whole).
#[derive(Clone, Debug, PartialEq, Eq)]
pub struct StakeInfo {
    pub address: String,
    pub begin_amount: u128,
    pub ownership_percentage: u128,
}

/// The last bet of one player, kept under the player's canonical address.
#[derive(Clone, Debug, PartialEq, Eq)]
pub struct Room {
    pub start_time: u64,
    pub entropy: Vec<u8>,
    pub prediction_number: u64,
    pub lucky_number: u64,
    pub position: String,
    pub results: bool,
    pub payout: u128,
    pub bet_amount: u128,
}

/// The contract's storage apart from the rooms: the house, the staking pool
/// and the list of settled bets.
#[derive(Clone, Debug, PartialEq, Eq)]
pub struct CasinoState {
    pub casino: Casino,
    pub stakes: Vec<StakeInfo>,
    pub results: Vec<Result>,
}

} // verus!
