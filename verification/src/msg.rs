//! The messages the contract accepts and the answers to its queries.
use vstd::prelude::*;
use crate::state::{Casino, StakeInfo};

verus! {

#[derive(Clone, Debug, PartialEq, Eq)]
pub enum InitMsg {
    CreateCasino {
        name: String,
        description: String,
        min_bet_amount: u128,
        max_bet_rate: u64,
        house_fee: u64,
        founder_commission_rate: u64,
        seed: String,
    },
}

#[derive(Clone, Debug, PartialEq, Eq)]
pub enum HandleMsg {
    TryCapitalDeposit {},
    TryCapitalWithdraw {},
    Ruler { phrase: String, prediction_number: u64, position: String, bet_amount: u128 },
}

#[derive(Clone, Debug, PartialEq, Eq)]
pub enum QueryMsg {
    GetCasinoStakeInfo {},
    GetCasinoInfo {},
    GetStakeInfo {},
    Getmystate { address: String },
}

/// A player's last bet, as a query answers it.
#[derive(Clone, Debug, PartialEq, Eq)]
pub struct RoomStateResponse {
    pub start_time: u64,
    pub entropy: Vec<u8>,
    pub prediction_number: u64,
    pub lucky_number: u64,
    pub position: String,
    pub results: bool,
    pub payout: u64,
    pub bet_amount: u64,
}

#[derive(Clone, Debug, PartialEq, Eq)]
pub struct CasinoResponse {
    pub casino: Casino,
}

#[derive(Clone, Debug, PartialEq, Eq)]
pub struct StakeResponse {
    pub stake: Vec<StakeInfo>,
}

#[derive(Clone, Debug, PartialEq, Eq)]
pub struct CasinoStakeResponse {
    pub casino: Casino,
    pub stake: Vec<StakeInfo>,
}

/// The answer to a query, before it is encoded.
#[derive(Clone, Debug, PartialEq, Eq)]
pub enum QueryAnswer {
    CasinoStake(CasinoStakeResponse),
    Casino(CasinoResponse),
    Stake(StakeResponse),
    RoomState(RoomStateResponse),
}

} // verus!
