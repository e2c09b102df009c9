//! The chain-side values the contract reads and produces: coins, the
//! execution environment, outgoing messages, responses and errors.
use vstd::prelude::*;

verus! {

/// The denomination in which bets, deposits and payouts are made.
pub open spec fn uscrt_word() -> Seq<char> {
    seq!['u', 's', 'c', 'r', 't']
}

/// An amount of one denomination.
#[derive(Clone, Debug, PartialEq, Eq)]
pub struct Coin {
    pub denom: String,
    pub amount: u128,
}

#[derive(Clone, Debug, PartialEq, Eq)]
pub struct BlockInfo {
    pub height: u64,
    /// Seconds since the UNIX epoch.
    pub time: u64,
    pub chain_id: String,
}

#[derive(Clone, Debug, PartialEq, Eq)]
pub struct MessageInfo {
    pub sender: String,
    pub sent_funds: Vec<Coin>,
}

#[derive(Clone, Debug, PartialEq, Eq)]
pub struct ContractInfo {
    pub address: String,
}

/// What the chain tells the contract about the call being executed.
#[derive(Clone, Debug, PartialEq, Eq)]
pub struct Env {
    pub block: BlockInfo,
    pub message: MessageInfo,
    pub contract: ContractInfo,
}

/// A message the contract asks the chain to execute after the call.
#[derive(Clone, Debug, PartialEq, Eq)]
pub enum CosmosMsg {
    /// Move `amount` from `from_address` to `to_address`.
    BankSend { from_address: String, to_address: String, amount: Vec<Coin> },
}

/// A key/value pair attached to a response.
#[derive(Clone, Debug, PartialEq, Eq)]
pub struct LogAttribute {
    pub key: String,
    pub value: String,
}

#[derive(Clone, Debug, PartialEq, Eq)]
pub struct HandleResponse {
    pub messages: Vec<CosmosMsg>,
    pub log: Vec<LogAttribute>,
    pub data: Option<Vec<u8>>,
}

#[derive(Clone, Debug, PartialEq, Eq)]
pub struct InitResponse {
    pub messages: Vec<CosmosMsg>,
    pub log: Vec<LogAttribute>,
}

/// Why the contract refused a request.
#[derive(Clone, Debug, PartialEq, Eq)]
pub enum CasinoError {
    /// A deposit without any "uscrt".
    NoFundsSent,
    /// The sender already has a stake.
    AlreadyDeposited,
    /// The sender has no stake (or a stake worth nothing).
    DepositNotFound,
    /// A bet with an empty position.
    PositionEmpty,
    /// A bet whose position is neither "under" nor "over".
    PositionNotUnderOver,
    /// An "over" bet with a prediction outside 2..=58.
    OverPredictionOutOfRange,
    /// An "under" bet with a prediction outside 1..=57.
    UnderPredictionOutOfRange,
    /// The possible payout exceeds what the capital allows to be risked.
    LackOfReserves { capital: u128, payout: u128, max_bet_rate: u64 },
    /// A bet that came with a coin of another denomination.
    InsufficientDenom,
    /// The "uscrt" sent differs from the declared bet.
    InsufficientDeposit { bet_amount: u128, required: u128 },
    /// A (zero) bet that came with no coins at all.
    NoMoneySent,
    /// The sender's address could not be canonicalised.
    InvalidAddress,
}

/// `HandleResponse::default()`: no messages, no log, no data.
pub open spec fn is_empty_response(r: HandleResponse) -> bool {
    &&& r.messages@.len() == 0
    &&& r.log@.len() == 0
    &&& r.data is None
}

pub fn empty_response() -> (r: HandleResponse)
    ensures
        is_empty_response(r),
{
    HandleResponse { messages: Vec::new(), log: Vec::new(), data: None }
}

/// A fresh `String` holding "uscrt".
pub fn uscrt_string() -> (s: String)
    ensures
        s@ == uscrt_word(),
{
    let s = String::from_str("uscrt");
    proof {
        reveal_strlit("uscrt");
    }
    assert(s@ =~= uscrt_word());
    s
}

} // verus!
