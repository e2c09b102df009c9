//! The mathematical description of what the contract does: the amounts it
//! reads from the funds sent, the arithmetic of shares and payouts, and the
//! relation between the state before and after each request.
use vstd::prelude::*;
use vstd::utf8::encode_utf8;
use crate::types::{uscrt_word, Coin, CosmosMsg, Env, HandleResponse, CasinoError, is_empty_response};
use crate::state::{Casino, StakeInfo, Room, CasinoState};
use crate::msg::{InitMsg, HandleMsg, RoomStateResponse};
use crate::hash::{sha256, be_bytes};
use crate::draw::drawn_number;

verus! {

/// 100000000 hundred-millionths make the whole capital.
pub const SHARE_SCALE: u128 = 100000000;

/// The multiplier of a bet is taken from 1000000, in millionths.
pub const FEE_SCALE: u128 = 1000000;

pub open spec fn over_word() -> Seq<char> {
    seq!['o', 'v', 'e', 'r']
}

pub open spec fn under_word() -> Seq<char> {
    seq!['u', 'n', 'd', 'e', 'r']
}

pub open spec fn action_word() -> Seq<char> {
    seq!['a', 'c', 't', 'i', 'o', 'n']
}

pub open spec fn capital_withdraw_word() -> Seq<char> {
    seq!['c', 'a', 'p', 'i', 't', 'a', 'l', '_', 'w', 'i', 't', 'h', 'd', 'r', 'a', 'w']
}

pub open spec fn transfer_payout_word() -> Seq<char> {
    seq!['t', 'r', 'a', 'n', 's', 'f', 'e', 'r', ' ', 'p', 'a', 'y', 'o', 'u', 't']
}

// ---------------------------------------------------------------------------
// Funds

/// The "uscrt" the caller sent: the amount of the last coin in "uscrt", or 0
/// when there is none.
pub open spec fn uscrt_amount(funds: Seq<Coin>) -> u128
    decreases funds.len(),
{
    if funds.len() == 0 {
        0
    } else if funds.last().denom@ == uscrt_word() {
        funds.last().amount
    } else {
        uscrt_amount(funds.drop_last())
    }
}

/// Every coin sent is in "uscrt".
pub open spec fn all_uscrt(funds: Seq<Coin>) -> bool {
    forall|i: int| 0 <= i < funds.len() ==> (#[trigger] funds[i]).denom@ == uscrt_word()
}

/// The sum of the amounts of some coins.
pub open spec fn coins_total(coins: Seq<Coin>) -> int
    decreases coins.len(),
{
    if coins.len() == 0 {
        0
    } else {
        coins_total(coins.drop_last()) + coins.last().amount
    }
}

/// Everything the messages of a response move out of the contract.
pub open spec fn msgs_total(msgs: Seq<CosmosMsg>) -> int
    decreases msgs.len(),
{
    if msgs.len() == 0 {
        0
    } else {
        msgs_total(msgs.drop_last()) + match msgs.last() {
            CosmosMsg::BankSend { amount, .. } => coins_total(amount@),
        }
    }
}

/// A transfer of `amount` "uscrt" from the contract to the caller.
pub open spec fn is_transfer_to_sender(m: CosmosMsg, env: Env, amount: u128) -> bool {
    match m {
        CosmosMsg::BankSend { from_address, to_address, amount: coins } => {
            &&& from_address@ == env.contract.address@
            &&& to_address@ == env.message.sender@
            &&& coins@.len() == 1
            &&& coins@[0].denom@ == uscrt_word()
            &&& coins@[0].amount == amount
        },
    }
}

/// A response that pays `amount` to the caller and logs `action`.
pub open spec fn is_payout_response(
    r: HandleResponse,
    env: Env,
    amount: u128,
    action: Seq<char>,
) -> bool {
    &&& r.messages@.len() == 1
    &&& is_transfer_to_sender(r.messages@[0], env, amount)
    &&& r.log@.len() == 1
    &&& r.log@[0].key@ == action_word()
    &&& r.log@[0].value@ == action
    &&& r.data is None
}

// ---------------------------------------------------------------------------
// Staking pool

/// The part of `capital` that an ownership of `ownership` hundred-millionths
/// stands for, rounded down.
pub open spec fn share(capital: u128, ownership: u128) -> int {
    (capital * ownership) / (SHARE_SCALE as int)
}

/// A member whose share of `capital` is expressed anew against `new_capital`.
pub open spec fn rescaled(s: StakeInfo, capital: u128, new_capital: int) -> StakeInfo {
    StakeInfo {
        address: s.address,
        begin_amount: s.begin_amount,
        ownership_percentage: ((SHARE_SCALE as int) * share(capital, s.ownership_percentage)
            / new_capital) as u128,
    }
}

pub open spec fn rescale_all(stakes: Seq<StakeInfo>, capital: u128, new_capital: int) -> Seq<
    StakeInfo,
>
    decreases stakes.len(),
{
    if stakes.len() == 0 {
        seq![]
    } else {
        rescale_all(stakes.drop_last(), capital, new_capital).push(
            rescaled(stakes.last(), capital, new_capital),
        )
    }
}

/// Whether `who` holds a stake.
pub open spec fn has_stake(stakes: Seq<StakeInfo>, who: Seq<char>) -> bool {
    exists|i: int| 0 <= i < stakes.len() && (#[trigger] stakes[i]).address@ == who
}

/// No member in `stakes[0..=i]` is `who`.
pub open spec fn none_up_to(stakes: Seq<StakeInfo>, who: Seq<char>, i: int) -> bool {
    forall|j: int| 0 <= j <= i ==> (#[trigger] stakes[j]).address@ != who
}

/// The new member's stake after depositing `amount` into `capital`.
pub open spec fn new_stake(sender: String, capital: u128, amount: u128) -> StakeInfo {
    StakeInfo {
        address: sender,
        begin_amount: amount,
        ownership_percentage: ((SHARE_SCALE as int) * amount / (capital + amount)) as u128,
    }
}

/// The house with another capital.
pub open spec fn with_capital(c: Casino, capital: int) -> Casino {
    Casino { capital: capital as u128, ..c }
}

/// A deposit runs without arithmetic overflow.
pub open spec fn deposit_fits(casino: Casino, stakes: Seq<StakeInfo>, env: Env) -> bool {
    let amount = uscrt_amount(env.message.sent_funds@);
    let sender = env.message.sender@;
    amount != 0 ==> {
        &&& casino.capital + amount <= u128::MAX
        &&& forall|i: int|
            #![trigger stakes[i]]
            0 <= i < stakes.len() && none_up_to(stakes, sender, i) ==> {
                &&& casino.capital * stakes[i].ownership_percentage <= u128::MAX
                &&& (SHARE_SCALE as int) * share(casino.capital, stakes[i].ownership_percentage)
                    <= u128::MAX
            }
        &&& !has_stake(stakes, sender) ==> (SHARE_SCALE as int) * amount <= u128::MAX
    }
}

/// What a deposit does.
pub open spec fn deposit_post(
    c0: Casino,
    s0: Seq<StakeInfo>,
    env: Env,
    res: core::result::Result<HandleResponse, CasinoError>,
    c1: Casino,
    s1: Seq<StakeInfo>,
) -> bool {
    let amount = uscrt_amount(env.message.sent_funds@);
    if amount == 0 {
        res == Err::<HandleResponse, CasinoError>(CasinoError::NoFundsSent) && c1 == c0 && s1 == s0
    } else if has_stake(s0, env.message.sender@) {
        res == Err::<HandleResponse, CasinoError>(CasinoError::AlreadyDeposited) && c1 == c0
            && s1 == s0
    } else {
        &&& res matches Ok(r) && is_empty_response(r)
        &&& c1 == with_capital(c0, c0.capital + amount)
        &&& s1 == rescale_all(s0, c0.capital, c0.capital + amount).push(
            new_stake(env.message.sender, c0.capital, amount),
        )
    }
}

/// What `who` takes out when withdrawing: the share of the last stake that
/// is `who`'s, 0 when there is none.
pub open spec fn withdraw_amount(stakes: Seq<StakeInfo>, who: Seq<char>, capital: u128) -> int
    decreases stakes.len(),
{
    if stakes.len() == 0 {
        0
    } else if stakes.last().address@ == who {
        (stakes.last().ownership_percentage * capital) / (SHARE_SCALE as int)
    } else {
        withdraw_amount(stakes.drop_last(), who, capital)
    }
}

/// The members other than `who`, each expressed anew against `new_capital`.
pub open spec fn others_rescaled(
    stakes: Seq<StakeInfo>,
    who: Seq<char>,
    capital: u128,
    new_capital: int,
) -> Seq<StakeInfo>
    decreases stakes.len(),
{
    if stakes.len() == 0 {
        seq![]
    } else {
        let rest = others_rescaled(stakes.drop_last(), who, capital, new_capital);
        if stakes.last().address@ == who {
            rest
        } else {
            rest.push(rescaled(stakes.last(), capital, new_capital))
        }
    }
}

/// A withdrawal runs without arithmetic overflow, underflow or division by
/// zero.
pub open spec fn withdraw_fits(casino: Casino, stakes: Seq<StakeInfo>, env: Env) -> bool {
    let sender = env.message.sender@;
    let amount = withdraw_amount(stakes, sender, casino.capital);
    &&& forall|i: int|
        #![trigger stakes[i]]
        0 <= i < stakes.len() && stakes[i].address@ == sender ==> stakes[i].ownership_percentage
            * casino.capital <= u128::MAX
    &&& amount != 0 ==> {
        &&& amount <= casino.capital
        &&& forall|i: int|
            #![trigger stakes[i]]
            0 <= i < stakes.len() && stakes[i].address@ != sender ==> {
                &&& casino.capital * stakes[i].ownership_percentage <= u128::MAX
                &&& (SHARE_SCALE as int) * share(casino.capital, stakes[i].ownership_percentage)
                    <= u128::MAX
                &&& casino.capital - amount != 0
            }
    }
}

/// What a withdrawal does.
pub open spec fn withdraw_post(
    c0: Casino,
    s0: Seq<StakeInfo>,
    env: Env,
    res: core::result::Result<HandleResponse, CasinoError>,
    c1: Casino,
    s1: Seq<StakeInfo>,
) -> bool {
    let amount = withdraw_amount(s0, env.message.sender@, c0.capital);
    if amount == 0 {
        res == Err::<HandleResponse, CasinoError>(CasinoError::DepositNotFound) && c1 == c0 && s1
            == s0
    } else {
        &&& res matches Ok(r) && is_payout_response(
            r,
            env,
            amount as u128,
            capital_withdraw_word(),
        )
        &&& c1 == with_capital(c0, c0.capital - amount)
        &&& s1 == others_rescaled(s0, env.message.sender@, c0.capital, c0.capital - amount)
    }
}

// ---------------------------------------------------------------------------
// Bets

/// The multiplier of a bet, in ten-thousandths.
pub open spec fn multiplier(prediction_number: u64, is_over: bool, fee: u64) -> int {
    if is_over {
        ((FEE_SCALE as int) - fee) / (99 - prediction_number * 5 / 3)
    } else {
        ((FEE_SCALE as int) - fee) / (prediction_number * 5 / 3)
    }
}

/// What a winning bet of `bet` pays.
pub open spec fn spec_payout(prediction_number: u64, is_over: bool, bet: u128, fee: u64) -> int {
    bet * multiplier(prediction_number, is_over, fee) / 10000
}

/// The payout computation runs without underflow, division by zero or
/// overflow.
pub open spec fn payout_fits(prediction_number: u64, is_over: bool, bet: u128, fee: u64) -> bool {
    &&& fee <= FEE_SCALE
    &&& is_over ==> prediction_number * 5 / 3 < 99
    &&& !is_over ==> prediction_number * 5 / 3 > 0
    &&& bet * multiplier(prediction_number, is_over, fee) <= u128::MAX
}

/// The position and prediction of a bet are admissible.
pub open spec fn bet_shape_ok(prediction_number: u64, position: Seq<char>) -> bool {
    ||| position == over_word() && 2 <= prediction_number <= 58
    ||| position == under_word() && 1 <= prediction_number <= 57
}

/// The checks a bet goes through before the draw: on success, the payout a
/// win would bring.
pub open spec fn ruler_check(
    casino: Casino,
    env: Env,
    prediction_number: u64,
    position: Seq<char>,
    bet: u128,
) -> core::result::Result<u128, CasinoError> {
    let funds = env.message.sent_funds@;
    if position.len() == 0 {
        Err(CasinoError::PositionEmpty)
    } else if position != under_word() && position != over_word() {
        Err(CasinoError::PositionNotUnderOver)
    } else if position == over_word() && (prediction_number < 2 || prediction_number > 58) {
        Err(CasinoError::OverPredictionOutOfRange)
    } else if position == under_word() && (prediction_number < 1 || prediction_number > 57) {
        Err(CasinoError::UnderPredictionOutOfRange)
    } else {
        let payout = spec_payout(
            prediction_number,
            position == over_word(),
            bet,
            casino.house_fee,
        ) as u128;
        if casino.capital * casino.max_bet_rate / (FEE_SCALE as int) < payout {
            Err(
                CasinoError::LackOfReserves {
                    capital: casino.capital,
                    payout,
                    max_bet_rate: casino.max_bet_rate,
                },
            )
        } else if !all_uscrt(funds) {
            Err(CasinoError::InsufficientDenom)
        } else if uscrt_amount(funds) != bet {
            Err(CasinoError::InsufficientDeposit { bet_amount: bet, required: uscrt_amount(funds) })
        } else if funds.len() == 0 {
            Err(CasinoError::NoMoneySent)
        } else {
            Ok(payout)
        }
    }
}

/// Whether the drawn number wins.
pub open spec fn wins(is_over: bool, lucky_number: u64, prediction_number: u64) -> bool {
    if is_over {
        lucky_number > prediction_number
    } else {
        lucky_number < prediction_number
    }
}

/// The bytes the draw's entropy is hashed from.
pub open spec fn entropy_input(phrase: Seq<char>, raw_address: Seq<u8>, env: Env) -> Seq<u8> {
    encode_utf8(phrase) + raw_address + encode_utf8(env.block.chain_id@) + be_bytes(
        env.block.height,
    ) + be_bytes(env.block.time)
}

/// The entropy of a draw.
pub open spec fn ruler_entropy_spec(phrase: Seq<char>, raw_address: Seq<u8>, env: Env) -> Seq<u8> {
    sha256(entropy_input(phrase, raw_address, env)) + be_bytes(env.block.time)
}

/// The capital after a bet that passed its checks.
pub open spec fn capital_after_bet(
    capital: u128,
    bet: u128,
    payout: u128,
    win: bool,
) -> int {
    if win {
        capital + bet - payout
    } else {
        capital + bet
    }
}

/// The number drawn for a bet of the player whose canonical address is
/// `raw_address`.
pub open spec fn bet_lucky_number(
    casino: Casino,
    phrase: Seq<char>,
    raw_address: Seq<u8>,
    env: Env,
) -> u64 {
    drawn_number(casino.seed@, ruler_entropy_spec(phrase, raw_address, env))
}

/// A bet runs without arithmetic overflow, underflow or division by zero.
pub open spec fn ruler_fits(
    casino: Casino,
    env: Env,
    raw_address: Option<Vec<u8>>,
    phrase: Seq<char>,
    prediction_number: u64,
    position: Seq<char>,
    bet: u128,
) -> bool {
    bet_shape_ok(prediction_number, position) ==> {
        &&& payout_fits(prediction_number, position == over_word(), bet, casino.house_fee)
        &&& casino.capital * casino.max_bet_rate <= u128::MAX
        &&& match raw_address {
            None => true,
            Some(addr) => (ruler_check(casino, env, prediction_number, position, bet) matches Ok(
                payout,
            ) ==> {
                &&& casino.bet_cumulative_amount + bet <= u128::MAX
                &&& casino.capital + bet <= u128::MAX
                &&& wins(
                    position == over_word(),
                    bet_lucky_number(casino, phrase, addr@, env),
                    prediction_number,
                ) ==> payout <= casino.capital + bet
            }),
        }
    }
}

/// What a bet does.
pub open spec fn ruler_post(
    c0: Casino,
    env: Env,
    raw_address: Option<Vec<u8>>,
    phrase: String,
    prediction_number: u64,
    position: String,
    bet: u128,
    res: core::result::Result<(HandleResponse, Room), CasinoError>,
    c1: Casino,
) -> bool {
    match ruler_check(c0, env, prediction_number, position@, bet) {
        Err(e) => res == Err::<(HandleResponse, Room), CasinoError>(e) && c1 == c0,
        Ok(payout) => match raw_address {
            None => res == Err::<(HandleResponse, Room), CasinoError>(CasinoError::InvalidAddress)
                && c1 == c0,
            Some(addr) => {
                let lucky_number = bet_lucky_number(c0, phrase@, addr@, env);
                let win = wins(position@ == over_word(), lucky_number, prediction_number);
                &&& res matches Ok((resp, room)) && {
                    &&& room.start_time == env.block.time
                    &&& room.entropy@ == ruler_entropy_spec(phrase@, addr@, env)
                    &&& room.prediction_number == prediction_number
                    &&& room.lucky_number == lucky_number
                    &&& room.position == position
                    &&& room.results == win
                    &&& room.payout == payout
                    &&& room.bet_amount == bet
                    &&& if win {
                        is_payout_response(resp, env, payout, transfer_payout_word())
                    } else {
                        is_empty_response(resp)
                    }
                }
                &&& c1 == Casino {
                    capital: capital_after_bet(c0.capital, bet, payout, win) as u128,
                    bet_cumulative_amount: (c0.bet_cumulative_amount + bet) as u128,
                    ..c0
                }
            },
        },
    }
}

// ---------------------------------------------------------------------------
// Entry points

/// The state a new house starts from.
pub open spec fn init_post(env: Env, msg: InitMsg, state: CasinoState) -> bool {
    match msg {
        InitMsg::CreateCasino {
            name,
            description,
            min_bet_amount,
            max_bet_rate,
            house_fee,
            founder_commission_rate,
            seed,
        } => {
            &&& state.casino.founder == env.message.sender
            &&& state.casino.name == name
            &&& state.casino.description == description
            &&& state.casino.min_bet_amount == min_bet_amount
            &&& state.casino.max_bet_rate == max_bet_rate
            &&& state.casino.house_fee == house_fee
            &&& state.casino.founder_commission_rate == founder_commission_rate
            &&& state.casino.capital == 0
            &&& state.casino.bet_cumulative_amount == 0
            &&& state.casino.seed@ == encode_utf8(seed@)
            &&& state.stakes@.len() == 0
            &&& state.results@.len() == 0
        },
    }
}

/// A request runs without arithmetic overflow, underflow or division by zero.
pub open spec fn handle_fits(
    state: CasinoState,
    env: Env,
    msg: HandleMsg,
    raw_address: Option<Vec<u8>>,
) -> bool {
    match msg {
        HandleMsg::Ruler { phrase, prediction_number, position, bet_amount } => ruler_fits(
            state.casino,
            env,
            raw_address,
            phrase@,
            prediction_number,
            position@,
            bet_amount,
        ),
        HandleMsg::TryCapitalDeposit {  } => deposit_fits(state.casino, state.stakes@, env),
        HandleMsg::TryCapitalWithdraw {  } => withdraw_fits(state.casino, state.stakes@, env),
    }
}

/// What a request does to the stored state.
pub open spec fn handle_post(
    s0: CasinoState,
    env: Env,
    msg: HandleMsg,
    raw_address: Option<Vec<u8>>,
    res: core::result::Result<(HandleResponse, Option<Room>), CasinoError>,
    s1: CasinoState,
) -> bool {
    &&& s1.results == s0.results
    &&& match msg {
        HandleMsg::Ruler { phrase, prediction_number, position, bet_amount } => {
            &&& s1.stakes == s0.stakes
            &&& match res {
                Ok((resp, Some(room))) => ruler_post(
                    s0.casino,
                    env,
                    raw_address,
                    phrase,
                    prediction_number,
                    position,
                    bet_amount,
                    Ok((resp, room)),
                    s1.casino,
                ),
                Ok((_, None)) => false,
                Err(e) => ruler_post(
                    s0.casino,
                    env,
                    raw_address,
                    phrase,
                    prediction_number,
                    position,
                    bet_amount,
                    Err(e),
                    s1.casino,
                ),
            }
        },
        HandleMsg::TryCapitalDeposit {  } => match res {
            Ok((resp, room)) => room is None && deposit_post(
                s0.casino,
                s0.stakes@,
                env,
                Ok(resp),
                s1.casino,
                s1.stakes@,
            ),
            Err(e) => deposit_post(s0.casino, s0.stakes@, env, Err(e), s1.casino, s1.stakes@),
        },
        HandleMsg::TryCapitalWithdraw {  } => match res {
            Ok((resp, room)) => room is None && withdraw_post(
                s0.casino,
                s0.stakes@,
                env,
                Ok(resp),
                s1.casino,
                s1.stakes@,
            ),
            Err(e) => withdraw_post(s0.casino, s0.stakes@, env, Err(e), s1.casino, s1.stakes@),
        },
    }
}

/// A room as a query answers it.
pub open spec fn room_state_of(room: Room, r: RoomStateResponse) -> bool {
    &&& r.start_time == room.start_time
    &&& r.entropy == room.entropy
    &&& r.prediction_number == room.prediction_number
    &&& r.lucky_number == room.lucky_number
    &&& r.position == room.position
    &&& r.results == room.results
    &&& r.payout == room.payout as u64
    &&& r.bet_amount == room.bet_amount as u64
}

} // verus!
