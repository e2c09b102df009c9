//! The contract's entry points and the requests they dispatch to.
use vstd::prelude::*;
use crate::types::{
    uscrt_word, uscrt_string, empty_response, Coin, CosmosMsg, Env, HandleResponse,
    InitResponse, LogAttribute, CasinoError,
};
use crate::state::{Casino, StakeInfo, Room, CasinoState};
use crate::msg::{
    InitMsg, HandleMsg, QueryMsg, QueryAnswer, RoomStateResponse, CasinoResponse, StakeResponse,
    CasinoStakeResponse,
};
use crate::hash::{sha256_digest, u64_to_be_bytes, append_bytes};
use crate::draw::draw_lucky_number;
use crate::spec::{
    over_word, under_word, action_word, capital_withdraw_word, transfer_payout_word,
    uscrt_amount, all_uscrt, is_transfer_to_sender, is_payout_response, share, rescale_all,
    has_stake, none_up_to, deposit_fits, deposit_post, withdraw_amount, others_rescaled,
    withdraw_fits, withdraw_post, multiplier, spec_payout, payout_fits, SHARE_SCALE,
    ruler_check, ruler_fits, ruler_post, ruler_entropy_spec, entropy_input, bet_shape_ok,
    handle_fits, handle_post, init_post, room_state_of,
};

verus! {

pub(crate) fn over_string() -> (s: String)
    ensures
        s@ == over_word(),
{
    let s = String::from_str("over");
    proof {
        reveal_strlit("over");
    }
    assert(s@ =~= over_word());
    s
}

pub(crate) fn under_string() -> (s: String)
    ensures
        s@ == under_word(),
{
    let s = String::from_str("under");
    proof {
        reveal_strlit("under");
    }
    assert(s@ =~= under_word());
    s
}

fn log_action(value: &str) -> (a: LogAttribute)
    ensures
        a.key@ == action_word(),
        a.value@ == value@,
{
    let key = String::from_str("action");
    proof {
        reveal_strlit("action");
    }
    assert(key@ =~= action_word());
    LogAttribute { key, value: String::from_str(value) }
}

/// The "uscrt" among `funds`: the amount of the last such coin, 0 if none.
pub(crate) fn uscrt_sent(funds: &Vec<Coin>) -> (amount: u128)
    ensures
        amount == uscrt_amount(funds@),
{
    let uscrt = uscrt_string();
    let mut amount: u128 = 0;
    let n = funds.len();
    for i in 0..n
        invariant
            n == funds@.len(),
            uscrt@ == uscrt_word(),
            amount == uscrt_amount(funds@.take(i as int)),
    {
        assert(funds@.take(i + 1).drop_last() =~= funds@.take(i as int));
        if funds[i].denom == uscrt {
            amount = funds[i].amount;
        }
    }
    assert(funds@.take(n as int) =~= funds@);
    amount
}

/// Like `uscrt_sent`, but `None` as soon as a coin of another denomination
/// was sent.
fn uscrt_only(funds: &Vec<Coin>) -> (amount: Option<u128>)
    ensures
        amount == (if all_uscrt(funds@) {
            Some(uscrt_amount(funds@))
        } else {
            None
        }),
{
    let uscrt = uscrt_string();
    let mut amount: u128 = 0;
    let n = funds.len();
    for i in 0..n
        invariant
            n == funds@.len(),
            uscrt@ == uscrt_word(),
            amount == uscrt_amount(funds@.take(i as int)),
            all_uscrt(funds@.take(i as int)),
    {
        assert(funds@.take(i + 1).drop_last() =~= funds@.take(i as int));
        if funds[i].denom == uscrt {
            amount = funds[i].amount;
        } else {
            assert(!all_uscrt(funds@)) by {
                assert(funds@[i as int].denom@ != uscrt_word());
            }
            return None;
        }
        assert forall|j: int| 0 <= j < i + 1 implies (#[trigger] funds@.take(i + 1)[j]).denom@
            == uscrt_word() by {
            if j < i {
                assert(funds@.take(i + 1)[j] == funds@.take(i as int)[j]);
            }
        }
    }
    assert(funds@.take(n as int) =~= funds@);
    Some(amount)
}

/// What a winning bet of `bet_amount` pays: the bet times a multiplier of
/// (1000000 - fee) / (99 - prediction * 5 / 3) for "over", and of
/// (1000000 - fee) / (prediction * 5 / 3) otherwise, in ten-thousandths.
pub fn payout_amount(
    prediction_number: u64,
    position: String,
    bet_amount: &u128,
    fee: u64,
) -> (res: core::result::Result<u128, CasinoError>)
    requires
        payout_fits(prediction_number, position@ == over_word(), *bet_amount, fee),
    ensures
        res == Ok::<u128, CasinoError>(
            spec_payout(prediction_number, position@ == over_word(), *bet_amount, fee) as u128,
        ),
        position@ == seq!['o', 'v', 'e', 'r'] ==> res == Ok::<u128, CasinoError>(
            (*bet_amount * ((1000000 - fee) / (99 - prediction_number * 5 / 3)) / 10000) as u128,
        ),
        position@ != seq!['o', 'v', 'e', 'r'] ==> res == Ok::<u128, CasinoError>(
            (*bet_amount * ((1000000 - fee) / (prediction_number * 5 / 3)) / 10000) as u128,
        ),
{
    let multiplier: u128;
    let payout: u128;
    if position == over_string() {
        multiplier = (1000000u128 - fee as u128) / (99u128 - (prediction_number as u128 * 5 / 3));
        payout = *bet_amount * multiplier / 10000;
    } else {
        multiplier = (1000000u128 - fee as u128) / (prediction_number as u128 * 5 / 3);
        payout = *bet_amount * multiplier / 10000;
    }
    Ok(payout)
}

/// The message that moves `payout_amount` "uscrt" from the contract to the
/// caller.
pub fn send_coin(env: &Env, payout_amount: u128) -> (res: core::result::Result<
    CosmosMsg,
    CasinoError,
>)
    ensures
        res matches Ok(m) && is_transfer_to_sender(m, *env, payout_amount),
{
    let mut amount: Vec<Coin> = Vec::new();
    amount.push(Coin { denom: uscrt_string(), amount: payout_amount });
    Ok(
        CosmosMsg::BankSend {
            from_address: env.contract.address.clone(),
            to_address: env.message.sender.clone(),
            amount,
        },
    )
}

/// The response that pays a winner `amount`.
pub fn can_winer_payout(env: &Env, amount: u128) -> (res: core::result::Result<
    HandleResponse,
    CasinoError,
>)
    ensures
        res matches Ok(r) && is_payout_response(r, *env, amount, transfer_payout_word()),
{
    let transfer = match send_coin(env, amount) {
        Ok(m) => m,
        Err(e) => return Err(e),
    };
    let action = "transfer payout";
    proof {
        reveal_strlit("transfer payout");
    }
    assert(action@ =~= transfer_payout_word());
    let mut messages: Vec<CosmosMsg> = Vec::new();
    messages.push(transfer);
    let mut log: Vec<LogAttribute> = Vec::new();
    log.push(log_action(action));
    Ok(HandleResponse { messages, log, data: None })
}

#[verifier::rlimit(30)]
/// A member of the pool puts capital in: the caller's "uscrt" is added to the
/// capital, every present member's share is expressed anew against the new
/// capital, and the caller joins with the share its deposit buys.
pub fn try_capital_deposit(
    casino: &mut Casino,
    stakes: &mut Vec<StakeInfo>,
    env: &Env,
) -> (res: core::result::Result<HandleResponse, CasinoError>)
    requires
        deposit_fits(*old(casino), old(stakes)@, *env),
    ensures
        deposit_post(*old(casino), old(stakes)@, *env, res, *final(casino), final(stakes)@),
{
    let amount_raw = uscrt_sent(&env.message.sent_funds);
    if amount_raw == 0 {
        return Err(CasinoError::NoFundsSent);
    }
    let capital = casino.capital;
    let new_capital = capital + amount_raw;
    let mut new_stakes: Vec<StakeInfo> = Vec::new();
    let n = stakes.len();
    for i in 0..n
        invariant
            n == stakes@.len(),
            capital == casino.capital,
            new_capital == capital + amount_raw,
            amount_raw == uscrt_amount(env.message.sent_funds@),
            amount_raw != 0,
            forall|k: int|
                #![trigger stakes@[k]]
                0 <= k < n && none_up_to(stakes@, env.message.sender@, k) ==> {
                    &&& capital * stakes@[k].ownership_percentage <= u128::MAX
                    &&& (SHARE_SCALE as int) * share(capital, stakes@[k].ownership_percentage)
                        <= u128::MAX
                },
            none_up_to(stakes@, env.message.sender@, i - 1),
            new_stakes@ == rescale_all(stakes@.take(i as int), capital, new_capital as int),
    {
        if env.message.sender == stakes[i].address {
            assert(has_stake(stakes@, env.message.sender@)) by {
                assert(stakes@[i as int].address@ == env.message.sender@);
            }
            return Err(CasinoError::AlreadyDeposited);
        }
        assert(none_up_to(stakes@, env.message.sender@, i as int));
        let own = stakes[i].ownership_percentage;
        assert(capital * own <= u128::MAX && (SHARE_SCALE as int) * share(capital, own)
            <= u128::MAX);
        let deposit = capital * own / 100000000;
        let new_own = 100000000 * deposit / new_capital;
        let entry = StakeInfo {
            address: stakes[i].address.clone(),
            begin_amount: stakes[i].begin_amount,
            ownership_percentage: new_own,
        };
        assert(stakes@.take(i + 1).drop_last() =~= stakes@.take(i as int));
        new_stakes.push(entry);
    }
    assert(stakes@.take(n as int) =~= stakes@);
    assert(!has_stake(stakes@, env.message.sender@));
    let mine = StakeInfo {
        address: env.message.sender.clone(),
        begin_amount: amount_raw,
        ownership_percentage: 100000000 * amount_raw / new_capital,
    };
    new_stakes.push(mine);
    casino.capital = new_capital;
    *stakes = new_stakes;
    Ok(empty_response())
}

/// A member of the pool takes its share out: the share of the caller's stake
/// is paid to the caller and taken off the capital, the caller leaves the
/// pool, and every other member's share is expressed anew against what
/// remains.
pub fn try_capital_withdraw(
    casino: &mut Casino,
    stakes: &mut Vec<StakeInfo>,
    env: &Env,
) -> (res: core::result::Result<HandleResponse, CasinoError>)
    requires
        withdraw_fits(*old(casino), old(stakes)@, *env),
    ensures
        withdraw_post(*old(casino), old(stakes)@, *env, res, *final(casino), final(stakes)@),
{
    let capital = casino.capital;
    let n = stakes.len();
    let mut amount_raw: u128 = 0;
    for i in 0..n
        invariant
            n == stakes@.len(),
            capital == casino.capital,
            withdraw_fits(*casino, stakes@, *env),
            amount_raw == withdraw_amount(stakes@.take(i as int), env.message.sender@, capital),
    {
        assert(stakes@.take(i + 1).drop_last() =~= stakes@.take(i as int));
        if env.message.sender == stakes[i].address {
            amount_raw = stakes[i].ownership_percentage * capital / 100000000;
        }
    }
    assert(stakes@.take(n as int) =~= stakes@);
    if amount_raw == 0 {
        return Err(CasinoError::DepositNotFound);
    }
    let new_capital = capital - amount_raw;
    let mut new_stakes: Vec<StakeInfo> = Vec::new();
    for i in 0..n
        invariant
            n == stakes@.len(),
            capital == casino.capital,
            withdraw_fits(*casino, stakes@, *env),
            amount_raw == withdraw_amount(stakes@, env.message.sender@, capital),
            amount_raw != 0,
            new_capital == capital - amount_raw,
            new_stakes@ == others_rescaled(
                stakes@.take(i as int),
                env.message.sender@,
                capital,
                new_capital as int,
            ),
    {
        assert(stakes@.take(i + 1).drop_last() =~= stakes@.take(i as int));
        if env.message.sender != stakes[i].address {
            let own = stakes[i].ownership_percentage;
            let deposit = capital * own / 100000000;
            let new_own = 100000000 * deposit / new_capital;
            let entry = StakeInfo {
                address: stakes[i].address.clone(),
                begin_amount: stakes[i].begin_amount,
                ownership_percentage: new_own,
            };
            new_stakes.push(entry);
        }
    }
    assert(stakes@.take(n as int) =~= stakes@);
    casino.capital = new_capital;
    *stakes = new_stakes;
    let transfer = match send_coin(env, amount_raw) {
        Ok(m) => m,
        Err(e) => return Err(e),
    };
    let action = "capital_withdraw";
    proof {
        reveal_strlit("capital_withdraw");
    }
    assert(action@ =~= capital_withdraw_word());
    let mut messages: Vec<CosmosMsg> = Vec::new();
    messages.push(transfer);
    let mut log: Vec<LogAttribute> = Vec::new();
    log.push(log_action(action));
    Ok(HandleResponse { messages, log, data: None })
}

/// The checks a bet goes through before the draw, in order: the position,
/// the prediction, the house's reserves and the coins sent. On success, the
/// payout a win would bring.
pub fn check_bet(
    casino: &Casino,
    env: &Env,
    prediction_number: u64,
    position: &String,
    bet_amount: &u128,
) -> (res: core::result::Result<u128, CasinoError>)
    requires
        bet_shape_ok(prediction_number, position@) ==> {
            &&& payout_fits(
                prediction_number,
                position@ == over_word(),
                *bet_amount,
                casino.house_fee,
            )
            &&& casino.capital * casino.max_bet_rate <= u128::MAX
        },
    ensures
        res == ruler_check(*casino, *env, prediction_number, position@, *bet_amount),
{
    if position.as_str().is_empty() {
        return Err(CasinoError::PositionEmpty);
    }
    let is_over = *position == over_string();
    let is_under = *position == under_string();
    if !is_under && !is_over {
        return Err(CasinoError::PositionNotUnderOver);
    }
    if is_over {
        if prediction_number < 2 || prediction_number > 58 {
            return Err(CasinoError::OverPredictionOutOfRange);
        }
    }
    if is_under {
        if prediction_number < 1 || prediction_number > 57 {
            return Err(CasinoError::UnderPredictionOutOfRange);
        }
    }
    assert(bet_shape_ok(prediction_number, position@));
    let payout = match payout_amount(
        prediction_number,
        position.clone(),
        bet_amount,
        casino.house_fee,
    ) {
        Ok(v) => v,
        Err(e) => return Err(e),
    };
    if casino.capital * casino.max_bet_rate as u128 / 1000000 < payout {
        return Err(
            CasinoError::LackOfReserves {
                capital: casino.capital,
                payout,
                max_bet_rate: casino.max_bet_rate,
            },
        );
    }
    let amount_raw = match uscrt_only(&env.message.sent_funds) {
        Some(a) => a,
        None => return Err(CasinoError::InsufficientDenom),
    };
    if amount_raw != *bet_amount {
        return Err(
            CasinoError::InsufficientDeposit { bet_amount: *bet_amount, required: amount_raw },
        );
    } else if env.message.sent_funds.len() == 0 {
        return Err(CasinoError::NoMoneySent);
    }
    Ok(payout)
}

/// The entropy a bet's draw starts from: the SHA-256 digest of the phrase,
/// the player's canonical address, the chain id, the block height and the
/// block time (the two numbers big-endian), followed by the block time again.
pub fn ruler_entropy(phrase: &String, raw_address: &Vec<u8>, env: &Env) -> (entropy: Vec<u8>)
    ensures
        entropy@ == ruler_entropy_spec(phrase@, raw_address@, *env),
{
    let mut input: Vec<u8> = Vec::new();
    append_bytes(&mut input, phrase.as_str().as_bytes());
    append_bytes(&mut input, raw_address.as_slice());
    append_bytes(&mut input, env.block.chain_id.as_str().as_bytes());
    let height = u64_to_be_bytes(env.block.height);
    append_bytes(&mut input, height.as_slice());
    let time = u64_to_be_bytes(env.block.time);
    append_bytes(&mut input, time.as_slice());
    assert(input@ =~= entropy_input(phrase@, raw_address@, *env));
    let mut entropy = sha256_digest(input.as_slice());
    append_bytes(&mut entropy, time.as_slice());
    entropy
}

/// Takes a bet of `bet_amount` that the drawn number will be over (or
/// under) `prediction_number`. `raw_address` is the caller's canonical
/// address (`None` when it could not be had). The number is drawn from the
/// house seed and `ruler_entropy` (see `crate::draw`). On success the
/// house's capital takes the bet and, on a win, gives the payout; the bet is
/// returned as the room to keep for the caller.
#[verifier::rlimit(40)]
pub fn try_ruler(
    casino: &mut Casino,
    env: &Env,
    raw_address: Option<Vec<u8>>,
    phrase: String,
    prediction_number: u64,
    position: String,
    bet_amount: &u128,
) -> (res: core::result::Result<(HandleResponse, Room), CasinoError>)
    requires
        ruler_fits(
            *old(casino),
            *env,
            raw_address,
            phrase@,
            prediction_number,
            position@,
            *bet_amount,
        ),
    ensures
        ruler_post(
            *old(casino),
            *env,
            raw_address,
            phrase,
            prediction_number,
            position,
            *bet_amount,
            res,
            *final(casino),
        ),
        res matches Ok((_, room)) ==> {
            &&& room.prediction_number == prediction_number
            &&& room.lucky_number < 59
            &&& position@ == seq!['u', 'n', 'd', 'e', 'r'] ==> (room.results <==> room.lucky_number
                < prediction_number)
            &&& position@ == seq!['o', 'v', 'e', 'r'] ==> (room.results <==> room.lucky_number
                > prediction_number)
        },
{
    let payout = match check_bet(casino, env, prediction_number, &position, bet_amount) {
        Ok(v) => v,
        Err(e) => return Err(e),
    };
    let is_over = position == over_string();
    // The checks leave the "uscrt" sent equal to the bet.
    let amount_raw = *bet_amount;
    let raw = match raw_address {
        Some(a) => a,
        None => return Err(CasinoError::InvalidAddress),
    };
    let entropy = ruler_entropy(&phrase, &raw, env);
    let lucky_number = draw_lucky_number(&casino.seed, &entropy);
    let win = if is_over {
        lucky_number > prediction_number
    } else {
        lucky_number < prediction_number
    };
    let room = Room {
        start_time: env.block.time,
        entropy,
        prediction_number,
        lucky_number,
        position,
        results: win,
        payout,
        bet_amount: *bet_amount,
    };
    casino.bet_cumulative_amount = casino.bet_cumulative_amount + *bet_amount;
    if !win {
        casino.capital = casino.capital + amount_raw;
        Ok((empty_response(), room))
    } else {
        casino.capital = casino.capital + amount_raw - payout;
        let response = match can_winer_payout(env, payout) {
            Ok(r) => r,
            Err(e) => return Err(e),
        };
        Ok((response, room))
    }
}

/// Opens the house: the caller becomes its founder, the capital and the sum
/// of bets start at 0, the seed of the draws is the bytes of `seed`, and the
/// pool and the list of settled bets start empty.
pub fn init(env: &Env, msg: InitMsg) -> (res: core::result::Result<
    (InitResponse, CasinoState),
    CasinoError,
>)
    ensures
        res matches Ok((resp, state)) && resp.messages@.len() == 0 && resp.log@.len() == 0
            && init_post(*env, msg, state),
{
    match msg {
        InitMsg::CreateCasino {
            name,
            description,
            min_bet_amount,
            max_bet_rate,
            house_fee,
            founder_commission_rate,
            seed,
        } => {
            let mut seed_bytes: Vec<u8> = Vec::new();
            append_bytes(&mut seed_bytes, seed.as_str().as_bytes());
            let casino = Casino {
                founder: env.message.sender.clone(),
                name,
                description,
                min_bet_amount,
                max_bet_rate,
                house_fee,
                founder_commission_rate,
                capital: 0,
                seed: seed_bytes,
                bet_cumulative_amount: 0,
            };
            let state = CasinoState { casino, stakes: Vec::new(), results: Vec::new() };
            Ok((InitResponse { messages: Vec::new(), log: Vec::new() }, state))
        },
    }
}

/// Runs one request against the stored state. `raw_address`, the caller's
/// canonical address, is only read by a bet (see `try_ruler`); a bet that
/// succeeds also gives the room to keep for the caller.
pub fn handle(
    state: &mut CasinoState,
    env: &Env,
    msg: HandleMsg,
    raw_address: Option<Vec<u8>>,
) -> (res: core::result::Result<(HandleResponse, Option<Room>), CasinoError>)
    requires
        handle_fits(*old(state), *env, msg, raw_address),
    ensures
        handle_post(*old(state), *env, msg, raw_address, res, *final(state)),
{
    match msg {
        HandleMsg::Ruler { phrase, prediction_number, position, bet_amount } => {
            match try_ruler(
                &mut state.casino,
                env,
                raw_address,
                phrase,
                prediction_number,
                position,
                &bet_amount,
            ) {
                Ok((response, room)) => Ok((response, Some(room))),
                Err(e) => Err(e),
            }
        },
        HandleMsg::TryCapitalDeposit {  } => {
            match try_capital_deposit(&mut state.casino, &mut state.stakes, env) {
                Ok(response) => Ok((response, None)),
                Err(e) => Err(e),
            }
        },
        HandleMsg::TryCapitalWithdraw {  } => {
            match try_capital_withdraw(&mut state.casino, &mut state.stakes, env) {
                Ok(response) => Ok((response, None)),
                Err(e) => Err(e),
            }
        },
    }
}

/// Answers a query from the stored state; `room` is the caller's room,
/// read only by `Getmystate`.
pub fn query(state: CasinoState, msg: QueryMsg, room: Option<Room>) -> (res: core::result::Result<
    QueryAnswer,
    CasinoError,
>)
    requires
        msg is Getmystate ==> room is Some,
    ensures
        match msg {
            QueryMsg::GetCasinoStakeInfo {  } => res == Ok::<QueryAnswer, CasinoError>(
                QueryAnswer::CasinoStake(
                    (CasinoStakeResponse { casino: state.casino, stake: state.stakes }),
                ),
            ),
            QueryMsg::GetStakeInfo {  } => res == Ok::<QueryAnswer, CasinoError>(
                QueryAnswer::Stake((StakeResponse { stake: state.stakes })),
            ),
            QueryMsg::GetCasinoInfo {  } => res == Ok::<QueryAnswer, CasinoError>(
                QueryAnswer::Casino((CasinoResponse { casino: state.casino })),
            ),
            QueryMsg::Getmystate { .. } => res matches Ok(QueryAnswer::RoomState(r))
                && room_state_of(room.unwrap(), r),
        },
{
    match msg {
        QueryMsg::GetCasinoStakeInfo {  } => match read_casino_stake_info(state) {
            Ok(r) => Ok(QueryAnswer::CasinoStake(r)),
            Err(e) => Err(e),
        },
        QueryMsg::GetStakeInfo {  } => match read_stake_info(state) {
            Ok(r) => Ok(QueryAnswer::Stake(r)),
            Err(e) => Err(e),
        },
        QueryMsg::GetCasinoInfo {  } => match read_casino_info(state) {
            Ok(r) => Ok(QueryAnswer::Casino(r)),
            Err(e) => Err(e),
        },
        QueryMsg::Getmystate { .. } => {
            let room = match room {
                Some(r) => r,
                None => return Err(CasinoError::InvalidAddress),
            };
            match read_room_state(room) {
                Ok(r) => Ok(QueryAnswer::RoomState(r)),
                Err(e) => Err(e),
            }
        },
    }
}

fn read_casino_stake_info(state: CasinoState) -> (res: core::result::Result<
    CasinoStakeResponse,
    CasinoError,
>)
    ensures
        res == Ok::<CasinoStakeResponse, CasinoError>(
            (CasinoStakeResponse { casino: state.casino, stake: state.stakes }),
        ),
{
    Ok(CasinoStakeResponse { casino: state.casino, stake: state.stakes })
}

fn read_stake_info(state: CasinoState) -> (res: core::result::Result<StakeResponse, CasinoError>)
    ensures
        res == Ok::<StakeResponse, CasinoError>((StakeResponse { stake: state.stakes })),
{
    Ok(StakeResponse { stake: state.stakes })
}

fn read_casino_info(state: CasinoState) -> (res: core::result::Result<CasinoResponse, CasinoError>)
    ensures
        res == Ok::<CasinoResponse, CasinoError>((CasinoResponse { casino: state.casino })),
{
    Ok(CasinoResponse { casino: state.casino })
}

/// A player's room as a query answers it; the payout and the bet are cut
/// down to their low 64 bits.
pub fn read_room_state(room: Room) -> (res: core::result::Result<RoomStateResponse, CasinoError>)
    ensures
        res matches Ok(r) && room_state_of(room, r),
{
    let payout = room.payout;
    let amount = room.bet_amount;
    Ok(
        RoomStateResponse {
            start_time: room.start_time,
            entropy: room.entropy,
            prediction_number: room.prediction_number,
            lucky_number: room.lucky_number,
            position: room.position,
            results: room.results,
            payout: payout as u64,
            bet_amount: amount as u64,
        },
    )
}

} // verus!
