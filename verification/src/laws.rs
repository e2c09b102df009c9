//! Properties of the contract as a whole, proved from the contracts of its
//! requests: what every request does to the house's money, and what the
//! staking pool keeps true from one request to the next.
use vstd::prelude::*;
use crate::types::{CosmosMsg, Env, HandleResponse, CasinoError, is_empty_response};
use crate::state::{Casino, StakeInfo, Room, CasinoState};
use crate::msg::{InitMsg, HandleMsg};
use crate::spec::{
    spec_payout, under_word,
    uscrt_amount, coins_total, msgs_total, is_payout_response, share, rescaled, rescale_all,
    has_stake, new_stake, deposit_fits, deposit_post, withdraw_amount, others_rescaled,
    withdraw_fits, withdraw_post, ruler_check, ruler_post, wins, over_word, handle_fits,
    handle_post, init_post, SHARE_SCALE,
};

verus! {

/// The sum of the members' ownership.
pub open spec fn ownership_sum(stakes: Seq<StakeInfo>) -> int
    decreases stakes.len(),
{
    if stakes.len() == 0 {
        0
    } else {
        ownership_sum(stakes.drop_last()) + stakes.last().ownership_percentage
    }
}

/// No address holds two stakes.
pub open spec fn unique_addresses(stakes: Seq<StakeInfo>) -> bool {
    forall|i: int, j: int|
        0 <= i < j < stakes.len() ==> (#[trigger] stakes[i]).address@ != (#[trigger] stakes[j]).address@
}

/// The pool is sound: every address holds at most one stake, and the
/// members together own at most the whole capital.
pub open spec fn pool_sound(stakes: Seq<StakeInfo>) -> bool {
    &&& unique_addresses(stakes)
    &&& ownership_sum(stakes) <= SHARE_SCALE
}

/// The "uscrt" a request adds to the capital on its own account: a bet and
/// a deposit count what was sent, a withdrawal counts nothing.
pub open spec fn credited(msg: HandleMsg, env: Env) -> int {
    match msg {
        HandleMsg::TryCapitalWithdraw {  } => 0,
        _ => uscrt_amount(env.message.sent_funds@) as int,
    }
}

proof fn lemma_payout_response_total(r: HandleResponse, env: Env, amount: u128, action: Seq<char>)
    requires
        is_payout_response(r, env, amount, action),
    ensures
        msgs_total(r.messages@) == amount,
{
    let m = r.messages@;
    assert(m.drop_last().len() == 0);
    assert(m.last() == m[0]);
    assert(msgs_total(m.drop_last()) == 0);
    match m[0] {
        CosmosMsg::BankSend { amount: coins, .. } => {
            assert(coins@.drop_last().len() == 0);
            assert(coins@.last() == coins@[0]);
            assert(coins_total(coins@.drop_last()) == 0);
            assert(coins_total(coins@) == amount);
        },
    }
}

proof fn lemma_withdraw_amount_nonneg(stakes: Seq<StakeInfo>, who: Seq<char>, capital: u128)
    ensures
        withdraw_amount(stakes, who, capital) >= 0,
    decreases stakes.len(),
{
    if stakes.len() > 0 {
        let o = stakes.last().ownership_percentage;
        assert(o * capital >= 0) by (nonlinear_arith);
        lemma_withdraw_amount_nonneg(stakes.drop_last(), who, capital);
    }
}

/// A bet that goes through leaves the house with its capital plus what the
/// player sent, less what it pays the player.
pub proof fn law_bet_accounts_for_funds(
    c0: Casino,
    env: Env,
    raw_address: Option<Vec<u8>>,
    phrase: String,
    prediction_number: u64,
    position: String,
    bet: u128,
    resp: HandleResponse,
    room: Room,
    c1: Casino,
)
    requires
        crate::spec::ruler_fits(c0, env, raw_address, phrase@, prediction_number, position@, bet),
        ruler_post(
            c0,
            env,
            raw_address,
            phrase,
            prediction_number,
            position,
            bet,
            Ok((resp, room)),
            c1,
        ),
    ensures
        c1.capital + msgs_total(resp.messages@) == c0.capital + uscrt_amount(
            env.message.sent_funds@,
        ),
        room.results ==> msgs_total(resp.messages@) == room.payout,
        !room.results ==> msgs_total(resp.messages@) == 0,
{
    let payout = ruler_check(c0, env, prediction_number, position@, bet)->Ok_0;
    let lucky_number = crate::spec::bet_lucky_number(c0, phrase@, raw_address->Some_0@, env);
    let win = wins(position@ == over_word(), lucky_number, prediction_number);
    if win {
        lemma_payout_response_total(resp, env, payout, crate::spec::transfer_payout_word());
    }
}

/// A bet that goes through never risks more than the house allows: its
/// payout is at most the capital times `max_bet_rate` millionths, so at most
/// the whole capital when that rate is at most 1000000.
pub proof fn law_bet_within_reserves(
    c0: Casino,
    env: Env,
    raw_address: Option<Vec<u8>>,
    phrase: String,
    prediction_number: u64,
    position: String,
    bet: u128,
    resp: HandleResponse,
    room: Room,
    c1: Casino,
)
    requires
        ruler_post(
            c0,
            env,
            raw_address,
            phrase,
            prediction_number,
            position,
            bet,
            Ok((resp, room)),
            c1,
        ),
    ensures
        room.payout <= c0.capital * c0.max_bet_rate / 1000000,
        c0.max_bet_rate <= 1000000 ==> room.payout <= c0.capital,
{
    if c0.max_bet_rate <= 1000000 {
        let c = c0.capital;
        let r = c0.max_bet_rate;
        assert(c * r / 1000000 <= c) by (nonlinear_arith)
            requires
                0 <= c,
                0 <= r <= 1000000,
        ;
    }
}

/// The draw of a bet depends only on the house seed, the phrase, the
/// player's canonical address and the block (chain id, height and time): two
/// bets that agree on those draw the same number from the same entropy,
/// whatever their prediction, side and stake and whatever the capital.
pub proof fn law_draw_ignores_the_bet(
    c0a: Casino,
    env_a: Env,
    raw_a: Vec<u8>,
    phrase_a: String,
    prediction_a: u64,
    position_a: String,
    bet_a: u128,
    resp_a: HandleResponse,
    room_a: Room,
    c1a: Casino,
    c0b: Casino,
    env_b: Env,
    raw_b: Vec<u8>,
    phrase_b: String,
    prediction_b: u64,
    position_b: String,
    bet_b: u128,
    resp_b: HandleResponse,
    room_b: Room,
    c1b: Casino,
)
    requires
        ruler_post(
            c0a,
            env_a,
            Some(raw_a),
            phrase_a,
            prediction_a,
            position_a,
            bet_a,
            Ok((resp_a, room_a)),
            c1a,
        ),
        ruler_post(
            c0b,
            env_b,
            Some(raw_b),
            phrase_b,
            prediction_b,
            position_b,
            bet_b,
            Ok((resp_b, room_b)),
            c1b,
        ),
        c0a.seed@ == c0b.seed@,
        phrase_a@ == phrase_b@,
        raw_a@ == raw_b@,
        env_a.block.chain_id@ == env_b.block.chain_id@,
        env_a.block.height == env_b.block.height,
        env_a.block.time == env_b.block.time,
    ensures
        room_a.entropy@ == room_b.entropy@,
        room_a.lucky_number == room_b.lucky_number,
        room_a.lucky_number < crate::draw::FACES,
{
    assert(crate::spec::entropy_input(phrase_a@, raw_a@, env_a) == crate::spec::entropy_input(
        phrase_b@,
        raw_b@,
        env_b,
    ));
}

/// The payout of a winning bet is the bet times (1000000 - fee) divided by
/// the bet's divisor, over 10000, all in integer arithmetic: the divisor is
/// prediction * 5 / 3 for "under" and 99 - prediction * 5 / 3 for "over".
pub proof fn law_payout_formula(prediction_number: u64, is_over: bool, bet: u128, fee: u64)
    requires
        fee <= 1000000,
        is_over ==> prediction_number * 5 / 3 < 99,
        !is_over ==> prediction_number * 5 / 3 > 0,
    ensures
        is_over ==> spec_payout(prediction_number, is_over, bet, fee) == bet * ((1000000 - fee) / (99
            - prediction_number * 5 / 3)) / 10000,
        !is_over ==> spec_payout(prediction_number, is_over, bet, fee) == bet * ((1000000 - fee) / (
        prediction_number * 5 / 3)) / 10000,
{
}

/// A bet that goes through is won exactly when the drawn number is strictly
/// below the prediction ("under") or strictly above it ("over"): a draw equal
/// to the prediction never wins. The drawn number is below 59, the room
/// records the prediction and the bet, the payout is the formula of
/// `law_payout_formula` on the house fee, and the capital takes the bet and,
/// on a win, gives the payout.
pub proof fn law_bet_outcome(
    c0: Casino,
    env: Env,
    raw_address: Option<Vec<u8>>,
    phrase: String,
    prediction_number: u64,
    position: String,
    bet: u128,
    resp: HandleResponse,
    room: Room,
    c1: Casino,
)
    requires
        crate::spec::ruler_fits(c0, env, raw_address, phrase@, prediction_number, position@, bet),
        ruler_post(
            c0,
            env,
            raw_address,
            phrase,
            prediction_number,
            position,
            bet,
            Ok((resp, room)),
            c1,
        ),
    ensures
        position@ == seq!['u', 'n', 'd', 'e', 'r'] || position@ == seq!['o', 'v', 'e', 'r'],
        room.prediction_number == prediction_number,
        room.bet_amount == bet,
        room.lucky_number < 59,
        position@ == seq!['u', 'n', 'd', 'e', 'r'] ==> (room.results <==> room.lucky_number
            < prediction_number),
        position@ == seq!['o', 'v', 'e', 'r'] ==> (room.results <==> room.lucky_number
            > prediction_number),
        room.lucky_number == prediction_number ==> !room.results,
        position@ == seq!['u', 'n', 'd', 'e', 'r'] ==> room.payout == bet * ((1000000
            - c0.house_fee) / (prediction_number * 5 / 3)) / 10000,
        position@ == seq!['o', 'v', 'e', 'r'] ==> room.payout == bet * ((1000000 - c0.house_fee) / (
        99 - prediction_number * 5 / 3)) / 10000,
        room.results ==> c1.capital == c0.capital + bet - room.payout,
        !room.results ==> c1.capital == c0.capital + bet,
        c1.bet_cumulative_amount == c0.bet_cumulative_amount + bet,
        raw_address matches Some(addr) && room.entropy@ == crate::hash::sha256(
            vstd::utf8::encode_utf8(phrase@) + addr@ + vstd::utf8::encode_utf8(env.block.chain_id@)
                + crate::hash::be_bytes(env.block.height) + crate::hash::be_bytes(env.block.time),
        ) + crate::hash::be_bytes(env.block.time),
        room.lucky_number == crate::draw::chacha20_first_u32(
            crate::hash::sha256(c0.seed@ + room.entropy@),
        ) % 59,
{
    let addr = raw_address->Some_0;
    let n = crate::spec::bet_lucky_number(c0, phrase@, addr@, env);
    assert(over_word() =~= seq!['o', 'v', 'e', 'r']);
    assert(under_word() =~= seq!['u', 'n', 'd', 'e', 'r']);
    let is_over = position@ == over_word();
    law_payout_formula(prediction_number, is_over, bet, c0.house_fee);
}

/// Every admissible bet passes the checks: an "over" bet on 2 to 58 or an
/// "under" bet on 1 to 57, whose payout the capital times `max_bet_rate`
/// millionths covers, paid with coins that are all "uscrt", the last of
/// which is the bet, is accepted with that payout.
pub proof fn law_admissible_bet_passes_checks(
    casino: Casino,
    env: Env,
    prediction_number: u64,
    position: Seq<char>,
    bet: u128,
)
    requires
        (position == seq!['o', 'v', 'e', 'r'] && 2 <= prediction_number <= 58) || (position
            == seq!['u', 'n', 'd', 'e', 'r'] && 1 <= prediction_number <= 57),
        casino.house_fee <= 1000000,
        ({
            let d = if position == seq!['o', 'v', 'e', 'r'] {
                99 - prediction_number * 5 / 3
            } else {
                prediction_number * 5 / 3
            };
            &&& bet * ((1000000 - casino.house_fee) / d) <= u128::MAX
            &&& bet * ((1000000 - casino.house_fee) / d) / 10000 <= casino.capital
                * casino.max_bet_rate / 1000000
        }),
        env.message.sent_funds@.len() > 0,
        forall|i: int|
            0 <= i < env.message.sent_funds@.len() ==> (#[trigger] env.message.sent_funds@[i]).denom@
                == seq!['u', 's', 'c', 'r', 't'],
        env.message.sent_funds@.last().amount == bet,
    ensures
        ruler_check(casino, env, prediction_number, position, bet) == Ok::<u128, CasinoError>(
            (bet * ((1000000 - casino.house_fee) / (if position == seq!['o', 'v', 'e', 'r'] {
                99 - prediction_number * 5 / 3
            } else {
                prediction_number * 5 / 3
            })) / 10000) as u128,
        ),
{
    assert(over_word() =~= seq!['o', 'v', 'e', 'r']);
    assert(under_word() =~= seq!['u', 'n', 'd', 'e', 'r']);
    assert(crate::types::uscrt_word() =~= seq!['u', 's', 'c', 'r', 't']);
    let is_over = position == over_word();
    assert(is_over ==> prediction_number * 5 / 3 < 99);
    assert(!is_over ==> prediction_number * 5 / 3 > 0);
    law_payout_formula(prediction_number, is_over, bet, casino.house_fee);
    let funds = env.message.sent_funds@;
    assert(funds.last() == funds[funds.len() - 1]);
    assert(crate::spec::all_uscrt(funds));
}

/// A bet's prediction is refused as out of range exactly when it is an
/// "over" bet outside 2 to 58, or an "under" bet outside 1 to 57.
pub proof fn law_prediction_ranges(
    casino: Casino,
    env: Env,
    prediction_number: u64,
    position: Seq<char>,
    bet: u128,
)
    ensures
        (ruler_check(casino, env, prediction_number, position, bet) == Err::<u128, CasinoError>(
            CasinoError::OverPredictionOutOfRange,
        )) <==> (position == seq!['o', 'v', 'e', 'r'] && (prediction_number < 2
            || prediction_number > 58)),
        (ruler_check(casino, env, prediction_number, position, bet) == Err::<u128, CasinoError>(
            CasinoError::UnderPredictionOutOfRange,
        )) <==> (position == seq!['u', 'n', 'd', 'e', 'r'] && (prediction_number < 1
            || prediction_number > 57)),
{
    assert(over_word() =~= seq!['o', 'v', 'e', 'r']);
    assert(under_word() =~= seq!['u', 'n', 'd', 'e', 'r']);
    assert(over_word() != under_word());
}

/// A bet of admissible shape whose payout exceeds the capital times
/// `max_bet_rate` millionths is refused for lack of reserves, with the
/// capital, the payout and the rate in the refusal.
pub proof fn law_bet_beyond_reserves_refused(
    casino: Casino,
    env: Env,
    prediction_number: u64,
    position: Seq<char>,
    bet: u128,
)
    requires
        (position == seq!['o', 'v', 'e', 'r'] && 2 <= prediction_number <= 58) || (position
            == seq!['u', 'n', 'd', 'e', 'r'] && 1 <= prediction_number <= 57),
        casino.house_fee <= 1000000,
        ({
            let d = if position == seq!['o', 'v', 'e', 'r'] {
                99 - prediction_number * 5 / 3
            } else {
                prediction_number * 5 / 3
            };
            &&& bet * ((1000000 - casino.house_fee) / d) <= u128::MAX
            &&& casino.capital * casino.max_bet_rate / 1000000 < bet * ((1000000 - casino.house_fee)
                / d) / 10000
        }),
    ensures
        ruler_check(casino, env, prediction_number, position, bet) == Err::<u128, CasinoError>(
            CasinoError::LackOfReserves {
                capital: casino.capital,
                payout: (bet * ((1000000 - casino.house_fee) / (if position == seq![
                    'o',
                    'v',
                    'e',
                    'r',
                ] {
                    99 - prediction_number * 5 / 3
                } else {
                    prediction_number * 5 / 3
                })) / 10000) as u128,
                max_bet_rate: casino.max_bet_rate,
            },
        ),
{
    assert(over_word() =~= seq!['o', 'v', 'e', 'r']);
    assert(under_word() =~= seq!['u', 'n', 'd', 'e', 'r']);
    let is_over = position == over_word();
    law_payout_formula(prediction_number, is_over, bet, casino.house_fee);
}

/// The "uscrt" counted from the coins sent is the amount of the last coin
/// in "uscrt", and 0 when no coin is in "uscrt".
pub proof fn law_uscrt_amount_is_last_uscrt_coin(funds: Seq<crate::types::Coin>)
    ensures
        (forall|i: int| 0 <= i < funds.len() ==> (#[trigger] funds[i]).denom@ != seq![
            'u',
            's',
            'c',
            'r',
            't',
        ]) ==> uscrt_amount(funds) == 0,
        forall|k: int|
            0 <= k < funds.len() && (#[trigger] funds[k]).denom@ == seq!['u', 's', 'c', 'r', 't']
                && (forall|j: int| k < j < funds.len() ==> (#[trigger] funds[j]).denom@ != seq![
                'u',
                's',
                'c',
                'r',
                't',
            ]) ==> uscrt_amount(funds) == funds[k].amount,
    decreases funds.len(),
{
    assert(crate::types::uscrt_word() =~= seq!['u', 's', 'c', 'r', 't']);
    if funds.len() > 0 {
        let rest = funds.drop_last();
        law_uscrt_amount_is_last_uscrt_coin(rest);
        let n = funds.len() - 1;
        assert(funds.last() == funds[n]);
        assert forall|i: int| 0 <= i < rest.len() implies rest[i] == funds[i] by {}
    }
}

/// The eight bytes of a number, most significant first, are its base-256
/// digits.
pub proof fn law_be_bytes_digits(x: u64)
    ensures
        crate::hash::be_bytes(x).len() == 8,
        crate::hash::be_bytes(x)[0] == x / 0x100000000000000,
        crate::hash::be_bytes(x)[1] == x / 0x1000000000000 % 256,
        crate::hash::be_bytes(x)[2] == x / 0x10000000000 % 256,
        crate::hash::be_bytes(x)[3] == x / 0x100000000 % 256,
        crate::hash::be_bytes(x)[4] == x / 0x1000000 % 256,
        crate::hash::be_bytes(x)[5] == x / 0x10000 % 256,
        crate::hash::be_bytes(x)[6] == x / 0x100 % 256,
        crate::hash::be_bytes(x)[7] == x % 256,
{
    assert(((x >> 56) & 0xff) as u8 == x / 0x100000000000000) by (bit_vector);
    assert(((x >> 48) & 0xff) as u8 == x / 0x1000000000000 % 256) by (bit_vector);
    assert(((x >> 40) & 0xff) as u8 == x / 0x10000000000 % 256) by (bit_vector);
    assert(((x >> 32) & 0xff) as u8 == x / 0x100000000 % 256) by (bit_vector);
    assert(((x >> 24) & 0xff) as u8 == x / 0x1000000 % 256) by (bit_vector);
    assert(((x >> 16) & 0xff) as u8 == x / 0x10000 % 256) by (bit_vector);
    assert(((x >> 8) & 0xff) as u8 == x / 0x100 % 256) by (bit_vector);
    assert((x & 0xff) as u8 == x % 256) by (bit_vector);
}

/// A deposit that goes through adds exactly the "uscrt" sent to the capital
/// and pays nothing out.
pub proof fn law_deposit_accounts_for_funds(
    c0: Casino,
    s0: Seq<StakeInfo>,
    env: Env,
    resp: HandleResponse,
    c1: Casino,
    s1: Seq<StakeInfo>,
)
    requires
        deposit_fits(c0, s0, env),
        deposit_post(c0, s0, env, Ok(resp), c1, s1),
    ensures
        c1.capital == c0.capital + uscrt_amount(env.message.sent_funds@),
        msgs_total(resp.messages@) == 0,
{
}

/// A withdrawal that goes through pays the member exactly what it takes off
/// the capital.
pub proof fn law_withdraw_accounts_for_funds(
    c0: Casino,
    s0: Seq<StakeInfo>,
    env: Env,
    resp: HandleResponse,
    c1: Casino,
    s1: Seq<StakeInfo>,
)
    requires
        withdraw_fits(c0, s0, env),
        withdraw_post(c0, s0, env, Ok(resp), c1, s1),
    ensures
        c1.capital + msgs_total(resp.messages@) == c0.capital,
        msgs_total(resp.messages@) == withdraw_amount(s0, env.message.sender@, c0.capital),
{
    let amount = withdraw_amount(s0, env.message.sender@, c0.capital);
    lemma_withdraw_amount_nonneg(s0, env.message.sender@, c0.capital);
    lemma_payout_response_total(resp, env, amount as u128, crate::spec::capital_withdraw_word());
}

/// Every request that goes through leaves the capital equal to what it was,
/// plus what the request credits, less what the response pays out.
pub proof fn law_request_accounts_for_funds(
    s0: CasinoState,
    env: Env,
    msg: HandleMsg,
    raw_address: Option<Vec<u8>>,
    resp: HandleResponse,
    room: Option<Room>,
    s1: CasinoState,
)
    requires
        handle_fits(s0, env, msg, raw_address),
        handle_post(s0, env, msg, raw_address, Ok((resp, room)), s1),
    ensures
        s1.casino.capital + msgs_total(resp.messages@) == s0.casino.capital + credited(msg, env),
{
    match msg {
        HandleMsg::Ruler { phrase, prediction_number, position, bet_amount } => {
            law_bet_accounts_for_funds(
                s0.casino,
                env,
                raw_address,
                phrase,
                prediction_number,
                position,
                bet_amount,
                resp,
                room.unwrap(),
                s1.casino,
            );
        },
        HandleMsg::TryCapitalDeposit {  } => {
            law_deposit_accounts_for_funds(
                s0.casino,
                s0.stakes@,
                env,
                resp,
                s1.casino,
                s1.stakes@,
            );
        },
        HandleMsg::TryCapitalWithdraw {  } => {
            law_withdraw_accounts_for_funds(
                s0.casino,
                s0.stakes@,
                env,
                resp,
                s1.casino,
                s1.stakes@,
            );
        },
    }
}

/// A refused request changes nothing that is stored.
pub proof fn law_refused_request_changes_nothing(
    s0: CasinoState,
    env: Env,
    msg: HandleMsg,
    raw_address: Option<Vec<u8>>,
    e: CasinoError,
    s1: CasinoState,
)
    requires
        handle_post(s0, env, msg, raw_address, Err(e), s1),
    ensures
        s1.casino == s0.casino,
        s1.stakes@ == s0.stakes@,
        s1.results == s0.results,
{
}

// ---------------------------------------------------------------------------
// The staking pool stays sound

/// The sum of the ownership of the members other than `who`.
pub open spec fn others_sum(stakes: Seq<StakeInfo>, who: Seq<char>) -> int
    decreases stakes.len(),
{
    if stakes.len() == 0 {
        0
    } else if stakes.last().address@ == who {
        others_sum(stakes.drop_last(), who)
    } else {
        others_sum(stakes.drop_last(), who) + stakes.last().ownership_percentage
    }
}

proof fn lemma_div_mul_le(x: int, d: int)
    requires
        x >= 0,
        d > 0,
    ensures
        0 <= x / d,
        d * (x / d) <= x,
        x / d <= x,
{
    assert(0 <= x / d && d * (x / d) <= x) by (nonlinear_arith)
        requires
            x >= 0,
            d > 0,
    ;
    assert(x / d <= x) by (nonlinear_arith)
        requires
            x >= 0,
            d > 0,
            d * (x / d) <= x,
            0 <= x / d,
    ;
}

proof fn lemma_ownership_sum_nonneg(stakes: Seq<StakeInfo>)
    ensures
        ownership_sum(stakes) >= 0,
    decreases stakes.len(),
{
    if stakes.len() > 0 {
        lemma_ownership_sum_nonneg(stakes.drop_last());
    }
}

proof fn lemma_others_sum_nonneg(stakes: Seq<StakeInfo>, who: Seq<char>)
    ensures
        others_sum(stakes, who) >= 0,
    decreases stakes.len(),
{
    if stakes.len() > 0 {
        lemma_others_sum_nonneg(stakes.drop_last(), who);
    }
}

/// One member expressed anew against `new_capital` owns, times the new
/// capital, at most its old ownership times the old capital.
proof fn lemma_rescaled_bound(s: StakeInfo, capital: u128, new_capital: int)
    requires
        new_capital > 0,
        (SHARE_SCALE as int) * share(capital, s.ownership_percentage) <= u128::MAX,
    ensures
        rescaled(s, capital, new_capital).address == s.address,
        new_capital * rescaled(s, capital, new_capital).ownership_percentage <= capital
            * s.ownership_percentage,
        rescaled(s, capital, new_capital).begin_amount == s.begin_amount,
        rescaled(s, capital, new_capital).ownership_percentage == 100000000 * (capital
            * s.ownership_percentage / 100000000) / new_capital,
{
    let p = SHARE_SCALE as int;
    let co = capital * s.ownership_percentage;
    assert(capital * s.ownership_percentage >= 0) by (nonlinear_arith);
    lemma_div_mul_le(co, p);
    let d = share(capital, s.ownership_percentage);
    assert(p * d >= 0) by (nonlinear_arith)
        requires
            d >= 0,
            p > 0,
    ;
    lemma_div_mul_le(p * d, new_capital);
    let x = p * d / new_capital;
    assert(rescaled(s, capital, new_capital).ownership_percentage == x);
}

proof fn lemma_rescale_all(stakes: Seq<StakeInfo>, capital: u128, new_capital: int)
    requires
        new_capital > 0,
        forall|i: int|
            0 <= i < stakes.len() ==> (SHARE_SCALE as int) * share(
                capital,
                (#[trigger] stakes[i]).ownership_percentage,
            ) <= u128::MAX,
    ensures
        rescale_all(stakes, capital, new_capital).len() == stakes.len(),
        forall|i: int|
            0 <= i < stakes.len() ==> (#[trigger] rescale_all(stakes, capital, new_capital)[i]).address
                == stakes[i].address,
        new_capital * ownership_sum(rescale_all(stakes, capital, new_capital)) <= capital
            * ownership_sum(stakes),
    decreases stakes.len(),
{
    if stakes.len() > 0 {
        let rest = stakes.drop_last();
        lemma_rescale_all(rest, capital, new_capital);
        let r = rescale_all(stakes, capital, new_capital);
        let rr = rescale_all(rest, capital, new_capital);
        let x = rescaled(stakes.last(), capital, new_capital);
        assert(r == rr.push(x));
        assert(r.drop_last() =~= rr);
        lemma_rescaled_bound(stakes.last(), capital, new_capital);
        let a = ownership_sum(rr);
        let b = ownership_sum(rest);
        let o = stakes.last().ownership_percentage;
        let xo = x.ownership_percentage;
        assert(ownership_sum(r) == a + xo);
        assert(ownership_sum(stakes) == b + o);
        assert(new_capital * (a + xo) <= capital * (b + o)) by (nonlinear_arith)
            requires
                new_capital * a <= capital * b,
                new_capital * xo <= capital * o,
        ;
        assert forall|i: int| 0 <= i < stakes.len() implies (#[trigger] r[i]).address
            == stakes[i].address by {
            if i < stakes.len() - 1 {
                assert(r[i] == rr[i]);
                assert(stakes[i] == rest[i]);
            }
        }
    }
}

proof fn lemma_others_addresses(
    stakes: Seq<StakeInfo>,
    who: Seq<char>,
    capital: u128,
    new_capital: int,
)
    ensures
        forall|k: int|
            0 <= k < others_rescaled(stakes, who, capital, new_capital).len() ==> exists|j: int|
                0 <= j < stakes.len() && stakes[j].address@ != who && (#[trigger] others_rescaled(
                    stakes,
                    who,
                    capital,
                    new_capital,
                )[k]).address == stakes[j].address,
        unique_addresses(stakes) ==> unique_addresses(
            others_rescaled(stakes, who, capital, new_capital),
        ),
    decreases stakes.len(),
{
    if stakes.len() > 0 {
        let rest = stakes.drop_last();
        lemma_others_addresses(rest, who, capital, new_capital);
        let r = others_rescaled(stakes, who, capital, new_capital);
        let rr = others_rescaled(rest, who, capital, new_capital);
        let last = stakes.last();
        let n = stakes.len() - 1;
        if last.address@ == who {
            assert(r == rr);
            assert forall|k: int| 0 <= k < r.len() implies exists|j: int|
                0 <= j < stakes.len() && stakes[j].address@ != who && (#[trigger] r[k]).address
                    == stakes[j].address by {
                let j = choose|j: int|
                    0 <= j < rest.len() && rest[j].address@ != who && rr[k].address
                        == rest[j].address;
                assert(stakes[j] == rest[j]);
            }
            if unique_addresses(stakes) {
                assert forall|i: int, j: int| 0 <= i < j < rest.len() implies (#[trigger] rest[i]).address@
                    != (#[trigger] rest[j]).address@ by {
                    assert(rest[i] == stakes[i] && rest[j] == stakes[j]);
                }
            }
        } else {
            let x = rescaled(last, capital, new_capital);
            assert(r == rr.push(x));
            assert forall|k: int| 0 <= k < r.len() implies exists|j: int|
                0 <= j < stakes.len() && stakes[j].address@ != who && (#[trigger] r[k]).address
                    == stakes[j].address by {
                if k < rr.len() {
                    assert(r[k] == rr[k]);
                    let j = choose|j: int|
                        0 <= j < rest.len() && rest[j].address@ != who && rr[k].address
                            == rest[j].address;
                    assert(stakes[j] == rest[j]);
                } else {
                    assert(r[k] == x);
                    assert(stakes[n] == last);
                }
            }
            if unique_addresses(stakes) {
                assert forall|i: int, j: int| 0 <= i < j < rest.len() implies (#[trigger] rest[i]).address@
                    != (#[trigger] rest[j]).address@ by {
                    assert(rest[i] == stakes[i] && rest[j] == stakes[j]);
                }
                assert forall|i: int, j: int| 0 <= i < j < r.len() implies (#[trigger] r[i]).address@
                    != (#[trigger] r[j]).address@ by {
                    if j < rr.len() {
                        assert(r[i] == rr[i] && r[j] == rr[j]);
                    } else {
                        assert(r[i] == rr[i]);
                        assert(r[j] == x);
                        let m = choose|m: int|
                            0 <= m < rest.len() && rest[m].address@ != who && rr[i].address
                                == rest[m].address;
                        assert(stakes[m] == rest[m]);
                        assert(stakes[n] == last);
                    }
                }
            }
        }
    }
}

proof fn lemma_others_sum_bound(
    stakes: Seq<StakeInfo>,
    who: Seq<char>,
    capital: u128,
    new_capital: int,
)
    requires
        new_capital > 0,
        forall|i: int|
            0 <= i < stakes.len() && (#[trigger] stakes[i]).address@ != who ==> (SHARE_SCALE as int)
                * share(capital, stakes[i].ownership_percentage) <= u128::MAX,
    ensures
        new_capital * ownership_sum(others_rescaled(stakes, who, capital, new_capital)) <= capital
            * others_sum(stakes, who),
    decreases stakes.len(),
{
    if stakes.len() > 0 {
        let rest = stakes.drop_last();
        assert forall|i: int|
            0 <= i < rest.len() && (#[trigger] rest[i]).address@ != who implies (SHARE_SCALE as int)
                * share(capital, rest[i].ownership_percentage) <= u128::MAX by {
            assert(rest[i] == stakes[i]);
        }
        lemma_others_sum_bound(rest, who, capital, new_capital);
        let r = others_rescaled(stakes, who, capital, new_capital);
        let rr = others_rescaled(rest, who, capital, new_capital);
        let last = stakes.last();
        if last.address@ != who {
            let x = rescaled(last, capital, new_capital);
            assert(r == rr.push(x));
            assert(r.drop_last() =~= rr);
            assert(stakes[stakes.len() - 1] == last);
            lemma_rescaled_bound(last, capital, new_capital);
            let a = ownership_sum(rr);
            let b = others_sum(rest, who);
            let o = last.ownership_percentage;
            let xo = x.ownership_percentage;
            assert(ownership_sum(r) == a + xo);
            assert(new_capital * (a + xo) <= capital * (b + o)) by (nonlinear_arith)
                requires
                    new_capital * a <= capital * b,
                    new_capital * xo <= capital * o,
            ;
        }
    }
}

proof fn lemma_no_member_is(stakes: Seq<StakeInfo>, who: Seq<char>, capital: u128)
    requires
        forall|i: int| 0 <= i < stakes.len() ==> (#[trigger] stakes[i]).address@ != who,
    ensures
        others_sum(stakes, who) == ownership_sum(stakes),
        withdraw_amount(stakes, who, capital) == 0,
    decreases stakes.len(),
{
    if stakes.len() > 0 {
        let rest = stakes.drop_last();
        assert(stakes[stakes.len() - 1] == stakes.last());
        assert forall|i: int| 0 <= i < rest.len() implies (#[trigger] rest[i]).address@ != who by {
            assert(rest[i] == stakes[i]);
        }
        lemma_no_member_is(rest, who, capital);
    }
}

/// In a pool where addresses are unique, what `who` withdraws is the share
/// of its one stake, and the others own the rest.
proof fn lemma_unique_member(stakes: Seq<StakeInfo>, who: Seq<char>, capital: u128, k: int)
    requires
        unique_addresses(stakes),
        0 <= k < stakes.len(),
        stakes[k].address@ == who,
    ensures
        others_sum(stakes, who) == ownership_sum(stakes) - stakes[k].ownership_percentage,
        withdraw_amount(stakes, who, capital) == (stakes[k].ownership_percentage * capital) / (
        SHARE_SCALE as int),
    decreases stakes.len(),
{
    let rest = stakes.drop_last();
    let n = stakes.len() - 1;
    assert(stakes[n] == stakes.last());
    assert forall|i: int, j: int| 0 <= i < j < rest.len() implies (#[trigger] rest[i]).address@
        != (#[trigger] rest[j]).address@ by {
        assert(rest[i] == stakes[i] && rest[j] == stakes[j]);
    }
    if k == n {
        assert forall|i: int| 0 <= i < rest.len() implies (#[trigger] rest[i]).address@ != who by {
            assert(rest[i] == stakes[i]);
        }
        lemma_no_member_is(rest, who, capital);
    } else {
        assert(rest[k] == stakes[k]);
        assert(stakes.last().address@ != who);
        lemma_unique_member(rest, who, capital, k);
    }
}

/// A deposit keeps the pool sound: the new member is not yet in it, and the
/// shares expressed anew against the larger capital, with the new member's,
/// still add up to at most the whole.
pub proof fn law_deposit_keeps_pool_sound(
    c0: Casino,
    s0: Seq<StakeInfo>,
    env: Env,
    resp: HandleResponse,
    c1: Casino,
    s1: Seq<StakeInfo>,
)
    requires
        pool_sound(s0),
        deposit_fits(c0, s0, env),
        deposit_post(c0, s0, env, Ok(resp), c1, s1),
    ensures
        pool_sound(s1),
{
    let amount = uscrt_amount(env.message.sent_funds@);
    let sender = env.message.sender@;
    let c = c0.capital;
    let n = c + amount;
    let p = SHARE_SCALE as int;
    assert forall|i: int| 0 <= i < s0.len() implies (SHARE_SCALE as int) * share(
        c,
        (#[trigger] s0[i]).ownership_percentage,
    ) <= u128::MAX by {
        none_up_to_all_holds(s0, sender, i);
    }
    lemma_rescale_all(s0, c, n);
    let r = rescale_all(s0, c, n);
    let mine = new_stake(env.message.sender, c, amount);
    assert(s1 == r.push(mine));
    assert(s1.drop_last() =~= r);
    lemma_div_mul_le(p * amount, n);
    let own = p * amount / n;
    assert(mine.ownership_percentage == own);
    lemma_ownership_sum_nonneg(s0);
    lemma_ownership_sum_nonneg(r);
    let a = ownership_sum(r);
    let b = ownership_sum(s0);
    assert(ownership_sum(s1) == a + own);
    assert(a + own <= p) by (nonlinear_arith)
        requires
            n * a <= c * b,
            n * own <= p * amount,
            b <= p,
            c >= 0,
            n == c + amount,
            n > 0,
    ;
    assert forall|i: int, j: int| 0 <= i < j < s1.len() implies (#[trigger] s1[i]).address@
        != (#[trigger] s1[j]).address@ by {
        assert(s1[i] == r[i]);
        if j < r.len() {
            assert(s1[j] == r[j]);
        } else {
            assert(s1[j] == mine);
            assert(!(0 <= i < s0.len() && s0[i].address@ == sender));
        }
    }
}

/// No member among the first `i + 1` is `who` when none at all is.
proof fn none_up_to_all_holds(stakes: Seq<StakeInfo>, who: Seq<char>, i: int)
    requires
        !has_stake(stakes, who),
        i < stakes.len(),
    ensures
        crate::spec::none_up_to(stakes, who, i),
{
    assert forall|j: int| 0 <= j <= i implies (#[trigger] stakes[j]).address@ != who by {
        assert(!(stakes[j].address@ == who));
    }
}

/// A withdrawal keeps the pool sound: the member leaves, and the others'
/// shares expressed anew against the smaller capital still add up to at most
/// the whole.
pub proof fn law_withdraw_keeps_pool_sound(
    c0: Casino,
    s0: Seq<StakeInfo>,
    env: Env,
    resp: HandleResponse,
    c1: Casino,
    s1: Seq<StakeInfo>,
)
    requires
        pool_sound(s0),
        withdraw_fits(c0, s0, env),
        withdraw_post(c0, s0, env, Ok(resp), c1, s1),
    ensures
        pool_sound(s1),
{
    let who = env.message.sender@;
    let c = c0.capital;
    let amount = withdraw_amount(s0, who, c);
    let n = c - amount;
    let p = SHARE_SCALE as int;
    lemma_others_addresses(s0, who, c, n);
    if !has_stake(s0, who) {
        assert forall|i: int| 0 <= i < s0.len() implies (#[trigger] s0[i]).address@ != who by {
            assert(!(s0[i].address@ == who));
        }
        lemma_no_member_is(s0, who, c);
        assert(false);
    }
    let k = choose|k: int| 0 <= k < s0.len() && (#[trigger] s0[k]).address@ == who;
    lemma_unique_member(s0, who, c, k);
    let o = s0[k].ownership_percentage;
    lemma_ownership_sum_nonneg(s1);
    if n > 0 {
        lemma_others_sum_bound(s0, who, c, n);
        assert(o * c >= 0) by (nonlinear_arith);
        lemma_div_mul_le(o * c, p);
        let a = ownership_sum(s1);
        let b = ownership_sum(s0);
        lemma_others_sum_nonneg(s0, who);
        assert(a <= p) by (nonlinear_arith)
            requires
                n * a <= c * (b - o),
                p * amount <= o * c,
                b <= p,
                b - o >= 0,
                c >= 0,
                n == c - amount,
                n > 0,
        ;
    } else {
        if s1.len() > 0 {
            let j = choose|j: int|
                0 <= j < s0.len() && s0[j].address@ != who && (#[trigger] s1[0]).address
                    == s0[j].address;
            assert(s0[j].address@ != who);
            assert(false);
        }
        assert(ownership_sum(s1) == 0);
    }
}

/// A new house starts with a sound, empty pool.
pub proof fn law_init_pool_sound(env: Env, msg: InitMsg, state: CasinoState)
    requires
        init_post(env, msg, state),
    ensures
        pool_sound(state.stakes@),
{
}

/// Every request keeps the pool sound: a bet leaves it as it is, a deposit
/// and a withdrawal keep it sound.
pub proof fn law_request_keeps_pool_sound(
    s0: CasinoState,
    env: Env,
    msg: HandleMsg,
    raw_address: Option<Vec<u8>>,
    res: core::result::Result<(HandleResponse, Option<Room>), CasinoError>,
    s1: CasinoState,
)
    requires
        pool_sound(s0.stakes@),
        handle_fits(s0, env, msg, raw_address),
        handle_post(s0, env, msg, raw_address, res, s1),
    ensures
        pool_sound(s1.stakes@),
{
    match msg {
        HandleMsg::Ruler { .. } => {},
        HandleMsg::TryCapitalDeposit {  } => {
            if let Ok((resp, room)) = res {
                law_deposit_keeps_pool_sound(
                    s0.casino,
                    s0.stakes@,
                    env,
                    resp,
                    s1.casino,
                    s1.stakes@,
                );
            }
        },
        HandleMsg::TryCapitalWithdraw {  } => {
            if let Ok((resp, room)) = res {
                law_withdraw_keeps_pool_sound(
                    s0.casino,
                    s0.stakes@,
                    env,
                    resp,
                    s1.casino,
                    s1.stakes@,
                );
            }
        },
    }
}

// ---------------------------------------------------------------------------
// The shares after a deposit or a withdrawal, in the pool's own terms

proof fn lemma_rescale_all_index(stakes: Seq<StakeInfo>, capital: u128, new_capital: int, i: int)
    requires
        0 <= i < stakes.len(),
    ensures
        rescale_all(stakes, capital, new_capital).len() == stakes.len(),
        rescale_all(stakes, capital, new_capital)[i] == rescaled(stakes[i], capital, new_capital),
    decreases stakes.len(),
{
    let rest = stakes.drop_last();
    let r = rescale_all(stakes, capital, new_capital);
    let rr = rescale_all(rest, capital, new_capital);
    assert(r == rr.push(rescaled(stakes.last(), capital, new_capital)));
    if i < stakes.len() - 1 {
        lemma_rescale_all_index(rest, capital, new_capital, i);
        assert(rest[i] == stakes[i]);
    } else {
        if rest.len() > 0 {
            lemma_rescale_all_index(rest, capital, new_capital, 0);
        }
    }
}

/// After a deposit of `a` "uscrt" (the last "uscrt" coin sent) by someone
/// who held no stake, the capital is `capital + a`; every member keeps its
/// place, address and first deposit, and owns
/// 100000000 * (capital * ownership / 100000000) / (capital + a); and the
/// depositor is appended with `a` as first deposit and
/// 100000000 * a / (capital + a) as ownership.
pub proof fn law_deposit_shares(
    c0: Casino,
    s0: Seq<StakeInfo>,
    env: Env,
    resp: HandleResponse,
    c1: Casino,
    s1: Seq<StakeInfo>,
)
    requires
        deposit_fits(c0, s0, env),
        deposit_post(c0, s0, env, Ok(resp), c1, s1),
    ensures
        uscrt_amount(env.message.sent_funds@) > 0,
        forall|i: int| 0 <= i < s0.len() ==> (#[trigger] s0[i]).address@ != env.message.sender@,
        c1.capital == c0.capital + uscrt_amount(env.message.sent_funds@),
        s1.len() == s0.len() + 1,
        forall|i: int|
            0 <= i < s0.len() ==> {
                &&& (#[trigger] s1[i]).address == s0[i].address
                &&& s1[i].begin_amount == s0[i].begin_amount
                &&& s1[i].ownership_percentage == 100000000 * (c0.capital
                    * s0[i].ownership_percentage / 100000000) / (c0.capital + uscrt_amount(
                    env.message.sent_funds@,
                ))
            },
        s1[s0.len() as int].address == env.message.sender,
        s1[s0.len() as int].begin_amount == uscrt_amount(env.message.sent_funds@),
        s1[s0.len() as int].ownership_percentage == 100000000 * uscrt_amount(
            env.message.sent_funds@,
        ) / (c0.capital + uscrt_amount(env.message.sent_funds@)),
{
    let a = uscrt_amount(env.message.sent_funds@);
    let sender = env.message.sender@;
    let c = c0.capital;
    let n = c + a;
    let p = SHARE_SCALE as int;
    assert forall|i: int| 0 <= i < s0.len() implies (#[trigger] s0[i]).address@ != sender by {
        assert(!(s0[i].address@ == sender));
    }
    let r = rescale_all(s0, c, n);
    assert(s1 == r.push(new_stake(env.message.sender, c, a)));
    if s0.len() > 0 {
        lemma_rescale_all_index(s0, c, n, 0);
    }
    assert forall|i: int| 0 <= i < s0.len() implies {
        &&& (#[trigger] s1[i]).address == s0[i].address
        &&& s1[i].begin_amount == s0[i].begin_amount
        &&& s1[i].ownership_percentage == 100000000 * (c * s0[i].ownership_percentage / 100000000)
            / n
    } by {
        none_up_to_all_holds(s0, sender, i);
        lemma_rescale_all_index(s0, c, n, i);
        lemma_rescaled_bound(s0[i], c, n);
        assert(s1[i] == r[i]);
    }
    lemma_div_mul_le(p * a, n);
    assert(s1[s0.len() as int] == new_stake(env.message.sender, c, a));
}

/// What a withdrawal takes out is the share of the caller's last stake:
/// its ownership times the capital, over 100000000, paid to the caller and
/// taken off the capital; every member that remains is another member whose
/// ownership is expressed anew against the smaller capital, and every other
/// member remains.
#[verifier::spinoff_prover]
pub proof fn law_withdraw_shares(
    c0: Casino,
    s0: Seq<StakeInfo>,
    env: Env,
    resp: HandleResponse,
    c1: Casino,
    s1: Seq<StakeInfo>,
    k: int,
)
    requires
        0 <= k < s0.len(),
        s0[k].address@ == env.message.sender@,
        forall|j: int| k < j < s0.len() ==> (#[trigger] s0[j]).address@ != env.message.sender@,
        withdraw_fits(c0, s0, env),
        withdraw_post(c0, s0, env, Ok(resp), c1, s1),
    ensures
        msgs_total(resp.messages@) == s0[k].ownership_percentage * c0.capital / 100000000,
        c1.capital == c0.capital - s0[k].ownership_percentage * c0.capital / 100000000,
        forall|m: int|
            0 <= m < s1.len() ==> other_member_after(
                s0,
                env.message.sender@,
                c0.capital,
                c0.capital - s0[k].ownership_percentage * c0.capital / 100000000,
                #[trigger] s1[m],
            ),
        forall|j: int|
            0 <= j < s0.len() && (#[trigger] s0[j]).address@ != env.message.sender@ ==> exists|m: int|
                #![trigger s1[m]]
                0 <= m < s1.len() && s1[m].address == s0[j].address,
{
    let who = env.message.sender@;
    let c = c0.capital;
    lemma_last_member(s0, who, c, k);
    let amount = withdraw_amount(s0, who, c);
    law_withdraw_accounts_for_funds(c0, s0, env, resp, c1, s1);
    lemma_others_entries(s0, who, c, c - amount);
    lemma_withdraw_entries(s0, who, c, amount, s1);
}

proof fn lemma_withdraw_entries(
    s0: Seq<StakeInfo>,
    who: Seq<char>,
    c: u128,
    amount: int,
    s1: Seq<StakeInfo>,
)
    requires
        s1 == others_rescaled(s0, who, c, c - amount),
        0 <= amount <= c,
        forall|j: int|
            #![trigger s0[j]]
            0 <= j < s0.len() && s0[j].address@ != who ==> {
                &&& (SHARE_SCALE as int) * share(c, s0[j].ownership_percentage) <= u128::MAX
                &&& c - amount != 0
            },
    ensures
        forall|m: int|
            0 <= m < s1.len() ==> other_member_after(s0, who, c, c - amount, #[trigger] s1[m]),
{
    let n = c - amount;
    lemma_others_entries(s0, who, c, n);
    assert forall|m: int| 0 <= m < s1.len() implies other_member_after(
        s0,
        who,
        c,
        c - amount,
        #[trigger] s1[m],
    ) by {
        assert(rescaled_other(s0, who, c, n, s1[m]));
        let j = choose|j: int|
            0 <= j < s0.len() && s0[j].address@ != who && s1[m] == rescaled(s0[j], c, n);
        lemma_rescaled_bound(s0[j], c, n);
        assert(s1[m].ownership_percentage == 100000000 * (c * s0[j].ownership_percentage
            / 100000000) / (c - amount));
    }
}

proof fn lemma_last_member(stakes: Seq<StakeInfo>, who: Seq<char>, capital: u128, k: int)
    requires
        0 <= k < stakes.len(),
        stakes[k].address@ == who,
        forall|j: int| k < j < stakes.len() ==> (#[trigger] stakes[j]).address@ != who,
    ensures
        withdraw_amount(stakes, who, capital) == stakes[k].ownership_percentage * capital
            / 100000000,
    decreases stakes.len(),
{
    let n = stakes.len() - 1;
    assert(stakes.last() == stakes[n]);
    if k < n {
        let rest = stakes.drop_last();
        assert(rest[k] == stakes[k]);
        assert forall|j: int| k < j < rest.len() implies (#[trigger] rest[j]).address@ != who by {
            assert(rest[j] == stakes[j]);
        }
        lemma_last_member(rest, who, capital, k);
    }
}

/// `e` has the address and first deposit of a member of `stakes` other
/// than `who`, and owns that member's share of `capital`, in
/// hundred-millionths of `new_capital`.
pub open spec fn other_member_after(
    stakes: Seq<StakeInfo>,
    who: Seq<char>,
    capital: u128,
    new_capital: int,
    e: StakeInfo,
) -> bool {
    exists|j: int|
        0 <= j < stakes.len() && stakes[j].address@ != who && e.address == stakes[j].address
            && e.begin_amount == stakes[j].begin_amount && e.ownership_percentage == 100000000 * (
        capital * stakes[j].ownership_percentage / 100000000) / new_capital
}

/// `e` is a member other than `who`, expressed anew against `new_capital`.
pub open spec fn rescaled_other(
    stakes: Seq<StakeInfo>,
    who: Seq<char>,
    capital: u128,
    new_capital: int,
    e: StakeInfo,
) -> bool {
    exists|j: int|
        0 <= j < stakes.len() && stakes[j].address@ != who && e == rescaled(
            stakes[j],
            capital,
            new_capital,
        )
}

proof fn lemma_others_entries(stakes: Seq<StakeInfo>, who: Seq<char>, capital: u128, new_capital: int)
    ensures
        forall|m: int|
            0 <= m < others_rescaled(stakes, who, capital, new_capital).len() ==> rescaled_other(
                stakes,
                who,
                capital,
                new_capital,
                #[trigger] others_rescaled(stakes, who, capital, new_capital)[m],
            ),
        forall|j: int|
            0 <= j < stakes.len() && (#[trigger] stakes[j]).address@ != who ==> exists|m: int|
                #![trigger others_rescaled(stakes, who, capital, new_capital)[m]]
                0 <= m < others_rescaled(stakes, who, capital, new_capital).len()
                    && others_rescaled(stakes, who, capital, new_capital)[m].address
                    == stakes[j].address,
    decreases stakes.len(),
{
    if stakes.len() > 0 {
        let rest = stakes.drop_last();
        lemma_others_entries(rest, who, capital, new_capital);
        let r = others_rescaled(stakes, who, capital, new_capital);
        let rr = others_rescaled(rest, who, capital, new_capital);
        let last = stakes.last();
        let n = stakes.len() - 1;
        assert(stakes[n] == last);
        if last.address@ == who {
            assert(r == rr);
        } else {
            assert(r == rr.push(rescaled(last, capital, new_capital)));
        }
        assert forall|m: int| 0 <= m < r.len() implies rescaled_other(
            stakes,
            who,
            capital,
            new_capital,
            #[trigger] r[m],
        ) by {
            if m < rr.len() {
                assert(r[m] == rr[m]);
                assert(rescaled_other(rest, who, capital, new_capital, rr[m]));
                let j = choose|j: int|
                    0 <= j < rest.len() && rest[j].address@ != who && rr[m] == rescaled(
                        rest[j],
                        capital,
                        new_capital,
                    );
                assert(stakes[j] == rest[j]);
            } else {
                assert(r[m] == rescaled(last, capital, new_capital));
                assert(stakes[n].address@ != who && r[m] == rescaled(stakes[n], capital, new_capital));
            }
        }
        assert forall|j: int| 0 <= j < stakes.len() && (#[trigger] stakes[j]).address@ != who implies exists|m: int|
            #![trigger r[m]]
            0 <= m < r.len() && r[m].address == stakes[j].address by {
            if j < n {
                assert(rest[j] == stakes[j]);
                let m = choose|m: int| 0 <= m < rr.len() && rr[m].address == rest[j].address;
                assert(r[m] == rr[m]);
            } else {
                assert(r[rr.len() as int] == rescaled(last, capital, new_capital));
            }
        }
    } else {
        assert(others_rescaled(stakes, who, capital, new_capital).len() == 0);
    }
}

} // verus!
