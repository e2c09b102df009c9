//! Whether a request can run to its end: the arithmetic of a request
//! overflows, underflows or divides by zero on some states, and the
//! contract then aborts. These checks tell such requests apart beforehand.
use vstd::prelude::*;
use crate::types::Env;
use crate::state::{Casino, StakeInfo, CasinoState};
use crate::msg::HandleMsg;
use crate::spec::{
    over_word, under_word, uscrt_amount, share, has_stake, none_up_to, deposit_fits,
    withdraw_amount, withdraw_fits, multiplier, ruler_fits, handle_fits, SHARE_SCALE,
};
use crate::contract::{uscrt_sent, over_string, under_string, check_bet, ruler_entropy};
use crate::draw::draw_lucky_number;

verus! {

/// Whether a deposit runs to its end.
pub fn deposit_fits_check(casino: &Casino, stakes: &Vec<StakeInfo>, env: &Env) -> (b: bool)
    ensures
        b == deposit_fits(*casino, stakes@, *env),
{
    let amount = uscrt_sent(&env.message.sent_funds);
    if amount == 0 {
        return true;
    }
    let capital = casino.capital;
    if capital.checked_add(amount).is_none() {
        return false;
    }
    let n = stakes.len();
    for i in 0..n
        invariant
            n == stakes@.len(),
            capital == casino.capital,
            amount == uscrt_amount(env.message.sent_funds@),
            amount != 0,
            capital + amount <= u128::MAX,
            none_up_to(stakes@, env.message.sender@, i - 1),
            forall|k: int|
                #![trigger stakes@[k]]
                0 <= k < i ==> {
                    &&& capital * stakes@[k].ownership_percentage <= u128::MAX
                    &&& (SHARE_SCALE as int) * share(capital, stakes@[k].ownership_percentage)
                        <= u128::MAX
                },
    {
        if env.message.sender == stakes[i].address {
            assert(has_stake(stakes@, env.message.sender@)) by {
                assert(stakes@[i as int].address@ == env.message.sender@);
            }
            assert forall|k: int| 0 <= k < n && none_up_to(stakes@, env.message.sender@, k)
                implies k < i by {
                if k >= i {
                    assert(stakes@[i as int].address@ == env.message.sender@);
                }
            }
            return true;
        }
        let own = stakes[i].ownership_percentage;
        match capital.checked_mul(own) {
            None => {
                assert(none_up_to(stakes@, env.message.sender@, i as int));
                assert(!(capital * stakes@[i as int].ownership_percentage <= u128::MAX));
                return false;
            },
            Some(product) => {
                let d = product / 100000000;
                if 100000000u128.checked_mul(d).is_none() {
                    assert(none_up_to(stakes@, env.message.sender@, i as int));
                    return false;
                }
            },
        }
    }
    if 100000000u128.checked_mul(amount).is_none() {
        return false;
    }
    true
}

/// Whether a withdrawal runs to its end.
pub fn withdraw_fits_check(casino: &Casino, stakes: &Vec<StakeInfo>, env: &Env) -> (b: bool)
    ensures
        b == withdraw_fits(*casino, stakes@, *env),
{
    let capital = casino.capital;
    let n = stakes.len();
    let mut amount: u128 = 0;
    for i in 0..n
        invariant
            n == stakes@.len(),
            capital == casino.capital,
            amount == withdraw_amount(stakes@.take(i as int), env.message.sender@, capital),
            forall|k: int|
                #![trigger stakes@[k]]
                0 <= k < i && stakes@[k].address@ == env.message.sender@ ==> stakes@[k].ownership_percentage
                    * capital <= u128::MAX,
    {
        assert(stakes@.take(i + 1).drop_last() =~= stakes@.take(i as int));
        if env.message.sender == stakes[i].address {
            match stakes[i].ownership_percentage.checked_mul(capital) {
                None => return false,
                Some(product) => {
                    amount = product / 100000000;
                },
            }
        }
    }
    assert(stakes@.take(n as int) =~= stakes@);
    if amount == 0 {
        return true;
    }
    if amount > capital {
        return false;
    }
    for i in 0..n
        invariant
            n == stakes@.len(),
            capital == casino.capital,
            amount == withdraw_amount(stakes@, env.message.sender@, capital),
            amount != 0,
            amount <= capital,
            forall|k: int|
                #![trigger stakes@[k]]
                0 <= k < i && stakes@[k].address@ != env.message.sender@ ==> {
                    &&& capital * stakes@[k].ownership_percentage <= u128::MAX
                    &&& (SHARE_SCALE as int) * share(capital, stakes@[k].ownership_percentage)
                        <= u128::MAX
                    &&& capital - amount != 0
                },
    {
        if env.message.sender != stakes[i].address {
            if capital - amount == 0 {
                return false;
            }
            match capital.checked_mul(stakes[i].ownership_percentage) {
                None => return false,
                Some(product) => {
                    let d = product / 100000000;
                    if 100000000u128.checked_mul(d).is_none() {
                        return false;
                    }
                },
            }
        }
    }
    true
}

/// Whether a bet runs to its end.
pub fn ruler_fits_check(
    casino: &Casino,
    env: &Env,
    raw_address: &Option<Vec<u8>>,
    phrase: &String,
    prediction_number: u64,
    position: &String,
    bet_amount: u128,
) -> (b: bool)
    ensures
        b == ruler_fits(
            *casino,
            *env,
            *raw_address,
            phrase@,
            prediction_number,
            position@,
            bet_amount,
        ),
{
    let is_over = *position == over_string();
    let is_under = *position == under_string();
    let shape_ok = (is_over && 2 <= prediction_number && prediction_number <= 58) || (is_under && 1
        <= prediction_number && prediction_number <= 57);
    proof {
        assert(over_word() != under_word());
    }
    if !shape_ok {
        return true;
    }
    if casino.house_fee as u128 > 1000000 {
        return false;
    }
    let mult: u128 = if is_over {
        (1000000u128 - casino.house_fee as u128) / (99u128 - (prediction_number as u128 * 5 / 3))
    } else {
        (1000000u128 - casino.house_fee as u128) / (prediction_number as u128 * 5 / 3)
    };
    assert(mult == multiplier(prediction_number, is_over, casino.house_fee));
    if bet_amount.checked_mul(mult).is_none() {
        return false;
    }
    if casino.capital.checked_mul(casino.max_bet_rate as u128).is_none() {
        return false;
    }
    let raw = match raw_address {
        None => return true,
        Some(a) => a,
    };
    match check_bet(casino, env, prediction_number, position, &bet_amount) {
        Err(_) => true,
        Ok(payout) => {
            if casino.bet_cumulative_amount.checked_add(bet_amount).is_none() {
                return false;
            }
            match casino.capital.checked_add(bet_amount) {
                None => false,
                Some(total) => {
                    let entropy = ruler_entropy(phrase, raw, env);
                    let lucky_number = draw_lucky_number(&casino.seed, &entropy);
                    let win = if is_over {
                        lucky_number > prediction_number
                    } else {
                        lucky_number < prediction_number
                    };
                    !win || payout <= total
                },
            }
        },
    }
}

/// Whether a request runs to its end (see `crate::contract::handle`).
pub fn request_fits(
    state: &CasinoState,
    env: &Env,
    msg: &HandleMsg,
    raw_address: &Option<Vec<u8>>,
) -> (b: bool)
    ensures
        b == handle_fits(*state, *env, *msg, *raw_address),
{
    match msg {
        HandleMsg::Ruler { phrase, prediction_number, position, bet_amount } => ruler_fits_check(
            &state.casino,
            env,
            raw_address,
            phrase,
            *prediction_number,
            position,
            *bet_amount,
        ),
        HandleMsg::TryCapitalDeposit {  } => deposit_fits_check(&state.casino, &state.stakes, env),
        HandleMsg::TryCapitalWithdraw {  } => withdraw_fits_check(
            &state.casino,
            &state.stakes,
            env,
        ),
    }
}

} // verus!
