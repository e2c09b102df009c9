use wasmbet_contract_timeroulette::contract::{
    can_winer_payout, handle, init, payout_amount, query, read_room_state, ruler_entropy,
    send_coin, try_capital_deposit, try_capital_withdraw, try_ruler,
};
use wasmbet_contract_timeroulette::draw::draw_lucky_number;
use wasmbet_contract_timeroulette::hash::u64_to_be_bytes;
use wasmbet_contract_timeroulette::msg::{HandleMsg, InitMsg, QueryAnswer, QueryMsg};
use wasmbet_contract_timeroulette::state::{Casino, CasinoState, Room, StakeInfo};
use wasmbet_contract_timeroulette::types::{
    BlockInfo, CasinoError, Coin, ContractInfo, CosmosMsg, Env, HandleResponse, MessageInfo,
};

use rand_chacha::ChaChaRng;
use rand_core::{RngCore, SeedableRng};
use sha2::{Digest, Sha256};

const WHOLE: u128 = 100000000;

fn coins(amount: u128, denom: &str) -> Vec<Coin> {
    vec![Coin { denom: denom.to_string(), amount }]
}

fn mock_env(sender: &str, funds: Vec<Coin>) -> Env {
    Env {
        block: BlockInfo { height: 12345, time: 1571797419, chain_id: "cosmos-testnet-14002".to_string() },
        message: MessageInfo { sender: sender.to_string(), sent_funds: funds },
        contract: ContractInfo { address: "cosmos2contract".to_string() },
    }
}

fn casino(capital: u128) -> Casino {
    Casino {
        founder: "creator".to_string(),
        name: "house".to_string(),
        description: "dice".to_string(),
        min_bet_amount: 1000000,
        max_bet_rate: 1000000,
        house_fee: 15000,
        founder_commission_rate: 0,
        capital,
        bet_cumulative_amount: 0,
        seed: b"Hello, world!".to_vec(),
    }
}

fn stake(address: &str, begin_amount: u128, ownership_percentage: u128) -> StakeInfo {
    StakeInfo { address: address.to_string(), begin_amount, ownership_percentage }
}

fn total_paid(resp: &HandleResponse) -> u128 {
    let mut total = 0;
    for m in &resp.messages {
        match m {
            CosmosMsg::BankSend { amount, .. } => {
                for c in amount {
                    total += c.amount;
                }
            }
        }
    }
    total
}

fn ownership_sum(stakes: &[StakeInfo]) -> u128 {
    stakes.iter().map(|s| s.ownership_percentage).sum()
}

// ---------------------------------------------------------------------------
// payout_amount

#[test]
fn payout_under_fifty() {
    // multiplier = (1000000 - 15000) / (50 * 5 / 3) = 985000 / 83 = 11867
    assert_eq!(payout_amount(50, "under".to_string(), &2000000, 15000), Ok(2373400));
}

#[test]
fn payout_over_fifty() {
    // multiplier = 985000 / (99 - 83) = 61562
    assert_eq!(payout_amount(50, "over".to_string(), &2000000, 15000), Ok(12312400));
}

#[test]
fn payout_edges_of_the_ranges() {
    // under 1: 1 * 5 / 3 = 1, multiplier 985000
    assert_eq!(payout_amount(1, "under".to_string(), &10000, 15000), Ok(985000));
    // over 58: 99 - 96 = 3, multiplier 328333
    assert_eq!(payout_amount(58, "over".to_string(), &10000, 15000), Ok(328333));
    // any other position is paid as "under"
    assert_eq!(payout_amount(50, "sideways".to_string(), &2000000, 15000), Ok(2373400));
}

#[test]
fn payout_without_fee() {
    // 1000000 / 83 = 12048; 1000000 * 12048 / 10000 = 1204800
    assert_eq!(payout_amount(50, "under".to_string(), &1000000, 0), Ok(1204800));
}

// ---------------------------------------------------------------------------
// send_coin, can_winer_payout

#[test]
fn send_coin_moves_uscrt_to_the_sender() {
    let env = mock_env("player", vec![]);
    let msg = send_coin(&env, 777).unwrap();
    assert_eq!(
        msg,
        CosmosMsg::BankSend {
            from_address: "cosmos2contract".to_string(),
            to_address: "player".to_string(),
            amount: coins(777, "uscrt"),
        }
    );
}

#[test]
fn winner_payout_response() {
    let env = mock_env("player", vec![]);
    let resp = can_winer_payout(&env, 500).unwrap();
    assert_eq!(resp.messages, vec![send_coin(&env, 500).unwrap()]);
    assert_eq!(resp.log.len(), 1);
    assert_eq!(resp.log[0].key, "action");
    assert_eq!(resp.log[0].value, "transfer payout");
    assert_eq!(resp.data, None);
}

// ---------------------------------------------------------------------------
// init

#[test]
fn init_opens_an_empty_house() {
    let env = mock_env("creator", coins(10000000000000000, "ukrw"));
    let msg = InitMsg::CreateCasino {
        name: "house".to_string(),
        description: "dice".to_string(),
        min_bet_amount: 1000000,
        max_bet_rate: 10000,
        house_fee: 15000,
        founder_commission_rate: 5,
        seed: "Hello, world!".to_string(),
    };
    let (resp, state) = init(&env, msg).unwrap();
    assert!(resp.messages.is_empty());
    assert!(resp.log.is_empty());
    assert_eq!(state.casino.founder, "creator");
    assert_eq!(state.casino.name, "house");
    assert_eq!(state.casino.description, "dice");
    assert_eq!(state.casino.min_bet_amount, 1000000);
    assert_eq!(state.casino.max_bet_rate, 10000);
    assert_eq!(state.casino.house_fee, 15000);
    assert_eq!(state.casino.founder_commission_rate, 5);
    assert_eq!(state.casino.capital, 0);
    assert_eq!(state.casino.bet_cumulative_amount, 0);
    assert_eq!(state.casino.seed, b"Hello, world!".to_vec());
    assert!(state.stakes.is_empty());
    assert!(state.results.is_empty());
}

// ---------------------------------------------------------------------------
// deposits

#[test]
fn deposit_without_uscrt_is_refused() {
    let mut c = casino(0);
    let mut stakes = vec![];
    let env = mock_env("alice", coins(500, "ukrw"));
    assert_eq!(try_capital_deposit(&mut c, &mut stakes, &env), Err(CasinoError::NoFundsSent));
    assert_eq!(c, casino(0));
    assert!(stakes.is_empty());
    let env = mock_env("alice", vec![]);
    assert_eq!(try_capital_deposit(&mut c, &mut stakes, &env), Err(CasinoError::NoFundsSent));
}

#[test]
fn first_deposit_owns_everything() {
    let mut c = casino(0);
    let mut stakes = vec![];
    let env = mock_env("alice", coins(1000, "uscrt"));
    let resp = try_capital_deposit(&mut c, &mut stakes, &env).unwrap();
    assert!(resp.messages.is_empty() && resp.log.is_empty() && resp.data.is_none());
    assert_eq!(c.capital, 1000);
    assert_eq!(stakes, vec![stake("alice", 1000, WHOLE)]);
}

#[test]
fn second_deposit_rescales_the_pool() {
    let mut c = casino(1000);
    let mut stakes = vec![stake("alice", 1000, WHOLE)];
    let env = mock_env("bob", coins(3000, "uscrt"));
    try_capital_deposit(&mut c, &mut stakes, &env).unwrap();
    assert_eq!(c.capital, 4000);
    assert_eq!(stakes, vec![stake("alice", 1000, 25000000), stake("bob", 3000, 75000000)]);
    assert_eq!(ownership_sum(&stakes), WHOLE);
}

#[test]
fn deposit_counts_the_last_uscrt_coin() {
    let mut c = casino(0);
    let mut stakes = vec![];
    let funds = vec![
        Coin { denom: "uscrt".to_string(), amount: 10 },
        Coin { denom: "ukrw".to_string(), amount: 99 },
        Coin { denom: "uscrt".to_string(), amount: 20 },
    ];
    let env = mock_env("alice", funds);
    try_capital_deposit(&mut c, &mut stakes, &env).unwrap();
    assert_eq!(c.capital, 20);
}

#[test]
fn second_deposit_by_the_same_member_is_refused() {
    let mut c = casino(1000);
    let mut stakes = vec![stake("bob", 1, 1), stake("alice", 1000, WHOLE - 1)];
    let env = mock_env("alice", coins(10, "uscrt"));
    let before = (c.clone(), stakes.clone());
    assert_eq!(try_capital_deposit(&mut c, &mut stakes, &env), Err(CasinoError::AlreadyDeposited));
    assert_eq!((c, stakes), before);
}

#[test]
fn deposit_rounds_shares_down() {
    let mut c = casino(3);
    let mut stakes = vec![stake("alice", 3, WHOLE)];
    let env = mock_env("bob", coins(4, "uscrt"));
    try_capital_deposit(&mut c, &mut stakes, &env).unwrap();
    // alice: 3 * 1e8 / 1e8 = 3 -> 1e8 * 3 / 7 = 42857142; bob: 1e8 * 4 / 7 = 57142857
    assert_eq!(stakes, vec![stake("alice", 3, 42857142), stake("bob", 4, 57142857)]);
    assert!(ownership_sum(&stakes) <= WHOLE);
}

// ---------------------------------------------------------------------------
// withdrawals

#[test]
fn withdraw_without_stake_is_refused() {
    let mut c = casino(1000);
    let mut stakes = vec![stake("alice", 1000, WHOLE)];
    let env = mock_env("bob", vec![]);
    assert_eq!(try_capital_withdraw(&mut c, &mut stakes, &env), Err(CasinoError::DepositNotFound));
    assert_eq!(c, casino(1000));
    assert_eq!(stakes, vec![stake("alice", 1000, WHOLE)]);
}

#[test]
fn withdraw_of_a_worthless_stake_is_refused() {
    let mut c = casino(10);
    let mut stakes = vec![stake("alice", 10, WHOLE - 1), stake("bob", 0, 1)];
    let env = mock_env("bob", vec![]);
    assert_eq!(try_capital_withdraw(&mut c, &mut stakes, &env), Err(CasinoError::DepositNotFound));
}

#[test]
fn withdraw_pays_the_share_and_rescales_the_rest() {
    let mut c = casino(4000);
    let mut stakes = vec![stake("alice", 1000, 25000000), stake("bob", 3000, 75000000)];
    let env = mock_env("bob", vec![]);
    let resp = try_capital_withdraw(&mut c, &mut stakes, &env).unwrap();
    assert_eq!(c.capital, 1000);
    assert_eq!(stakes, vec![stake("alice", 1000, WHOLE)]);
    assert_eq!(resp.messages, vec![send_coin(&env, 3000).unwrap()]);
    assert_eq!(resp.log.len(), 1);
    assert_eq!(resp.log[0].key, "action");
    assert_eq!(resp.log[0].value, "capital_withdraw");
    assert_eq!(resp.data, None);
}

#[test]
fn last_member_withdraws_everything() {
    let mut c = casino(1000);
    let mut stakes = vec![stake("alice", 1000, WHOLE)];
    let env = mock_env("alice", vec![]);
    let resp = try_capital_withdraw(&mut c, &mut stakes, &env).unwrap();
    assert_eq!(c.capital, 0);
    assert!(stakes.is_empty());
    assert_eq!(total_paid(&resp), 1000);
}

// ---------------------------------------------------------------------------
// bets

const RAW: &[u8] = b"raw-player";

fn bet_env(amount: u128) -> Env {
    mock_env("player", coins(amount, "uscrt"))
}

fn bet(
    c: &mut Casino,
    env: &Env,
    phrase: &str,
    prediction: u64,
    position: &str,
    amount: u128,
) -> Result<(HandleResponse, Room), CasinoError> {
    try_ruler(
        c,
        env,
        Some(RAW.to_vec()),
        phrase.to_string(),
        prediction,
        position.to_string(),
        &amount,
    )
}

/// The number a bet with `phrase` draws.
fn drawn(c: &Casino, env: &Env, phrase: &str) -> u64 {
    let entropy = ruler_entropy(&phrase.to_string(), &RAW.to_vec(), env);
    draw_lucky_number(&c.seed, &entropy)
}

/// A phrase whose draw satisfies `want`.
fn phrase_drawing(c: &Casino, env: &Env, want: impl Fn(u64) -> bool) -> (String, u64) {
    for i in 0..10000 {
        let phrase = format!("phrase-{}", i);
        let n = drawn(c, env, &phrase);
        if want(n) {
            return (phrase, n);
        }
    }
    panic!("no phrase found");
}

#[test]
fn bet_with_empty_position_is_refused() {
    let mut c = casino(1000000000);
    assert_eq!(bet(&mut c, &bet_env(100), "p", 50, "", 100), Err(CasinoError::PositionEmpty));
    assert_eq!(c, casino(1000000000));
}

#[test]
fn bet_with_other_position_is_refused() {
    let mut c = casino(1000000000);
    assert_eq!(
        bet(&mut c, &bet_env(100), "p", 50, "middle", 100),
        Err(CasinoError::PositionNotUnderOver)
    );
}

#[test]
fn bet_predictions_out_of_range_are_refused() {
    let mut c = casino(1000000000);
    let env = bet_env(100);
    assert_eq!(bet(&mut c, &env, "p", 1, "over", 100), Err(CasinoError::OverPredictionOutOfRange));
    assert_eq!(bet(&mut c, &env, "p", 59, "over", 100), Err(CasinoError::OverPredictionOutOfRange));
    assert_eq!(bet(&mut c, &env, "p", 0, "under", 100), Err(CasinoError::UnderPredictionOutOfRange));
    assert_eq!(bet(&mut c, &env, "p", 58, "under", 100), Err(CasinoError::UnderPredictionOutOfRange));
    assert!(bet(&mut c, &env, "p", 2, "over", 100).is_ok());
}

#[test]
fn bet_beyond_reserves_is_refused() {
    // payout of 2000000 under 50 is 2373400; max_bet_rate 1000000 allows the whole capital
    let mut c = casino(2373399);
    let env = bet_env(2000000);
    assert_eq!(
        bet(&mut c, &env, "p", 50, "under", 2000000),
        Err(CasinoError::LackOfReserves { capital: 2373399, payout: 2373400, max_bet_rate: 1000000 })
    );
    let mut c = casino(2373400);
    assert!(bet(&mut c, &env, "p", 50, "under", 2000000).is_ok());
}

#[test]
fn bet_with_other_coins_is_refused() {
    let mut c = casino(1000000000);
    let funds = vec![
        Coin { denom: "uscrt".to_string(), amount: 100 },
        Coin { denom: "ukrw".to_string(), amount: 100 },
    ];
    let env = mock_env("player", funds);
    assert_eq!(bet(&mut c, &env, "p", 50, "under", 100), Err(CasinoError::InsufficientDenom));
}

#[test]
fn bet_with_wrong_amount_is_refused() {
    let mut c = casino(1000000000);
    let env = bet_env(99);
    assert_eq!(
        bet(&mut c, &env, "p", 50, "under", 100),
        Err(CasinoError::InsufficientDeposit { bet_amount: 100, required: 99 })
    );
}

#[test]
fn zero_bet_without_coins_is_refused() {
    let mut c = casino(1000000000);
    let env = mock_env("player", vec![]);
    assert_eq!(bet(&mut c, &env, "p", 50, "under", 0), Err(CasinoError::NoMoneySent));
}

#[test]
fn bet_without_canonical_address_is_refused() {
    let mut c = casino(1000000000);
    let env = bet_env(100);
    let r = try_ruler(&mut c, &env, None, "p".to_string(), 50, "under".to_string(), &100);
    assert_eq!(r, Err(CasinoError::InvalidAddress));
    assert_eq!(c, casino(1000000000));
}

#[test]
fn losing_bet_goes_to_the_house() {
    let mut c = casino(1000000000);
    let env = bet_env(2000000);
    let (phrase, n) = phrase_drawing(&c, &env, |n| n >= 50);
    let (resp, room) = bet(&mut c, &env, &phrase, 50, "under", 2000000).unwrap();
    assert!(resp.messages.is_empty() && resp.log.is_empty());
    assert_eq!(c.capital, 1002000000);
    assert_eq!(c.bet_cumulative_amount, 2000000);
    assert!(!room.results);
    assert_eq!(room.lucky_number, n);
    assert_eq!(room.prediction_number, 50);
    assert_eq!(room.position, "under");
    assert_eq!(room.payout, 2373400);
    assert_eq!(room.bet_amount, 2000000);
    assert_eq!(room.start_time, 1571797419);
}

#[test]
fn winning_bet_is_paid() {
    let mut c = casino(1000000000);
    let env = bet_env(2000000);
    let (phrase, n) = phrase_drawing(&c, &env, |n| n < 50);
    let (resp, room) = bet(&mut c, &env, &phrase, 50, "under", 2000000).unwrap();
    assert!(room.results);
    assert_eq!(room.lucky_number, n);
    assert_eq!(c.capital, 1000000000 + 2000000 - 2373400);
    assert_eq!(resp, can_winer_payout(&env, 2373400).unwrap());
}

#[test]
fn over_wins_only_above_the_prediction() {
    let env = bet_env(2000000);
    let mut c = casino(1000000000);
    let (phrase, n) = phrase_drawing(&c, &env, |n| (2..=58).contains(&n));
    let (_, room) = bet(&mut c, &env, &phrase, n, "over", 2000000).unwrap();
    assert!(!room.results);
    let (resp, room) = bet(&mut c, &env, &phrase, n - 1, "over", 2000000).unwrap();
    assert!(room.results);
    assert_eq!(total_paid(&resp), room.payout);
}

#[test]
fn bet_entropy_is_hashed_from_the_call() {
    let env = bet_env(2000000);
    let raw = RAW.to_vec();
    let entropy = ruler_entropy(&"phrase".to_string(), &raw, &env);
    let mut input = Vec::new();
    input.extend(b"phrase");
    input.extend(&raw);
    input.extend(b"cosmos-testnet-14002");
    input.extend(&12345u64.to_be_bytes());
    input.extend(&1571797419u64.to_be_bytes());
    let mut expected = Sha256::digest(&input).as_slice().to_vec();
    expected.extend(&1571797419u64.to_be_bytes());
    assert_eq!(entropy.len(), 40);
    assert_eq!(entropy, expected);
    assert_ne!(&entropy[..32], &input[..32]);
    let mut c = casino(1000000000);
    let (_, room) = bet(&mut c, &env, "phrase", 50, "under", 2000000).unwrap();
    assert_eq!(room.entropy, expected);
}

#[test]
fn draw_is_chacha20_keyed_by_seed_and_entropy() {
    let seed = b"Hello, world!".to_vec();
    let entropy = vec![7u8; 40];
    let mut key = [0u8; 32];
    let mut input = seed.clone();
    input.extend(&entropy);
    key.copy_from_slice(Sha256::digest(&input).as_slice());
    let expected = (ChaChaRng::from_seed(key).next_u32() % 59) as u64;
    assert_eq!(draw_lucky_number(&seed, &entropy), expected);
    for i in 0..200u8 {
        assert!(draw_lucky_number(&seed, &vec![i; 40]) < 59);
    }
}

#[test]
fn draw_ignores_prediction_side_stake_and_capital() {
    let env_a = bet_env(2000000);
    let env_b = bet_env(100);
    let mut a = casino(1000000000);
    let mut b = casino(555555555);
    let (_, room_a) = bet(&mut a, &env_a, "same", 50, "under", 2000000).unwrap();
    let (_, room_b) = bet(&mut b, &env_b, "same", 10, "over", 100).unwrap();
    assert_eq!(room_a.entropy, room_b.entropy);
    assert_eq!(room_a.lucky_number, room_b.lucky_number);
    assert_eq!(room_a.lucky_number, drawn(&a, &env_a, "same"));
}

#[test]
fn big_endian_bytes() {
    assert_eq!(u64_to_be_bytes(0x0102030405060708), vec![1, 2, 3, 4, 5, 6, 7, 8]);
    assert_eq!(u64_to_be_bytes(1232342344153), 1232342344153u64.to_be_bytes().to_vec());
}


// ---------------------------------------------------------------------------
// rooms and queries

#[test]
fn room_state_truncates_amounts() {
    let room = Room {
        start_time: 5,
        entropy: vec![1, 2, 3],
        prediction_number: 50,
        lucky_number: 12,
        position: "over".to_string(),
        results: false,
        payout: (1u128 << 64) + 7,
        bet_amount: 2000000,
    };
    let r = read_room_state(room).unwrap();
    assert_eq!(r.payout, 7);
    assert_eq!(r.bet_amount, 2000000);
    assert_eq!(r.lucky_number, 12);
    assert_eq!(r.entropy, vec![1, 2, 3]);
    assert_eq!(r.position, "over");
}

fn state() -> CasinoState {
    CasinoState {
        casino: casino(4000),
        stakes: vec![stake("alice", 1000, 25000000), stake("bob", 3000, 75000000)],
        results: vec![],
    }
}

#[test]
fn queries_answer_from_the_state() {
    match query(state(), QueryMsg::GetCasinoInfo {}, None).unwrap() {
        QueryAnswer::Casino(r) => assert_eq!(r.casino, casino(4000)),
        _ => panic!("wrong answer"),
    }
    match query(state(), QueryMsg::GetStakeInfo {}, None).unwrap() {
        QueryAnswer::Stake(r) => assert_eq!(r.stake, state().stakes),
        _ => panic!("wrong answer"),
    }
    match query(state(), QueryMsg::GetCasinoStakeInfo {}, None).unwrap() {
        QueryAnswer::CasinoStake(r) => {
            assert_eq!(r.casino, casino(4000));
            assert_eq!(r.stake, state().stakes);
        }
        _ => panic!("wrong answer"),
    }
    let room = Room {
        start_time: 1,
        entropy: vec![],
        prediction_number: 3,
        lucky_number: 4,
        position: "under".to_string(),
        results: false,
        payout: 9,
        bet_amount: 8,
    };
    let msg = QueryMsg::Getmystate { address: "player".to_string() };
    match query(state(), msg, Some(room)).unwrap() {
        QueryAnswer::RoomState(r) => {
            assert_eq!(r.payout, 9);
            assert_eq!(r.bet_amount, 8);
            assert_eq!(r.prediction_number, 3);
        }
        _ => panic!("wrong answer"),
    }
}


#[test]
fn handle_dispatches_requests() {
    let mut s = state();
    let env = mock_env("carol", coins(4000, "uscrt"));
    let (resp, room) = handle(&mut s, &env, HandleMsg::TryCapitalDeposit {}, None).unwrap();
    assert!(room.is_none() && resp.messages.is_empty());
    assert_eq!(s.casino.capital, 8000);
    assert_eq!(s.stakes.len(), 3);

    let env = mock_env("carol", vec![]);
    let (resp, room) = handle(&mut s, &env, HandleMsg::TryCapitalWithdraw {}, None).unwrap();
    assert!(room.is_none());
    assert_eq!(total_paid(&resp), 4000);
    assert_eq!(s.casino.capital, 4000);
    assert_eq!(s.stakes.len(), 2);

    let env = bet_env(100);
    let msg = HandleMsg::Ruler {
        phrase: "x".to_string(),
        prediction_number: 50,
        position: "under".to_string(),
        bet_amount: 100,
    };
    let (resp, room) = handle(&mut s, &env, msg, Some(vec![9])).unwrap();
    let room = room.unwrap();
    assert_eq!(s.casino.capital + total_paid(&resp), 4100);
    assert_eq!(room.results, total_paid(&resp) > 0);

    let msg = HandleMsg::Ruler {
        phrase: "x".to_string(),
        prediction_number: 50,
        position: "up".to_string(),
        bet_amount: 100,
    };
    let before = s.clone();
    assert_eq!(handle(&mut s, &env, msg, Some(vec![9])), Err(CasinoError::PositionNotUnderOver));
    assert_eq!(s, before);
}

// ---------------------------------------------------------------------------
// laws on concrete values

#[test]
fn every_request_accounts_for_the_funds() {
    let mut s = CasinoState { casino: casino(0), stakes: vec![], results: vec![] };
    let ruler = |phrase: &str, prediction_number: u64, position: &str, bet_amount: u128| {
        HandleMsg::Ruler {
            phrase: phrase.to_string(),
            prediction_number,
            position: position.to_string(),
            bet_amount,
        }
    };
    let mut steps: Vec<(Env, HandleMsg)> = vec![
        (mock_env("alice", coins(5000000, "uscrt")), HandleMsg::TryCapitalDeposit {}),
        (mock_env("bob", coins(3000000, "uscrt")), HandleMsg::TryCapitalDeposit {}),
    ];
    for i in 0..8 {
        steps.push((bet_env(100000), ruler(&format!("bet-{}", i), 40, "under", 100000)));
        steps.push((bet_env(50000), ruler(&format!("bet-{}", i), 20, "over", 50000)));
    }
    steps.push((mock_env("alice", vec![]), HandleMsg::TryCapitalWithdraw {}));
    steps.push((mock_env("carol", coins(777, "uscrt")), HandleMsg::TryCapitalDeposit {}));
    steps.push((mock_env("bob", vec![]), HandleMsg::TryCapitalWithdraw {}));
    for (env, msg) in steps {
        let credited = match msg {
            HandleMsg::TryCapitalWithdraw {} => 0,
            _ => env.message.sent_funds[0].amount,
        };
        let before = s.casino.capital;
        let (resp, _) = handle(&mut s, &env, msg, Some(b"raw".to_vec())).unwrap();
        assert_eq!(s.casino.capital + total_paid(&resp), before + credited);
        assert!(ownership_sum(&s.stakes) <= WHOLE);
    }
}


#[test]
fn pool_stays_within_the_whole() {
    let mut c = casino(0);
    let mut stakes = vec![];
    let members = ["a", "b", "c", "d", "e", "f", "g"];
    for (i, m) in members.iter().enumerate() {
        let env = mock_env(m, coins(1000 + 37 * i as u128, "uscrt"));
        try_capital_deposit(&mut c, &mut stakes, &env).unwrap();
        assert!(ownership_sum(&stakes) <= WHOLE);
    }
    for m in ["c", "a", "g"] {
        try_capital_withdraw(&mut c, &mut stakes, &mock_env(m, vec![])).unwrap();
        assert!(ownership_sum(&stakes) <= WHOLE);
        assert!(stakes.iter().all(|s| s.address != m));
    }
}


#[test]
fn bet_never_risks_more_than_the_rate_allows() {
    let env = bet_env(2000000);
    let mut c = casino(4746800);
    c.max_bet_rate = 500000;
    let (_, room) = bet(&mut c, &env, "p", 50, "under", 2000000).unwrap();
    assert!(room.payout <= 4746800 * 500000 / 1000000);
    let mut c = casino(4746799);
    c.max_bet_rate = 500000;
    assert_eq!(
        bet(&mut c, &env, "p", 50, "under", 2000000),
        Err(CasinoError::LackOfReserves { capital: 4746799, payout: 2373400, max_bet_rate: 500000 })
    );
}

// ---------------------------------------------------------------------------
// the house as it starts

#[test]
fn proper_initialization() {
    let seed = String::from("Hello, world!");
    let fee = 15000 as u64;
    let msg = InitMsg::CreateCasino {
        name: "timeroulette".to_string(),
        description: "dice".to_string(),
        min_bet_amount: 1000000,
        max_bet_rate: 1000000,
        house_fee: fee,
        founder_commission_rate: 0,
        seed,
    };
    let env = mock_env("creator", coins(10000000000000000, "ukrw"));
    let (res, mut state) = init(&env, msg).unwrap();
    assert_eq!(res.messages.len(), 0);

    let casino_state = CasinoState {
        casino: state.casino.clone(),
        stakes: state.stakes.clone(),
        results: vec![],
    };
    match query(casino_state, QueryMsg::GetCasinoInfo {}, None).unwrap() {
        QueryAnswer::Casino(value) => assert_eq!(value.casino.min_bet_amount, 1000000),
        _ => panic!("wrong answer"),
    }

    // the house has no capital yet: both bets are refused for lack of reserves
    let mut env = mock_env("creator", coins(2000000, "ukrw"));
    env.block.height = 2;
    env.block.time = 1232342344153;
    let env2 = mock_env("creator2", coins(2000000, "ukrw"));
    let under = String::from("under");
    let over = String::from("under");
    let ruler = HandleMsg::Ruler {
        phrase: String::from("Hello, world!123312"),
        prediction_number: 50,
        position: under,
        bet_amount: 2000000,
    };
    let ruler2 = HandleMsg::Ruler {
        phrase: String::from("Hello, world!2"),
        prediction_number: 50,
        position: over,
        bet_amount: 2000000,
    };
    let refused = Err(CasinoError::LackOfReserves { capital: 0, payout: 2373400, max_bet_rate: 1000000 });
    assert_eq!(handle(&mut state, &env, ruler, Some(b"creator".to_vec())), refused);
    assert_eq!(handle(&mut state, &env2, ruler2, Some(b"creator2".to_vec())), refused);
    assert_eq!(state.casino.capital, 0);
}
