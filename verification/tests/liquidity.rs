use vstreet::config::Config;
use vstreet::errors::Error;
use vstreet::events::{LiquidityAction, LiquidityEvent};
use vstreet::pool::LiquidityPool;

const DECIMALS_FACTOR: u128 = 1_000_000;
const YEAR_IN_SECONDS: u128 = 31_536_000;
const BASE_RATE: u128 = 10_000;
const RISK_MULTIPLIER: u128 = 40_000;
const YEAR_MS: u128 = YEAR_IN_SECONDS * 1000;

fn liq_config() -> Config {
    Config {
        decimals_factor: DECIMALS_FACTOR,
        year_in_seconds: YEAR_IN_SECONDS,
        base_rate: BASE_RATE,
        risk_multiplier: RISK_MULTIPLIER,
        one_tvara: 1_000_000_000_000,
        vara_price: 1_000_000,
        dev_fee: 15_000,
        max_loan_amount: 100_000_000_000_000_000_000,
        max_collateral_withdraw: 100_000_000_000_000_000_000,
        max_liquidity_deposit: 100_000_000_000_000_000_000,
        max_liquidity_withdraw: 100_000_000_000_000_000_000,
        min_rewards_withdraw: 100_000,
    }
}

fn liq_pool() -> LiquidityPool {
    LiquidityPool::seed(2, vec![2], Some(1), 70, liq_config())
}

fn expected_interest_rate(deposit_amount: u128, borrowed_amount: u128) -> u128 {
    let utilization_factor = if deposit_amount == 0 {
        0
    } else {
        (borrowed_amount * DECIMALS_FACTOR) / deposit_amount
    };
    BASE_RATE + (utilization_factor * RISK_MULTIPLIER / DECIMALS_FACTOR)
}

fn expected_rewards(deposit_amount: u128, interest_rate: u128, time_in_seconds: u128) -> u128 {
    (deposit_amount * interest_rate * time_in_seconds) / YEAR_IN_SECONDS
}

#[test]
fn init_liquidity() {
    let pool = liq_pool();
    assert_eq!(pool.vft_contract_id(), Some(1));
    assert_eq!(pool.contract_owner(), 2);
}

#[test]
fn deposit() {
    let mut pool = liq_pool();
    let deposit_amount: u128 = 1000;

    let res = pool.handle_action(LiquidityAction::Deposit(deposit_amount), 2, 0);
    assert_eq!(res, Ok(LiquidityEvent::Deposited(deposit_amount)));

    assert_eq!(pool.total_deposited(), deposit_amount * DECIMALS_FACTOR);
    assert_eq!(pool.user_info(2).unwrap().balance, deposit_amount * DECIMALS_FACTOR);
}

#[test]
fn withdraw() {
    let mut pool = liq_pool();
    let deposit_amount: u128 = 1000;
    let withdraw_amount: u128 = 500;

    pool.handle_action(LiquidityAction::Deposit(deposit_amount), 2, 0).unwrap();

    let res = pool.handle_action(LiquidityAction::WithdrawLiquidity(withdraw_amount), 2, 0);
    assert!(res.is_ok());

    assert_eq!(pool.total_deposited(), (deposit_amount - withdraw_amount) * DECIMALS_FACTOR);
    assert_eq!(
        pool.user_info(2).unwrap().balance,
        (deposit_amount - withdraw_amount) * DECIMALS_FACTOR
    );

    pool.handle_action(LiquidityAction::WithdrawLiquidity(withdraw_amount), 2, 0).unwrap();
    assert_eq!(pool.total_deposited(), 0);
    assert_eq!(pool.user_info(2).unwrap().balance, 0);
}

#[test]
fn test_interest_rate_calculation() {
    let mut pool = liq_pool();
    let deposit_amount: u128 = 1_000_000;
    let borrowed_amount: u128 = 500_000;

    let res = pool.handle_action(LiquidityAction::ModifyTotalBorrowed(borrowed_amount), 2, 0);
    assert_eq!(res, Ok(LiquidityEvent::TotalBorrowedModified(borrowed_amount)));

    pool.handle_action(LiquidityAction::Deposit(deposit_amount), 2, 0).unwrap();

    let expected = expected_interest_rate(deposit_amount, borrowed_amount);
    println!("Expected Interest Rate: {}", expected);
    println!("Actual Interest Rate: {}", pool.interest_rate);
    assert_eq!(pool.interest_rate, expected);
}

#[test]
fn test_reward_allocation() {
    let mut pool = liq_pool();
    let deposit_amount: u128 = 1_000_000;
    let borrowed_amount: u128 = 500_000;
    let user: u128 = 2;

    pool.handle_action(LiquidityAction::ModifyTotalBorrowed(borrowed_amount), 2, 0).unwrap();
    pool.handle_action(LiquidityAction::Deposit(deposit_amount), 2, 0).unwrap();

    pool.update_all_rewards(YEAR_MS);

    let user_info = pool.user_info(user).unwrap();
    let expected = expected_rewards(deposit_amount, pool.interest_rate, YEAR_IN_SECONDS);

    println!("Expected rewards: {}", expected);
    println!("Expected rewards (USD): {}", expected / DECIMALS_FACTOR);
    println!("User rewards: {}", user_info.rewards);
    println!("User rewards (USD): {}", user_info.rewards / DECIMALS_FACTOR);

    assert_eq!(user_info.rewards, expected);
}

#[test]
fn withdraw_rewards() {
    let mut pool = liq_pool();
    let deposit_amount: u128 = 1_000_000;
    let borrowed_amount: u128 = 500_000;
    let user: u128 = 2;

    pool.handle_action(LiquidityAction::ModifyTotalBorrowed(borrowed_amount), 2, 0).unwrap();
    pool.handle_action(LiquidityAction::Deposit(deposit_amount), 2, 0).unwrap();
    pool.handle_action(LiquidityAction::ModifyAvailableRewardsPool(100_000), 2, 0).unwrap();

    pool.update_all_rewards(YEAR_MS);
    let user_info = pool.user_info(user).unwrap();
    assert!(user_info.rewards > 0, "Rewards should be greater than 0");
    println!("User info after spend_blocks: {:?}", user_info);

    let res = pool.handle_action(LiquidityAction::WithdrawRewards, user, YEAR_MS);
    assert!(res.is_ok());

    let user_info2 = pool.user_info(user).unwrap();
    println!("User info after withdrawal: {:?}", user_info2);
    assert_eq!(user_info2.rewards, 0, "Rewards should be zero after withdrawal");
    assert_eq!(
        pool.user_rewards(user).unwrap(),
        0,
        "Rewards in USD should be zero after withdrawal"
    );
}

#[test]
fn lib_init_liquidity() {
    let pool = LiquidityPool::seed(2, vec![2], Some(1), 70, Config::default());
    assert_eq!(pool.vft_contract_id(), Some(1));
    assert_eq!(pool.total_deposited(), 0);
}

#[test]
fn lib_deposit() {
    // The older fixture works in an already-scaled amount: scale one.
    let mut config = liq_config();
    config.decimals_factor = 1;
    config.max_liquidity_deposit = u128::MAX;
    let mut pool = LiquidityPool::seed(2, vec![2], Some(1), 70, config);
    let deposit_amount: u128 = 1000 * 1_000_000_000_000_000_000;

    pool.handle_action(LiquidityAction::Deposit(deposit_amount), 2, 0).unwrap();

    assert_eq!(pool.total_deposited(), deposit_amount);
    assert_eq!(pool.user_info(2).unwrap().balance, deposit_amount);
}

#[test]
fn lib_test_reward_allocation() {
    let mut pool = liq_pool();
    let deposit_amount: u128 = 1_000_000;
    let user: u128 = 2;

    pool.handle_action(LiquidityAction::Deposit(deposit_amount), user, 0).unwrap();
    pool.update_all_rewards(YEAR_MS);

    // Nothing borrowed, so a year accrues exactly the base rate on the
    // scaled balance.
    let balance = deposit_amount * DECIMALS_FACTOR;
    let expected = balance * BASE_RATE / DECIMALS_FACTOR;
    let user_info = pool.user_info(user).unwrap();
    println!("Expected rewards: {}", expected);
    println!("User rewards: {}", user_info.rewards);
    assert_eq!(user_info.rewards, expected);
}

#[test]
fn one_year_at_ten_percent_yields_tenth_of_deposit() {
    let mut config = liq_config();
    config.base_rate = DECIMALS_FACTOR / 10;
    let mut pool = LiquidityPool::seed(2, vec![2], Some(1), 70, config);
    let deposit_amount: u128 = 1_000_000;

    pool.deposit_liquidity(2, deposit_amount, 0).unwrap();
    pool.update_all_rewards(YEAR_MS);

    let balance = deposit_amount * DECIMALS_FACTOR;
    assert_eq!(pool.user_info(2).unwrap().rewards, balance / 10);
}

#[test]
fn accrual_sweep_is_idempotent_at_one_instant() {
    let mut pool = liq_pool();
    pool.handle_action(LiquidityAction::ModifyTotalBorrowed(500_000), 2, 0).unwrap();
    pool.deposit_liquidity(2, 1_000_000, 0).unwrap();

    pool.update_all_rewards(YEAR_MS);
    let once = pool.user_info(2).unwrap();
    let once_rate = pool.interest_rate;
    let once_util = pool.utilization_factor;
    let once_apr = pool.apr;

    pool.update_all_rewards(YEAR_MS);
    assert_eq!(pool.user_info(2).unwrap(), once);
    assert_eq!(pool.interest_rate, once_rate);
    assert_eq!(pool.utilization_factor, once_util);
    assert_eq!(pool.apr, once_apr);
}

#[test]
fn deposit_zero_is_refused() {
    let mut pool = liq_pool();
    assert_eq!(pool.deposit_liquidity(2, 0, 0), Err(Error::ZeroAmount));
    assert_eq!(pool.deposit_liquidity_check(2, 0, 0), Err(Error::ZeroAmount));
}

#[test]
fn deposit_over_cap_is_refused() {
    let mut config = liq_config();
    config.max_liquidity_deposit = 100;
    let mut pool = LiquidityPool::seed(2, vec![2], Some(1), 70, config);
    assert_eq!(pool.deposit_liquidity(2, 101, 0), Err(Error::InvalidAmount));
}

#[test]
fn deposit_scaling_overflow_is_refused() {
    let mut config = liq_config();
    config.decimals_factor = 1_000_000_000_000_000_000;
    config.max_liquidity_deposit = u128::MAX;
    let mut pool = LiquidityPool::seed(2, vec![2], Some(1), 70, config);
    let huge: u128 = 1_000_000_000_000_000_000_000_000_000_000;
    assert_eq!(pool.deposit_liquidity(2, huge, 0), Err(Error::ArithmeticOverflow));
}

#[test]
fn withdraw_from_unknown_user_is_refused() {
    let mut pool = liq_pool();
    assert_eq!(pool.withdraw_liquidity(9, 10, 0), Err(Error::UserNotFound));
}

#[test]
fn withdraw_beyond_balance_is_refused() {
    let mut pool = liq_pool();
    pool.deposit_liquidity(2, 1000, 0).unwrap();
    assert_eq!(pool.withdraw_liquidity(2, 1001, 0), Err(Error::InvalidAmount));
    assert_eq!(pool.withdraw_liquidity(2, 0, 0), Err(Error::ZeroAmount));
}

#[test]
fn rewards_below_minimum_are_refused() {
    let mut pool = liq_pool();
    pool.deposit_liquidity(2, 1000, 0).unwrap();
    // No time has elapsed: nothing withdrawable yet.
    assert_eq!(pool.withdraw_rewards(2, 0), Err(Error::InsufficientUserRewards));
}

#[test]
fn rewards_beyond_pool_are_refused() {
    let mut pool = liq_pool();
    pool.handle_action(LiquidityAction::ModifyTotalBorrowed(500_000), 2, 0).unwrap();
    pool.deposit_liquidity(2, 1_000_000, 0).unwrap();
    // The rewards pool was never funded.
    assert_eq!(pool.withdraw_rewards(2, YEAR_MS), Err(Error::InsufficientRewardsPool));
}

#[test]
fn deposit_withdraw_round_trip_check_then_commit() {
    let mut pool = liq_pool();
    let owed = pool.deposit_liquidity_check(7, 250, 5000).unwrap();
    assert_eq!(owed, 250);
    pool.deposit_liquidity(7, 250, 5000).unwrap();
    let owed_back = pool.withdraw_liquidity_check(7, 250, 5000).unwrap();
    assert_eq!(owed_back, 250);
    pool.withdraw_liquidity(7, 250, 5000).unwrap();
    assert_eq!(pool.total_deposited(), 0);
    assert_eq!(pool.user_balance(7).unwrap(), 0);
}

#[test]
fn admin_management() {
    let mut pool = liq_pool();
    assert_eq!(pool.add_admin(9, 5), Err(Error::InsufficientAdminPrivileges));
    assert_eq!(pool.add_admin(2, 5), Ok(()));
    assert_eq!(pool.add_admin(2, 5), Err(Error::AdminAlreadyExists));
    assert_eq!(pool.remove_admin(2, 5), Ok(()));
    assert_eq!(pool.remove_admin(2, 5), Err(Error::AdminDoesNotExist));
    assert_eq!(pool.set_ltv(9, 50), Err(Error::InsufficientAdminPrivileges));
    assert_eq!(pool.set_ltv(2, 50), Ok(()));
    assert_eq!(pool.ltv, 50);
    assert_eq!(pool.set_vft_contract_id(2, 42), Ok(LiquidityEvent::VFTseted(42)));
    assert_eq!(pool.vft_contract_id(), Some(42));
}

#[test]
fn rewards_pool_change_needs_an_admin() {
    let mut pool = liq_pool();
    assert_eq!(
        pool.handle_action(LiquidityAction::ModifyAvailableRewardsPool(10), 9, 0),
        Err(Error::InsufficientAdminPrivileges)
    );
    assert_eq!(
        pool.handle_action(LiquidityAction::ModifyAvailableRewardsPool(10), 2, 0),
        Ok(LiquidityEvent::AvailableRewardsPoolModified(10))
    );
    assert_eq!(pool.available_rewards_pool, 10 * DECIMALS_FACTOR);
}

#[test]
fn queries_report_scaled_units() {
    let mut pool = liq_pool();
    pool.deposit_liquidity(3, 1234, 0).unwrap();
    assert_eq!(pool.user_balance(3).unwrap(), 1234);
    assert_eq!(pool.user_rewards(3).unwrap(), 0);
    assert_eq!(pool.user_balance(4), Err(Error::UserNotFound));
    let users = pool.all_users();
    assert_eq!(users, vec![3]);
}
