use vstreet::config::Config;
use vstreet::errors::Error;
use vstreet::pool::LiquidityPool;

const SCALE: u128 = 1_000_000;
const ONE_TVARA: u128 = 1_000_000_000_000;

fn coll_config() -> Config {
    Config {
        decimals_factor: SCALE,
        year_in_seconds: 31_536_000,
        base_rate: 10_000,
        risk_multiplier: 40_000,
        one_tvara: ONE_TVARA,
        vara_price: 1_000_000,
        dev_fee: 15_000,
        max_loan_amount: 100_000_000_000_000_000_000,
        max_collateral_withdraw: 100_000_000_000_000_000_000,
        max_liquidity_deposit: 100_000_000_000_000_000_000,
        max_liquidity_withdraw: 100_000_000_000_000_000_000,
        min_rewards_withdraw: 100_000,
    }
}

fn coll_pool() -> LiquidityPool {
    LiquidityPool::seed(1, vec![1], Some(9), 70, coll_config())
}

#[test]
fn test_deposit_collateral() {
    // A flat configuration: one native unit of value, so amounts read
    // directly.
    let mut config = coll_config();
    config.one_tvara = 1;
    let mut pool = LiquidityPool::seed(1, vec![1], Some(9), 70, config);
    let amount: u128 = 100;

    pool.deposit_collateral(2, amount, 0).unwrap();

    assert_eq!(pool.all_users().len(), 1);
    assert_eq!(pool.user_info(2).unwrap().balance_vara, amount);
}

#[test]
fn test_withdraw_collateral() {
    let mut config = coll_config();
    config.one_tvara = 1;
    let mut pool = LiquidityPool::seed(1, vec![1], Some(9), 70, config);
    let amount: u128 = 100;

    pool.deposit_collateral(2, amount, 0).unwrap();
    pool.withdraw_collateral(2, amount, 0).unwrap();

    assert_eq!(pool.user_info(2).unwrap().balance_vara, 0);
    assert_eq!(pool.user_info(2).unwrap().available_to_withdraw_vara, 0);
}

#[test]
fn collateral_valuation_follows_price() {
    let mut pool = coll_pool();
    pool.deposit_collateral(2, 10 * ONE_TVARA, 0).unwrap();

    let info = pool.user_info(2).unwrap();
    assert_eq!(info.cv, 10 * 1_000_000);
    assert_eq!(info.mla, 10 * 1_000_000 * 70 / 100);
    assert_eq!(pool.calculate_cv(2).unwrap(), info.cv);
    assert_eq!(pool.calculate_mla(2).unwrap(), info.mla);

    pool.set_vara_price(1, 2_000_000, 0).unwrap();
    let info = pool.user_info(2).unwrap();
    assert_eq!(info.cv, 20 * 1_000_000);
    assert_eq!(info.mla, 20 * 1_000_000 * 70 / 100);
}

#[test]
fn sub_unit_collateral_is_floored_in_valuation() {
    let mut pool = coll_pool();
    pool.deposit_collateral(2, ONE_TVARA / 2, 0).unwrap();
    assert_eq!(pool.user_info(2).unwrap().cv, 0);
}

#[test]
fn take_loan_within_mla() {
    let mut pool = coll_pool();
    pool.deposit_collateral(2, 10 * ONE_TVARA, 0).unwrap();

    // cv = 10_000_000, mla = 7_000_000: seven whole units fit exactly.
    assert_eq!(pool.take_loan_check(2, 7, 0), Ok(7));
    pool.take_loan(2, 7, 0).unwrap();

    let info = pool.user_info(2).unwrap();
    assert!(info.is_loan_active);
    assert_eq!(info.loan_amount, 7 * SCALE);
    assert_eq!(info.ltv, 70);
    assert_eq!(pool.total_borrowed, 7 * SCALE);
    // 70% of the collateral is locked.
    assert_eq!(info.available_to_withdraw_vara, 3 * ONE_TVARA);
}

#[test]
fn take_loan_beyond_mla_is_refused() {
    let mut pool = coll_pool();
    pool.deposit_collateral(2, 10 * ONE_TVARA, 0).unwrap();
    assert_eq!(pool.take_loan(2, 8, 0), Err(Error::InvalidAmount));
    assert_eq!(pool.take_loan(2, 0, 0), Err(Error::ZeroAmount));
    assert_eq!(pool.take_loan(5, 1, 0), Err(Error::UserNotFound));
}

#[test]
fn pay_loan_partial_and_full() {
    let mut pool = coll_pool();
    pool.deposit_collateral(2, 10 * ONE_TVARA, 0).unwrap();
    pool.take_loan(2, 6, 0).unwrap();

    assert_eq!(pool.pay_loan_check(2, 2, 0), Ok(2));
    pool.pay_loan(2, 2, 0).unwrap();
    let info = pool.user_info(2).unwrap();
    assert!(info.is_loan_active);
    assert_eq!(info.loan_amount, 4 * SCALE);
    assert_eq!(info.ltv, 4 * SCALE * 100 / (10 * 1_000_000));
    assert_eq!(pool.total_borrowed, 4 * SCALE);

    pool.pay_loan(2, 4, 0).unwrap();
    let info = pool.user_info(2).unwrap();
    assert!(!info.is_loan_active);
    assert_eq!(info.loan_amount, 0);
    assert_eq!(info.ltv, 0);
    assert_eq!(info.available_to_withdraw_vara, 10 * ONE_TVARA);
    assert_eq!(pool.total_borrowed, 0);
}

#[test]
fn pay_loan_beyond_debt_is_refused() {
    let mut pool = coll_pool();
    pool.deposit_collateral(2, 10 * ONE_TVARA, 0).unwrap();
    pool.take_loan(2, 3, 0).unwrap();
    assert_eq!(pool.pay_loan(2, 4, 0), Err(Error::InvalidAmount));
}

#[test]
fn pay_all_loan_clears_the_position() {
    let mut pool = coll_pool();
    pool.deposit_collateral(2, 10 * ONE_TVARA, 0).unwrap();
    pool.take_loan(2, 5, 0).unwrap();

    assert_eq!(pool.pay_all_loan_check(2, 0), Ok(5));
    pool.pay_all_loan(2, 0).unwrap();

    let info = pool.user_info(2).unwrap();
    assert!(!info.is_loan_active);
    assert_eq!(info.loan_amount, 0);
    assert_eq!(pool.total_borrowed, 0);

    assert_eq!(pool.pay_all_loan(2, 0), Err(Error::InvalidAmount));
}

#[test]
fn liquidation_on_price_update_at_the_ceiling() {
    let mut pool = coll_pool();
    pool.deposit_collateral(2, 10 * ONE_TVARA, 0).unwrap();
    pool.take_loan(2, 7, 0).unwrap();
    assert_eq!(pool.user_info(2).unwrap().ltv, 70);

    // Re-pushing the same price revalues everyone; ltv 70 >= ceiling 70
    // must liquidate.
    pool.set_vara_price(1, 1_000_000, 0).unwrap();

    let info = pool.user_info(2).unwrap();
    assert_eq!(info.loan_amount, 0);
    assert!(!info.is_loan_active);
    // The locked 70% of collateral was seized.
    assert_eq!(info.balance_vara, 3 * ONE_TVARA);
    assert_eq!(pool.total_borrowed, 0);
}

#[test]
fn below_ceiling_survives_price_update() {
    let mut pool = coll_pool();
    pool.deposit_collateral(2, 10 * ONE_TVARA, 0).unwrap();
    pool.take_loan(2, 6, 0).unwrap();
    assert_eq!(pool.user_info(2).unwrap().ltv, 60);

    pool.set_vara_price(1, 1_000_000, 0).unwrap();

    let info = pool.user_info(2).unwrap();
    assert!(info.is_loan_active);
    assert_eq!(info.loan_amount, 6 * SCALE);
    assert_eq!(info.balance_vara, 10 * ONE_TVARA);
}

#[test]
fn liquidation_on_collateral_withdrawal() {
    let mut pool = coll_pool();
    pool.deposit_collateral(2, 10 * ONE_TVARA, 0).unwrap();
    pool.take_loan(2, 3, 0).unwrap();
    assert_eq!(pool.user_info(2).unwrap().ltv, 30);

    // Withdrawing six units leaves cv 4_000_000 against a 3_000_000 loan:
    // ltv 75 >= 70, so the commit liquidates on the spot.
    assert_eq!(pool.withdraw_collateral_check(2, 6, 0), Ok(6 * ONE_TVARA));
    pool.withdraw_collateral(2, 6, 0).unwrap();

    let info = pool.user_info(2).unwrap();
    assert_eq!(info.loan_amount, 0);
    assert!(!info.is_loan_active);
    assert_eq!(info.balance_vara, ONE_TVARA);
    assert_eq!(pool.total_borrowed, 0);
}

#[test]
fn liquidation_on_price_drop() {
    let mut pool = coll_pool();
    pool.deposit_collateral(2, 10 * ONE_TVARA, 0).unwrap();
    pool.take_loan(2, 5, 0).unwrap();
    assert_eq!(pool.user_info(2).unwrap().ltv, 50);

    // Price drops 30%: cv 7_000_000 against a 5_000_000 loan gives ltv 71.
    pool.set_vara_price(1, 700_000, 0).unwrap();

    let info = pool.user_info(2).unwrap();
    assert_eq!(info.loan_amount, 0);
    assert!(!info.is_loan_active);
}

#[test]
fn liquidate_user_loan_is_a_no_op_below_the_ceiling() {
    let mut pool = coll_pool();
    pool.deposit_collateral(2, 10 * ONE_TVARA, 0).unwrap();
    pool.take_loan(2, 2, 0).unwrap();

    pool.liquidate_user_loan(2, 0).unwrap();
    let info = pool.user_info(2).unwrap();
    assert!(info.is_loan_active);
    assert_eq!(info.loan_amount, 2 * SCALE);

    assert_eq!(pool.liquidate_user_loan(5, 0), Err(Error::UserNotFound));
}

#[test]
fn liquidate_all_loans_sweeps_every_account() {
    let mut pool = coll_pool();
    pool.deposit_collateral(2, 10 * ONE_TVARA, 0).unwrap();
    pool.take_loan(2, 7, 0).unwrap();
    pool.deposit_collateral(3, 10 * ONE_TVARA, 0).unwrap();
    pool.take_loan(3, 2, 0).unwrap();

    pool.liquidate_all_loans(0).unwrap();

    assert!(!pool.user_info(2).unwrap().is_loan_active);
    assert!(pool.user_info(3).unwrap().is_loan_active);
    assert_eq!(pool.total_borrowed, 2 * SCALE);
}

#[test]
fn loan_interest_sweep_grows_the_debt() {
    let mut pool = coll_pool();
    pool.deposit_collateral(2, 10 * ONE_TVARA, 0).unwrap();
    pool.take_loan(2, 4, 0).unwrap();
    let before = pool.user_info(2).unwrap().loan_amount;

    // A year later, at the borrower rate of base plus the dev fee on it.
    let year_ms: u128 = 31_536_000 * 1000;
    pool.calculate_all_loan_interest_rate_amounts(year_ms).unwrap();

    let info = pool.user_info(2).unwrap();
    let apr = pool.apr;
    let expected = before + before * apr / SCALE;
    assert_eq!(info.loan_amount, expected);
    assert_eq!(info.borrow_last_updated, year_ms);
}

#[test]
fn collateral_withdrawal_is_capped_by_availability() {
    let mut pool = coll_pool();
    pool.deposit_collateral(2, 10 * ONE_TVARA, 0).unwrap();
    pool.take_loan(2, 7, 0).unwrap();
    // 70% locked: only three units may leave.
    assert_eq!(pool.withdraw_collateral(2, 4, 0), Err(Error::InvalidAmount));
    assert_eq!(pool.withdraw_collateral(2, 0, 0), Err(Error::ZeroAmount));
    assert_eq!(pool.deposit_collateral(2, 0, 0), Err(Error::ZeroAmount));
}
