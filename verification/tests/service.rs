use vstreet::config::Config;
use vstreet::events::LiquidityEvent;
use vstreet::pool::LiquidityPool;

const ACTOR_ID: u128 = 42;
const VFT_CONTRACT_ID: u128 = 43;
const YEAR_MS: u128 = 31_536_000 * 1000;

fn service_config() -> Config {
    Config {
        decimals_factor: 1_000_000,
        year_in_seconds: 31_536_000,
        base_rate: 10_000,
        risk_multiplier: 40_000,
        one_tvara: 1_000_000_000_000,
        vara_price: 1_000_000,
        dev_fee: 15_000,
        max_loan_amount: 100_000_000_000_000_000_000,
        max_collateral_withdraw: 100_000_000_000_000_000_000,
        max_liquidity_deposit: 100_000_000_000_000_000_000,
        max_liquidity_withdraw: 100_000_000_000_000_000_000,
        min_rewards_withdraw: 100_000,
    }
}

fn service_pool() -> LiquidityPool {
    LiquidityPool::seed(ACTOR_ID, vec![ACTOR_ID], Some(VFT_CONTRACT_ID), 70, service_config())
}

#[test]
fn contract_owner_works() {
    let pool = service_pool();
    assert_eq!(pool.contract_owner(), 42);
}

#[test]
fn set_vft_contract_id_works() {
    let mut pool = service_pool();
    pool.set_vft_contract_id(ACTOR_ID, VFT_CONTRACT_ID).unwrap();
    assert_eq!(pool.vft_contract_id(), Some(43));
}

#[test]
fn deposit_collateral_works() {
    let mut pool = service_pool();
    let res = pool.deposit_collateral(ACTOR_ID, 10_000_000_000, 0);
    assert_eq!(res, Ok(LiquidityEvent::DepositedVara(10_000_000_000)));
    assert_eq!(pool.user_info(ACTOR_ID).unwrap().balance_vara, 10_000_000_000);
}

#[test]
fn withdraw_rewards_works() {
    let mut pool = service_pool();
    pool.deposit_liquidity(ACTOR_ID, 10_000_000_000, 0).unwrap();
    pool.modify_available_rewards_pool(ACTOR_ID, 100_000_000_000_000, 0).unwrap();

    let res = pool.withdraw_rewards(ACTOR_ID, YEAR_MS);
    assert!(res.is_ok(), "WithdrawRewards event should be triggered");
    assert!(matches!(res, Ok(LiquidityEvent::RewardsWithdrawn(_))));
}

#[test]
fn user_rewards_works() {
    let mut pool = service_pool();
    pool.deposit_liquidity(ACTOR_ID, 10_000_000_000, 0).unwrap();
    pool.update_all_rewards(YEAR_MS);
    assert!(pool.user_rewards(ACTOR_ID).unwrap() > 0, "User should have rewards");
}
