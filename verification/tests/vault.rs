use vstreet::errors::Error;
use vstreet::vault::{ConvictionLevel, VaultPosition, VaultState};

const DAY_MS: u128 = 86_400 * 1000;

fn vault() -> VaultState {
    VaultState::seed(1, vec![1], Some(9))
}

#[test]
fn conviction_table() {
    assert_eq!(ConvictionLevel::OneDay.multiplier(), 100);
    assert_eq!(ConvictionLevel::SevenDays.multiplier(), 150);
    assert_eq!(ConvictionLevel::FourteenDays.multiplier(), 200);
    assert_eq!(ConvictionLevel::TwentyEightDays.multiplier(), 300);
    assert_eq!(ConvictionLevel::NinetyDays.multiplier(), 400);
    assert_eq!(ConvictionLevel::OneDay.duration_seconds(), 86_400);
    assert_eq!(ConvictionLevel::SevenDays.duration_seconds(), 604_800);
    assert_eq!(ConvictionLevel::FourteenDays.duration_seconds(), 1_209_600);
    assert_eq!(ConvictionLevel::TwentyEightDays.duration_seconds(), 2_419_200);
    assert_eq!(ConvictionLevel::NinetyDays.duration_seconds(), 7_776_000);
}

#[test]
fn stake_seven_days_multiplier() {
    let mut vault = vault();
    let p = vault.stake_vst(2, 1_000_000, ConvictionLevel::SevenDays, 0).unwrap();
    assert_eq!(p.multiplier, 150);
    assert_eq!(p.power, 1_500_000);
    assert_eq!(p.id, 1);
    assert_eq!(p.unlock_timestamp, 7 * DAY_MS);
    assert!(p.is_active);
    assert!(!p.claimed);
}

#[test]
fn three_stakes_aggregate() {
    let mut vault = vault();
    vault.stake_vst(2, 1_000_000, ConvictionLevel::OneDay, 0).unwrap();
    vault.stake_vst(2, 2_000_000, ConvictionLevel::FourteenDays, 0).unwrap();
    vault.stake_vst(2, 3_000_000, ConvictionLevel::NinetyDays, 0).unwrap();

    let stats = vault.global_stats();
    assert_eq!(stats.total_vst_locked, 6_000_000);
    assert_eq!(stats.total_power, 17_000_000);
    assert_eq!(stats.active_positions_count, 3);

    assert_eq!(vault.user_total_staked(2, 0), 6_000_000);
    assert_eq!(vault.user_total_power(2, 0), 17_000_000);
}

#[test]
fn stake_validation() {
    let mut vault = vault();
    assert_eq!(vault.stake_vst(2, 0, ConvictionLevel::OneDay, 0), Err(Error::ZeroAmount));
    assert_eq!(vault.stake_vst_check(0, ConvictionLevel::OneDay, 0), Err(Error::ZeroAmount));

    let mut unconfigured = VaultState::seed(1, vec![1], None);
    assert_eq!(
        unconfigured.stake_vst(2, 10, ConvictionLevel::OneDay, 0),
        Err(Error::TokenNotConfigured)
    );

    assert_eq!(
        vault.stake_vst(2, u128::MAX / 2, ConvictionLevel::NinetyDays, 0),
        Err(Error::ArithmeticOverflow)
    );
}

#[test]
fn unlock_and_claim_lifecycle() {
    let mut vault = vault();
    vault.stake_vst(2, 500, ConvictionLevel::OneDay, 0).unwrap();

    assert_eq!(vault.unlock_and_claim_position(2, 1, DAY_MS - 1), Err(Error::PositionNotMatured));
    assert_eq!(vault.unlock_and_claim_position(3, 1, DAY_MS), Err(Error::NotPositionOwner));
    assert_eq!(vault.unlock_and_claim_position(2, 7, DAY_MS), Err(Error::PositionNotFound));
    assert_eq!(vault.unlock_and_claim_position_check(2, 1, DAY_MS), Ok(500));

    vault.unlock_and_claim_position(2, 1, DAY_MS).unwrap();
    let p = vault.position_details(1).unwrap();
    assert!(p.claimed);
    assert!(!p.is_active);
    let stats = vault.global_stats();
    assert_eq!(stats.total_vst_locked, 0);
    assert_eq!(stats.total_power, 0);
    assert_eq!(stats.active_positions_count, 0);

    assert_eq!(vault.unlock_and_claim_position(2, 1, DAY_MS), Err(Error::PositionAlreadyClaimed));
}

#[test]
fn inactive_position_is_refused() {
    // An inactive yet unclaimed position cannot arise through the
    // operations; build the state directly to reach the check.
    let mut vault = vault();
    vault.positions.push(VaultPosition {
        id: 1,
        user: 2,
        amount: 10,
        conviction_level: ConvictionLevel::OneDay,
        multiplier: 100,
        power: 10,
        start_timestamp: 0,
        unlock_timestamp: DAY_MS,
        is_active: false,
        claimed: false,
    });
    assert_eq!(vault.unlock_and_claim_position_check(2, 1, DAY_MS), Err(Error::PositionInactive));
}

#[test]
fn claim_multiple_is_best_effort() {
    let mut vault = vault();
    vault.stake_vst(2, 100, ConvictionLevel::OneDay, 0).unwrap();
    vault.stake_vst(2, 200, ConvictionLevel::NinetyDays, 0).unwrap();
    vault.stake_vst(3, 300, ConvictionLevel::OneDay, 0).unwrap();
    vault.stake_vst(2, 400, ConvictionLevel::OneDay, 0).unwrap();

    // Position 2 has not matured, position 3 belongs to someone else, and
    // position 9 does not exist: only 1 and 4 are claimed.
    let (total, count) = vault.claim_multiple_positions(2, &vec![1, 2, 3, 9, 4], DAY_MS);
    assert_eq!(total, 500);
    assert_eq!(count, 2);
    assert!(vault.position_details(1).unwrap().claimed);
    assert!(!vault.position_details(2).unwrap().claimed);
    assert!(!vault.position_details(3).unwrap().claimed);
    assert!(vault.position_details(4).unwrap().claimed);
}

#[test]
fn user_vault_info_recategorizes_by_time() {
    let mut vault = vault();
    vault.stake_vst(2, 100, ConvictionLevel::OneDay, 0).unwrap();
    vault.stake_vst(2, 200, ConvictionLevel::NinetyDays, 0).unwrap();
    vault.stake_vst(3, 300, ConvictionLevel::OneDay, 0).unwrap();
    vault.stake_vst(2, 400, ConvictionLevel::OneDay, 0).unwrap();
    vault.unlock_and_claim_position(2, 4, DAY_MS).unwrap();

    let info = vault.user_vault_info(2, DAY_MS);
    assert_eq!(info.position_history, vec![1, 2, 4]);
    assert_eq!(info.matured_positions, vec![1]);
    assert_eq!(info.active_positions, vec![2]);
    assert_eq!(info.total_staked_vst, 300);
    assert_eq!(info.total_power, 100 + 800);

    let active = vault.user_active_positions(2, DAY_MS);
    assert_eq!(active.len(), 1);
    assert_eq!(active[0].id, 2);
    let matured = vault.user_matured_positions(2, DAY_MS);
    assert_eq!(matured.len(), 1);
    assert_eq!(matured[0].id, 1);
    let all = vault.user_positions(2);
    assert_eq!(all.len(), 3);
}

#[test]
fn time_until_unlock_counts_down_in_seconds() {
    let mut vault = vault();
    vault.stake_vst(2, 100, ConvictionLevel::SevenDays, 0).unwrap();
    assert_eq!(vault.time_until_unlock(1, 0), 7 * 86_400);
    assert_eq!(vault.time_until_unlock(1, 3 * DAY_MS), 4 * 86_400);
    assert_eq!(vault.time_until_unlock(1, 7 * DAY_MS), 0);
    assert_eq!(vault.time_until_unlock(5, 0), 0);
}

#[test]
fn vault_admin_management() {
    let mut vault = vault();
    assert_eq!(vault.add_admin(9, 5), Err(Error::InsufficientAdminPrivileges));
    assert_eq!(vault.add_admin(1, 5), Ok(()));
    assert_eq!(vault.add_admin(1, 5), Err(Error::AdminAlreadyExists));
    assert_eq!(vault.set_vst_token_id(9, 4), Err(Error::InsufficientAdminPrivileges));
    assert_eq!(vault.set_vst_token_id(5, 4), Ok(()));
    assert_eq!(vault.vst_token_id, Some(4));
    assert_eq!(vault.next_position_id(), 1);
}
