use vstreet::rate::{apr, interest_rate, utilization_factor};

const SCALE: u128 = 1_000_000;

#[test]
fn utilization_is_the_borrowed_share() {
    // Half the supply lent out: half the scale.
    assert_eq!(utilization_factor(500_000 * SCALE, 1_000_000 * SCALE, SCALE), SCALE / 2);
    // Everything lent out: exactly the scale.
    assert_eq!(utilization_factor(7, 7, SCALE), SCALE);
    assert_eq!(utilization_factor(0, 1_000, SCALE), 0);
    assert_eq!(utilization_factor(1_000, 0, SCALE), 0);
}

#[test]
fn interest_rate_formula() {
    // base 10_000 plus half of the 40_000 multiplier.
    assert_eq!(interest_rate(10_000, 40_000, SCALE / 2, SCALE), 30_000);
    assert_eq!(interest_rate(10_000, 40_000, 0, SCALE), 10_000);
    assert_eq!(interest_rate(10_000, 40_000, SCALE, SCALE), 50_000);
}

#[test]
fn interest_rate_saturates_instead_of_wrapping() {
    let r = interest_rate(u128::MAX, u128::MAX, u128::MAX, 1);
    assert_eq!(r, u128::MAX);
}

#[test]
fn interest_rate_is_monotone_in_utilization_samples() {
    let mut last: u128 = 0;
    let mut u: u128 = 0;
    while u <= SCALE {
        let r = interest_rate(10_000, 40_000, u, SCALE);
        assert!(r >= last);
        last = r;
        u += SCALE / 10;
    }
}

#[test]
fn borrower_rate_adds_the_dev_fee() {
    // 1.5% on top of a 30_000 lender rate.
    assert_eq!(apr(30_000, 15_000, SCALE), 30_000 + 30_000 * 15_000 / SCALE);
    assert_eq!(apr(30_000, 0, SCALE), 30_000);
}
