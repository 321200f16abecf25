use fee_router::quote::simulate;

#[test]
fn simulate_no_commission() {
    // raw output is floor(ask_pool - k / (offer_pool + offer_amount))
    //             = floor(400 * 50 / 150) = 133
    assert_eq!(simulate(100, 400, 50, 0), 133);
    assert_eq!(simulate(100, 400, 0, 0), 0);
}

#[test]
fn simulate_with_commission() {
    // raw = floor(4e6 * 5e5 / 1.5e6) = 1_333_333; fee = floor(raw * 30 / 10000) = 3_999
    assert_eq!(simulate(1_000_000, 4_000_000, 500_000, 30), 1_329_334);
}

#[test]
fn simulate_nearly_full_commission() {
    // with 9999 bps nearly everything is withheld
    assert_eq!(simulate(5, 5, 1_000_000, 9999), 1);
}

#[test]
fn simulate_monotonic_samples() {
    let mut last = 0;
    for offer in [1u128, 10, 100, 1_000, 10_000, 100_000] {
        let out = simulate(1_000_000, 4_000_000, offer, 30);
        assert!(out >= last);
        last = out;
    }
}

#[test]
fn simulate_below_ask_pool() {
    // even an enormous offer cannot drain the ask side
    let out = simulate(1_000, 1_000, u128::MAX - 1_000, 0);
    assert!(out < 1_000);
}
