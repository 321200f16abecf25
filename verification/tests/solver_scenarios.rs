use fee_router::quote::simulate;
use fee_router::solver::{calculate_optimal_swap, get_swap_amount, SwapAdvice};

#[test]
fn balanced_deposit_no_swap() {
    // provide_a * pool_b == provide_b * pool_a: already proportional
    let r = calculate_optimal_swap(100, 25, 400, 100, 30).unwrap();
    assert_eq!(r, SwapAdvice::NoSwap);
    let r = calculate_optimal_swap(0, 0, 400, 100, 0).unwrap();
    assert_eq!(r, SwapAdvice::NoSwap);
}

#[test]
fn detects_b_excess_and_swaps() {
    // reserves (400, 100), deposit (50, 50), no commission: side B is in
    // excess; the closed form gives a swap of 15 with a non-zero return
    let r = calculate_optimal_swap(50, 50, 400, 100, 0).unwrap();
    assert_eq!(r, SwapAdvice::OfferB { amount: 15 });
    assert_eq!(simulate(100, 400, 15, 0), 52);
}

#[test]
fn detects_a_excess_and_swaps() {
    let r = calculate_optimal_swap(50, 50, 100, 400, 0).unwrap();
    assert_eq!(r, SwapAdvice::OfferA { amount: 15 });
}

#[test]
fn swap_amount_closed_form() {
    // the closed-form pieces for the b-excess case above:
    // area_x = 150 * 400 = 60000, area_y = 450 * 100 = 45000,
    // a = 4 * 10^8 * 45000, b = isqrt(60000) * isqrt(a) = 244 * 4242640,
    // b / 20000 / 450 - 100 = 15
    assert_eq!(get_swap_amount(50, 50, 100, 400, 0).unwrap(), 15);
}

#[test]
fn commission_kept_in_the_quadratic() {
    let r = calculate_optimal_swap(50, 50, 400, 100, 30).unwrap();
    assert_eq!(r, SwapAdvice::OfferB { amount: 15 });
    assert_eq!(simulate(100, 400, 15, 30), 52);
}

#[test]
fn post_swap_ratio_matches_reserves() {
    // at scale, applying the computed swap through the quote simulator
    // leaves the deposit in the pool's post-swap reserve ratio
    let (pool_a, pool_b) = (4_000_000u128, 1_000_000u128);
    let (provide_a, provide_b) = (500_000u128, 500_000u128);
    let advice = calculate_optimal_swap(provide_a, provide_b, pool_a, pool_b, 0).unwrap();
    let x = match advice {
        SwapAdvice::OfferB { amount } => amount,
        _ => panic!("expected side B in excess"),
    };
    assert_eq!(x, 154_700);
    let out = simulate(pool_b, pool_a, x, 0);
    assert_eq!(out, 535_896);
    let deposit_ratio = (provide_a + out) as f64 / (provide_b - x) as f64;
    let reserve_ratio = (pool_a - out) as f64 / (pool_b + x) as f64;
    assert!((deposit_ratio - reserve_ratio).abs() < 2e-5);
}
