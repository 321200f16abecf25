//! Constant-product swap quote simulation.
//!
//! Given the two pool reserves, an offered amount and a commission rate in
//! basis points, computes the exact amount a constant-product pool returns:
//! the raw output `ask_pool - k / (offer_pool + offer_amount)` (with
//! `k = offer_pool * ask_pool`), floored, minus the floored commission.

use vstd::prelude::*;
use crate::wide::{widening_mul, U256};

verus! {

/// Raw constant-product output before commission, rounded down. Equals
/// `floor(ask_pool - k / (offer_pool + offer_amount))`, rewritten over a
/// single division.
pub open spec fn quote_raw(offer_pool: int, ask_pool: int, offer_amount: int) -> int {
    (ask_pool * offer_amount) / (offer_pool + offer_amount)
}

/// Commission withheld from a raw output, rounded down.
pub open spec fn quote_commission(raw: int, commission_bps: int) -> int {
    (raw * commission_bps) / 10000
}

/// The amount a swap returns: raw output minus commission.
pub open spec fn quote_return(
    offer_pool: int,
    ask_pool: int,
    offer_amount: int,
    commission_bps: int,
) -> int {
    quote_raw(offer_pool, ask_pool, offer_amount) - quote_commission(
        quote_raw(offer_pool, ask_pool, offer_amount),
        commission_bps,
    )
}

/// Simulates a constant-product swap. The result always fits the native
/// width: it never exceeds the ask-side reserve.
pub fn simulate(offer_pool: u128, ask_pool: u128, offer_amount: u128, commission_bps: u64) -> (r:
    u128)
    requires
        commission_bps < 10000,
        offer_pool + offer_amount > 0,
    ensures
        r == quote_return(
            offer_pool as int,
            ask_pool as int,
            offer_amount as int,
            commission_bps as int,
        ),
        r <= ask_pool,
{
    let num = widening_mul(ask_pool, offer_amount);
    let denom_sum = U256::from_u128(offer_pool).add_checked(U256::from_u128(offer_amount));
    proof {
        crate::wide::lemma_u256_bound(num);
    }
    let denom = denom_sum.unwrap();
    let (q, rem) = num.div_rem(denom);
    proof {
        crate::wide::lemma_u256_bound(q);
        vstd::arithmetic::div_mod::lemma_fundamental_div_mod_converse(
            num.v(),
            denom.v(),
            q.v(),
            rem.v(),
        );
        lemma_quotient_at_most(
            ask_pool as int,
            offer_amount as int,
            offer_pool + offer_amount,
            q.v(),
            rem.v(),
        );
    }
    let raw = q.try_to_u128().unwrap();
    let fee_num = widening_mul(raw, commission_bps as u128);
    let (fq, frem) = fee_num.div_rem(U256::from_u128(10000));
    proof {
        crate::wide::lemma_u256_bound(fq);
        vstd::arithmetic::div_mod::lemma_fundamental_div_mod_converse(
            fee_num.v(),
            10000,
            fq.v(),
            frem.v(),
        );
        lemma_quotient_at_most(raw as int, commission_bps as int, 10000, fq.v(), frem.v());
    }
    let fee = fq.try_to_u128().unwrap();
    raw - fee
}

/// If `q * d + rem == a * b` with `0 <= rem` and `b <= d`, the quotient `q`
/// is at most `a`: dividing `a * b` by something at least `b` cannot exceed
/// `a`.
pub proof fn lemma_quotient_at_most(a: int, b: int, d: int, q: int, rem: int)
    by (nonlinear_arith)
    requires
        a >= 0,
        b >= 0,
        d > 0,
        b <= d,
        q * d + rem == a * b,
        0 <= rem,
        q >= 0,
    ensures
        q <= a,
{
    assert(a * b <= a * d);
}

/// Cross-multiplied comparison carries through floor division:
/// `a*d <= c*b` gives `a/b <= c/d`.
proof fn lemma_div_cross_monotone(a: int, b: int, c: int, d: int)
    requires
        a >= 0,
        c >= 0,
        b > 0,
        d > 0,
        a * d <= c * b,
    ensures
        a / b <= c / d,
{
    let q = a / b;
    vstd::arithmetic::div_mod::lemma_fundamental_div_mod(a, b);
    vstd::arithmetic::div_mod::lemma_fundamental_div_mod(c, d);
    vstd::arithmetic::div_mod::lemma_mod_bound(a, b);
    vstd::arithmetic::div_mod::lemma_mod_bound(c, d);
    vstd::arithmetic::div_mod::lemma_div_pos_is_pos(a, b);
    vstd::arithmetic::div_mod::lemma_div_pos_is_pos(c, d);
    assert(q <= c / d) by (nonlinear_arith)
        requires
            a == b * q + a % b,
            0 <= a % b < b,
            c == d * (c / d) + c % d,
            0 <= c % d < d,
            a * d <= c * b,
            b > 0,
            d > 0,
            q >= 0,
            c / d >= 0,
    ;
}

/// Taking a commission of at most 100% keeps the net amount monotone: a
/// larger raw output never nets less after the fee is floored away.
proof fn lemma_after_fee_monotone(x: int, y: int, c: int)
    requires
        0 <= x <= y,
        0 <= c <= 10000,
    ensures
        x - quote_commission(x, c) <= y - quote_commission(y, c),
{
    let k = y - x;
    assert(y * c - k * 10000 <= x * c) by (nonlinear_arith)
        requires
            k == y - x,
            k >= 0,
            c <= 10000,
    ;
    assert((y * c + (-k) * 10000) / 10000 == y * c / 10000 + (-k)) by {
        vstd::arithmetic::div_mod::lemma_hoist_over_denominator(y * c, -k, 10000nat);
    }
    assert(y * c >= 0 && x * c >= 0) by (nonlinear_arith)
        requires
            x >= 0,
            y >= 0,
            c >= 0,
    ;
    vstd::arithmetic::div_mod::lemma_div_is_ordered(y * c - k * 10000, x * c, 10000);
}

/// Quote monotonicity: with the same reserves and commission, offering more
/// never returns less.
pub proof fn lemma_quote_monotonic(
    offer_pool: int,
    ask_pool: int,
    amount_small: int,
    amount_large: int,
    commission_bps: int,
)
    requires
        offer_pool >= 0,
        ask_pool >= 0,
        0 <= amount_small <= amount_large,
        offer_pool + amount_small > 0,
        0 <= commission_bps <= 10000,
    ensures
        quote_return(offer_pool, ask_pool, amount_small, commission_bps) <= quote_return(
            offer_pool,
            ask_pool,
            amount_large,
            commission_bps,
        ),
{
    let raw_s = quote_raw(offer_pool, ask_pool, amount_small);
    let raw_l = quote_raw(offer_pool, ask_pool, amount_large);
    assert((ask_pool * amount_small) * (offer_pool + amount_large) <= (ask_pool * amount_large) * (
    offer_pool + amount_small)) by (nonlinear_arith)
        requires
            ask_pool >= 0,
            offer_pool >= 0,
            0 <= amount_small <= amount_large,
    ;
    assert(ask_pool * amount_small >= 0 && ask_pool * amount_large >= 0) by (nonlinear_arith)
        requires
            ask_pool >= 0,
            amount_small >= 0,
            amount_large >= 0,
    ;
    lemma_div_cross_monotone(
        ask_pool * amount_small,
        offer_pool + amount_small,
        ask_pool * amount_large,
        offer_pool + amount_large,
    );
    vstd::arithmetic::div_mod::lemma_div_pos_is_pos(
        ask_pool * amount_small,
        offer_pool + amount_small,
    );
    lemma_after_fee_monotonic_bridge(raw_s, raw_l, commission_bps);
}

/// Restates `lemma_after_fee_monotone` over `quote_raw` values.
proof fn lemma_after_fee_monotonic_bridge(raw_s: int, raw_l: int, c: int)
    requires
        0 <= raw_s <= raw_l,
        0 <= c <= 10000,
    ensures
        raw_s - quote_commission(raw_s, c) <= raw_l - quote_commission(raw_l, c),
{
    lemma_after_fee_monotone(raw_s, raw_l, c);
}

/// The quote stays strictly under the ask-side reserve whenever both
/// reserves are funded.
pub proof fn lemma_quote_below_ask_pool(
    offer_pool: int,
    ask_pool: int,
    offer_amount: int,
    commission_bps: int,
)
    requires
        offer_pool >= 1,
        ask_pool >= 1,
        offer_amount >= 0,
        0 <= commission_bps <= 10000,
    ensures
        quote_return(offer_pool, ask_pool, offer_amount, commission_bps) < ask_pool,
{
    let raw = quote_raw(offer_pool, ask_pool, offer_amount);
    assert(ask_pool * offer_amount >= 0) by (nonlinear_arith)
        requires
            ask_pool >= 0,
            offer_amount >= 0,
    ;
    assert(ask_pool * offer_amount < (offer_pool + offer_amount) * ask_pool) by (nonlinear_arith)
        requires
            ask_pool >= 1,
            offer_pool >= 1,
            offer_amount >= 0,
    ;
    vstd::arithmetic::div_mod::lemma_multiply_divide_lt(
        ask_pool * offer_amount,
        offer_pool + offer_amount,
        ask_pool,
    );
    vstd::arithmetic::div_mod::lemma_div_pos_is_pos(
        ask_pool * offer_amount,
        offer_pool + offer_amount,
    );
    assert(raw * commission_bps >= 0) by (nonlinear_arith)
        requires
            raw >= 0,
            commission_bps >= 0,
    ;
    vstd::arithmetic::div_mod::lemma_div_pos_is_pos(raw * commission_bps, 10000);
}

} // verus!
