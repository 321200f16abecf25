//! Optimal-swap solver for constant-product pools.
//!
//! Given two asset amounts to deposit and the pool's reserves and commission,
//! decides which side is in excess and computes, in closed form, the exact
//! amount of that side to swap so the remaining amounts match the pool's
//! reserve ratio. All products are taken at 256-bit width; the final amount
//! is narrowed back to 128 bits with an explicit overflow check.

use vstd::prelude::*;
use crate::error::Error;
use crate::quote;
use crate::wide::{U256, widening_mul, limb_base, wide_max, lemma_u256_bound};

verus! {

/// Integer square root, rounded down, as a recursive specification:
/// halve the bit width, double the root, correct by one.
pub open spec fn sqrt_floor(n: nat) -> nat
    decreases n,
{
    if n < 1 {
        0
    } else if n < 4 {
        1
    } else {
        let s = 2 * sqrt_floor(n / 4);
        if (s + 1) * (s + 1) <= n {
            s + 1
        } else {
            s
        }
    }
}

/// `sqrt_floor` really is the rounded-down square root.
pub proof fn lemma_sqrt_floor_correct(n: nat)
    ensures
        sqrt_floor(n) * sqrt_floor(n) <= n,
        (sqrt_floor(n) + 1) * (sqrt_floor(n) + 1) > n,
    decreases n,
{
    if n < 1 {
        assert(sqrt_floor(n) == 0);
        assert((sqrt_floor(n) + 1) * (sqrt_floor(n) + 1) > n) by (nonlinear_arith)
            requires
                sqrt_floor(n) == 0,
                n == 0,
        ;
    } else if n < 4 {
        assert(sqrt_floor(n) == 1);
        assert(sqrt_floor(n) * sqrt_floor(n) <= n) by (nonlinear_arith)
            requires
                sqrt_floor(n) == 1,
                n >= 1,
        ;
        assert((sqrt_floor(n) + 1) * (sqrt_floor(n) + 1) > n) by (nonlinear_arith)
            requires
                sqrt_floor(n) == 1,
                n < 4,
        ;
    } else {
        let m = n / 4;
        lemma_sqrt_floor_correct(m);
        let s0 = sqrt_floor(m);
        let s = 2 * s0;
        vstd::arithmetic::div_mod::lemma_fundamental_div_mod(n as int, 4);
        vstd::arithmetic::div_mod::lemma_mod_bound(n as int, 4);
        assert(s * s <= n) by (nonlinear_arith)
            requires
                s == 2 * s0,
                s0 * s0 <= m,
                4 * m <= n,
        ;
        assert((s + 2) * (s + 2) > n) by (nonlinear_arith)
            requires
                s == 2 * s0,
                (s0 + 1) * (s0 + 1) > m,
                n < 4 * m + 4,
        ;
        if (s + 1) * (s + 1) <= n {
            assert(sqrt_floor(n) == s + 1);
            assert(sqrt_floor(n) * sqrt_floor(n) <= n) by (nonlinear_arith)
                requires
                    sqrt_floor(n) == s + 1,
                    (s + 1) * (s + 1) <= n,
            ;
            assert((sqrt_floor(n) + 1) * (sqrt_floor(n) + 1) > n) by (nonlinear_arith)
                requires
                    sqrt_floor(n) == s + 1,
                    (s + 2) * (s + 2) > n,
            ;
        } else {
            assert(sqrt_floor(n) == s);
            assert(sqrt_floor(n) * sqrt_floor(n) <= n) by (nonlinear_arith)
                requires
                    sqrt_floor(n) == s,
                    s * s <= n,
            ;
            assert((sqrt_floor(n) + 1) * (sqrt_floor(n) + 1) > n) by (nonlinear_arith)
                requires
                    sqrt_floor(n) == s,
                    (s + 1) * (s + 1) > n,
            ;
        }
    }
}

/// A rounded-down square root is unique: anything squeezed between the same
/// squares is `sqrt_floor`.
pub proof fn lemma_sqrt_floor_unique(n: nat, r: nat)
    requires
        r * r <= n,
        (r + 1) * (r + 1) > n,
    ensures
        r == sqrt_floor(n),
{
    let s = sqrt_floor(n);
    lemma_sqrt_floor_correct(n);
    if r < s {
        assert((r + 1) * (r + 1) <= s * s) by (nonlinear_arith)
            requires
                r + 1 <= s,
        ;
    }
    if s < r {
        assert((s + 1) * (s + 1) <= r * r) by (nonlinear_arith)
            requires
                s + 1 <= r,
        ;
    }
}

/// `(provide_a + pool_a) * pool_b`: the cross-area of the excess side.
pub open spec fn area_x(amount_a: int, pool_a: int, pool_b: int) -> int {
    (amount_a + pool_a) * pool_b
}

/// `(provide_b + pool_b) * pool_a`: the cross-area of the deficit side.
pub open spec fn area_y(amount_b: int, pool_b: int, pool_a: int) -> int {
    (amount_b + pool_b) * pool_a
}

/// Discriminant-like coefficient of the closed-form solution:
/// `c^2 * area_x + 4 * (10000 - c) * 10000 * area_y`.
pub open spec fn solver_coeff_a(amount_a: int, amount_b: int, pool_a: int, pool_b: int, c: int)
    -> int {
    c * c * area_x(amount_a, pool_a, pool_b) + 4 * (10000 - c) * 10000 * area_y(
        amount_b,
        pool_b,
        pool_a,
    )
}

/// Numerator of the closed-form solution:
/// `c * area_x + sqrt(area_x) * sqrt(coeff_a)`, square roots rounded down.
pub open spec fn solver_coeff_b(amount_a: int, amount_b: int, pool_a: int, pool_b: int, c: int)
    -> int {
    c * area_x(amount_a, pool_a, pool_b) + sqrt_floor(
        area_x(amount_a, pool_a, pool_b) as nat,
    ) * sqrt_floor(solver_coeff_a(amount_a, amount_b, pool_a, pool_b, c) as nat)
}

/// The quotient `coeff_b / 20000 / (amount_b + pool_b)`, divisions rounded
/// down in sequence.
pub open spec fn solver_quotient(amount_a: int, amount_b: int, pool_a: int, pool_b: int, c: int)
    -> int {
    solver_coeff_b(amount_a, amount_b, pool_a, pool_b, c) / 20000 / (amount_b + pool_b)
}

/// The amount of the excess side to swap: the quotient less the pool's own
/// reserve, clamped at zero.
pub open spec fn optimal_swap_amount(amount_a: int, amount_b: int, pool_a: int, pool_b: int, c: int)
    -> int {
    if solver_quotient(amount_a, amount_b, pool_a, pool_b, c) >= pool_a {
        solver_quotient(amount_a, amount_b, pool_a, pool_b, c) - pool_a
    } else {
        0
    }
}

/// What `get_swap_amount` returns: the closed-form amount when every
/// 256-bit intermediate and the final 128-bit narrowing fit, and an
/// `Overflow` error otherwise.
pub open spec fn swap_amount_outcome(
    amount_a: int,
    amount_b: int,
    pool_a: int,
    pool_b: int,
    c: int,
) -> Result<int, Error> {
    if area_x(amount_a, pool_a, pool_b) < wide_max() && area_y(amount_b, pool_b, pool_a)
        < wide_max() && solver_coeff_a(amount_a, amount_b, pool_a, pool_b, c) < wide_max()
        && solver_coeff_b(amount_a, amount_b, pool_a, pool_b, c) < wide_max()
        && optimal_swap_amount(amount_a, amount_b, pool_a, pool_b, c) < limb_base() {
        Ok(optimal_swap_amount(amount_a, amount_b, pool_a, pool_b, c))
    } else {
        Err(Error::Overflow)
    }
}

/// Computes the closed-form swap amount for the excess side `a`.
pub fn get_swap_amount(
    amount_a: u128,
    amount_b: u128,
    pool_a: u128,
    pool_b: u128,
    commission_bps: u64,
) -> (r: Result<u128, Error>)
    requires
        commission_bps < 10000,
        amount_b + pool_b > 0,
    ensures
        match swap_amount_outcome(
            amount_a as int,
            amount_b as int,
            pool_a as int,
            pool_b as int,
            commission_bps as int,
        ) {
            Ok(v) => r matches Ok(x) && x == v,
            Err(e) => r == Err::<u128, Error>(e),
        },
{
    let ghost aa = amount_a as int;
    let ghost ab = amount_b as int;
    let ghost pa = pool_a as int;
    let ghost pb = pool_b as int;
    let ghost c = commission_bps as int;
    let pool_ax = U256::from_u128(amount_a).add_checked(U256::from_u128(pool_a)).unwrap();
    let pool_bx = U256::from_u128(amount_b).add_checked(U256::from_u128(pool_b)).unwrap();
    let area_ax = match pool_ax.mul_u128_checked(pool_b) {
        Some(v) => v,
        None => {
            proof {
                lemma_solver_coeffs_nonneg(aa, ab, pa, pb, c);
            }
            return Err(Error::Overflow);
        },
    };
    let area_bx = match pool_bx.mul_u128_checked(pool_a) {
        Some(v) => v,
        None => {
            proof {
                lemma_solver_coeffs_nonneg(aa, ab, pa, pb, c);
            }
            return Err(Error::Overflow);
        },
    };
    proof {
        assert(commission_bps * commission_bps < 100000000) by (nonlinear_arith)
            requires
                commission_bps < 10000,
        ;
    }
    let c_sq: u64 = commission_bps * commission_bps;
    let t1 = match area_ax.mul_u128_checked(c_sq as u128) {
        Some(v) => v,
        None => {
            proof {
                lemma_coeff_a_parts(aa, ab, pa, pb, c);
            }
            return Err(Error::Overflow);
        },
    };
    let y_coef: u64 = 4 * (10000 - commission_bps) * 10000;
    let t2 = match area_bx.mul_u128_checked(y_coef as u128) {
        Some(v) => v,
        None => {
            proof {
                lemma_coeff_a_parts(aa, ab, pa, pb, c);
            }
            return Err(Error::Overflow);
        },
    };
    proof {
        lemma_coeff_a_parts(aa, ab, pa, pb, c);
    }
    let quad_a = match t1.add_checked(t2) {
        Some(v) => v,
        None => {
            return Err(Error::Overflow);
        },
    };
    let sqrt_ax = area_ax.isqrt();
    let sqrt_a = quad_a.isqrt();
    proof {
        lemma_u256_bound(area_ax);
        lemma_u256_bound(quad_a);
        lemma_sqrt_floor_unique(area_ax.v() as nat, sqrt_ax as nat);
        lemma_sqrt_floor_unique(quad_a.v() as nat, sqrt_a as nat);
    }
    let root_prod = widening_mul(sqrt_ax, sqrt_a);
    let t3 = match area_ax.mul_u128_checked(commission_bps as u128) {
        Some(v) => v,
        None => {
            proof {
                lemma_coeff_b_parts(aa, ab, pa, pb, c);
            }
            return Err(Error::Overflow);
        },
    };
    proof {
        lemma_coeff_b_parts(aa, ab, pa, pb, c);
        lemma_u256_bound(root_prod);
    }
    let quad_b = match t3.add_checked(root_prod) {
        Some(v) => v,
        None => {
            return Err(Error::Overflow);
        },
    };
    let (q1, rem1) = quad_b.div_rem(U256::from_u128(20000));
    let (q2, rem2) = q1.div_rem(pool_bx);
    proof {
        vstd::arithmetic::div_mod::lemma_fundamental_div_mod_converse(
            quad_b.v(),
            20000,
            q1.v(),
            rem1.v(),
        );
        vstd::arithmetic::div_mod::lemma_fundamental_div_mod_converse(
            q1.v(),
            pool_bx.v(),
            q2.v(),
            rem2.v(),
        );
    }
    let pa_wide = U256::from_u128(pool_a);
    let amount = if pa_wide.le(q2) {
        q2.sub(pa_wide)
    } else {
        U256::from_u128(0)
    };
    match amount.try_to_u128() {
        Some(x) => Ok(x),
        None => Err(Error::Overflow),
    }
}

/// The solver's areas and coefficients are non-negative, and each coefficient
/// dominates its parts, so an overflowing part forces an overflowing
/// coefficient.
proof fn lemma_solver_coeffs_nonneg(aa: int, ab: int, pa: int, pb: int, c: int)
    by (nonlinear_arith)
    requires
        aa >= 0,
        ab >= 0,
        pa >= 0,
        pb >= 0,
        0 <= c < 10000,
    ensures
        area_x(aa, pa, pb) >= 0,
        area_y(ab, pb, pa) >= 0,
        solver_coeff_a(aa, ab, pa, pb, c) >= c * c * area_x(aa, pa, pb),
        solver_coeff_a(aa, ab, pa, pb, c) >= 4 * (10000 - c) * 10000 * area_y(ab, pb, pa),
        solver_coeff_a(aa, ab, pa, pb, c) >= 0,
        solver_coeff_a(aa, ab, pa, pb, c) >= area_x(aa, pa, pb) * (c * c),
        solver_coeff_a(aa, ab, pa, pb, c) >= area_y(ab, pb, pa) * (4 * (10000 - c) * 10000),
{
}

/// If a part of `coeff_a` overflows 256 bits, so does `coeff_a`; restated
/// over the operand order the checked multiplications use.
proof fn lemma_coeff_a_parts(aa: int, ab: int, pa: int, pb: int, c: int)
    by (nonlinear_arith)
    requires
        aa >= 0,
        ab >= 0,
        pa >= 0,
        pb >= 0,
        0 <= c < 10000,
    ensures
        area_x(aa, pa, pb) * (c * c) == c * c * area_x(aa, pa, pb),
        area_y(ab, pb, pa) * (4 * (10000 - c) * 10000) == 4 * (10000 - c) * 10000 * area_y(
            ab,
            pb,
            pa,
        ),
        solver_coeff_a(aa, ab, pa, pb, c) >= area_x(aa, pa, pb) * (c * c),
        solver_coeff_a(aa, ab, pa, pb, c) >= area_y(ab, pb, pa) * (4 * (10000 - c) * 10000),
{
}

/// If a part of `coeff_b` overflows 256 bits, so does `coeff_b`; the square
/// roots' product is non-negative.
proof fn lemma_coeff_b_parts(aa: int, ab: int, pa: int, pb: int, c: int)
    by (nonlinear_arith)
    requires
        aa >= 0,
        ab >= 0,
        pa >= 0,
        pb >= 0,
        0 <= c < 10000,
        area_x(aa, pa, pb) >= 0,
        solver_coeff_a(aa, ab, pa, pb, c) >= 0,
    ensures
        area_x(aa, pa, pb) * c == c * area_x(aa, pa, pb),
        solver_coeff_b(aa, ab, pa, pb, c) >= c * area_x(aa, pa, pb),
        solver_coeff_b(aa, ab, pa, pb, c) >= sqrt_floor(area_x(aa, pa, pb) as nat) * sqrt_floor(
            solver_coeff_a(aa, ab, pa, pb, c) as nat,
        ),
{
}

/// What the solver advises: leave the deposit as it is, or swap the given
/// amount of one side.
#[derive(Clone, Copy, Debug, PartialEq, Eq, Structural)]
pub enum SwapAdvice {
    NoSwap,
    OfferA { amount: u128 },
    OfferB { amount: u128 },
}

/// What the solver decides for a deposit `(provide_a, provide_b)` against
/// reserves `(pool_a, pool_b)`: the excess side's closed-form amount, turned
/// into advice, with no swap advised when the deposit is already
/// proportional, the amount is zero, or the simulated return for it is zero.
pub open spec fn spec_optimal_swap(
    provide_a: u128,
    provide_b: u128,
    pool_a: u128,
    pool_b: u128,
    commission_bps: u64,
) -> Result<SwapAdvice, Error> {
    if provide_a * pool_b > provide_b * pool_a {
        match swap_amount_outcome(
            provide_a as int,
            provide_b as int,
            pool_a as int,
            pool_b as int,
            commission_bps as int,
        ) {
            Ok(x) => if x == 0 || quote::quote_return(
                pool_a as int,
                pool_b as int,
                x,
                commission_bps as int,
            ) == 0 {
                Ok(SwapAdvice::NoSwap)
            } else {
                Ok(SwapAdvice::OfferA { amount: x as u128 })
            },
            Err(e) => Err(e),
        }
    } else if provide_a * pool_b < provide_b * pool_a {
        match swap_amount_outcome(
            provide_b as int,
            provide_a as int,
            pool_b as int,
            pool_a as int,
            commission_bps as int,
        ) {
            Ok(x) => if x == 0 || quote::quote_return(
                pool_b as int,
                pool_a as int,
                x,
                commission_bps as int,
            ) == 0 {
                Ok(SwapAdvice::NoSwap)
            } else {
                Ok(SwapAdvice::OfferB { amount: x as u128 })
            },
            Err(e) => Err(e),
        }
    } else {
        Ok(SwapAdvice::NoSwap)
    }
}

/// Decides whether and how to rebalance a two-asset deposit against a
/// constant-product pool.
///
/// When the deposit is already proportional to the reserves
/// (`provide_a * pool_b == provide_b * pool_a`) no swap is advised. In the
/// excess cases the closed-form amount is computed, and a swap is advised
/// only when that amount is non-zero and the simulated return for it is
/// non-zero.
pub fn calculate_optimal_swap(
    provide_a: u128,
    provide_b: u128,
    pool_a: u128,
    pool_b: u128,
    commission_bps: u64,
) -> (r: Result<SwapAdvice, Error>)
    requires
        commission_bps < 10000,
    ensures
        r == spec_optimal_swap(provide_a, provide_b, pool_a, pool_b, commission_bps),
        provide_a * pool_b == provide_b * pool_a ==> r == Ok::<SwapAdvice, Error>(
            SwapAdvice::NoSwap,
        ),
{
    let a_area = widening_mul(provide_a, pool_b);
    let b_area = widening_mul(provide_b, pool_a);
    if b_area.lt(a_area) {
        proof {
            assert(pool_b > 0) by (nonlinear_arith)
                requires
                    provide_a * pool_b > provide_b * pool_a,
                    provide_b >= 0,
                    pool_a >= 0,
                    pool_b >= 0,
            ;
        }
        match get_swap_amount(provide_a, provide_b, pool_a, pool_b, commission_bps) {
            Ok(amount) => {
                if amount == 0 {
                    Ok(SwapAdvice::NoSwap)
                } else {
                    let ret = quote::simulate(pool_a, pool_b, amount, commission_bps);
                    if ret == 0 {
                        Ok(SwapAdvice::NoSwap)
                    } else {
                        Ok(SwapAdvice::OfferA { amount })
                    }
                }
            },
            Err(e) => Err(e),
        }
    } else if a_area.lt(b_area) {
        proof {
            assert(pool_a > 0) by (nonlinear_arith)
                requires
                    provide_b * pool_a > provide_a * pool_b,
                    provide_a >= 0,
                    pool_a >= 0,
                    pool_b >= 0,
            ;
        }
        match get_swap_amount(provide_b, provide_a, pool_b, pool_a, commission_bps) {
            Ok(amount) => {
                if amount == 0 {
                    Ok(SwapAdvice::NoSwap)
                } else {
                    let ret = quote::simulate(pool_b, pool_a, amount, commission_bps);
                    if ret == 0 {
                        Ok(SwapAdvice::NoSwap)
                    } else {
                        Ok(SwapAdvice::OfferB { amount })
                    }
                }
            },
            Err(e) => Err(e),
        }
    } else {
        Ok(SwapAdvice::NoSwap)
    }
}

} // verus!
