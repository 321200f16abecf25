//! Double-width (256-bit) unsigned integer arithmetic.
//!
//! Pool reserves and token amounts are 128-bit quantities, so products of two
//! of them need 256 bits. This module provides the checked wide operations
//! the swap engines are built on: addition, subtraction, multiplication,
//! division and integer square root, each specified exactly against the
//! mathematical value of the operands.

use vstd::prelude::*;
use vstd::arithmetic::mul::{lemma_mul_inequality, lemma_mul_is_distributive_add_other_way};

verus! {

/// 2^128, the weight of the high limb.
pub open spec fn limb_base() -> int {
    0x100000000000000000000000000000000int
}

/// 2^256, one past the largest representable value.
pub open spec fn wide_max() -> int {
    0x10000000000000000000000000000000000000000000000000000000000000000int
}

/// An unsigned 256-bit integer, stored as two 128-bit limbs.
#[derive(Clone, Copy, Debug, PartialEq, Eq)]
pub struct U256 {
    pub lo: u128,
    pub hi: u128,
}

impl U256 {
    /// The mathematical value held by this pair of limbs.
    pub open spec fn v(self) -> int {
        self.hi * limb_base() + self.lo
    }

    pub fn from_u128(x: u128) -> (r: U256)
        ensures
            r.v() == x,
    {
        U256 { lo: x, hi: 0 }
    }

    pub fn is_zero(self) -> (r: bool)
        ensures
            r == (self.v() == 0),
    {
        self.lo == 0 && self.hi == 0
    }

    /// Narrow back to 128 bits; `None` when the value does not fit.
    pub fn try_to_u128(self) -> (r: Option<u128>)
        ensures
            self.v() < limb_base() ==> r == Some(self.v() as u128),
            self.v() >= limb_base() ==> r is None,
    {
        if self.hi == 0 {
            Some(self.lo)
        } else {
            proof {
                lemma_mul_inequality(1, self.hi as int, limb_base());
            }
            None
        }
    }

    pub fn lt(self, other: U256) -> (r: bool)
        ensures
            r == (self.v() < other.v()),
    {
        proof {
            if self.hi < other.hi {
                lemma_mul_inequality(self.hi + 1, other.hi as int, limb_base());
                lemma_mul_is_distributive_add_other_way(limb_base(), self.hi as int, 1);
            }
            if other.hi < self.hi {
                lemma_mul_inequality(other.hi + 1, self.hi as int, limb_base());
                lemma_mul_is_distributive_add_other_way(limb_base(), other.hi as int, 1);
            }
        }
        self.hi < other.hi || (self.hi == other.hi && self.lo < other.lo)
    }

    pub fn le(self, other: U256) -> (r: bool)
        ensures
            r == (self.v() <= other.v()),
    {
        !other.lt(self)
    }

    /// Checked addition; `None` when the sum needs more than 256 bits.
    pub fn add_checked(self, other: U256) -> (r: Option<U256>)
        ensures
            self.v() + other.v() < wide_max() ==> (r matches Some(c) && c.v() == self.v()
                + other.v()),
            self.v() + other.v() >= wide_max() ==> r is None,
    {
        let (lo, carry): (u128, u128) = if self.lo <= u128::MAX - other.lo {
            (self.lo + other.lo, 0)
        } else {
            ((self.lo - (u128::MAX - other.lo)) - 1, 1)
        };
        if self.hi <= u128::MAX - carry && other.hi <= (u128::MAX - carry) - self.hi {
            let hi: u128 = self.hi + other.hi + carry;
            proof {
                lemma_mul_is_distributive_add_other_way(
                    limb_base(),
                    self.hi + other.hi + carry,
                    0,
                );
                assert((self.hi + other.hi + carry) * limb_base() == self.hi * limb_base()
                    + other.hi * limb_base() + carry * limb_base())
                    by (nonlinear_arith);
            }
            Some(U256 { lo, hi })
        } else {
            proof {
                assert(self.hi + other.hi + carry >= limb_base());
                assert((self.hi + other.hi + carry) * limb_base() >= limb_base() * limb_base())
                    by (nonlinear_arith)
                    requires
                        self.hi + other.hi + carry >= limb_base(),
                ;
                assert((self.hi + other.hi + carry) * limb_base() == self.hi * limb_base()
                    + other.hi * limb_base() + carry * limb_base())
                    by (nonlinear_arith);
                assert(limb_base() * limb_base() == wide_max()) by (nonlinear_arith);
            }
            None
        }
    }

    /// Subtraction, defined when the result is non-negative.
    pub fn sub(self, other: U256) -> (r: U256)
        requires
            self.v() >= other.v(),
        ensures
            r.v() == self.v() - other.v(),
    {
        let (lo, borrow): (u128, u128) = if self.lo >= other.lo {
            (self.lo - other.lo, 0)
        } else {
            (((u128::MAX - other.lo) + 1) + self.lo, 1)
        };
        proof {
            if self.hi < other.hi + borrow {
                assert(self.hi + 1 <= other.hi + borrow);
                lemma_mul_inequality(self.hi + 1, other.hi + borrow, limb_base());
                assert((self.hi + 1) * limb_base() == self.hi * limb_base() + limb_base())
                    by (nonlinear_arith);
                assert((other.hi + borrow) * limb_base() == other.hi * limb_base() + borrow
                    * limb_base()) by (nonlinear_arith);
            }
        }
        let hi: u128 = (self.hi - other.hi) - borrow;
        proof {
            assert(hi * limb_base() == self.hi * limb_base() - other.hi * limb_base() - borrow
                * limb_base()) by (nonlinear_arith)
                requires
                    hi == self.hi - other.hi - borrow,
            ;
        }
        U256 { lo, hi }
    }
}

/// Every limb pair denotes a value in `[0, 2^256)`.
pub proof fn lemma_u256_bound(x: U256)
    ensures
        0 <= x.v() < wide_max(),
{
    assert(limb_base() * limb_base() == wide_max()) by (nonlinear_arith);
    assert(0 <= x.hi * limb_base() + x.lo < wide_max()) by (nonlinear_arith)
        requires
            0 <= x.hi < limb_base(),
            0 <= x.lo < limb_base(),
            limb_base() * limb_base() == wide_max(),
    ;
}

impl U256 {
    /// Checked multiplication by a 128-bit factor; `None` when the product
    /// needs more than 256 bits.
    pub fn mul_u128_checked(self, m: u128) -> (r: Option<U256>)
        ensures
            self.v() * m < wide_max() ==> (r matches Some(c) && c.v() == self.v() * m),
            self.v() * m >= wide_max() ==> r is None,
    {
        let p_lo = widening_mul(self.lo, m);
        let p_hi = widening_mul(self.hi, m);
        proof {
            assert(self.v() * m == p_hi.v() * limb_base() + p_lo.v()) by (nonlinear_arith)
                requires
                    self.v() == self.hi * limb_base() + self.lo,
                    p_hi.v() == self.hi * m,
                    p_lo.v() == self.lo * m,
            ;
            assert(p_hi.v() * limb_base() == p_hi.hi * wide_max() + p_hi.lo * limb_base())
                by (nonlinear_arith)
                requires
                    p_hi.v() == p_hi.hi * limb_base() + p_hi.lo,
                    limb_base() * limb_base() == wide_max(),
            ;
        }
        if p_hi.hi != 0 {
            proof {
                lemma_mul_inequality(1, p_hi.hi as int, wide_max());
            }
            None
        } else if p_hi.lo <= u128::MAX - p_lo.hi {
            let hi: u128 = p_hi.lo + p_lo.hi;
            proof {
                assert(hi * limb_base() == p_hi.lo * limb_base() + p_lo.hi * limb_base())
                    by (nonlinear_arith)
                    requires
                        hi == p_hi.lo + p_lo.hi,
                ;
                assert(hi * limb_base() + p_lo.lo < wide_max()) by (nonlinear_arith)
                    requires
                        0 <= hi < limb_base(),
                        0 <= p_lo.lo < limb_base(),
                        limb_base() * limb_base() == wide_max(),
                ;
            }
            Some(U256 { lo: p_lo.lo, hi })
        } else {
            proof {
                assert((p_hi.lo + p_lo.hi) * limb_base() >= wide_max()) by (nonlinear_arith)
                    requires
                        p_hi.lo + p_lo.hi >= limb_base(),
                        limb_base() * limb_base() == wide_max(),
                ;
                assert((p_hi.lo + p_lo.hi) * limb_base() == p_hi.lo * limb_base() + p_lo.hi
                    * limb_base()) by (nonlinear_arith);
            }
            None
        }
    }

    /// Euclidean division: returns the quotient and remainder of
    /// `self / divisor`.
    pub fn div_rem(self, divisor: U256) -> (r: (U256, U256))
        requires
            divisor.v() > 0,
        ensures
            self.v() == r.0.v() * divisor.v() + r.1.v(),
            0 <= r.1.v() < divisor.v(),
    {
        // Powers of the divisor (d * 2^i) and matching powers of two (2^i),
        // grown while the next doubling still fits under the dividend.
        let mut ds: Vec<U256> = Vec::new();
        let mut qs: Vec<U256> = Vec::new();
        ds.push(divisor);
        qs.push(U256::from_u128(1));
        let mut k: usize = 0;
        proof {
            vstd::arithmetic::power2::lemma_pow2_pos(0);
            assert(vstd::arithmetic::power2::pow2(0) == 1) by {
                vstd::arithmetic::power2::lemma2_to64();
            }
            lemma_u256_bound(self);
        }
        loop
            invariant
                divisor.v() > 0,
                0 <= self.v() < wide_max(),
                ds.len() == k + 1,
                qs.len() == k + 1,
                k < 256,
                forall|i: int|
                    0 <= i <= k ==> #[trigger] ds[i].v() == divisor.v()
                        * vstd::arithmetic::power2::pow2(i as nat),
                forall|i: int|
                    0 <= i <= k ==> #[trigger] qs[i].v() == vstd::arithmetic::power2::pow2(
                        i as nat,
                    ),
                k > 0 ==> ds[k as int].v() <= self.v(),
            ensures
                self.v() < ds[k as int].v() * 2,
            decreases 256 - k,
        {
            let top = ds[k];
            let doubled = top.add_checked(top);
            match doubled {
                Some(dd) => {
                    if dd.le(self) {
                        proof {
                            lemma_power_step_bounds(divisor.v(), k as nat, self.v());
                        }
                        let qtop = qs[k];
                        let qd = qtop.add_checked(qtop).unwrap();
                        ds.push(dd);
                        qs.push(qd);
                        k = k + 1;
                        proof {
                            vstd::arithmetic::power2::lemma_pow2_unfold((k) as nat);
                        }
                    } else {
                        break ;
                    }
                },
                None => {
                    proof {
                        assert(self.v() < ds[k as int].v() * 2);
                    }
                    break ;
                },
            }
        }
        // Subtract the largest powers first, assembling the quotient.
        let mut q = U256::from_u128(0);
        let mut rem = self;
        let mut i: usize = k + 1;
        proof {
            assert(q.v() * divisor.v() == 0) by (nonlinear_arith)
                requires
                    q.v() == 0,
            ;
            vstd::arithmetic::power2::lemma_pow2_unfold((k + 1) as nat);
            assert(divisor.v() * vstd::arithmetic::power2::pow2((k + 1) as nat) == ds[
                k as int].v() * 2) by (nonlinear_arith)
                requires
                    ds[k as int].v() == divisor.v() * vstd::arithmetic::power2::pow2(k as nat),
                    vstd::arithmetic::power2::pow2((k + 1) as nat) == 2
                        * vstd::arithmetic::power2::pow2(k as nat),
            ;
        }
        while i > 0
            invariant
                divisor.v() > 0,
                0 <= self.v() < wide_max(),
                ds.len() == k + 1,
                qs.len() == k + 1,
                i <= k + 1,
                forall|j: int|
                    0 <= j <= k ==> #[trigger] ds[j].v() == divisor.v()
                        * vstd::arithmetic::power2::pow2(j as nat),
                forall|j: int|
                    0 <= j <= k ==> #[trigger] qs[j].v() == vstd::arithmetic::power2::pow2(
                        j as nat,
                    ),
                q.v() * divisor.v() + rem.v() == self.v(),
                rem.v() < divisor.v() * vstd::arithmetic::power2::pow2(i as nat),
                q.v() >= 0,
                rem.v() >= 0,
            decreases i,
        {
            i = i - 1;
            let step = ds[i];
            if step.le(rem) {
                proof {
                    vstd::arithmetic::power2::lemma_pow2_pos(i as nat);
                    lemma_div_step(
                        q.v(),
                        divisor.v(),
                        rem.v(),
                        self.v(),
                        vstd::arithmetic::power2::pow2(i as nat) as int,
                    );
                }
                rem = rem.sub(step);
                q = q.add_checked(qs[i]).unwrap();
            }
            proof {
                vstd::arithmetic::power2::lemma_pow2_unfold((i + 1) as nat);
                assert(divisor.v() * (2 * vstd::arithmetic::power2::pow2(i as nat)) == divisor.v()
                    * vstd::arithmetic::power2::pow2(i as nat) + divisor.v()
                    * vstd::arithmetic::power2::pow2(i as nat)) by (nonlinear_arith);
            }
        }
        proof {
            vstd::arithmetic::power2::lemma2_to64();
            assert(divisor.v() * 1 == divisor.v()) by (nonlinear_arith);
        }
        (q, rem)
    }
}

/// In the doubling phase of `div_rem`: if `d * 2^k` doubled still fits under
/// `n`, the next exponent stays in range and the power-of-two counters can be
/// doubled without overflow.
proof fn lemma_power_step_bounds(d: int, k: nat, n: int)
    requires
        d > 0,
        n < wide_max(),
        d * vstd::arithmetic::power2::pow2(k) * 2 <= n,
    ensures
        k + 1 < 256,
        vstd::arithmetic::power2::pow2(k) * 2 == vstd::arithmetic::power2::pow2(k + 1),
        vstd::arithmetic::power2::pow2(k + 1) <= d * vstd::arithmetic::power2::pow2(k) * 2,
        d * vstd::arithmetic::power2::pow2(k) * 2 == d * vstd::arithmetic::power2::pow2(k + 1),
{
    let p = vstd::arithmetic::power2::pow2(k);
    vstd::arithmetic::power2::lemma_pow2_pos(k);
    vstd::arithmetic::power2::lemma_pow2_unfold(k + 1);
    assert(d * p * 2 == d * (p * 2)) by (nonlinear_arith);
    assert(p * 2 <= d * (p * 2)) by (nonlinear_arith)
        requires
            d > 0,
            p > 0,
    ;
    if k + 1 >= 256 {
        vstd::arithmetic::power2::lemma_pow2_adds(128, 128);
        vstd::arithmetic::power2::lemma_pow2_adds(64, 64);
        vstd::arithmetic::power2::lemma2_to64();
        assert(vstd::arithmetic::power2::pow2(128) == limb_base()) by (nonlinear_arith)
            requires
                vstd::arithmetic::power2::pow2(64) == half_base(),
                vstd::arithmetic::power2::pow2(128) == vstd::arithmetic::power2::pow2(64)
                    * vstd::arithmetic::power2::pow2(64),
        ;
        assert(vstd::arithmetic::power2::pow2(256) == wide_max()) by (nonlinear_arith)
            requires
                vstd::arithmetic::power2::pow2(128) == limb_base(),
                vstd::arithmetic::power2::pow2(256) == vstd::arithmetic::power2::pow2(128)
                    * vstd::arithmetic::power2::pow2(128),
        ;
        if k + 1 > 256 {
            vstd::arithmetic::power2::lemma_pow2_strictly_increases(256, k + 1);
        }
        assert(false);
    }
}

/// In the subtraction phase of `div_rem`: adding `2^i` to the quotient and
/// taking `d * 2^i` out of the remainder keeps the division identity, and the
/// grown quotient still fits.
proof fn lemma_div_step(q: int, d: int, rem: int, n: int, p: int)
    requires
        d > 0,
        p > 0,
        q >= 0,
        rem >= 0,
        q * d + rem == n,
        n < wide_max(),
        d * p <= rem,
    ensures
        (q + p) * d + (rem - d * p) == n,
        q + p < wide_max(),
{
    assert((q + p) * d == q * d + p * d) by (nonlinear_arith);
    assert(p * d == d * p) by (nonlinear_arith);
    assert(q + p <= q * d + p * d) by (nonlinear_arith)
        requires
            d > 0,
            q >= 0,
            p >= 0,
    ;
}

impl U256 {
    /// Integer square root, rounded down: the unique `r` with
    /// `r^2 <= self < (r+1)^2`. The root of a 256-bit value always fits in
    /// 128 bits.
    pub fn isqrt(self) -> (r: u128)
        ensures
            r * r <= self.v(),
            (r + 1) * (r + 1) > self.v(),
    {
        let mut root: u128 = 0;
        let mut p: u128 = 0x80000000000000000000000000000000;
        let ghost mut e: nat = 127;
        proof {
            lemma_u256_bound(self);
            assert((2 * 0x80000000000000000000000000000000int) * (2
                * 0x80000000000000000000000000000000int) == wide_max()) by (nonlinear_arith);
            lemma_pow2_127();
        }
        while p > 0
            invariant
                0 <= self.v() < wide_max(),
                root * root <= self.v(),
                p > 0 ==> p == vstd::arithmetic::power2::pow2(e),
                p > 0 ==> self.v() < (root + 2 * p) * (root + 2 * p),
                p > 0 ==> root + 2 * p <= limb_base(),
                p == 0 ==> self.v() < (root + 1) * (root + 1),
            decreases p,
        {
            let cand: u128 = root + p;
            let c2 = widening_mul(cand, cand);
            if c2.le(self) {
                root = cand;
            }
            proof {
                if p > 1 {
                    if e == 0 {
                        vstd::arithmetic::power2::lemma2_to64();
                    }
                    vstd::arithmetic::power2::lemma_pow2_unfold(e);
                    e = (e - 1) as nat;
                }
            }
            p = p / 2;
        }
        root
    }
}

/// 2^127 written out, for seeding the square-root scan.
proof fn lemma_pow2_127()
    ensures
        vstd::arithmetic::power2::pow2(127) == 0x80000000000000000000000000000000int,
{
    vstd::arithmetic::power2::lemma_pow2_adds(64, 63);
    vstd::arithmetic::power2::lemma2_to64();
    vstd::arithmetic::power2::lemma2_to64_rest();
    assert(vstd::arithmetic::power2::pow2(127) == 0x80000000000000000000000000000000int)
        by (nonlinear_arith)
        requires
            vstd::arithmetic::power2::pow2(64) == half_base(),
            vstd::arithmetic::power2::pow2(63) == 0x8000000000000000int,
            vstd::arithmetic::power2::pow2(127) == vstd::arithmetic::power2::pow2(64)
                * vstd::arithmetic::power2::pow2(63),
    ;
}

/// 2^64, used to split a 128-bit operand into 64-bit halves.
pub open spec fn half_base() -> int {
    0x10000000000000000
}

/// Full 128 x 128 -> 256 bit multiplication; never overflows.
pub fn widening_mul(x: u128, y: u128) -> (r: U256)
    ensures
        r.v() == x * y,
{
    let xl: u128 = x % 0x10000000000000000;
    let xh: u128 = x / 0x10000000000000000;
    let yl: u128 = y % 0x10000000000000000;
    let yh: u128 = y / 0x10000000000000000;
    proof {
        assert(xl * yl < half_base() * half_base() && xl * yh < half_base() * half_base() && xh
            * yl < half_base() * half_base() && xh * yh < half_base() * half_base())
            by (nonlinear_arith)
            requires
                0 <= xl < half_base(),
                0 <= xh < half_base(),
                0 <= yl < half_base(),
                0 <= yh < half_base(),
        ;
    }
    let p_ll: u128 = xl * yl;
    let p_lh: u128 = xl * yh;
    let p_hl: u128 = xh * yl;
    let p_hh: u128 = xh * yh;
    proof {
        assert(xh * yl <= (half_base() - 1) * (half_base() - 1)) by (nonlinear_arith)
            requires
                0 <= xh < half_base(),
                0 <= yl < half_base(),
        ;
        assert(xl * yh <= (half_base() - 1) * (half_base() - 1)) by (nonlinear_arith)
            requires
                0 <= xl < half_base(),
                0 <= yh < half_base(),
        ;
        assert(xh * yh <= (half_base() - 1) * (half_base() - 1)) by (nonlinear_arith)
            requires
                0 <= xh < half_base(),
                0 <= yh < half_base(),
        ;
    }
    // Propagate carries; each sum stays below 2^128.
    let mid: u128 = p_hl + p_ll / 0x10000000000000000;
    let mid2: u128 = p_lh + mid % 0x10000000000000000;
    let lo: u128 = (mid2 % 0x10000000000000000) * 0x10000000000000000 + p_ll
        % 0x10000000000000000;
    let hi: u128 = p_hh + mid / 0x10000000000000000 + mid2 / 0x10000000000000000;
    proof {
        vstd::arithmetic::div_mod::lemma_fundamental_div_mod(x as int, half_base());
        vstd::arithmetic::div_mod::lemma_fundamental_div_mod(y as int, half_base());
        vstd::arithmetic::div_mod::lemma_fundamental_div_mod(p_ll as int, half_base());
        vstd::arithmetic::div_mod::lemma_fundamental_div_mod(mid as int, half_base());
        vstd::arithmetic::div_mod::lemma_fundamental_div_mod(mid2 as int, half_base());
        lemma_widening_mul_value(
            x as int,
            y as int,
            xl as int,
            xh as int,
            yl as int,
            yh as int,
            (p_ll as int) / half_base(),
            (p_ll as int) % half_base(),
            (mid as int) / half_base(),
            (mid as int) % half_base(),
            (mid2 as int) / half_base(),
            (mid2 as int) % half_base(),
        );
    }
    U256 { lo, hi }
}

/// The carry-propagation identity behind `widening_mul`: with every division
/// replaced by its quotient/remainder pair, the limbs assemble to the product.
proof fn lemma_widening_mul_value(
    x: int,
    y: int,
    xl: int,
    xh: int,
    yl: int,
    yh: int,
    a1: int,
    b1: int,
    a2: int,
    b2: int,
    a3: int,
    b3: int,
)
    by (nonlinear_arith)
    requires
        x == xh * half_base() + xl,
        y == yh * half_base() + yl,
        0 <= xl < half_base(),
        0 <= xh < half_base(),
        0 <= yl < half_base(),
        0 <= yh < half_base(),
        xl * yl == a1 * half_base() + b1,
        0 <= b1 < half_base(),
        xh * yl + a1 == a2 * half_base() + b2,
        0 <= b2 < half_base(),
        xl * yh + b2 == a3 * half_base() + b3,
        0 <= b3 < half_base(),
    ensures
        (xh * yh + a2 + a3) * limb_base() + (b3 * half_base() + b1) == x * y,
{
}

} // verus!
