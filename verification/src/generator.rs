//! Staking-proxy bookkeeping: proportional shares and vested income.
//!
//! A pool tracks the total bonded share; a user's deposit converts between
//! bond amounts and shares proportionally. Reward income can be locked and
//! released linearly over a time window. Reward indexes -- fixed-point
//! per-share accumulators on the chain -- are carried here by their raw
//! integer atomics.

use vstd::prelude::*;
use crate::wide::{widening_mul, U256};

verus! {

/// Floor of `a * n / d`.
pub open spec fn mul_ratio_floor(a: int, n: int, d: int) -> int {
    a * n / d
}

/// Ceiling of `a * n / d`.
pub open spec fn mul_ratio_ceil(a: int, n: int, d: int) -> int {
    (a * n + d - 1) / d
}

/// Computes `floor(a * n / d)` at full width.
pub fn multiply_ratio(a: u128, n: u128, d: u128) -> (r: u128)
    requires
        d > 0,
        mul_ratio_floor(a as int, n as int, d as int) < 0x100000000000000000000000000000000,
    ensures
        r == mul_ratio_floor(a as int, n as int, d as int),
{
    let product = widening_mul(a, n);
    let (q, rem) = product.div_rem(U256::from_u128(d));
    proof {
        crate::wide::lemma_u256_bound(q);
        vstd::arithmetic::div_mod::lemma_fundamental_div_mod_converse(
            product.v(),
            d as int,
            q.v(),
            rem.v(),
        );
    }
    q.try_to_u128().unwrap()
}

/// Computes `ceil(a * n / d)` at full width.
pub fn multiply_ratio_and_ceil(a: u128, n: u128, d: u128) -> (r: u128)
    requires
        d > 0,
        mul_ratio_ceil(a as int, n as int, d as int) < 0x100000000000000000000000000000000,
    ensures
        r == mul_ratio_ceil(a as int, n as int, d as int),
{
    let product = widening_mul(a, n);
    let (q, rem) = product.div_rem(U256::from_u128(d));
    proof {
        crate::wide::lemma_u256_bound(q);
        vstd::arithmetic::div_mod::lemma_fundamental_div_mod_converse(
            product.v(),
            d as int,
            q.v(),
            rem.v(),
        );
        if rem.v() == 0 {
            vstd::arithmetic::div_mod::lemma_fundamental_div_mod_converse(
                product.v() + d - 1,
                d as int,
                q.v(),
                d - 1,
            );
        } else {
            assert((q.v() + 1) * (d as int) == q.v() * (d as int) + d) by (nonlinear_arith);
            vstd::arithmetic::div_mod::lemma_fundamental_div_mod_converse(
                product.v() + d - 1,
                d as int,
                q.v() + 1,
                rem.v() - 1,
            );
        }
    }
    let floor_part = q.try_to_u128().unwrap();
    if rem.is_zero() {
        floor_part
    } else {
        floor_part + 1
    }
}

/// The ghost images of a reward-index table: token address and raw index
/// atomics.
pub open spec fn index_views(s: Seq<(String, u128)>) -> Seq<(Seq<char>, u128)> {
    Seq::new(s.len(), |i: int| (s[i].0@, s[i].1))
}

/// Copies a reward-index table.
fn clone_indexes(s: &Vec<(String, u128)>) -> (r: Vec<(String, u128)>)
    ensures
        index_views(r@) == index_views(s@),
{
    let n = s.len();
    let mut out: Vec<(String, u128)> = Vec::new();
    let mut i: usize = 0;
    while i < n
        invariant
            i <= n,
            n == s.len(),
            out.len() == i,
            forall|j: int| 0 <= j < i ==> #[trigger] index_views(out@)[j] == index_views(s@)[j],
        decreases n - i,
    {
        let entry = (s[i].0.clone(), s[i].1);
        let ghost out0 = out@;
        out.push(entry);
        proof {
            assert forall|j: int| 0 <= j < i + 1 implies #[trigger] index_views(out@)[j]
                == index_views(s@)[j] by {
                if j < i {
                    assert(out@[j] == out0[j]);
                    assert(index_views(out0)[j] == index_views(s@)[j]);
                } else {
                    assert(index_views(out@)[j] == index_views(s@)[j]);
                }
            }
        }
        i = i + 1;
    }
    proof {
        assert(index_views(out@) =~= index_views(s@));
    }
    out
}

/// Per-pool bookkeeping: the total bonded share and the reward accumulators
/// last seen.
pub struct PoolInfo {
    pub total_bond_share: u128,
    pub reward_indexes: Vec<(String, u128)>,
    pub prev_reward_user_index: u128,
    pub prev_reward_debt_proxy: Vec<(String, u128)>,
}

impl PoolInfo {
    /// The share a deposit of `amount` buys: proportional to the existing
    /// total share, rounded down (or up when `ceiling`), and one-to-one for
    /// the first deposit.
    pub fn calc_bond_share(&self, total_bond_amount: u128, amount: u128, ceiling: bool) -> (r:
        u128)
        requires
            self.total_bond_share > 0 && total_bond_amount > 0 ==> mul_ratio_ceil(
                amount as int,
                self.total_bond_share as int,
                total_bond_amount as int,
            ) < 0x100000000000000000000000000000000,
        ensures
            self.total_bond_share == 0 || total_bond_amount == 0 ==> r == amount,
            self.total_bond_share > 0 && total_bond_amount > 0 ==> r == (if ceiling {
                mul_ratio_ceil(
                    amount as int,
                    self.total_bond_share as int,
                    total_bond_amount as int,
                )
            } else {
                mul_ratio_floor(
                    amount as int,
                    self.total_bond_share as int,
                    total_bond_amount as int,
                )
            }),
    {
        if self.total_bond_share == 0 || total_bond_amount == 0 {
            amount
        } else if ceiling {
            multiply_ratio_and_ceil(amount, self.total_bond_share, total_bond_amount)
        } else {
            proof {
                lemma_floor_le_ceil(
                    amount as int,
                    self.total_bond_share as int,
                    total_bond_amount as int,
                );
            }
            multiply_ratio(amount, self.total_bond_share, total_bond_amount)
        }
    }

    /// The bond amount a share redeems: proportional to the total bonded
    /// amount, rounded down; zero when no share exists.
    pub fn calc_bond_amount(&self, total_bond_amount: u128, share: u128) -> (r: u128)
        requires
            self.total_bond_share > 0 ==> mul_ratio_floor(
                total_bond_amount as int,
                share as int,
                self.total_bond_share as int,
            ) < 0x100000000000000000000000000000000,
        ensures
            self.total_bond_share == 0 ==> r == 0,
            self.total_bond_share > 0 ==> r == mul_ratio_floor(
                total_bond_amount as int,
                share as int,
                self.total_bond_share as int,
            ),
    {
        if self.total_bond_share == 0 {
            0
        } else {
            multiply_ratio(total_bond_amount, share, self.total_bond_share)
        }
    }
}

/// Rounding down never exceeds rounding up.
proof fn lemma_floor_le_ceil(a: int, n: int, d: int)
    requires
        a >= 0,
        n >= 0,
        d > 0,
    ensures
        mul_ratio_floor(a, n, d) <= mul_ratio_ceil(a, n, d),
{
    vstd::arithmetic::div_mod::lemma_div_is_ordered(a * n, a * n + d - 1, d);
}

/// Per-user bookkeeping: the user's bonded share and the accumulators at
/// the user's last settlement.
pub struct UserInfo {
    pub bond_share: u128,
    pub reward_indexes: Vec<(String, u128)>,
    pub pending_rewards: Vec<(String, u128)>,
}

impl UserInfo {
    /// A fresh user record for a pool: nothing bonded, nothing pending, the
    /// pool's current reward indexes taken as the starting point.
    pub fn create(pool_info: &PoolInfo) -> (r: UserInfo)
        ensures
            r.bond_share == 0,
            index_views(r.reward_indexes@) == index_views(pool_info.reward_indexes@),
            r.pending_rewards@.len() == 0,
    {
        UserInfo {
            bond_share: 0,
            reward_indexes: clone_indexes(&pool_info.reward_indexes),
            pending_rewards: Vec::new(),
        }
    }
}

/// An income tranche released linearly between two points in time.
#[derive(Clone, Copy, Debug, PartialEq, Eq, Structural)]
pub struct LockedIncome {
    pub start: u64,
    pub end: u64,
    pub amount: u128,
}

/// Reconciled protocol income: amounts already settled, the fee withheld,
/// the realized income, and an optionally still-vesting tranche.
#[derive(Clone, Debug, PartialEq, Eq)]
pub struct RewardInfo {
    pub reconciled_amount: u128,
    pub fee: u128,
    pub spastro_income: u128,
    pub locked_income: Option<LockedIncome>,
}

impl RewardInfo {
    /// Moves whatever the vesting schedule has released by `now` into the
    /// realized income: everything once the window ended, the elapsed
    /// proportion while it runs, nothing before it starts. The remaining
    /// tranche is re-anchored at `now`.
    pub fn realize_unlocked_amount(&mut self, now: u64)
        requires
            old(self).locked_income matches Some(l) ==> old(self).spastro_income + l.amount
                <= u128::MAX,
        ensures
            match old(self).locked_income {
                Some(l) => {
                    if now >= l.end {
                        final(self).spastro_income == old(self).spastro_income + l.amount
                            && final(self).locked_income is None
                    } else if now > l.start {
                        final(self).spastro_income == old(self).spastro_income + mul_ratio_floor(
                            l.amount as int,
                            now - l.start,
                            l.end - l.start,
                        ) && final(self).locked_income == Some(
                            LockedIncome {
                                start: now,
                                end: l.end,
                                amount: (l.amount - mul_ratio_floor(
                                    l.amount as int,
                                    now - l.start,
                                    l.end - l.start,
                                )) as u128,
                            },
                        )
                    } else {
                        *final(self) == *old(self)
                    }
                },
                None => *final(self) == *old(self),
            },
            final(self).reconciled_amount == old(self).reconciled_amount,
            final(self).fee == old(self).fee,
{
        if let Some(locked_income) = self.locked_income {
            if now >= locked_income.end {
                self.spastro_income = self.spastro_income + locked_income.amount;
                self.locked_income = None;
            } else if now > locked_income.start {
                let elapsed: u64 = now - locked_income.start;
                let window: u64 = locked_income.end - locked_income.start;
                proof {
                    let ghost p = locked_income.amount * elapsed;
                    vstd::arithmetic::div_mod::lemma_fundamental_div_mod(p, window as int);
                    vstd::arithmetic::div_mod::lemma_mod_bound(p, window as int);
                    vstd::arithmetic::div_mod::lemma_div_pos_is_pos(p, window as int);
                    crate::quote::lemma_quotient_at_most(
                        locked_income.amount as int,
                        elapsed as int,
                        window as int,
                        p / (window as int),
                        p % (window as int),
                    );
                }
                let unlocked_amount = multiply_ratio(
                    locked_income.amount,
                    elapsed as u128,
                    window as u128,
                );
                self.spastro_income = self.spastro_income + unlocked_amount;
                self.locked_income = Some(
                    LockedIncome {
                        start: now,
                        end: locked_income.end,
                        amount: locked_income.amount - unlocked_amount,
                    },
                );
            }
        }
    }
}

/// Global claim-scheduling state.
#[derive(Clone, Copy, Debug, PartialEq, Eq, Structural)]
pub struct State {
    pub next_claim_period: u64,
}

/// What a token-send into the proxy asks for.
#[derive(Clone, Debug, PartialEq, Eq)]
pub enum Cw20HookMsg {
    /// Deposit the sent liquidity tokens.
    Deposit,
    /// Convert the sent tokens into the staking derivative.
    Convert,
}

/// The read-only queries the proxy answers.
#[derive(Clone, Debug, PartialEq, Eq)]
pub enum QueryMsg {
    Config,
    PoolConfig { lp_token: String },
    PoolInfo { lp_token: String },
    UserInfo { lp_token: String, user: String },
    RewardInfo { token: String },
    State,
    PendingToken { lp_token: String, user: String },
    Deposit { lp_token: String, user: String },
}

} // verus!
