//! Reward compounding for one liquidity pool.
//!
//! The proxy swaps reward tokens into the pool's own assets through
//! configured proxy pools, rebalances the two held amounts to the pool's
//! reserve ratio with the optimal-swap solver, and deposits the result as
//! liquidity. Each stage is a pure function from chain-state snapshots to
//! the operations the host executes.

use vstd::prelude::*;
use crate::asset::{Asset, AssetId, AssetInfo, AssetView, PairInfo, PairView};
use crate::error::Error;
use crate::ops::{op_views, Operation, OpView};
use crate::solver;
use crate::solver::SwapAdvice;

verus! {

/// The proxy's configuration: the pool compounded into, its trading
/// commission, and the slippage tolerance attached to deposits, both in
/// basis points.
#[derive(Debug)]
pub struct Config {
    pub pair_info: PairInfo,
    pub commission_bps: u64,
    pub slippage_tolerance_bps: u64,
}

/// Ghost image of the configuration.
pub struct ConfigView {
    pub pair_info: PairView,
    pub commission_bps: u64,
    pub slippage_tolerance_bps: u64,
}

impl View for Config {
    type V = ConfigView;

    open spec fn view(&self) -> ConfigView {
        ConfigView {
            pair_info: self.pair_info@,
            commission_bps: self.commission_bps,
            slippage_tolerance_bps: self.slippage_tolerance_bps,
        }
    }
}

/// A commission rate must leave something of the trade: zero or more, below
/// the full ten thousand basis points.
pub fn validate_commission(commission_bps: u64) -> (r: Result<u64, Error>)
    ensures
        commission_bps < 10000 ==> r == Ok::<u64, Error>(commission_bps),
        commission_bps >= 10000 ==> r == Err::<u64, Error>(Error::InvalidPercentage),
{
    if commission_bps >= 10000 {
        Err(Error::InvalidPercentage)
    } else {
        Ok(commission_bps)
    }
}

/// A percentage must lie between zero and one, i.e. at most ten thousand
/// basis points.
pub fn validate_percentage(value_bps: u64) -> (r: Result<u64, Error>)
    ensures
        value_bps <= 10000 ==> r == Ok::<u64, Error>(value_bps),
        value_bps > 10000 ==> r == Err::<u64, Error>(Error::InvalidPercentage),
{
    if value_bps > 10000 {
        Err(Error::InvalidPercentage)
    } else {
        Ok(value_bps)
    }
}

/// Builds a validated configuration: the commission must be below one and
/// the slippage tolerance at most one.
pub fn make_config(pair_info: PairInfo, commission_bps: u64, slippage_tolerance_bps: u64) -> (r:
    Result<Config, Error>)
    ensures
        commission_bps < 10000 && slippage_tolerance_bps <= 10000 ==> (r matches Ok(c)
            && c.pair_info == pair_info && c.commission_bps == commission_bps
            && c.slippage_tolerance_bps == slippage_tolerance_bps),
        !(commission_bps < 10000 && slippage_tolerance_bps <= 10000) ==> r == Err::<
            Config,
            Error,
        >(Error::InvalidPercentage),
{
    let commission_bps = match validate_commission(commission_bps) {
        Ok(c) => c,
        Err(e) => {
            return Err(e);
        },
    };
    let slippage_tolerance_bps = match validate_percentage(slippage_tolerance_bps) {
        Ok(s) => s,
        Err(e) => {
            return Err(e);
        },
    };
    Ok(Config { pair_info, commission_bps, slippage_tolerance_bps })
}

/// The proxy pool configured for a reward asset: the first entry keyed by
/// it.
pub open spec fn spec_proxy_of(proxies: Seq<(AssetId, Seq<char>)>, a: AssetId) -> Option<Seq<char>>
    decreases proxies.len(),
{
    if proxies.len() == 0 {
        None
    } else if proxies[0].0 == a {
        Some(proxies[0].1)
    } else {
        spec_proxy_of(proxies.drop_first(), a)
    }
}

/// The ghost images of the proxy-pool table.
pub open spec fn proxy_views(s: Seq<(AssetInfo, String)>) -> Seq<(AssetId, Seq<char>)> {
    Seq::new(s.len(), |i: int| (s[i].0@, s[i].1@))
}

/// Looks up the proxy pool configured for a reward asset.
fn proxy_of(proxies: &Vec<(AssetInfo, String)>, a: &AssetInfo) -> (r: Option<String>)
    ensures
        match spec_proxy_of(proxy_views(proxies@), a@) {
            Some(p) => r matches Some(s) && s@ == p,
            None => r is None,
        },
{
    let ghost pv = proxy_views(proxies@);
    let n = proxies.len();
    let mut i: usize = 0;
    proof {
        assert(pv.skip(0) =~= pv);
    }
    while i < n
        invariant
            i <= n,
            n == proxies.len(),
            pv == proxy_views(proxies@),
            spec_proxy_of(pv, a@) == spec_proxy_of(pv.skip(i as int), a@),
        decreases n - i,
    {
        proof {
            assert(pv.skip(i as int)[0] == pv[i as int]);
            assert(pv.skip(i as int).drop_first() =~= pv.skip(i + 1));
        }
        if proxies[i].0.equals(a) {
            return Some(proxies[i].1.clone());
        }
        i = i + 1;
    }
    proof {
        assert(pv.skip(n as int) =~= Seq::<(AssetId, Seq<char>)>::empty());
    }
    None
}

/// The swap compounding emits for one reward: through its proxy pool, with
/// no belief price and the spread bounded at one half.
pub open spec fn reward_swap_op_view(pair_contract: Seq<char>, reward: AssetView) -> OpView {
    OpView::Swap {
        pair_contract,
        offer_asset: reward,
        belief_price_is_max: false,
        max_spread_bps: Some(crate::collector::MAX_SPREAD_BPS),
        to: None,
    }
}

/// The swaps of one compounding round: each reward with a configured proxy
/// pool is swapped through it; rewards without one are already pool assets
/// and stay put.
pub open spec fn spec_compound_swaps(
    proxies: Seq<(AssetId, Seq<char>)>,
    rewards: Seq<AssetView>,
    i: int,
    ops: Seq<OpView>,
) -> Seq<OpView>
    decreases rewards.len() - i,
{
    if i < 0 || i >= rewards.len() {
        ops
    } else {
        match spec_proxy_of(proxies, rewards[i].info) {
            Option::Some(p) => spec_compound_swaps(
                proxies,
                rewards,
                i + 1,
                ops.push(reward_swap_op_view(p, rewards[i])),
            ),
            Option::None => spec_compound_swaps(proxies, rewards, i + 1, ops),
        }
    }
}

/// Everything one compounding round emits: the reward swaps, then the
/// self-addressed rebalance and deposit callbacks, in that order.
pub open spec fn spec_compound(
    proxies: Seq<(AssetId, Seq<char>)>,
    rewards: Seq<AssetView>,
    receiver: Seq<char>,
) -> Seq<OpView> {
    spec_compound_swaps(proxies, rewards, 0, Seq::empty()).push(OpView::OptimalSwap).push(
        OpView::ProvideLiquidity { receiver },
    )
}

/// The ghost images of a reward list.
pub open spec fn reward_views(s: Seq<Asset>) -> Seq<AssetView> {
    Seq::new(s.len(), |i: int| s[i]@)
}

/// Starts one compounding round: swaps each reward through its configured
/// proxy pool, then queues the rebalance and the liquidity deposit. The
/// transfer of the rewards into the contract is the host's part and precedes
/// these operations.
pub fn compound(
    proxies: &Vec<(AssetInfo, String)>,
    rewards: &Vec<Asset>,
    receiver: &String,
) -> (r: Vec<Operation>)
    ensures
        op_views(r@) == spec_compound(proxy_views(proxies@), reward_views(rewards@), receiver@),
{
    let ghost pv = proxy_views(proxies@);
    let ghost rv = reward_views(rewards@);
    let n = rewards.len();
    let mut ops: Vec<Operation> = Vec::new();
    let mut i: usize = 0;
    proof {
        assert(op_views(ops@) =~= Seq::<OpView>::empty());
    }
    while i < n
        invariant
            i <= n,
            n == rewards.len(),
            pv == proxy_views(proxies@),
            rv == reward_views(rewards@),
            spec_compound_swaps(pv, rv, 0, Seq::empty()) == spec_compound_swaps(
                pv,
                rv,
                i as int,
                op_views(ops@),
            ),
        decreases n - i,
    {
        match proxy_of(proxies, &rewards[i].info) {
            Some(pair_contract) => {
                let op = Operation::Swap {
                    pair_contract,
                    offer_asset: rewards[i].duplicate(),
                    belief_price_is_max: false,
                    max_spread_bps: Some(crate::collector::MAX_SPREAD_BPS),
                    to: None,
                };
                proof {
                    assert(op_views(ops@.push(op)) =~= op_views(ops@).push(op@));
                }
                ops.push(op);
            },
            None => {},
        }
        i = i + 1;
    }
    let cb1 = Operation::OptimalSwap;
    proof {
        assert(op_views(ops@.push(cb1)) =~= op_views(ops@).push(cb1@));
    }
    ops.push(cb1);
    let cb2 = Operation::ProvideLiquidity { receiver: receiver.clone() };
    proof {
        assert(op_views(ops@.push(cb2)) =~= op_views(ops@).push(cb2@));
    }
    ops.push(cb2);
    ops
}

/// What the rebalance step emits: nothing for a stable pool or when nothing
/// is held; otherwise the solver's advice as a swap on the pool, with no
/// belief price and no spread bound.
pub open spec fn spec_optimal_swap_ops(cfg: ConfigView, balance_a: u128, balance_b: u128, pool_a:
    u128, pool_b: u128) -> Result<Seq<OpView>, Error> {
    if cfg.pair_info.pair_type is Stable {
        Ok(Seq::empty())
    } else if balance_a == 0 && balance_b == 0 {
        Ok(Seq::empty())
    } else {
        match solver::spec_optimal_swap(balance_a, balance_b, pool_a, pool_b, cfg.commission_bps) {
            Ok(SwapAdvice::NoSwap) => Ok(Seq::empty()),
            Ok(SwapAdvice::OfferA { amount }) => Ok(
                seq![
                    OpView::Swap {
                        pair_contract: cfg.pair_info.contract_addr,
                        offer_asset: AssetView { info: cfg.pair_info.asset_a, amount },
                        belief_price_is_max: false,
                        max_spread_bps: None,
                        to: None,
                    },
                ],
            ),
            Ok(SwapAdvice::OfferB { amount }) => Ok(
                seq![
                    OpView::Swap {
                        pair_contract: cfg.pair_info.contract_addr,
                        offer_asset: AssetView { info: cfg.pair_info.asset_b, amount },
                        belief_price_is_max: false,
                        max_spread_bps: None,
                        to: None,
                    },
                ],
            ),
            Err(e) => Err(e),
        }
    }
}

/// The self-addressed rebalance step: given the contract's held balances of
/// the two pool assets and the pool's reserves, emits the one swap that
/// brings the held amounts to the reserve ratio, if any is needed. Only the
/// contract itself may trigger it.
pub fn optimal_swap(
    config: &Config,
    balance_a: u128,
    balance_b: u128,
    pool_a: u128,
    pool_b: u128,
    sender: &String,
    contract_addr: &String,
) -> (r: Result<Vec<Operation>, Error>)
    requires
        config@.commission_bps < 10000,
    ensures
        sender@ != contract_addr@ ==> r == Err::<Vec<Operation>, Error>(Error::Unauthorized),
        sender@ == contract_addr@ ==> match spec_optimal_swap_ops(
            config@,
            balance_a,
            balance_b,
            pool_a,
            pool_b,
        ) {
            Ok(ops) => r matches Ok(v) && op_views(v@) == ops,
            Err(e) => r == Err::<Vec<Operation>, Error>(e),
        },
{
    if !(*sender == *contract_addr) {
        return Err(Error::Unauthorized);
    }
    let mut ops: Vec<Operation> = Vec::new();
    proof {
        assert(op_views(ops@) =~= Seq::<OpView>::empty());
    }
    if config.pair_info.pair_type.is_stable() {
        return Ok(ops);
    }
    if balance_a == 0 && balance_b == 0 {
        return Ok(ops);
    }
    match solver::calculate_optimal_swap(
        balance_a,
        balance_b,
        pool_a,
        pool_b,
        config.commission_bps,
    ) {
        Ok(SwapAdvice::NoSwap) => Ok(ops),
        Ok(SwapAdvice::OfferA { amount }) => {
            let op = Operation::Swap {
                pair_contract: config.pair_info.contract_addr.clone(),
                offer_asset: Asset { info: config.pair_info.asset_a.duplicate(), amount },
                belief_price_is_max: false,
                max_spread_bps: None,
                to: None,
            };
            proof {
                assert(op_views(ops@.push(op)) =~= op_views(ops@).push(op@));
            }
            ops.push(op);
            Ok(ops)
        },
        Ok(SwapAdvice::OfferB { amount }) => {
            let op = Operation::Swap {
                pair_contract: config.pair_info.contract_addr.clone(),
                offer_asset: Asset { info: config.pair_info.asset_b.duplicate(), amount },
                belief_price_is_max: false,
                max_spread_bps: None,
                to: None,
            };
            proof {
                assert(op_views(ops@.push(op)) =~= op_views(ops@).push(op@));
            }
            ops.push(op);
            Ok(ops)
        },
        Err(e) => Err(e),
    }
}

/// What the deposit step emits: an allowance for each token-contract asset,
/// then the deposit itself carrying the native assets as funds.
pub open spec fn spec_provide_liquidity_ops(
    cfg: ConfigView,
    balance_a: u128,
    balance_b: u128,
    receiver: Seq<char>,
) -> Seq<OpView> {
    let asset_a = AssetView { info: cfg.pair_info.asset_a, amount: balance_a };
    let asset_b = AssetView { info: cfg.pair_info.asset_b, amount: balance_b };
    let allowances_a: Seq<OpView> = match cfg.pair_info.asset_a {
        AssetId::Contract(addr) => seq![
            OpView::IncreaseAllowance {
                token: addr,
                spender: cfg.pair_info.contract_addr,
                amount: balance_a,
            },
        ],
        AssetId::Native(_) => Seq::empty(),
    };
    let allowances_b: Seq<OpView> = match cfg.pair_info.asset_b {
        AssetId::Contract(addr) => seq![
            OpView::IncreaseAllowance {
                token: addr,
                spender: cfg.pair_info.contract_addr,
                amount: balance_b,
            },
        ],
        AssetId::Native(_) => Seq::empty(),
    };
    let funds_a: Seq<AssetView> = if cfg.pair_info.asset_a is Native {
        seq![asset_a]
    } else {
        Seq::empty()
    };
    let funds_b: Seq<AssetView> = if cfg.pair_info.asset_b is Native {
        seq![asset_b]
    } else {
        Seq::empty()
    };
    (allowances_a + allowances_b).push(
        OpView::SupplyLiquidity {
            pair_contract: cfg.pair_info.contract_addr,
            asset_a,
            asset_b,
            slippage_tolerance_bps: cfg.slippage_tolerance_bps,
            receiver,
            funds: funds_a + funds_b,
        },
    )
}

/// The self-addressed deposit step: re-reads the two held balances after the
/// rebalance swap settled, raises allowances for token assets, attaches
/// native assets as funds, and deposits the pair as liquidity for
/// `receiver`. Only the contract itself may trigger it.
pub fn provide_liquidity(
    config: &Config,
    balance_a: u128,
    balance_b: u128,
    receiver: &String,
    sender: &String,
    contract_addr: &String,
) -> (r: Result<Vec<Operation>, Error>)
    ensures
        sender@ != contract_addr@ ==> r == Err::<Vec<Operation>, Error>(Error::Unauthorized),
        sender@ == contract_addr@ ==> (r matches Ok(v) && op_views(v@)
            == spec_provide_liquidity_ops(config@, balance_a, balance_b, receiver@)),
{
    if !(*sender == *contract_addr) {
        return Err(Error::Unauthorized);
    }
    let mut ops: Vec<Operation> = Vec::new();
    let mut funds: Vec<Asset> = Vec::new();
    proof {
        assert(op_views(ops@) =~= Seq::<OpView>::empty());
    }
    match &config.pair_info.asset_a {
        AssetInfo::Token { contract_addr: token } => {
            let op = Operation::IncreaseAllowance {
                token: token.clone(),
                spender: config.pair_info.contract_addr.clone(),
                amount: balance_a,
            };
            proof {
                assert(op_views(ops@.push(op)) =~= op_views(ops@).push(op@));
            }
            ops.push(op);
        },
        AssetInfo::NativeToken { .. } => {
            funds.push(Asset { info: config.pair_info.asset_a.duplicate(), amount: balance_a });
        },
    }
    match &config.pair_info.asset_b {
        AssetInfo::Token { contract_addr: token } => {
            let op = Operation::IncreaseAllowance {
                token: token.clone(),
                spender: config.pair_info.contract_addr.clone(),
                amount: balance_b,
            };
            proof {
                assert(op_views(ops@.push(op)) =~= op_views(ops@).push(op@));
            }
            ops.push(op);
        },
        AssetInfo::NativeToken { .. } => {
            funds.push(Asset { info: config.pair_info.asset_b.duplicate(), amount: balance_b });
        },
    }
    proof {
        let fa: Seq<AssetView> = if config@.pair_info.asset_a is Native {
            seq![AssetView { info: config@.pair_info.asset_a, amount: balance_a }]
        } else {
            Seq::empty()
        };
        let fb: Seq<AssetView> = if config@.pair_info.asset_b is Native {
            seq![AssetView { info: config@.pair_info.asset_b, amount: balance_b }]
        } else {
            Seq::empty()
        };
        assert(Seq::new(funds@.len(), |i: int| funds@[i]@) =~= fa + fb);
    }
    let fin = Operation::SupplyLiquidity {
        pair_contract: config.pair_info.contract_addr.clone(),
        asset_a: Asset { info: config.pair_info.asset_a.duplicate(), amount: balance_a },
        asset_b: Asset { info: config.pair_info.asset_b.duplicate(), amount: balance_b },
        slippage_tolerance_bps: config.slippage_tolerance_bps,
        receiver: receiver.clone(),
        funds,
    };
    proof {
        assert(op_views(ops@.push(fin)) =~= op_views(ops@).push(fin@));
    }
    ops.push(fin);
    proof {
        assert(op_views(ops@) =~= spec_provide_liquidity_ops(
            config@,
            balance_a,
            balance_b,
            receiver@,
        ));
    }
    Ok(ops)
}

} // verus!
