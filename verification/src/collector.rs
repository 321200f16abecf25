//! Fee collection and distribution.
//!
//! The collector swaps a basket of fee tokens into one target stablecoin by
//! routing each through its configured bridge (or a direct pool), then splits
//! the settled stablecoin balance across a weighted recipient list. Every
//! function here computes over snapshots of the chain state (registry, bridge
//! graph, balances) handed in as plain values, and returns the operations the
//! host is to execute, in order.

use vstd::prelude::*;
use crate::asset::{asset_id_views, asset_limit_views, Asset, AssetId, AssetInfo, AssetWithLimit};
use crate::bridge::{
    entry_views, spec_bridge_of, spec_find_pair, spec_graph_insert, spec_graph_remove,
    spec_validate_bridge, validate_bridge, BridgeGraph, PairRegistry, ValidateOutcome,
    BRIDGES_EXECUTION_MAX_DEPTH, BRIDGES_INITIAL_DEPTH,
};
use crate::error::Error;
use crate::ops::{op_views, Operation, OpView};
use crate::asset::{AssetView, PairView};
use crate::wide::{widening_mul, U256};

verus! {

/// The fixed spread bound carried on every routed bridge swap: one half, in
/// basis points.
pub const MAX_SPREAD_BPS: u64 = 5000;

/// Whether a list of asset infos holds the given identity.
fn contains_asset(v: &Vec<AssetInfo>, a: &AssetInfo) -> (r: bool)
    ensures
        r == asset_id_views(v@).contains(a@),
{
    let n = v.len();
    let mut i: usize = 0;
    while i < n
        invariant
            i <= n,
            n == v.len(),
            forall|j: int| 0 <= j < i ==> asset_id_views(v@)[j] != a@,
        decreases n - i,
    {
        if v[i].equals(a) {
            assert(asset_id_views(v@)[i as int] == a@);
            return true;
        }
        i = i + 1;
    }
    proof {
        assert(forall|j: int| 0 <= j < asset_id_views(v@).len() ==> asset_id_views(v@)[j] != a@);
    }
    false
}

/// The swap operation routing emits: no belief-price protection (the belief
/// price is the maximum representable), spread bounded at one half.
pub open spec fn swap_op_view(pair_contract: Seq<char>, offer: AssetId, amount: u128) -> OpView {
    OpView::Swap {
        pair_contract,
        offer_asset: AssetView { info: offer, amount },
        belief_price_is_max: true,
        max_spread_bps: Some(MAX_SPREAD_BPS),
        to: None,
    }
}

/// The collector's configuration: administrative addresses, the target
/// stablecoin, and the weighted recipient list the balance is split across.
#[derive(Debug)]
pub struct Config {
    pub owner: String,
    pub operator: String,
    pub factory_contract: String,
    pub stablecoin: AssetInfo,
    pub target_list: Vec<(String, u64)>,
}

/// Ghost image of the configuration.
pub struct ConfigView {
    pub owner: Seq<char>,
    pub operator: Seq<char>,
    pub factory_contract: Seq<char>,
    pub stablecoin: AssetId,
    pub target_list: Seq<(Seq<char>, u64)>,
}

impl View for Config {
    type V = ConfigView;

    open spec fn view(&self) -> ConfigView {
        ConfigView {
            owner: self.owner@,
            operator: self.operator@,
            factory_contract: self.factory_contract@,
            stablecoin: self.stablecoin@,
            target_list: Seq::new(
                self.target_list.len() as nat,
                |i: int| (self.target_list[i].0@, self.target_list[i].1),
            ),
        }
    }
}

/// A snapshot of settled balances held by the contract.
pub struct Balances {
    pub entries: Vec<(AssetInfo, u128)>,
}

impl View for Balances {
    type V = Seq<(AssetId, u128)>;

    open spec fn view(&self) -> Seq<(AssetId, u128)> {
        Seq::new(self.entries.len() as nat, |i: int| (self.entries[i].0@, self.entries[i].1))
    }
}

/// The balance recorded for an asset: the first entry keyed by it, zero when
/// absent.
pub open spec fn spec_balance_of(bal: Seq<(AssetId, u128)>, a: AssetId) -> u128
    decreases bal.len(),
{
    if bal.len() == 0 {
        0
    } else if bal[0].0 == a {
        bal[0].1
    } else {
        spec_balance_of(bal.drop_first(), a)
    }
}

impl Balances {
    /// The balance held of the given asset.
    pub fn balance_of(&self, a: &AssetInfo) -> (r: u128)
        ensures
            r == spec_balance_of(self@, a@),
    {
        let n = self.entries.len();
        let mut i: usize = 0;
        proof {
            assert(self@.skip(0) =~= self@);
        }
        while i < n
            invariant
                i <= n,
                n == self.entries.len(),
                spec_balance_of(self@, a@) == spec_balance_of(self@.skip(i as int), a@),
            decreases n - i,
        {
            proof {
                assert(self@.skip(i as int)[0] == self@[i as int]);
                assert(self@.skip(i as int).drop_first() =~= self@.skip(i + 1));
            }
            if self.entries[i].0.equals(a) {
                return self.entries[i].1;
            }
            i = i + 1;
        }
        proof {
            assert(self@.skip(n as int) =~= Seq::<(AssetId, u128)>::empty());
        }
        0
    }
}

/// The sum of the configured weights.
pub open spec fn spec_total_weight(tl: Seq<(Seq<char>, u64)>) -> int
    decreases tl.len(),
{
    if tl.len() == 0 {
        0
    } else {
        tl[0].1 + spec_total_weight(tl.drop_first())
    }
}

/// One recipient's share: `floor(balance * weight / total)`.
pub open spec fn share_of(balance: int, weight: int, total: int) -> int {
    balance * weight / total
}

/// The transfers distribution emits: one per recipient, in list order, each
/// of that recipient's share of the balance.
pub open spec fn spec_distribution_ops(cfg: ConfigView, balance: u128) -> Seq<OpView> {
    Seq::new(
        cfg.target_list.len(),
        |i: int|
            OpView::Transfer {
                recipient: cfg.target_list[i].0,
                asset: AssetView {
                    info: cfg.stablecoin,
                    amount: share_of(
                        balance as int,
                        cfg.target_list[i].1 as int,
                        spec_total_weight(cfg.target_list),
                    ) as u128,
                },
            },
    )
}

/// The sum of all emitted shares.
pub open spec fn spec_shares_sum(tl: Seq<(Seq<char>, u64)>, balance: int, total: int) -> int
    decreases tl.len(),
{
    if tl.len() == 0 {
        0
    } else {
        share_of(balance, tl[0].1 as int, total) + spec_shares_sum(tl.drop_first(), balance, total)
    }
}

/// Floor division distributes over a sum up to one unit:
/// `x/d + y/d <= (x+y)/d <= x/d + y/d + 1`.
proof fn lemma_div_add_bounds(x: int, y: int, d: int)
    requires
        d > 0,
        x >= 0,
        y >= 0,
    ensures
        x / d + y / d <= (x + y) / d,
        (x + y) / d <= x / d + y / d + 1,
{
    let qx = x / d;
    let qy = y / d;
    let rx = x % d;
    let ry = y % d;
    vstd::arithmetic::div_mod::lemma_fundamental_div_mod(x, d);
    vstd::arithmetic::div_mod::lemma_fundamental_div_mod(y, d);
    vstd::arithmetic::div_mod::lemma_mod_bound(x, d);
    vstd::arithmetic::div_mod::lemma_mod_bound(y, d);
    assert(d * (qx + qy) == d * qx + d * qy) by (nonlinear_arith);
    assert(d * (qx + qy + 1) == d * qx + d * qy + d) by (nonlinear_arith);
    if rx + ry < d {
        vstd::arithmetic::div_mod::lemma_fundamental_div_mod_converse(
            x + y,
            d,
            qx + qy,
            rx + ry,
        );
    } else {
        vstd::arithmetic::div_mod::lemma_fundamental_div_mod_converse(
            x + y,
            d,
            qx + qy + 1,
            rx + ry - d,
        );
    }
}

/// The summed shares stay within one truncation per recipient of the exact
/// proportional total.
proof fn lemma_shares_sum_bounds(tl: Seq<(Seq<char>, u64)>, balance: int, total: int)
    requires
        total > 0,
        balance >= 0,
    ensures
        0 <= spec_shares_sum(tl, balance, total),
        spec_shares_sum(tl, balance, total) <= balance * spec_total_weight(tl) / total,
        tl.len() >= 1 ==> spec_shares_sum(tl, balance, total) >= balance * spec_total_weight(tl)
            / total - (tl.len() - 1),
    decreases tl.len(),
{
    if tl.len() == 0 {
        assert(balance * 0 == 0) by (nonlinear_arith);
        assert(0int / total == 0) by {
            vstd::arithmetic::div_mod::lemma_div_of0(total);
        }
    } else {
        let rest = tl.drop_first();
        lemma_shares_sum_bounds(rest, balance, total);
        let w0 = tl[0].1 as int;
        let wr = spec_total_weight(rest);
        assert(wr >= 0) by {
            lemma_total_weight_nonneg(rest);
        }
        assert(balance * (w0 + wr) == balance * w0 + balance * wr) by (nonlinear_arith);
        assert(balance * w0 >= 0 && balance * wr >= 0) by (nonlinear_arith)
            requires
                balance >= 0,
                w0 >= 0,
                wr >= 0,
        ;
        lemma_div_add_bounds(balance * w0, balance * wr, total);
        vstd::arithmetic::div_mod::lemma_div_pos_is_pos(balance * w0, total);
        assert(spec_total_weight(tl) == w0 + wr);
        assert(balance * spec_total_weight(tl) == balance * (w0 + wr)) by (nonlinear_arith)
            requires
                spec_total_weight(tl) == w0 + wr,
        ;
        assert(balance * spec_total_weight(tl) / total == (balance * w0 + balance * wr) / total);
    }
}

/// The weight sum is non-negative.
proof fn lemma_total_weight_nonneg(tl: Seq<(Seq<char>, u64)>)
    ensures
        spec_total_weight(tl) >= 0,
    decreases tl.len(),
{
    if tl.len() > 0 {
        lemma_total_weight_nonneg(tl.drop_first());
    }
}

/// Each configured weight is at most the weight sum.
proof fn lemma_weight_le_total(tl: Seq<(Seq<char>, u64)>, i: int)
    requires
        0 <= i < tl.len(),
    ensures
        tl[i].1 <= spec_total_weight(tl),
    decreases tl.len(),
{
    lemma_total_weight_nonneg(tl.drop_first());
    if i > 0 {
        lemma_weight_le_total(tl.drop_first(), i - 1);
    }
}

/// Distribution conservation: the emitted shares never exceed the balance,
/// and what truncation withholds is less than one unit per recipient; the
/// remainder stays with the contract.
pub proof fn lemma_distribution_conservation(tl: Seq<(Seq<char>, u64)>, balance: u128)
    requires
        spec_total_weight(tl) > 0,
    ensures
        0 <= spec_shares_sum(tl, balance as int, spec_total_weight(tl)) <= balance,
        balance - spec_shares_sum(tl, balance as int, spec_total_weight(tl)) < tl.len(),
{
    let total = spec_total_weight(tl);
    lemma_shares_sum_bounds(tl, balance as int, total);
    assert(balance * total == total * balance) by (nonlinear_arith);
    assert(total * balance / total == balance) by {
        vstd::arithmetic::div_mod::lemma_div_multiples_vanish(balance as int, total);
    }
}

/// Sums the configured weights; the result of any list of 64-bit weights
/// fits in 128 bits.
pub fn total_weight(tl: &Vec<(String, u64)>) -> (r: u128)
    ensures
        r == spec_total_weight(Seq::new(tl.len() as nat, |i: int| (tl[i].0@, tl[i].1))),
{
    let ghost tlv = Seq::new(tl.len() as nat, |i: int| (tl@[i].0@, tl@[i].1));
    let n = tl.len();
    let mut acc: u128 = 0;
    let mut i: usize = 0;
    proof {
        assert(tlv.skip(0) =~= tlv);
        lemma_total_weight_nonneg(tlv);
    }
    while i < n
        invariant
            i <= n,
            n == tl.len(),
            tlv == Seq::new(tl.len() as nat, |j: int| (tl@[j].0@, tl@[j].1)),
            acc + spec_total_weight(tlv.skip(i as int)) == spec_total_weight(tlv),
            acc <= i * 0xffff_ffff_ffff_ffff,
        decreases n - i,
    {
        proof {
            assert(tlv.skip(i as int)[0] == tlv[i as int]);
            assert(tlv.skip(i as int).drop_first() =~= tlv.skip(i + 1));
            assert(i * 0xffff_ffff_ffff_ffff + 0xffff_ffff_ffff_ffff == (i + 1)
                * 0xffff_ffff_ffff_ffff) by (nonlinear_arith);
            assert((i + 1) * 0xffff_ffff_ffff_ffff < 0xffffffffffffffffffffffffffffffff)
                by (nonlinear_arith)
                requires
                    i + 1 <= 0xffff_ffff_ffff_ffff,
            ;
        }
        acc = acc + (tl[i].1 as u128);
        i = i + 1;
    }
    proof {
        assert(tlv.skip(n as int) =~= Seq::<(Seq<char>, u64)>::empty());
    }
    acc
}

/// Splits the settled target-asset balance across the configured recipients
/// by weight, in list order. Only the contract itself may trigger it, and an
/// optional minimum guards against short balances after partially failed
/// upstream swaps.
pub fn distribute_fees(
    config: &Config,
    balance: u128,
    minimum_receive: Option<u128>,
    sender: &String,
    contract_addr: &String,
) -> (r: Result<Vec<Operation>, Error>)
    requires
        spec_total_weight(config@.target_list) > 0,
    ensures
        sender@ != contract_addr@ ==> r == Err::<Vec<Operation>, Error>(Error::Unauthorized),
        sender@ == contract_addr@ ==> match minimum_receive {
            Some(m) => if balance < m {
                r == Err::<Vec<Operation>, Error>(
                    Error::AssertionFailed { minimum_receive: m, actual: balance },
                )
            } else {
                r matches Ok(ops) && op_views(ops@) == spec_distribution_ops(config@, balance)
            },
            None => r matches Ok(ops) && op_views(ops@) == spec_distribution_ops(config@, balance),
        },
{
    if !(*sender == *contract_addr) {
        return Err(Error::Unauthorized);
    }
    if let Some(m) = minimum_receive {
        if balance < m {
            return Err(Error::AssertionFailed { minimum_receive: m, actual: balance });
        }
    }
    let total = total_weight(&config.target_list);
    proof {
        assert(Seq::new(
            config.target_list.len() as nat,
            |i: int| (config.target_list@[i].0@, config.target_list@[i].1),
        ) =~= config@.target_list);
    }
    let n = config.target_list.len();
    let mut ops: Vec<Operation> = Vec::new();
    let mut i: usize = 0;
    while i < n
        invariant
            i <= n,
            n == config.target_list.len(),
            total == spec_total_weight(config@.target_list),
            total > 0,
            ops.len() == i,
            forall|j: int|
                0 <= j < i ==> #[trigger] ops[j]@ == spec_distribution_ops(config@, balance)[j],
        decreases n - i,
    {
        let weight: u64 = config.target_list[i].1;
        let product = widening_mul(balance, weight as u128);
        let (q, rem) = product.div_rem(U256::from_u128(total));
        proof {
            crate::wide::lemma_u256_bound(q);
            vstd::arithmetic::div_mod::lemma_fundamental_div_mod_converse(
                product.v(),
                total as int,
                q.v(),
                rem.v(),
            );
            lemma_weight_le_total(config@.target_list, i as int);
            crate::quote::lemma_quotient_at_most(
                balance as int,
                weight as int,
                total as int,
                q.v(),
                rem.v(),
            );
        }
        let share = q.try_to_u128().unwrap();
        let recipient = config.target_list[i].0.clone();
        ops.push(
            Operation::Transfer {
                recipient,
                asset: Asset { info: config.stablecoin.duplicate(), amount: share },
            },
        );
        i = i + 1;
    }
    proof {
        assert(op_views(ops@) =~= spec_distribution_ops(config@, balance));
    }
    Ok(ops)
}

/// One pass over the requested assets: for each one with a balance (capped
/// by its limit) that is not already the stablecoin, a swap toward its
/// configured bridge -- or directly toward the stablecoin when no bridge is
/// configured -- and the set of bridge assets those swaps produce.
pub open spec fn spec_collect_loop(
    cfg: ConfigView,
    pairs: Seq<PairView>,
    graph: Seq<(AssetId, AssetId)>,
    bal: Seq<(AssetId, u128)>,
    assets: Seq<(AssetId, Option<u128>)>,
    i: int,
    ops: Seq<OpView>,
    bridge_assets: Seq<AssetId>,
) -> Result<(Seq<OpView>, Seq<AssetId>), Error>
    decreases assets.len() - i,
{
    if i < 0 || i >= assets.len() {
        Ok((ops, bridge_assets))
    } else {
        let info = assets[i].0;
        let held = spec_balance_of(bal, info);
        let amount = match assets[i].1 {
            Option::Some(l) => if l < held {
                l
            } else {
                held
            },
            Option::None => held,
        };
        if amount == 0 || info == cfg.stablecoin {
            spec_collect_loop(cfg, pairs, graph, bal, assets, i + 1, ops, bridge_assets)
        } else {
            match spec_bridge_of(graph, info) {
                Option::Some(b) => match spec_find_pair(pairs, info, b) {
                    Option::None => Err(Error::InvalidBridge),
                    Option::Some(p) => spec_collect_loop(
                        cfg,
                        pairs,
                        graph,
                        bal,
                        assets,
                        i + 1,
                        ops.push(swap_op_view(p.contract_addr, info, amount)),
                        if bridge_assets.contains(b) {
                            bridge_assets
                        } else {
                            bridge_assets.push(b)
                        },
                    ),
                },
                Option::None => match spec_find_pair(pairs, info, cfg.stablecoin) {
                    Option::None => Err(Error::InvalidBridge),
                    Option::Some(p) => spec_collect_loop(
                        cfg,
                        pairs,
                        graph,
                        bal,
                        assets,
                        i + 1,
                        ops.push(swap_op_view(p.contract_addr, info, amount)),
                        bridge_assets,
                    ),
                },
            }
        }
    }
}

/// Everything a collect round emits: the swaps, then -- when any bridge
/// assets result -- one self-addressed routing continuation at depth zero,
/// then the distribution step.
pub open spec fn spec_collect(
    cfg: ConfigView,
    pairs: Seq<PairView>,
    graph: Seq<(AssetId, AssetId)>,
    bal: Seq<(AssetId, u128)>,
    assets: Seq<(AssetId, Option<u128>)>,
    minimum_receive: Option<u128>,
) -> Result<Seq<OpView>, Error> {
    match spec_collect_loop(cfg, pairs, graph, bal, assets, 0, Seq::empty(), Seq::empty()) {
        Ok(state) => {
            let swaps = if state.1.len() > 0 {
                state.0.push(
                    OpView::SwapBridgeAssets { assets: state.1, depth: BRIDGES_INITIAL_DEPTH },
                )
            } else {
                state.0
            };
            Ok(swaps.push(OpView::DistributeFees { minimum_receive }))
        },
        Err(e) => Err(e),
    }
}

/// Collects the requested assets toward the stablecoin: emits the swaps of
/// the first hop, a routing continuation for the resulting bridge assets,
/// and the final distribution step. Operator-only.
pub fn collect(
    config: &Config,
    registry: &PairRegistry,
    bridges: &BridgeGraph,
    balances: &Balances,
    assets: &Vec<AssetWithLimit>,
    minimum_receive: Option<u128>,
    sender: &String,
) -> (r: Result<Vec<Operation>, Error>)
    ensures
        sender@ != config@.operator ==> r == Err::<Vec<Operation>, Error>(Error::Unauthorized),
        sender@ == config@.operator ==> match spec_collect(
            config@,
            registry@,
            bridges@,
            balances@,
            asset_limit_views(assets@),
            minimum_receive,
        ) {
            Ok(ops) => r matches Ok(v) && op_views(v@) == ops,
            Err(e) => r == Err::<Vec<Operation>, Error>(e),
        },
{
    if !(*sender == config.operator) {
        return Err(Error::Unauthorized);
    }
    let ghost assets_v = asset_limit_views(assets@);
    let n = assets.len();
    let mut ops: Vec<Operation> = Vec::new();
    let mut bridge_assets: Vec<AssetInfo> = Vec::new();
    let mut i: usize = 0;
    proof {
        assert(op_views(ops@) =~= Seq::<OpView>::empty());
        assert(asset_id_views(bridge_assets@) =~= Seq::<AssetId>::empty());
    }
    while i < n
        invariant
            i <= n,
            n == assets.len(),
            sender@ == config@.operator,
            assets_v == asset_limit_views(assets@),
            spec_collect_loop(
                config@,
                registry@,
                bridges@,
                balances@,
                assets_v,
                0,
                Seq::empty(),
                Seq::empty(),
            ) == spec_collect_loop(
                config@,
                registry@,
                bridges@,
                balances@,
                assets_v,
                i as int,
                op_views(ops@),
                asset_id_views(bridge_assets@),
            ),
        decreases n - i,
    {
        let info = &assets[i].info;
        let held = balances.balance_of(info);
        let amount = match assets[i].limit {
            Some(l) => if l < held {
                l
            } else {
                held
            },
            None => held,
        };
        if amount == 0 || info.equals(&config.stablecoin) {
            i = i + 1;
            continue ;
        }
        match bridges.bridge_of(info) {
            Some(b) => {
                match registry.find_pair(info, &b) {
                    Some(p) => {
                        let op = Operation::Swap {
                            pair_contract: p.contract_addr,
                            offer_asset: Asset { info: info.duplicate(), amount },
                            belief_price_is_max: true,
                            max_spread_bps: Some(MAX_SPREAD_BPS),
                            to: None,
                        };
                        proof {
                            assert(op_views(ops@.push(op)) =~= op_views(ops@).push(op@));
                        }
                        ops.push(op);
                        if !contains_asset(&bridge_assets, &b) {
                            proof {
                                assert(asset_id_views(bridge_assets@.push(b)) =~= asset_id_views(
                                    bridge_assets@,
                                ).push(b@));
                            }
                            bridge_assets.push(b);
                        }
                    },
                    None => {
                        return Err(Error::InvalidBridge);
                    },
                }
            },
            None => {
                match registry.find_pair(info, &config.stablecoin) {
                    Some(p) => {
                        let op = Operation::Swap {
                            pair_contract: p.contract_addr,
                            offer_asset: Asset { info: info.duplicate(), amount },
                            belief_price_is_max: true,
                            max_spread_bps: Some(MAX_SPREAD_BPS),
                            to: None,
                        };
                        proof {
                            assert(op_views(ops@.push(op)) =~= op_views(ops@).push(op@));
                        }
                        ops.push(op);
                    },
                    None => {
                        return Err(Error::InvalidBridge);
                    },
                }
            },
        }
        i = i + 1;
    }
    if bridge_assets.len() > 0 {
        let op = Operation::SwapBridgeAssets {
            assets: bridge_assets,
            depth: BRIDGES_INITIAL_DEPTH,
        };
        proof {
            assert(op_views(ops@.push(op)) =~= op_views(ops@).push(op@));
        }
        ops.push(op);
    }
    let fin = Operation::DistributeFees { minimum_receive };
    proof {
        assert(op_views(ops@.push(fin)) =~= op_views(ops@).push(fin@));
    }
    ops.push(fin);
    Ok(ops)
}

/// One routing pass over a set of bridge assets: for each with a balance, a
/// swap toward its own next bridge -- or the stablecoin when none is
/// configured -- and the set of bridge assets the swaps produce in turn.
pub open spec fn spec_route_loop(
    cfg: ConfigView,
    pairs: Seq<PairView>,
    graph: Seq<(AssetId, AssetId)>,
    bal: Seq<(AssetId, u128)>,
    assets: Seq<AssetId>,
    i: int,
    ops: Seq<OpView>,
    next_assets: Seq<AssetId>,
) -> Result<(Seq<OpView>, Seq<AssetId>), Error>
    decreases assets.len() - i,
{
    if i < 0 || i >= assets.len() {
        Ok((ops, next_assets))
    } else {
        let a = assets[i];
        let amount = spec_balance_of(bal, a);
        if amount == 0 {
            spec_route_loop(cfg, pairs, graph, bal, assets, i + 1, ops, next_assets)
        } else {
            let to = match spec_bridge_of(graph, a) {
                Option::Some(b) => b,
                Option::None => cfg.stablecoin,
            };
            match spec_find_pair(pairs, a, to) {
                Option::None => Err(Error::InvalidBridge),
                Option::Some(p) => spec_route_loop(
                    cfg,
                    pairs,
                    graph,
                    bal,
                    assets,
                    i + 1,
                    ops.push(swap_op_view(p.contract_addr, a, amount)),
                    if to == cfg.stablecoin || next_assets.contains(to) {
                        next_assets
                    } else {
                        next_assets.push(to)
                    },
                ),
            }
        }
    }
}

/// Everything one routing step emits: beyond the execution depth ceiling it
/// is an error; otherwise the swaps of this hop, then -- when further bridge
/// assets result -- a routing continuation one level deeper.
pub open spec fn spec_route(
    cfg: ConfigView,
    pairs: Seq<PairView>,
    graph: Seq<(AssetId, AssetId)>,
    bal: Seq<(AssetId, u128)>,
    assets: Seq<AssetId>,
    depth: u64,
) -> Result<Seq<OpView>, Error> {
    if depth >= BRIDGES_EXECUTION_MAX_DEPTH {
        Err(Error::MaxBridgeDepth(depth))
    } else {
        match spec_route_loop(cfg, pairs, graph, bal, assets, 0, Seq::empty(), Seq::empty()) {
            Ok(state) => Ok(
                if state.1.len() > 0 {
                    state.0.push(
                        OpView::SwapBridgeAssets { assets: state.1, depth: (depth + 1) as u64 },
                    )
                } else {
                    state.0
                },
            ),
            Err(e) => Err(e),
        }
    }
}

/// Executes one routing step for the given bridge assets: re-reads their
/// balances and swaps each onward, failing hard once the execution depth
/// ceiling is reached. Only the contract itself may trigger it.
pub fn swap_bridge_assets(
    config: &Config,
    registry: &PairRegistry,
    bridges: &BridgeGraph,
    balances: &Balances,
    assets: &Vec<AssetInfo>,
    depth: u64,
    sender: &String,
    contract_addr: &String,
) -> (r: Result<Vec<Operation>, Error>)
    ensures
        sender@ != contract_addr@ ==> r == Err::<Vec<Operation>, Error>(Error::Unauthorized),
        sender@ == contract_addr@ ==> match spec_route(
            config@,
            registry@,
            bridges@,
            balances@,
            asset_id_views(assets@),
            depth,
        ) {
            Ok(ops) => r matches Ok(v) && op_views(v@) == ops,
            Err(e) => r == Err::<Vec<Operation>, Error>(e),
        },
{
    if !(*sender == *contract_addr) {
        return Err(Error::Unauthorized);
    }
    if depth >= BRIDGES_EXECUTION_MAX_DEPTH {
        return Err(Error::MaxBridgeDepth(depth));
    }
    let ghost assets_v = asset_id_views(assets@);
    let n = assets.len();
    let mut ops: Vec<Operation> = Vec::new();
    let mut next_assets: Vec<AssetInfo> = Vec::new();
    let mut i: usize = 0;
    proof {
        assert(op_views(ops@) =~= Seq::<OpView>::empty());
        assert(asset_id_views(next_assets@) =~= Seq::<AssetId>::empty());
    }
    while i < n
        invariant
            i <= n,
            n == assets.len(),
            sender@ == contract_addr@,
            depth < BRIDGES_EXECUTION_MAX_DEPTH,
            assets_v == asset_id_views(assets@),
            spec_route_loop(
                config@,
                registry@,
                bridges@,
                balances@,
                assets_v,
                0,
                Seq::empty(),
                Seq::empty(),
            ) == spec_route_loop(
                config@,
                registry@,
                bridges@,
                balances@,
                assets_v,
                i as int,
                op_views(ops@),
                asset_id_views(next_assets@),
            ),
        decreases n - i,
    {
        let a = &assets[i];
        let amount = balances.balance_of(a);
        if amount == 0 {
            i = i + 1;
            continue ;
        }
        let to = match bridges.bridge_of(a) {
            Some(b) => b,
            None => config.stablecoin.duplicate(),
        };
        match registry.find_pair(a, &to) {
            Some(p) => {
                let op = Operation::Swap {
                    pair_contract: p.contract_addr,
                    offer_asset: Asset { info: a.duplicate(), amount },
                    belief_price_is_max: true,
                    max_spread_bps: Some(MAX_SPREAD_BPS),
                    to: None,
                };
                proof {
                    assert(op_views(ops@.push(op)) =~= op_views(ops@).push(op@));
                }
                ops.push(op);
                if !to.equals(&config.stablecoin) && !contains_asset(&next_assets, &to) {
                    proof {
                        assert(asset_id_views(next_assets@.push(to)) =~= asset_id_views(
                            next_assets@,
                        ).push(to@));
                    }
                    next_assets.push(to);
                }
            },
            None => {
                return Err(Error::InvalidBridge);
            },
        }
        i = i + 1;
    }
    if next_assets.len() > 0 {
        let op = Operation::SwapBridgeAssets { assets: next_assets, depth: depth + 1 };
        proof {
            assert(op_views(ops@.push(op)) =~= op_views(ops@).push(op@));
        }
        ops.push(op);
    }
    Ok(ops)
}

/// The graph after writing every added mapping, first to last.
pub open spec fn spec_apply_adds(
    graph: Seq<(AssetId, AssetId)>,
    adds: Seq<(AssetId, AssetId)>,
    i: int,
) -> Seq<(AssetId, AssetId)>
    decreases adds.len() - i,
{
    if i < 0 || i >= adds.len() {
        graph
    } else {
        spec_apply_adds(spec_graph_insert(graph, adds[i].0, adds[i].1), adds, i + 1)
    }
}

/// The graph after dropping every removed key, first to last.
pub open spec fn spec_apply_removes(
    graph: Seq<(AssetId, AssetId)>,
    removes: Seq<AssetId>,
    i: int,
) -> Seq<(AssetId, AssetId)>
    decreases removes.len() - i,
{
    if i < 0 || i >= removes.len() {
        graph
    } else {
        spec_apply_removes(spec_graph_remove(graph, removes[i]), removes, i + 1)
    }
}

/// The first added mapping the updated graph fails to validate, if any.
pub open spec fn spec_first_invalid_add(
    pairs: Seq<PairView>,
    graph: Seq<(AssetId, AssetId)>,
    adds: Seq<(AssetId, AssetId)>,
    target: AssetId,
    i: int,
) -> Option<ValidateOutcome>
    decreases adds.len() - i,
{
    if i < 0 || i >= adds.len() {
        None
    } else {
        match spec_validate_bridge(
            pairs,
            graph,
            adds[i].0,
            adds[i].1,
            target,
            BRIDGES_INITIAL_DEPTH as int,
        ) {
            ValidateOutcome::Good(p) => spec_first_invalid_add(pairs, graph, adds, target, i + 1),
            outcome => Some(outcome),
        }
    }
}

/// Applies bridge additions and removals, then validates every added hop
/// against the registry snapshot: each added bridge must lead to a pool
/// paired with the stablecoin within the hop bound. Operator-only.
pub fn update_bridges(
    config: &Config,
    registry: &PairRegistry,
    bridges: BridgeGraph,
    add: &Option<Vec<(AssetInfo, AssetInfo)>>,
    remove: &Option<Vec<AssetInfo>>,
    sender: &String,
) -> (r: Result<BridgeGraph, Error>)
    ensures
        sender@ != config@.operator ==> r == Err::<BridgeGraph, Error>(Error::Unauthorized),
        sender@ == config@.operator ==> ({
            let adds_v = match add {
                Option::Some(v) => entry_views(v@),
                Option::None => Seq::empty(),
            };
            let removes_v = match remove {
                Option::Some(v) => asset_id_views(v@),
                Option::None => Seq::empty(),
            };
            let updated = spec_apply_removes(spec_apply_adds(bridges@, adds_v, 0), removes_v, 0);
            match spec_first_invalid_add(registry@, updated, adds_v, config@.stablecoin, 0) {
                Option::None => r matches Ok(g) && g@ == updated,
                Option::Some(outcome) => match outcome {
                    ValidateOutcome::Good(p) => true,
                    ValidateOutcome::MissingPool => r == Err::<BridgeGraph, Error>(
                        Error::InvalidBridge,
                    ),
                    ValidateOutcome::TooDeep(d) => r == Err::<BridgeGraph, Error>(
                        Error::MaxBridgeDepth(d as u64),
                    ),
                    ValidateOutcome::DeadEnd(a) => r matches Err(e) && e matches
                        Error::InvalidBridgeDestination(x) && x@ == a,
                },
            }
        }),
{
    if !(*sender == config.operator) {
        return Err(Error::Unauthorized);
    }
    let ghost g0 = bridges@;
    let ghost adds_v = match add {
        Option::Some(v) => entry_views(v@),
        Option::None => Seq::<(AssetId, AssetId)>::empty(),
    };
    let ghost removes_v = match remove {
        Option::Some(v) => asset_id_views(v@),
        Option::None => Seq::<AssetId>::empty(),
    };
    let mut graph = bridges;
    if let Some(additions) = add {
        let n = additions.len();
        let mut i: usize = 0;
        while i < n
            invariant
                i <= n,
                n == additions.len(),
                adds_v == entry_views(additions@),
                spec_apply_adds(g0, adds_v, 0) == spec_apply_adds(graph@, adds_v, i as int),
            decreases n - i,
        {
            graph.insert(&additions[i].0, &additions[i].1);
            i = i + 1;
        }
    }
    let ghost g1 = spec_apply_adds(g0, adds_v, 0);
    if let Some(removals) = remove {
        let n = removals.len();
        let mut i: usize = 0;
        while i < n
            invariant
                i <= n,
                n == removals.len(),
                removes_v == asset_id_views(removals@),
                spec_apply_removes(g1, removes_v, 0) == spec_apply_removes(
                    graph@,
                    removes_v,
                    i as int,
                ),
            decreases n - i,
        {
            graph.remove_key(&removals[i]);
            i = i + 1;
        }
    }
    let ghost g2 = spec_apply_removes(g1, removes_v, 0);
    if let Some(additions) = add {
        let n = additions.len();
        let mut i: usize = 0;
        while i < n
            invariant
                i <= n,
                n == additions.len(),
                adds_v == entry_views(additions@),
                adds_v == (match add {
                    Option::Some(v) => entry_views(v@),
                    Option::None => Seq::empty(),
                }),
                removes_v == (match remove {
                    Option::Some(v) => asset_id_views(v@),
                    Option::None => Seq::empty(),
                }),
                g2 == spec_apply_removes(spec_apply_adds(bridges@, adds_v, 0), removes_v, 0),
                g2 == graph@,
                sender@ == config@.operator,
                spec_first_invalid_add(registry@, g2, adds_v, config@.stablecoin, 0)
                    == spec_first_invalid_add(registry@, g2, adds_v, config@.stablecoin, i as int),
            decreases n - i,
        {
            proof {
                assert(adds_v[i as int] == (additions@[i as int].0@, additions@[i as int].1@));
            }
            match validate_bridge(
                registry,
                &graph,
                &additions[i].0,
                &additions[i].1,
                &config.stablecoin,
                BRIDGES_INITIAL_DEPTH,
            ) {
                Ok(_) => {},
                Err(e) => {
                    return Err(e);
                },
            }
            i = i + 1;
        }
    }
    Ok(graph)
}

} // verus!
