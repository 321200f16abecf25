//! The deferred operations the library emits.
//!
//! A computation returns an ordered list of these; the host executes them one
//! at a time, later, within the same atomic transaction. Each is opaque to
//! the core beyond its parameters: the host alone moves value.

use vstd::prelude::*;
use crate::asset::{Asset, AssetId, AssetInfo, AssetView};

verus! {

/// An operation deferred to the host, in emission order.
#[derive(Clone, Debug, PartialEq, Eq)]
pub enum Operation {
    /// Swap `offer_asset` on the given pool. `belief_price_is_max` set means
    /// the declared belief price is the maximum representable one, i.e. no
    /// price-limit protection; slippage is then bounded by the spread alone.
    Swap {
        pair_contract: String,
        offer_asset: Asset,
        belief_price_is_max: bool,
        max_spread_bps: Option<u64>,
        to: Option<String>,
    },
    /// Self-addressed continuation: re-read the balances of these bridge
    /// assets and route them onward, carrying the hop counter.
    SwapBridgeAssets { assets: Vec<AssetInfo>, depth: u64 },
    /// Self-addressed continuation: split the settled target-asset balance
    /// across the configured recipients.
    DistributeFees { minimum_receive: Option<u128> },
    /// Pay out an amount of an asset to a recipient.
    Transfer { recipient: String, asset: Asset },
    /// Self-addressed callback: rebalance the two pool assets held by the
    /// contract toward the pool ratio.
    OptimalSwap,
    /// Self-addressed callback: deposit both held pool assets as liquidity
    /// for `receiver`.
    ProvideLiquidity { receiver: String },
    /// Allow `spender` to draw `amount` of a token the contract holds.
    IncreaseAllowance { token: String, spender: String, amount: u128 },
    /// Deposit the two assets into the pool, attaching the listed native
    /// funds.
    SupplyLiquidity {
        pair_contract: String,
        asset_a: Asset,
        asset_b: Asset,
        slippage_tolerance_bps: u64,
        receiver: String,
        funds: Vec<Asset>,
    },
}

/// Ghost image of an operation.
pub enum OpView {
    Swap {
        pair_contract: Seq<char>,
        offer_asset: AssetView,
        belief_price_is_max: bool,
        max_spread_bps: Option<u64>,
        to: Option<Seq<char>>,
    },
    SwapBridgeAssets { assets: Seq<AssetId>, depth: u64 },
    DistributeFees { minimum_receive: Option<u128> },
    Transfer { recipient: Seq<char>, asset: AssetView },
    OptimalSwap,
    ProvideLiquidity { receiver: Seq<char> },
    IncreaseAllowance { token: Seq<char>, spender: Seq<char>, amount: u128 },
    SupplyLiquidity {
        pair_contract: Seq<char>,
        asset_a: AssetView,
        asset_b: AssetView,
        slippage_tolerance_bps: u64,
        receiver: Seq<char>,
        funds: Seq<AssetView>,
    },
}

impl View for Operation {
    type V = OpView;

    open spec fn view(&self) -> OpView {
        match self {
            Operation::Swap { pair_contract, offer_asset, belief_price_is_max, max_spread_bps, to } => OpView::Swap {
                pair_contract: pair_contract@,
                offer_asset: offer_asset@,
                belief_price_is_max: *belief_price_is_max,
                max_spread_bps: *max_spread_bps,
                to: match to {
                    Option::Some(s) => Some(s@),
                    Option::None => None,
                },
            },
            Operation::SwapBridgeAssets { assets, depth } => OpView::SwapBridgeAssets {
                assets: Seq::new(assets.len() as nat, |i: int| assets[i]@),
                depth: *depth,
            },
            Operation::DistributeFees { minimum_receive } => OpView::DistributeFees {
                minimum_receive: *minimum_receive,
            },
            Operation::Transfer { recipient, asset } => OpView::Transfer {
                recipient: recipient@,
                asset: asset@,
            },
            Operation::OptimalSwap => OpView::OptimalSwap,
            Operation::ProvideLiquidity { receiver } => OpView::ProvideLiquidity {
                receiver: receiver@,
            },
            Operation::IncreaseAllowance { token, spender, amount } => OpView::IncreaseAllowance {
                token: token@,
                spender: spender@,
                amount: *amount,
            },
            Operation::SupplyLiquidity {
                pair_contract,
                asset_a,
                asset_b,
                slippage_tolerance_bps,
                receiver,
                funds,
            } => OpView::SupplyLiquidity {
                pair_contract: pair_contract@,
                asset_a: asset_a@,
                asset_b: asset_b@,
                slippage_tolerance_bps: *slippage_tolerance_bps,
                receiver: receiver@,
                funds: Seq::new(funds.len() as nat, |i: int| funds[i]@),
            },
        }
    }
}

/// The ghost images of a list of operations, in order.
pub open spec fn op_views(ops: Seq<Operation>) -> Seq<OpView> {
    Seq::new(ops.len(), |i: int| ops[i]@)
}

} // verus!
