use fee_router::asset::{Asset, AssetInfo, PairInfo, PairType};
use fee_router::compound::{
    compound, make_config, optimal_swap, provide_liquidity, validate_commission,
    validate_percentage, Config,
};
use fee_router::error::Error;
use fee_router::farm;
use fee_router::generator::{LockedIncome, PoolInfo, RewardInfo, UserInfo};
use fee_router::ops::Operation;

fn native(denom: &str) -> AssetInfo {
    AssetInfo::NativeToken { denom: denom.to_string() }
}

fn token(addr: &str) -> AssetInfo {
    AssetInfo::Token { contract_addr: addr.to_string() }
}

fn xyk_config() -> Config {
    Config {
        pair_info: PairInfo {
            asset_a: native("uluna"),
            asset_b: token("astro"),
            contract_addr: "pair0001".to_string(),
            liquidity_token: "lp0001".to_string(),
            pair_type: PairType::Xyk,
        },
        commission_bps: 30,
        slippage_tolerance_bps: 100,
    }
}

#[test]
fn commission_and_percentage_bounds() {
    assert_eq!(validate_commission(0), Ok(0));
    assert_eq!(validate_commission(9_999), Ok(9_999));
    assert_eq!(validate_commission(10_000), Err(Error::InvalidPercentage));
    assert_eq!(validate_percentage(10_000), Ok(10_000));
    assert_eq!(validate_percentage(10_001), Err(Error::InvalidPercentage));
}

#[test]
fn config_is_validated_on_build() {
    let good = make_config(xyk_config().pair_info, 30, 100).unwrap();
    assert_eq!(good.commission_bps, 30);
    assert_eq!(good.slippage_tolerance_bps, 100);
    let bad = make_config(xyk_config().pair_info, 10_000, 100);
    assert_eq!(bad.unwrap_err(), Error::InvalidPercentage);
}

#[test]
fn compound_swaps_proxied_rewards_then_queues_callbacks() {
    let proxies = vec![(token("reward"), "rewardpair".to_string())];
    let rewards = vec![
        Asset { info: token("reward"), amount: 1_000 },
        Asset { info: native("uluna"), amount: 500 },
    ];
    let receiver = "staker".to_string();
    let ops = compound(&proxies, &rewards, &receiver);
    assert_eq!(
        ops,
        vec![
            Operation::Swap {
                pair_contract: "rewardpair".to_string(),
                offer_asset: Asset { info: token("reward"), amount: 1_000 },
                belief_price_is_max: false,
                max_spread_bps: Some(5000),
                to: None,
            },
            Operation::OptimalSwap,
            Operation::ProvideLiquidity { receiver: "staker".to_string() },
        ]
    );
}

#[test]
fn optimal_swap_skips_stable_pools() {
    let mut config = xyk_config();
    config.pair_info.pair_type = PairType::Stable;
    let contract = "proxy".to_string();
    let ops = optimal_swap(&config, 50, 50, 400, 100, &contract, &contract).unwrap();
    assert_eq!(ops, Vec::<Operation>::new());
}

#[test]
fn optimal_swap_emits_the_rebalancing_swap() {
    let mut config = xyk_config();
    config.commission_bps = 0;
    let contract = "proxy".to_string();
    let ops = optimal_swap(&config, 50, 50, 400, 100, &contract, &contract).unwrap();
    assert_eq!(
        ops,
        vec![Operation::Swap {
            pair_contract: "pair0001".to_string(),
            offer_asset: Asset { info: token("astro"), amount: 15 },
            belief_price_is_max: false,
            max_spread_bps: None,
            to: None,
        }]
    );

    // balanced holdings need nothing
    let ops = optimal_swap(&config, 100, 25, 400, 100, &contract, &contract).unwrap();
    assert_eq!(ops, Vec::<Operation>::new());

    // a stranger may not trigger the callback
    let r = optimal_swap(&config, 50, 50, 400, 100, &"user".to_string(), &contract);
    assert_eq!(r.unwrap_err(), Error::Unauthorized);
}

#[test]
fn provide_liquidity_splits_allowances_and_funds() {
    let config = xyk_config();
    let contract = "proxy".to_string();
    let ops =
        provide_liquidity(&config, 300, 700, &"staker".to_string(), &contract, &contract).unwrap();
    assert_eq!(
        ops,
        vec![
            Operation::IncreaseAllowance {
                token: "astro".to_string(),
                spender: "pair0001".to_string(),
                amount: 700,
            },
            Operation::SupplyLiquidity {
                pair_contract: "pair0001".to_string(),
                asset_a: Asset { info: native("uluna"), amount: 300 },
                asset_b: Asset { info: token("astro"), amount: 700 },
                slippage_tolerance_bps: 100,
                receiver: "staker".to_string(),
                funds: vec![Asset { info: native("uluna"), amount: 300 }],
            },
        ]
    );
    let r = provide_liquidity(&config, 300, 700, &"staker".to_string(), &"user".to_string(), &contract);
    assert_eq!(r.unwrap_err(), Error::Unauthorized);
}

fn farm_config() -> farm::Config {
    farm::Config {
        owner: "owner".to_string(),
        staking_contract: "generator".to_string(),
        compound_proxy: "proxy".to_string(),
        controller: "controller".to_string(),
        fee_bps: 500,
        fee_collector: "collector".to_string(),
        liquidity_token: "lp".to_string(),
        base_reward_token: "astro".to_string(),
    }
}

#[test]
fn farm_update_config_replaces_given_fields() {
    let config = farm_config();
    let owner = "owner".to_string();
    let updated = farm::update_config(
        &config,
        Some("proxy2".to_string()),
        None,
        Some(250),
        None,
        &owner,
    )
    .unwrap();
    assert_eq!(updated.compound_proxy, "proxy2");
    assert_eq!(updated.controller, "controller");
    assert_eq!(updated.fee_bps, 250);
    assert_eq!(updated.fee_collector, "collector");
    assert_eq!(updated.owner, "owner");

    let r = farm::update_config(&config, None, None, Some(10_001), None, &owner);
    assert_eq!(r.unwrap_err(), Error::InvalidPercentage);

    let r = farm::update_config(&config, None, None, None, None, &"user".to_string());
    assert_eq!(r.unwrap_err(), Error::Unauthorized);
}

fn pool(total_bond_share: u128) -> PoolInfo {
    PoolInfo {
        total_bond_share,
        reward_indexes: vec![("astro".to_string(), 7)],
        prev_reward_user_index: 0,
        prev_reward_debt_proxy: vec![],
    }
}

#[test]
fn bond_share_math() {
    // first deposit is one-to-one
    assert_eq!(pool(0).calc_bond_share(0, 123, false), 123);
    assert_eq!(pool(5).calc_bond_share(0, 123, true), 123);
    // proportional afterwards, floored or ceiled
    assert_eq!(pool(100).calc_bond_share(200, 50, false), 25);
    assert_eq!(pool(100).calc_bond_share(200, 51, false), 25);
    assert_eq!(pool(100).calc_bond_share(200, 51, true), 26);
}

#[test]
fn bond_amount_math() {
    assert_eq!(pool(0).calc_bond_amount(1_000, 10), 0);
    assert_eq!(pool(100).calc_bond_amount(1_000, 10), 100);
    assert_eq!(pool(3).calc_bond_amount(10, 2), 6);
}

#[test]
fn user_record_starts_from_pool_indexes() {
    let user = UserInfo::create(&pool(10));
    assert_eq!(user.bond_share, 0);
    assert_eq!(user.reward_indexes, vec![("astro".to_string(), 7)]);
    assert!(user.pending_rewards.is_empty());
}

#[test]
fn vesting_realizes_linearly() {
    let locked = LockedIncome { start: 100, end: 200, amount: 1_000 };
    // before the window starts nothing moves
    let mut r = RewardInfo {
        reconciled_amount: 5,
        fee: 1,
        spastro_income: 50,
        locked_income: Some(locked),
    };
    r.realize_unlocked_amount(100);
    assert_eq!(r.spastro_income, 50);
    assert_eq!(r.locked_income, Some(locked));

    // a quarter of the window releases a quarter of the tranche and
    // re-anchors the rest
    r.realize_unlocked_amount(125);
    assert_eq!(r.spastro_income, 300);
    assert_eq!(
        r.locked_income,
        Some(LockedIncome { start: 125, end: 200, amount: 750 })
    );

    // after the end everything is realized
    r.realize_unlocked_amount(200);
    assert_eq!(r.spastro_income, 1_050);
    assert_eq!(r.locked_income, None);

    // no tranche, no change
    let mut none = RewardInfo {
        reconciled_amount: 0,
        fee: 0,
        spastro_income: 9,
        locked_income: None,
    };
    none.realize_unlocked_amount(500);
    assert_eq!(none.spastro_income, 9);
    assert_eq!(none.locked_income, None);
}
