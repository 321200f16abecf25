use fee_router::asset::{Asset, AssetInfo, AssetWithLimit, PairInfo, PairType};
use fee_router::bridge::{validate_bridge, BridgeGraph, PairRegistry};
use fee_router::collector::{
    collect, distribute_fees, swap_bridge_assets, update_bridges, Balances, Config,
};
use fee_router::error::Error;
use fee_router::ops::Operation;

fn native(denom: &str) -> AssetInfo {
    AssetInfo::NativeToken { denom: denom.to_string() }
}

fn token(addr: &str) -> AssetInfo {
    AssetInfo::Token { contract_addr: addr.to_string() }
}

fn pair(a: AssetInfo, b: AssetInfo, contract: &str, pair_type: PairType) -> PairInfo {
    PairInfo {
        asset_a: a,
        asset_b: b,
        contract_addr: contract.to_string(),
        liquidity_token: format!("liquidity-{}", contract),
        pair_type,
    }
}

fn test_config() -> Config {
    Config {
        owner: "user_1".to_string(),
        operator: "operator_1".to_string(),
        factory_contract: "factory_1".to_string(),
        stablecoin: native("ibc/stablecoin"),
        target_list: vec![("user_2".to_string(), 2), ("user_3".to_string(), 3)],
    }
}

fn test_registry() -> PairRegistry {
    PairRegistry {
        pairs: vec![
            pair(token("token_1"), token("token_2"), "token1token2", PairType::Xyk),
            pair(token("token_2"), native("ibc/stablecoin"), "token2ibc", PairType::Stable),
        ],
    }
}

fn swap_op(pair_contract: &str, offer: AssetInfo, amount: u128) -> Operation {
    Operation::Swap {
        pair_contract: pair_contract.to_string(),
        offer_asset: Asset { info: offer, amount },
        belief_price_is_max: true,
        max_spread_bps: Some(5000),
        to: None,
    }
}

#[test]
fn test() {
    let config = test_config();
    let registry = test_registry();
    let contract = "cosmos2contract".to_string();
    let operator = "operator_1".to_string();
    let stranger = "user_1".to_string();

    // configuration holds what it was created from
    assert_eq!(config.owner, "user_1");
    assert_eq!(config.operator, "operator_1");
    assert_eq!(config.factory_contract, "factory_1");
    assert_eq!(config.stablecoin, native("ibc/stablecoin"));
    assert_eq!(
        config.target_list,
        vec![("user_2".to_string(), 2), ("user_3".to_string(), 3)]
    );

    // bridges: only the operator may update
    let add = Some(vec![(token("token_1"), token("token_2"))]);
    let err = update_bridges(&config, &registry, BridgeGraph::new(), &add, &None, &stranger);
    assert_eq!(err.unwrap_err(), Error::Unauthorized);

    let bridges =
        update_bridges(&config, &registry, BridgeGraph::new(), &add, &None, &operator).unwrap();
    assert_eq!(bridges.bridge_of(&token("token_1")), Some(token("token_2")));

    // removing the entry empties the graph again
    let cleared = update_bridges(
        &config,
        &registry,
        update_bridges(&config, &registry, BridgeGraph::new(), &add, &None, &operator).unwrap(),
        &None,
        &Some(vec![token("token_1")]),
        &operator,
    )
    .unwrap();
    assert_eq!(cleared.bridge_of(&token("token_1")), None);

    // collect: only the operator may trigger it
    let wanted = vec![AssetWithLimit { info: token("token_1"), limit: None }];
    let empty_balances = Balances { entries: vec![] };
    let err = collect(&config, &registry, &bridges, &empty_balances, &wanted, None, &stranger);
    assert_eq!(err.unwrap_err(), Error::Unauthorized);

    // with no balance, only the distribution step is queued
    let ops =
        collect(&config, &registry, &bridges, &empty_balances, &wanted, None, &operator).unwrap();
    assert_eq!(ops, vec![Operation::DistributeFees { minimum_receive: None }]);

    // with a balance, the swap, the routing continuation and the
    // distribution are queued in order
    let balances = Balances { entries: vec![(token("token_1"), 1_000_000)] };
    let ops = collect(&config, &registry, &bridges, &balances, &wanted, None, &operator).unwrap();
    assert_eq!(
        ops,
        vec![
            swap_op("token1token2", token("token_1"), 1_000_000),
            Operation::SwapBridgeAssets { assets: vec![token("token_2")], depth: 0 },
            Operation::DistributeFees { minimum_receive: None },
        ]
    );

    // a capped asset with a direct stablecoin pool swaps directly
    let balances = Balances {
        entries: vec![(token("token_1"), 1_000_000), (token("token_2"), 2_000_000)],
    };
    let wanted = vec![AssetWithLimit { info: token("token_2"), limit: Some(1_500_000) }];
    let ops = collect(&config, &registry, &bridges, &balances, &wanted, None, &operator).unwrap();
    assert_eq!(
        ops,
        vec![
            swap_op("token2ibc", token("token_2"), 1_500_000),
            Operation::DistributeFees { minimum_receive: None },
        ]
    );

    // distribution: only the contract itself; a short balance trips the
    // minimum-receive guard; otherwise the balance splits 2:3
    let err = distribute_fees(&config, 1_000_000, Some(2_000_000), &stranger, &contract);
    assert_eq!(err.unwrap_err(), Error::Unauthorized);

    let err = distribute_fees(&config, 1_000_000, Some(2_000_000), &contract, &contract);
    assert_eq!(
        err.unwrap_err(),
        Error::AssertionFailed { minimum_receive: 2_000_000, actual: 1_000_000 }
    );

    let ops = distribute_fees(&config, 1_000_000, None, &contract, &contract).unwrap();
    assert_eq!(
        ops,
        vec![
            Operation::Transfer {
                recipient: "user_2".to_string(),
                asset: Asset { info: native("ibc/stablecoin"), amount: 400_000 },
            },
            Operation::Transfer {
                recipient: "user_3".to_string(),
                asset: Asset { info: native("ibc/stablecoin"), amount: 600_000 },
            },
        ]
    );
}

#[test]
fn bridge_dead_end_is_rejected() {
    // a configured bridge with no bridge-to-stablecoin pool and no further
    // mapping dead-ends
    let registry = PairRegistry {
        pairs: vec![pair(token("token_1"), token("token_2"), "token1token2", PairType::Xyk)],
    };
    let bridges = BridgeGraph::new();
    let r = validate_bridge(
        &registry,
        &bridges,
        &token("token_1"),
        &token("token_2"),
        &native("ibc/stablecoin"),
        0,
    );
    assert_eq!(r.unwrap_err(), Error::InvalidBridgeDestination(token("token_1")));
}

#[test]
fn bridge_depth_bound_is_enforced() {
    let registry = PairRegistry {
        pairs: vec![pair(token("token_1"), token("token_2"), "token1token2", PairType::Xyk)],
    };
    let bridges = BridgeGraph::new();
    let r = validate_bridge(
        &registry,
        &bridges,
        &token("token_1"),
        &token("token_2"),
        &native("ibc/stablecoin"),
        2,
    );
    assert_eq!(r.unwrap_err(), Error::MaxBridgeDepth(2));
}

#[test]
fn bridge_cycle_is_cut_off() {
    // token_1 -> token_2 -> token_1 -> ... never reaches the stablecoin;
    // validation fails instead of looping
    let registry = PairRegistry {
        pairs: vec![pair(token("token_1"), token("token_2"), "token1token2", PairType::Xyk)],
    };
    let mut bridges = BridgeGraph::new();
    bridges.insert(&token("token_1"), &token("token_2"));
    bridges.insert(&token("token_2"), &token("token_1"));
    let r = validate_bridge(
        &registry,
        &bridges,
        &token("token_1"),
        &token("token_2"),
        &native("ibc/stablecoin"),
        0,
    );
    assert_eq!(r.unwrap_err(), Error::MaxBridgeDepth(2));
}

#[test]
fn missing_first_hop_pool_is_rejected() {
    let registry = PairRegistry { pairs: vec![] };
    let bridges = BridgeGraph::new();
    let r = validate_bridge(
        &registry,
        &bridges,
        &token("token_1"),
        &token("token_2"),
        &native("ibc/stablecoin"),
        0,
    );
    assert_eq!(r.unwrap_err(), Error::InvalidBridge);
}

#[test]
fn validated_hop_returns_its_pool() {
    let registry = test_registry();
    let mut bridges = BridgeGraph::new();
    bridges.insert(&token("token_1"), &token("token_2"));
    let p = validate_bridge(
        &registry,
        &bridges,
        &token("token_1"),
        &token("token_2"),
        &native("ibc/stablecoin"),
        0,
    )
    .unwrap();
    assert_eq!(p.contract_addr, "token1token2");
}

#[test]
fn routing_depth_ceiling() {
    let config = test_config();
    let registry = test_registry();
    let bridges = BridgeGraph::new();
    let balances = Balances { entries: vec![] };
    let contract = "cosmos2contract".to_string();
    let r = swap_bridge_assets(
        &config,
        &registry,
        &bridges,
        &balances,
        &vec![token("token_2")],
        3,
        &contract,
        &contract,
    );
    assert_eq!(r.unwrap_err(), Error::MaxBridgeDepth(3));
}

#[test]
fn routing_swaps_bridge_balances_onward() {
    let config = test_config();
    let registry = test_registry();
    let bridges = BridgeGraph::new();
    let contract = "cosmos2contract".to_string();
    let balances = Balances { entries: vec![(token("token_2"), 2_000_000)] };
    // token_2 has no further bridge: it swaps straight into the stablecoin,
    // and no continuation is queued
    let ops = swap_bridge_assets(
        &config,
        &registry,
        &bridges,
        &balances,
        &vec![token("token_2")],
        1,
        &contract,
        &contract,
    )
    .unwrap();
    assert_eq!(ops, vec![swap_op("token2ibc", token("token_2"), 2_000_000)]);

    // a stranger cannot trigger the self-addressed continuation
    let r = swap_bridge_assets(
        &config,
        &registry,
        &bridges,
        &balances,
        &vec![token("token_2")],
        1,
        &"user_1".to_string(),
        &contract,
    );
    assert_eq!(r.unwrap_err(), Error::Unauthorized);
}

#[test]
fn routing_chains_through_bridges() {
    let config = test_config();
    let registry = test_registry();
    let mut bridges = BridgeGraph::new();
    bridges.insert(&token("token_1"), &token("token_2"));
    let contract = "cosmos2contract".to_string();
    let balances = Balances { entries: vec![(token("token_1"), 700)] };
    let ops = swap_bridge_assets(
        &config,
        &registry,
        &bridges,
        &balances,
        &vec![token("token_1")],
        1,
        &contract,
        &contract,
    )
    .unwrap();
    assert_eq!(
        ops,
        vec![
            swap_op("token1token2", token("token_1"), 700),
            Operation::SwapBridgeAssets { assets: vec![token("token_2")], depth: 2 },
        ]
    );
}

#[test]
fn distribute_leaves_truncation_remainder() {
    // 7 shared 2:3 gives floor(14/5) = 2 and floor(21/5) = 4; one unit
    // stays with the contract
    let config = test_config();
    let contract = "cosmos2contract".to_string();
    let ops = distribute_fees(&config, 7, None, &contract, &contract).unwrap();
    let amounts: Vec<u128> = ops
        .iter()
        .map(|op| match op {
            Operation::Transfer { asset, .. } => asset.amount,
            _ => panic!("expected transfers only"),
        })
        .collect();
    assert_eq!(amounts, vec![2, 4]);
    assert!(amounts.iter().sum::<u128>() <= 7);
    assert!(7 - amounts.iter().sum::<u128>() < 2);
}
