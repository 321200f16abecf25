//! Farm configuration: the record every farm operation is parameterized by,
//! and its owner-gated update.

use vstd::prelude::*;
use crate::error::Error;

verus! {

/// The farm's configuration: administrative addresses, the contracts it
/// works through, and the performance fee in basis points.
#[derive(Debug)]
pub struct Config {
    pub owner: String,
    pub staking_contract: String,
    pub compound_proxy: String,
    pub controller: String,
    pub fee_bps: u64,
    pub fee_collector: String,
    pub liquidity_token: String,
    pub base_reward_token: String,
}

/// Ghost image of the farm configuration.
pub struct ConfigView {
    pub owner: Seq<char>,
    pub staking_contract: Seq<char>,
    pub compound_proxy: Seq<char>,
    pub controller: Seq<char>,
    pub fee_bps: u64,
    pub fee_collector: Seq<char>,
    pub liquidity_token: Seq<char>,
    pub base_reward_token: Seq<char>,
}

impl View for Config {
    type V = ConfigView;

    open spec fn view(&self) -> ConfigView {
        ConfigView {
            owner: self.owner@,
            staking_contract: self.staking_contract@,
            compound_proxy: self.compound_proxy@,
            controller: self.controller@,
            fee_bps: self.fee_bps,
            fee_collector: self.fee_collector@,
            liquidity_token: self.liquidity_token@,
            base_reward_token: self.base_reward_token@,
        }
    }
}

/// What an accepted update leaves in place: each optional field replaced
/// where given, kept where not.
pub open spec fn spec_updated_config(
    cfg: ConfigView,
    compound_proxy: Option<Seq<char>>,
    controller: Option<Seq<char>>,
    fee_bps: Option<u64>,
    fee_collector: Option<Seq<char>>,
) -> ConfigView {
    ConfigView {
        compound_proxy: match compound_proxy {
            Option::Some(v) => v,
            Option::None => cfg.compound_proxy,
        },
        controller: match controller {
            Option::Some(v) => v,
            Option::None => cfg.controller,
        },
        fee_bps: match fee_bps {
            Option::Some(v) => v,
            Option::None => cfg.fee_bps,
        },
        fee_collector: match fee_collector {
            Option::Some(v) => v,
            Option::None => cfg.fee_collector,
        },
        ..cfg
    }
}

/// The ghost image of an optional owned string.
pub open spec fn opt_view(s: Option<String>) -> Option<Seq<char>> {
    match s {
        Option::Some(v) => Some(v@),
        Option::None => None,
    }
}

/// Replaces the updatable configuration fields. Only the owner may update,
/// and a new fee must be a percentage (at most ten thousand basis points).
pub fn update_config(
    config: &Config,
    compound_proxy: Option<String>,
    controller: Option<String>,
    fee_bps: Option<u64>,
    fee_collector: Option<String>,
    sender: &String,
) -> (r: Result<Config, Error>)
    ensures
        sender@ != config@.owner ==> r == Err::<Config, Error>(Error::Unauthorized),
        sender@ == config@.owner ==> match fee_bps {
            Some(f) => if f > 10000 {
                r == Err::<Config, Error>(Error::InvalidPercentage)
            } else {
                r matches Ok(c) && c@ == spec_updated_config(
                    config@,
                    opt_view(compound_proxy),
                    opt_view(controller),
                    fee_bps,
                    opt_view(fee_collector),
                )
            },
            None => r matches Ok(c) && c@ == spec_updated_config(
                config@,
                opt_view(compound_proxy),
                opt_view(controller),
                fee_bps,
                opt_view(fee_collector),
            ),
        },
{
    if !(*sender == config.owner) {
        return Err(Error::Unauthorized);
    }
    let new_fee: u64 = match fee_bps {
        Some(f) => {
            match crate::compound::validate_percentage(f) {
                Ok(v) => v,
                Err(e) => {
                    return Err(e);
                },
            }
        },
        None => config.fee_bps,
    };
    let new_compound_proxy = match compound_proxy {
        Some(v) => v,
        None => config.compound_proxy.clone(),
    };
    let new_controller = match controller {
        Some(v) => v,
        None => config.controller.clone(),
    };
    let new_fee_collector = match fee_collector {
        Some(v) => v,
        None => config.fee_collector.clone(),
    };
    Ok(
        Config {
            owner: config.owner.clone(),
            staking_contract: config.staking_contract.clone(),
            compound_proxy: new_compound_proxy,
            controller: new_controller,
            fee_bps: new_fee,
            fee_collector: new_fee_collector,
            liquidity_token: config.liquidity_token.clone(),
            base_reward_token: config.base_reward_token.clone(),
        },
    )
}

} // verus!
