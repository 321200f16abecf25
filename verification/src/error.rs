//! Failure kinds. Every failure is deterministic and synchronous: the host
//! rejects the whole transaction when any of these is returned.

use vstd::prelude::*;
use crate::asset::AssetInfo;

verus! {

#[derive(Clone, Debug, PartialEq, Eq)]
pub enum Error {
    /// The caller is not the permitted actor for a self-only or
    /// operator-only operation.
    Unauthorized,
    /// A requested swap hop has no registered pool.
    InvalidBridge,
    /// Following the bridge graph from the named asset dead-ends before
    /// reaching a pool paired with the target asset.
    InvalidBridgeDestination(AssetInfo),
    /// A bridge route exceeded the allowed number of hops; carries the depth
    /// at which the route was cut off.
    MaxBridgeDepth(u64),
    /// A wide-integer result does not fit the native 128-bit width.
    Overflow,
    /// The settled balance fell short of the required minimum.
    AssertionFailed { minimum_receive: u128, actual: u128 },
    /// A rate lies outside its allowed range of basis points.
    InvalidPercentage,
}

} // verus!
