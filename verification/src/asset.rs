//! Asset identities, amounts and pool descriptions.
//!
//! An asset is identified either by a native coin denomination or by a token
//! contract address. Amounts are unsigned 128-bit integers; all balance
//! movement is performed by the host, never here.

use vstd::prelude::*;

verus! {

/// Ghost identity of an asset: the character content of its denomination or
/// contract address, tagged by kind.
pub enum AssetId {
    Native(Seq<char>),
    Contract(Seq<char>),
}

/// An asset identity: a native coin denomination or a token contract.
#[derive(Clone, Debug, PartialEq, Eq)]
pub enum AssetInfo {
    NativeToken { denom: String },
    Token { contract_addr: String },
}

impl View for AssetInfo {
    type V = AssetId;

    open spec fn view(&self) -> AssetId {
        match self {
            AssetInfo::NativeToken { denom } => AssetId::Native(denom@),
            AssetInfo::Token { contract_addr } => AssetId::Contract(contract_addr@),
        }
    }
}

impl AssetInfo {
    /// Identity comparison: same kind and same denomination or address.
    pub fn equals(&self, other: &AssetInfo) -> (r: bool)
        ensures
            r == (self@ == other@),
    {
        match self {
            AssetInfo::NativeToken { denom: a } => match other {
                AssetInfo::NativeToken { denom: b } => *a == *b,
                AssetInfo::Token { .. } => false,
            },
            AssetInfo::Token { contract_addr: a } => match other {
                AssetInfo::NativeToken { .. } => false,
                AssetInfo::Token { contract_addr: b } => *a == *b,
            },
        }
    }

    /// A copy with the same identity.
    pub fn duplicate(&self) -> (r: AssetInfo)
        ensures
            r@ == self@,
    {
        match self {
            AssetInfo::NativeToken { denom } => AssetInfo::NativeToken { denom: denom.clone() },
            AssetInfo::Token { contract_addr } => AssetInfo::Token {
                contract_addr: contract_addr.clone(),
            },
        }
    }

    /// Whether this asset is a native coin (as opposed to a token contract).
    pub fn is_native_token(&self) -> (r: bool)
        ensures
            r == (self@ is Native),
    {
        match self {
            AssetInfo::NativeToken { .. } => true,
            AssetInfo::Token { .. } => false,
        }
    }
}

/// An asset identity together with an amount of it.
#[derive(Clone, Debug, PartialEq, Eq)]
pub struct Asset {
    pub info: AssetInfo,
    pub amount: u128,
}

/// Ghost identity and amount of an asset.
pub struct AssetView {
    pub info: AssetId,
    pub amount: u128,
}

impl View for Asset {
    type V = AssetView;

    open spec fn view(&self) -> AssetView {
        AssetView { info: self.info@, amount: self.amount }
    }
}

impl Asset {
    /// A copy with the same identity and amount.
    pub fn duplicate(&self) -> (r: Asset)
        ensures
            r@ == self@,
    {
        Asset { info: self.info.duplicate(), amount: self.amount }
    }
}

/// The pricing model of a pool. The optimal-swap solver only acts on
/// constant-product (`Xyk`) pools and skips stable-swap pools.
#[derive(Clone, Debug, PartialEq, Eq)]
pub enum PairType {
    Xyk,
    Stable,
    Custom(String),
}

/// Ghost identity of a pricing model.
pub enum PairTypeId {
    Xyk,
    Stable,
    Custom(Seq<char>),
}

impl View for PairType {
    type V = PairTypeId;

    open spec fn view(&self) -> PairTypeId {
        match self {
            PairType::Xyk => PairTypeId::Xyk,
            PairType::Stable => PairTypeId::Stable,
            PairType::Custom(name) => PairTypeId::Custom(name@),
        }
    }
}

impl PairType {
    /// Whether the pool is the stable-swap variant.
    pub fn is_stable(&self) -> (r: bool)
        ensures
            r == (self@ is Stable),
    {
        match self {
            PairType::Stable => true,
            _ => false,
        }
    }

    /// A copy with the same identity.
    pub fn duplicate(&self) -> (r: PairType)
        ensures
            r@ == self@,
    {
        match self {
            PairType::Xyk => PairType::Xyk,
            PairType::Stable => PairType::Stable,
            PairType::Custom(name) => PairType::Custom(name.clone()),
        }
    }
}

/// A registered pool: its two asset identities, its contract, its liquidity
/// token and its pricing model.
#[derive(Clone, Debug, PartialEq, Eq)]
pub struct PairInfo {
    pub asset_a: AssetInfo,
    pub asset_b: AssetInfo,
    pub contract_addr: String,
    pub liquidity_token: String,
    pub pair_type: PairType,
}

/// Ghost identity of a registered pool.
pub struct PairView {
    pub asset_a: AssetId,
    pub asset_b: AssetId,
    pub contract_addr: Seq<char>,
    pub liquidity_token: Seq<char>,
    pub pair_type: PairTypeId,
}

impl PairView {
    /// Whether this pool trades between `x` and `y`, in either order.
    pub open spec fn joins(self, x: AssetId, y: AssetId) -> bool {
        (self.asset_a == x && self.asset_b == y) || (self.asset_a == y && self.asset_b == x)
    }
}

impl View for PairInfo {
    type V = PairView;

    open spec fn view(&self) -> PairView {
        PairView {
            asset_a: self.asset_a@,
            asset_b: self.asset_b@,
            contract_addr: self.contract_addr@,
            liquidity_token: self.liquidity_token@,
            pair_type: self.pair_type@,
        }
    }
}

impl PairInfo {
    /// Whether this pool trades between `x` and `y`, in either order.
    pub fn joins(&self, x: &AssetInfo, y: &AssetInfo) -> (r: bool)
        ensures
            r == self@.joins(x@, y@),
    {
        (self.asset_a.equals(x) && self.asset_b.equals(y)) || (self.asset_a.equals(y)
            && self.asset_b.equals(x))
    }

    /// A copy describing the same pool.
    pub fn duplicate(&self) -> (r: PairInfo)
        ensures
            r@ == self@,
    {
        PairInfo {
            asset_a: self.asset_a.duplicate(),
            asset_b: self.asset_b.duplicate(),
            contract_addr: self.contract_addr.clone(),
            liquidity_token: self.liquidity_token.clone(),
            pair_type: self.pair_type.duplicate(),
        }
    }
}

/// An asset requested for collection, with an optional cap on the amount
/// taken in this round.
#[derive(Clone, Debug, PartialEq, Eq)]
pub struct AssetWithLimit {
    pub info: AssetInfo,
    pub limit: Option<u128>,
}

impl View for AssetWithLimit {
    type V = (AssetId, Option<u128>);

    open spec fn view(&self) -> (AssetId, Option<u128>) {
        (self.info@, self.limit)
    }
}

/// The ghost identities of a list of asset infos, in order.
pub open spec fn asset_id_views(s: Seq<AssetInfo>) -> Seq<AssetId> {
    Seq::new(s.len(), |i: int| s[i]@)
}

/// The ghost images of a list of capped collection requests, in order.
pub open spec fn asset_limit_views(s: Seq<AssetWithLimit>) -> Seq<(AssetId, Option<u128>)> {
    Seq::new(s.len(), |i: int| s[i]@)
}

} // verus!
