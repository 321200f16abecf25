//! Bridge graph and its validation.
//!
//! A bridge graph maps a non-target asset to the single bridge asset its
//! balance is swapped toward. Validation checks, against a snapshot of the
//! pool registry, that following bridges from a configured asset reaches a
//! pool paired with the target asset within a bounded number of hops, and
//! rejects dead ends and over-long chains (in particular cycles) explicitly.

use vstd::prelude::*;
use crate::asset::{AssetId, AssetInfo, PairInfo, PairView};
use crate::error::Error;

verus! {

/// The hop bound validation enforces.
pub const BRIDGES_MAX_DEPTH: u64 = 2;

/// The depth a freshly started route carries.
pub const BRIDGES_INITIAL_DEPTH: u64 = 0;

/// The hard hop ceiling enforced again at execution time, one more than the
/// validation bound to cover the final swap into the target.
pub const BRIDGES_EXECUTION_MAX_DEPTH: u64 = 3;

/// A snapshot of the pool registry: every pool known to the factory at the
/// time of the query.
#[derive(Debug)]
pub struct PairRegistry {
    pub pairs: Vec<PairInfo>,
}

impl View for PairRegistry {
    type V = Seq<PairView>;

    open spec fn view(&self) -> Seq<PairView> {
        Seq::new(self.pairs.len() as nat, |i: int| self.pairs[i]@)
    }
}

/// The first pool in the snapshot joining `x` and `y`, if any.
pub open spec fn spec_find_pair(pairs: Seq<PairView>, x: AssetId, y: AssetId) -> Option<PairView>
    decreases pairs.len(),
{
    if pairs.len() == 0 {
        None
    } else if pairs[0].joins(x, y) {
        Some(pairs[0])
    } else {
        spec_find_pair(pairs.drop_first(), x, y)
    }
}

/// Whether the snapshot holds a pool joining `x` and `y`.
pub open spec fn spec_has_pair(pairs: Seq<PairView>, x: AssetId, y: AssetId) -> bool {
    spec_find_pair(pairs, x, y) is Some
}

impl PairRegistry {
    /// Looks up the pool joining `x` and `y`, in either asset order.
    pub fn find_pair(&self, x: &AssetInfo, y: &AssetInfo) -> (r: Option<PairInfo>)
        ensures
            match spec_find_pair(self@, x@, y@) {
                Some(p) => r matches Some(q) && q@ == p,
                None => r is None,
            },
    {
        let n = self.pairs.len();
        let mut i: usize = 0;
        proof {
            assert(self@.skip(0) =~= self@);
        }
        while i < n
            invariant
                i <= n,
                n == self.pairs.len(),
                spec_find_pair(self@, x@, y@) == spec_find_pair(
                    self@.skip(i as int),
                    x@,
                    y@,
                ),
            decreases n - i,
        {
            if self.pairs[i].joins(x, y) {
                proof {
                    assert(self@.skip(i as int)[0] == self@[i as int]);
                }
                return Some(self.pairs[i].duplicate());
            }
            proof {
                assert(self@.skip(i as int).drop_first() =~= self@.skip(i + 1));
                assert(self@.skip(i as int)[0] == self@[i as int]);
            }
            i = i + 1;
        }
        proof {
            assert(self@.skip(n as int) =~= Seq::<PairView>::empty());
        }
        None
    }

    /// Whether the snapshot holds a pool joining `x` and `y`.
    pub fn has_pair(&self, x: &AssetInfo, y: &AssetInfo) -> (r: bool)
        ensures
            r == spec_has_pair(self@, x@, y@),
    {
        match self.find_pair(x, y) {
            Some(_) => true,
            None => false,
        }
    }
}

/// The configured single-hop mapping from an asset to its bridge asset.
#[derive(Debug)]
pub struct BridgeGraph {
    pub entries: Vec<(AssetInfo, AssetInfo)>,
}

/// The ghost identities of a list of graph entries, in order.
pub open spec fn entry_views(s: Seq<(AssetInfo, AssetInfo)>) -> Seq<(AssetId, AssetId)> {
    Seq::new(s.len(), |i: int| (s[i].0@, s[i].1@))
}

impl View for BridgeGraph {
    type V = Seq<(AssetId, AssetId)>;

    open spec fn view(&self) -> Seq<(AssetId, AssetId)> {
        entry_views(self.entries@)
    }
}

/// The bridge configured for `a`: the value of the first entry keyed by it.
pub open spec fn spec_bridge_of(graph: Seq<(AssetId, AssetId)>, a: AssetId) -> Option<AssetId>
    decreases graph.len(),
{
    if graph.len() == 0 {
        None
    } else if graph[0].0 == a {
        Some(graph[0].1)
    } else {
        spec_bridge_of(graph.drop_first(), a)
    }
}

impl BridgeGraph {
    /// An empty mapping.
    pub fn new() -> (r: BridgeGraph)
        ensures
            r@ =~= Seq::<(AssetId, AssetId)>::empty(),
    {
        BridgeGraph { entries: Vec::new() }
    }

    /// The bridge configured for `a`, if any.
    pub fn bridge_of(&self, a: &AssetInfo) -> (r: Option<AssetInfo>)
        ensures
            match spec_bridge_of(self@, a@) {
                Some(b) => r matches Some(x) && x@ == b,
                None => r is None,
            },
    {
        let n = self.entries.len();
        let mut i: usize = 0;
        proof {
            assert(self@.skip(0) =~= self@);
        }
        while i < n
            invariant
                i <= n,
                n == self.entries.len(),
                spec_bridge_of(self@, a@) == spec_bridge_of(self@.skip(i as int), a@),
            decreases n - i,
        {
            proof {
                assert(self@.skip(i as int)[0] == self@[i as int]);
                assert(self@.skip(i as int).drop_first() =~= self@.skip(i + 1));
            }
            if self.entries[i].0.equals(a) {
                return Some(self.entries[i].1.duplicate());
            }
            i = i + 1;
        }
        proof {
            assert(self@.skip(n as int) =~= Seq::<(AssetId, AssetId)>::empty());
        }
        None
    }
}

/// The graph with every entry keyed by `k` taken out, order kept.
pub open spec fn spec_graph_remove(graph: Seq<(AssetId, AssetId)>, k: AssetId) -> Seq<
    (AssetId, AssetId),
>
    decreases graph.len(),
{
    if graph.len() == 0 {
        Seq::empty()
    } else if graph[0].0 == k {
        spec_graph_remove(graph.drop_first(), k)
    } else {
        seq![graph[0]] + spec_graph_remove(graph.drop_first(), k)
    }
}

/// The graph with `k` now mapped to `v` and nothing else: any old entry for
/// `k` is taken out and the new one appended.
pub open spec fn spec_graph_insert(graph: Seq<(AssetId, AssetId)>, k: AssetId, v: AssetId) -> Seq<
    (AssetId, AssetId),
> {
    spec_graph_remove(graph, k).push((k, v))
}

impl BridgeGraph {
    /// Drops the mapping for `k`, if one is configured.
    pub fn remove_key(&mut self, k: &AssetInfo)
        ensures
            final(self)@ == spec_graph_remove(old(self)@, k@),
    {
        let ghost g0 = self@;
        let mut out: Vec<(AssetInfo, AssetInfo)> = Vec::new();
        let n = self.entries.len();
        let mut i: usize = 0;
        proof {
            assert(entry_views(out@) =~= Seq::<(AssetId, AssetId)>::empty());
            assert(g0.skip(0) =~= g0);
        }
        while i < n
            invariant
                i <= n,
                n == self.entries.len(),
                g0 == self@,
                spec_graph_remove(g0, k@) == entry_views(out@) + spec_graph_remove(
                    g0.skip(i as int),
                    k@,
                ),
            decreases n - i,
        {
            proof {
                assert(g0.skip(i as int)[0] == g0[i as int]);
                assert(g0.skip(i as int).drop_first() =~= g0.skip(i + 1));
            }
            if !self.entries[i].0.equals(k) {
                let e = (self.entries[i].0.duplicate(), self.entries[i].1.duplicate());
                proof {
                    assert(entry_views(out@.push(e)) =~= entry_views(out@).push(
                        (e.0@, e.1@),
                    ));
                    assert(entry_views(out@).push((e.0@, e.1@)) + spec_graph_remove(
                        g0.skip(i + 1),
                        k@,
                    ) =~= entry_views(out@) + (seq![g0[i as int]] + spec_graph_remove(
                        g0.skip(i + 1),
                        k@,
                    )));
                }
                out.push(e);
            }
            i = i + 1;
        }
        proof {
            assert(g0.skip(n as int) =~= Seq::<(AssetId, AssetId)>::empty());
            assert(entry_views(out@) + Seq::<(AssetId, AssetId)>::empty() =~= entry_views(out@));
        }
        self.entries = out;
    }

    /// Maps `k` to `v`, replacing any mapping `k` had.
    pub fn insert(&mut self, k: &AssetInfo, v: &AssetInfo)
        ensures
            final(self)@ == spec_graph_insert(old(self)@, k@, v@),
    {
        self.remove_key(k);
        let e = (k.duplicate(), v.duplicate());
        proof {
            assert(entry_views(self.entries@.push(e)) =~= entry_views(self.entries@).push(
                (e.0@, e.1@),
            ));
        }
        self.entries.push(e);
    }
}

/// What validation concludes for a first hop `from -> bridge` at a given
/// depth, mirroring each failure the walk can hit.
pub enum ValidateOutcome {
    /// The route is good; carries the pool of the first hop.
    Good(PairView),
    /// No pool joins `from` and `bridge`.
    MissingPool,
    /// The hop bound was hit before a target-paired asset; carries the depth.
    TooDeep(int),
    /// The chain dead-ends: an asset has neither a target pool nor a further
    /// bridge. Carries the asset the failing hop started from.
    DeadEnd(AssetId),
}

/// Validates the hop `from -> bridge` toward `target` at `depth`: the pool
/// for the hop must exist, and `bridge` must either pair with the target
/// directly or lead on, within the depth bound, through its own bridge.
pub open spec fn spec_validate_bridge(
    pairs: Seq<PairView>,
    graph: Seq<(AssetId, AssetId)>,
    from: AssetId,
    bridge: AssetId,
    target: AssetId,
    depth: int,
) -> ValidateOutcome
    decreases (if depth < BRIDGES_MAX_DEPTH { BRIDGES_MAX_DEPTH - depth } else { 0 }),
{
    match spec_find_pair(pairs, from, bridge) {
        Option::None => ValidateOutcome::MissingPool,
        Option::Some(hop_pool) => {
            if spec_has_pair(pairs, bridge, target) {
                ValidateOutcome::Good(hop_pool)
            } else if depth >= BRIDGES_MAX_DEPTH {
                ValidateOutcome::TooDeep(depth)
            } else {
                match spec_bridge_of(graph, bridge) {
                    Option::None => ValidateOutcome::DeadEnd(from),
                    Option::Some(next) => match spec_validate_bridge(
                        pairs,
                        graph,
                        bridge,
                        next,
                        target,
                        depth + 1,
                    ) {
                        ValidateOutcome::Good(_) => ValidateOutcome::Good(hop_pool),
                        ValidateOutcome::MissingPool => ValidateOutcome::MissingPool,
                        ValidateOutcome::TooDeep(d) => ValidateOutcome::TooDeep(d),
                        ValidateOutcome::DeadEnd(a) => ValidateOutcome::DeadEnd(a),
                    },
                }
            }
        },
    }
}

/// Validates a configured bridge hop against the registry snapshot.
/// Returns the pool of the validated first hop, or the failure
/// `spec_validate_bridge` names.
pub fn validate_bridge(
    registry: &PairRegistry,
    bridges: &BridgeGraph,
    from: &AssetInfo,
    bridge: &AssetInfo,
    target: &AssetInfo,
    depth: u64,
) -> (r: Result<PairInfo, Error>)
    ensures
        match spec_validate_bridge(registry@, bridges@, from@, bridge@, target@, depth as int) {
            ValidateOutcome::Good(p) => r matches Ok(q) && q@ == p,
            ValidateOutcome::MissingPool => r == Err::<PairInfo, Error>(Error::InvalidBridge),
            ValidateOutcome::TooDeep(d) => r == Err::<PairInfo, Error>(
                Error::MaxBridgeDepth(d as u64),
            ),
            ValidateOutcome::DeadEnd(a) => r matches Err(e) && e matches
                Error::InvalidBridgeDestination(x) && x@ == a,
        },
    decreases (if depth < BRIDGES_MAX_DEPTH { BRIDGES_MAX_DEPTH - depth } else { 0int }),
{
    let hop_pool = match registry.find_pair(from, bridge) {
        Some(p) => p,
        None => {
            return Err(Error::InvalidBridge);
        },
    };
    if registry.has_pair(bridge, target) {
        return Ok(hop_pool);
    }
    if depth >= BRIDGES_MAX_DEPTH {
        return Err(Error::MaxBridgeDepth(depth));
    }
    let next = match bridges.bridge_of(bridge) {
        Some(b) => b,
        None => {
            return Err(Error::InvalidBridgeDestination(from.duplicate()));
        },
    };
    match validate_bridge(registry, bridges, bridge, &next, target, depth + 1) {
        Ok(_) => Ok(hop_pool),
        Err(e) => Err(e),
    }
}

/// A token can reach the target within `fuel` further hops: it pairs with
/// the target directly, or its configured bridge hop exists and reaches the
/// target with one hop less.
pub open spec fn spec_reaches_target(
    pairs: Seq<PairView>,
    graph: Seq<(AssetId, AssetId)>,
    token: AssetId,
    target: AssetId,
    fuel: nat,
) -> bool
    decreases fuel,
{
    spec_has_pair(pairs, token, target) || (fuel > 0 && match spec_bridge_of(graph, token) {
        Option::Some(next) => spec_has_pair(pairs, token, next) && spec_reaches_target(
            pairs,
            graph,
            next,
            target,
            (fuel - 1) as nat,
        ),
        Option::None => false,
    })
}

/// Depth bound: validation only ever accepts a hop whose pool exists and
/// whose bridge asset reaches a target-paired pool within the remaining hop
/// budget. Contrapositively, on a graph whose chain from `bridge` is longer
/// than the budget -- a cycle in particular -- validation fails (with
/// `MaxBridgeDepth` or `InvalidBridgeDestination` when the first hop's pool
/// exists), and it always terminates.
pub proof fn lemma_validate_bridge_depth_bound(
    pairs: Seq<PairView>,
    graph: Seq<(AssetId, AssetId)>,
    from: AssetId,
    bridge: AssetId,
    target: AssetId,
    depth: int,
)
    requires
        0 <= depth <= BRIDGES_MAX_DEPTH,
        spec_validate_bridge(pairs, graph, from, bridge, target, depth) is Good,
    ensures
        spec_has_pair(pairs, from, bridge),
        spec_reaches_target(pairs, graph, bridge, target, (BRIDGES_MAX_DEPTH - depth) as nat),
    decreases BRIDGES_MAX_DEPTH - depth,
{
    if !spec_has_pair(pairs, bridge, target) {
        let next = spec_bridge_of(graph, bridge).unwrap();
        lemma_validate_bridge_depth_bound(pairs, graph, bridge, next, target, depth + 1);
    }
}

} // verus!
