//! Functional model of the in-memory store: the abstract state, the lookup
//! functions, one transition function per store operation, and the laws the
//! store obeys (tenant isolation, alias idempotence, endpoint validity,
//! delete-cascade, the temporal predicate and the as-of rewrite).

use vstd::prelude::*;

use crate::props::{PropEntryView, props_view, lookup_prop};
use crate::store::{StoredNode, StoredEdge};
use crate::types::{
    Node, NodeView, TimeEdge, TimeEdgeView, TenantId, GraphQuery, PathView, PathNodeView,
    PathRelationshipView, spec_valid_at,
};

verus! {

broadcast use vstd::seq::group_seq_axioms;

/// The error category of a store operation's failure.
#[derive(Debug, Clone, Copy, PartialEq, Eq, Structural)]
pub enum GraphErrKind {
    ConnectionFailed,
    QueryFailed,
    NodeNotFound,
    EdgeNotFound,
    ConstraintViolation,
    TransactionFailed,
    TenantIsolationViolation,
    DatabaseError,
    Timeout,
}

/// The category of a graph error.
pub open spec fn kind_of(e: crate::errors::GraphError) -> GraphErrKind {
    match e {
        crate::errors::GraphError::ConnectionFailed(_) => GraphErrKind::ConnectionFailed,
        crate::errors::GraphError::QueryFailed(_) => GraphErrKind::QueryFailed,
        crate::errors::GraphError::NodeNotFound(_) => GraphErrKind::NodeNotFound,
        crate::errors::GraphError::EdgeNotFound(_) => GraphErrKind::EdgeNotFound,
        crate::errors::GraphError::ConstraintViolation(_) => GraphErrKind::ConstraintViolation,
        crate::errors::GraphError::TransactionFailed(_) => GraphErrKind::TransactionFailed,
        crate::errors::GraphError::TenantIsolationViolation(_) => GraphErrKind::TenantIsolationViolation,
        crate::errors::GraphError::DatabaseError(_) => GraphErrKind::DatabaseError,
        crate::errors::GraphError::Timeout(_) => GraphErrKind::Timeout,
    }
}

/// Abstract state of the in-memory store: the primary node and edge records
/// in insertion order, the next fresh system id, and the capacity caps.
pub struct StoreModel {
    pub nodes: Seq<StoredNode>,
    pub edges: Seq<StoredEdge>,
    pub next_id: u64,
    pub max_nodes: Option<usize>,
    pub max_edges: Option<usize>,
}

// ---------------------------------------------------------------------------
// Lookups
// ---------------------------------------------------------------------------

/// Index of the first node record carrying a system id.
pub open spec fn node_idx(nodes: Seq<StoredNode>, id: u64) -> Option<int>
    decreases nodes.len(),
{
    if nodes.len() == 0 {
        None
    } else if nodes[0].id == id {
        Some(0int)
    } else {
        match node_idx(nodes.drop_first(), id) {
            Some(i) => Some(i + 1),
            None => None,
        }
    }
}

/// Index of the first edge record carrying a system id.
pub open spec fn edge_idx(edges: Seq<StoredEdge>, id: u64) -> Option<int>
    decreases edges.len(),
{
    if edges.len() == 0 {
        None
    } else if edges[0].id == id {
        Some(0int)
    } else {
        match edge_idx(edges.drop_first(), id) {
            Some(i) => Some(i + 1),
            None => None,
        }
    }
}

/// Whether a node record carries the given tenant and alias.
pub open spec fn alias_match(n: StoredNode, tenant: Seq<char>, alias: Seq<char>) -> bool {
    n.tenant_id@ == tenant && match n.node.id_alias {
        Some(a) => a@ == alias,
        None => false,
    }
}

/// Index of the first node record carrying the given tenant and alias.
pub open spec fn alias_idx(nodes: Seq<StoredNode>, tenant: Seq<char>, alias: Seq<char>) -> Option<
    int,
>
    decreases nodes.len(),
{
    if nodes.len() == 0 {
        None
    } else if alias_match(nodes[0], tenant, alias) {
        Some(0int)
    } else {
        match alias_idx(nodes.drop_first(), tenant, alias) {
            Some(i) => Some(i + 1),
            None => None,
        }
    }
}

/// What a node-id lookup result means, position by position.
pub proof fn lemma_node_idx_props(nodes: Seq<StoredNode>, id: u64)
    ensures
        match node_idx(nodes, id) {
            Some(i) => 0 <= i < nodes.len() && nodes[i].id == id && forall|j: int|
                0 <= j < i ==> (#[trigger] nodes[j]).id != id,
            None => forall|j: int| 0 <= j < nodes.len() ==> (#[trigger] nodes[j]).id != id,
        },
    decreases nodes.len(),
{
    if nodes.len() > 0 && nodes[0].id != id {
        lemma_node_idx_props(nodes.drop_first(), id);
        assert forall|j: int|
            1 <= j < nodes.len() implies nodes.drop_first()[j - 1] == nodes[j] by {}
    }
}

/// What an edge-id lookup result means, position by position.
pub proof fn lemma_edge_idx_props(edges: Seq<StoredEdge>, id: u64)
    ensures
        match edge_idx(edges, id) {
            Some(i) => 0 <= i < edges.len() && edges[i].id == id && forall|j: int|
                0 <= j < i ==> (#[trigger] edges[j]).id != id,
            None => forall|j: int| 0 <= j < edges.len() ==> (#[trigger] edges[j]).id != id,
        },
    decreases edges.len(),
{
    if edges.len() > 0 && edges[0].id != id {
        lemma_edge_idx_props(edges.drop_first(), id);
        assert forall|j: int|
            1 <= j < edges.len() implies edges.drop_first()[j - 1] == edges[j] by {}
    }
}

/// What an alias lookup result means, position by position.
pub proof fn lemma_alias_idx_props(nodes: Seq<StoredNode>, tenant: Seq<char>, alias: Seq<char>)
    ensures
        match alias_idx(nodes, tenant, alias) {
            Some(i) => 0 <= i < nodes.len() && alias_match(nodes[i], tenant, alias) && forall|
                j: int,
            | 0 <= j < i ==> !alias_match(#[trigger] nodes[j], tenant, alias),
            None => forall|j: int|
                0 <= j < nodes.len() ==> !alias_match(#[trigger] nodes[j], tenant, alias),
        },
    decreases nodes.len(),
{
    if nodes.len() > 0 && !alias_match(nodes[0], tenant, alias) {
        lemma_alias_idx_props(nodes.drop_first(), tenant, alias);
        assert forall|j: int|
            1 <= j < nodes.len() implies nodes.drop_first()[j - 1] == nodes[j] by {}
    }
}

/// A lookup is decided by the tail once the first `i` records do not match.
pub proof fn lemma_node_idx_skip(nodes: Seq<StoredNode>, id: u64, i: int)
    requires
        0 <= i <= nodes.len(),
        forall|j: int| 0 <= j < i ==> (#[trigger] nodes[j]).id != id,
    ensures
        node_idx(nodes, id) == match node_idx(nodes.skip(i), id) {
            Some(k) => Some(k + i),
            None => None::<int>,
        },
    decreases i,
{
    if i > 0 {
        assert(nodes.drop_first().skip(i - 1) =~= nodes.skip(i));
        lemma_node_idx_skip(nodes.drop_first(), id, i - 1);
    } else {
        assert(nodes.skip(0) =~= nodes);
    }
}

/// An edge lookup is decided by the tail once the first `i` records do not
/// match.
pub proof fn lemma_edge_idx_skip(edges: Seq<StoredEdge>, id: u64, i: int)
    requires
        0 <= i <= edges.len(),
        forall|j: int| 0 <= j < i ==> (#[trigger] edges[j]).id != id,
    ensures
        edge_idx(edges, id) == match edge_idx(edges.skip(i), id) {
            Some(k) => Some(k + i),
            None => None::<int>,
        },
    decreases i,
{
    if i > 0 {
        assert(edges.drop_first().skip(i - 1) =~= edges.skip(i));
        lemma_edge_idx_skip(edges.drop_first(), id, i - 1);
    } else {
        assert(edges.skip(0) =~= edges);
    }
}

/// An alias lookup is decided by the tail once the first `i` records do not
/// match.
pub proof fn lemma_alias_idx_skip(
    nodes: Seq<StoredNode>,
    tenant: Seq<char>,
    alias: Seq<char>,
    i: int,
)
    requires
        0 <= i <= nodes.len(),
        forall|j: int| 0 <= j < i ==> !alias_match(#[trigger] nodes[j], tenant, alias),
    ensures
        alias_idx(nodes, tenant, alias) == match alias_idx(nodes.skip(i), tenant, alias) {
            Some(k) => Some(k + i),
            None => None::<int>,
        },
    decreases i,
{
    if i > 0 {
        assert(nodes.drop_first().skip(i - 1) =~= nodes.skip(i));
        lemma_alias_idx_skip(nodes.drop_first(), tenant, alias, i - 1);
    } else {
        assert(nodes.skip(0) =~= nodes);
    }
}

/// A node with the given system id exists and belongs to the tenant.
pub open spec fn tenant_has_node(nodes: Seq<StoredNode>, tenant: Seq<char>, id: u64) -> bool {
    exists|j: int|
        0 <= j < nodes.len() && #[trigger] nodes[j].id == id && nodes[j].tenant_id@ == tenant
}

/// The result of `get_node`: the node's model when the id exists and its
/// tenant matches, masked otherwise.
pub open spec fn get_node_spec(s: StoreModel, tenant: Seq<char>, id: u64) -> Option<NodeView> {
    match node_idx(s.nodes, id) {
        Some(i) => if s.nodes[i].tenant_id@ == tenant {
            Some(s.nodes[i].node@)
        } else {
            None
        },
        None => None,
    }
}

/// The result of `get_node_by_alias`: the first node carrying the tenant's
/// alias, with its system id.
pub open spec fn get_node_by_alias_spec(s: StoreModel, tenant: Seq<char>, alias: Seq<char>) -> Option<
    (u64, NodeView),
> {
    match alias_idx(s.nodes, tenant, alias) {
        Some(i) => Some((s.nodes[i].id, s.nodes[i].node@)),
        None => None,
    }
}

/// The result of an edge lookup: the edge's model when the id exists and its
/// tenant matches, masked otherwise.
pub open spec fn get_edge_spec(s: StoreModel, tenant: Seq<char>, id: u64) -> Option<TimeEdgeView> {
    match edge_idx(s.edges, id) {
        Some(i) => if s.edges[i].tenant_id@ == tenant {
            Some(s.edges[i].edge@)
        } else {
            None
        },
        None => None,
    }
}

// ---------------------------------------------------------------------------
// Capacity and well-formedness
// ---------------------------------------------------------------------------

/// The node cap is reached.
pub open spec fn at_node_cap(s: StoreModel) -> bool {
    match s.max_nodes {
        Some(m) => s.nodes.len() >= m,
        None => false,
    }
}

/// The edge cap is reached.
pub open spec fn at_edge_cap(s: StoreModel) -> bool {
    match s.max_edges {
        Some(m) => s.edges.len() >= m,
        None => false,
    }
}

/// A stored edge's own invariant: intervals ordered, transaction start
/// stamped.
pub open spec fn stored_edge_wf(e: StoredEdge) -> bool {
    &&& match e.edge.valid_to {
        Some(end) => e.edge.valid_from <= end,
        None => true,
    }
    &&& e.edge.transaction_start_time is Some
    &&& match (e.edge.transaction_start_time, e.edge.transaction_end_time) {
        (Some(start), Some(end)) => start <= end,
        _ => true,
    }
}

/// Well-formedness of the store state: system ids are globally unique and
/// below the id counter, `(tenant, alias)` pairs are unique, every edge's
/// endpoints exist in the edge's own tenant, and every stored edge satisfies
/// its interval invariant.
pub open spec fn store_wf(s: StoreModel) -> bool {
    &&& forall|i: int, j: int|
        0 <= i < j < s.nodes.len() ==> #[trigger] s.nodes[i].id != #[trigger] s.nodes[j].id
    &&& forall|i: int| 0 <= i < s.nodes.len() ==> #[trigger] s.nodes[i].id < s.next_id
    &&& forall|i: int, j: int|
        0 <= i < j < s.edges.len() ==> #[trigger] s.edges[i].id != #[trigger] s.edges[j].id
    &&& forall|i: int| 0 <= i < s.edges.len() ==> #[trigger] s.edges[i].id < s.next_id
    &&& forall|i: int, j: int|
        0 <= i < s.nodes.len() && 0 <= j < s.edges.len() ==> #[trigger] s.nodes[i].id
            != #[trigger] s.edges[j].id
    &&& forall|i: int, j: int|
        0 <= i < j < s.nodes.len() && (#[trigger] s.nodes[i].node).id_alias is Some && (
        #[trigger] s.nodes[j].node).id_alias is Some ==> !(s.nodes[i].tenant_id@
            == s.nodes[j].tenant_id@ && s.nodes[i].node.id_alias->0@
            == s.nodes[j].node.id_alias->0@)
    &&& forall|i: int|
        0 <= i < s.edges.len() ==> tenant_has_node(
            s.nodes,
            (#[trigger] s.edges[i]).tenant_id@,
            s.edges[i].edge.from_node_id,
        ) && tenant_has_node(s.nodes, s.edges[i].tenant_id@, s.edges[i].edge.to_node_id)
    &&& forall|i: int| 0 <= i < s.edges.len() ==> stored_edge_wf(#[trigger] s.edges[i])
}

// ---------------------------------------------------------------------------
// Transitions
// ---------------------------------------------------------------------------

/// The node record written by an alias upsert: the stored record keeps its id
/// and tenant; label, alias and properties come from the incoming node.
pub open spec fn overwritten_node(prior: StoredNode, node: Node) -> StoredNode {
    StoredNode { id: prior.id, node: node, tenant_id: prior.tenant_id }
}

/// Transition of `upsert_node`. A node whose alias is already indexed for
/// the tenant overwrites that record in place and returns its existing id —
/// an overwrite does not grow the store, so the cap never refuses it. Any
/// other node is inserted under a fresh id, which the node cap refuses with
/// `ConstraintViolation`.
pub open spec fn upsert_node_spec(s: StoreModel, tenant: TenantId, node: Node) -> (
    StoreModel,
    Result<u64, GraphErrKind>,
) {
    let found = match node.id_alias {
        Some(alias) => alias_idx(s.nodes, tenant@, alias@),
        None => None,
    };
    match found {
        Some(i) => (
            StoreModel { nodes: s.nodes.update(i, overwritten_node(s.nodes[i], node)), ..s },
            Ok(s.nodes[i].id),
        ),
        None => if at_node_cap(s) {
            (s, Err(GraphErrKind::ConstraintViolation))
        } else if s.next_id == u64::MAX {
            (s, Err(GraphErrKind::ConstraintViolation))
        } else {
            (
                StoreModel {
                    nodes: s.nodes.push(
                        StoredNode { id: s.next_id, node: node, tenant_id: tenant },
                    ),
                    next_id: (s.next_id + 1) as u64,
                    ..s
                },
                Ok(s.next_id),
            )
        },
    }
}

/// The edge record written by `upsert_edge`: the transaction start is
/// stamped with `now` when unset.
pub open spec fn stamped_edge(edge: TimeEdge, now: i64) -> TimeEdge {
    TimeEdge {
        transaction_start_time: match edge.transaction_start_time {
            Some(t) => Some(t),
            None => Some(now),
        },
        ..edge
    }
}

/// A stamped edge's intervals are ordered.
pub open spec fn edge_intervals_ok(edge: TimeEdge) -> bool {
    &&& match edge.valid_to {
        Some(end) => edge.valid_from <= end,
        None => true,
    }
    &&& match (edge.transaction_start_time, edge.transaction_end_time) {
        (Some(start), Some(end)) => start <= end,
        _ => true,
    }
}

/// Transition of `upsert_edge` with the stamping instant `now`. At the edge
/// cap the upsert fails with `ConstraintViolation`; an endpoint missing from
/// the tenant fails with `NodeNotFound` (source first); a stamped edge whose
/// intervals are out of order fails with `ConstraintViolation`. Otherwise the
/// edge is appended under a fresh id.
pub open spec fn upsert_edge_spec(s: StoreModel, tenant: TenantId, edge: TimeEdge, now: i64) -> (
    StoreModel,
    Result<u64, GraphErrKind>,
) {
    if at_edge_cap(s) {
        (s, Err(GraphErrKind::ConstraintViolation))
    } else if !tenant_has_node(s.nodes, tenant@, edge.from_node_id) {
        (s, Err(GraphErrKind::NodeNotFound))
    } else if !tenant_has_node(s.nodes, tenant@, edge.to_node_id) {
        (s, Err(GraphErrKind::NodeNotFound))
    } else if !edge_intervals_ok(stamped_edge(edge, now)) {
        (s, Err(GraphErrKind::ConstraintViolation))
    } else if s.next_id == u64::MAX {
        (s, Err(GraphErrKind::ConstraintViolation))
    } else {
        (
            StoreModel {
                edges: s.edges.push(
                    StoredEdge { id: s.next_id, edge: stamped_edge(edge, now), tenant_id: tenant },
                ),
                next_id: (s.next_id + 1) as u64,
                ..s
            },
            Ok(s.next_id),
        )
    }
}

/// The transition of `upsert_edge` with stamping instant `now` carries the
/// store from `s0` to `s1` and yields `r`.
pub open spec fn upsert_edge_outcome_matches(
    s0: StoreModel,
    tenant: TenantId,
    edge: TimeEdge,
    now: i64,
    s1: StoreModel,
    r: Result<u64, crate::errors::GraphError>,
) -> bool {
    let (s2, res) = upsert_edge_spec(s0, tenant, edge, now);
    &&& s1 == s2
    &&& match (r, res) {
        (Ok(id), Ok(mid)) => id == mid,
        (Err(e), Err(k)) => kind_of(e) == k,
        _ => false,
    }
}

/// The edge records that survive deleting a node: those not incident to it.
pub open spec fn remove_incident(edges: Seq<StoredEdge>, id: u64) -> Seq<StoredEdge>
    decreases edges.len(),
{
    if edges.len() == 0 {
        Seq::empty()
    } else {
        let rest = remove_incident(edges.drop_last(), id);
        if edges.last().edge.from_node_id == id || edges.last().edge.to_node_id == id {
            rest
        } else {
            rest.push(edges.last())
        }
    }
}

/// Transition of `delete_node`: `false` when the id is absent or owned by
/// another tenant; otherwise the node is removed together with every edge
/// incident to it.
pub open spec fn delete_node_spec(s: StoreModel, tenant: Seq<char>, id: u64) -> (
    StoreModel,
    bool,
) {
    match node_idx(s.nodes, id) {
        Some(i) => if s.nodes[i].tenant_id@ == tenant {
            (
                StoreModel {
                    nodes: s.nodes.remove(i),
                    edges: remove_incident(s.edges, id),
                    ..s
                },
                true,
            )
        } else {
            (s, false)
        },
        None => (s, false),
    }
}

/// Transition of `delete_edge`: `false` when the id is absent or owned by
/// another tenant; otherwise the edge record is removed.
pub open spec fn delete_edge_spec(s: StoreModel, tenant: Seq<char>, id: u64) -> (
    StoreModel,
    bool,
) {
    match edge_idx(s.edges, id) {
        Some(i) => if s.edges[i].tenant_id@ == tenant {
            (StoreModel { edges: s.edges.remove(i), ..s }, true)
        } else {
            (s, false)
        },
        None => (s, false),
    }
}

// ---------------------------------------------------------------------------
// Invariant preservation
// ---------------------------------------------------------------------------

/// Inserting a record under a fresh id preserves well-formedness, provided
/// its alias (if any) is not yet indexed for the tenant.
proof fn lemma_insert_fresh_node_wf(s: StoreModel, tenant: TenantId, node: Node)
    requires
        store_wf(s),
        s.next_id < u64::MAX,
        match node.id_alias {
            Some(alias) => alias_idx(s.nodes, tenant@, alias@) is None,
            None => true,
        },
    ensures
        store_wf(
            StoreModel {
                nodes: s.nodes.push(StoredNode { id: s.next_id, node: node, tenant_id: tenant }),
                next_id: (s.next_id + 1) as u64,
                ..s
            },
        ),
{
    let new = StoredNode { id: s.next_id, node: node, tenant_id: tenant };
    let ns = s.nodes.push(new);
    let s2 = StoreModel { nodes: ns, next_id: (s.next_id + 1) as u64, ..s };
    assert(ns[ns.len() - 1] == new);
    assert(forall|j: int| 0 <= j < s.nodes.len() ==> ns[j] == #[trigger] s.nodes[j]);
    if node.id_alias is Some {
        lemma_alias_idx_props(s.nodes, tenant@, node.id_alias->0@);
    }
    assert forall|i: int, j: int|
        0 <= i < j < s2.nodes.len() && (#[trigger] s2.nodes[i].node).id_alias is Some && (
        #[trigger] s2.nodes[j].node).id_alias is Some implies !(s2.nodes[i].tenant_id@
        == s2.nodes[j].tenant_id@ && s2.nodes[i].node.id_alias->0@
        == s2.nodes[j].node.id_alias->0@) by {
        if j == s2.nodes.len() - 1 {
            assert(!alias_match(s.nodes[i], tenant@, node.id_alias->0@));
        }
    }
    assert forall|i: int|
        0 <= i < s2.edges.len() implies tenant_has_node(
        s2.nodes,
        (#[trigger] s2.edges[i]).tenant_id@,
        s2.edges[i].edge.from_node_id,
    ) && tenant_has_node(s2.nodes, s2.edges[i].tenant_id@, s2.edges[i].edge.to_node_id) by {
        let w1 = choose|j: int|
            0 <= j < s.nodes.len() && #[trigger] s.nodes[j].id == s.edges[i].edge.from_node_id
                && s.nodes[j].tenant_id@ == s.edges[i].tenant_id@;
        assert(ns[w1] == s.nodes[w1]);
        let w2 = choose|j: int|
            0 <= j < s.nodes.len() && #[trigger] s.nodes[j].id == s.edges[i].edge.to_node_id
                && s.nodes[j].tenant_id@ == s.edges[i].tenant_id@;
        assert(ns[w2] == s.nodes[w2]);
    }
}

/// The `upsert_node` transition preserves well-formedness.
pub proof fn lemma_upsert_node_preserves_wf(s: StoreModel, tenant: TenantId, node: Node)
    requires
        store_wf(s),
    ensures
        store_wf(upsert_node_spec(s, tenant, node).0),
{
    {
        let found = match node.id_alias {
            Some(alias) => alias_idx(s.nodes, tenant@, alias@),
            None => None,
        };
        match found {
            Some(i) => {
                lemma_alias_idx_props(s.nodes, tenant@, node.id_alias->0@);
                let updated = overwritten_node(s.nodes[i], node);
                let ns = s.nodes.update(i, updated);
                let s2 = upsert_node_spec(s, tenant, node).0;
                assert(s2.nodes == ns);
                assert(forall|k: int| 0 <= k < ns.len() ==> (#[trigger] ns[k]).id == s.nodes[k].id);
                assert(forall|k: int|
                    0 <= k < ns.len() ==> (#[trigger] ns[k]).tenant_id@ == s.nodes[k].tenant_id@);
                assert(alias_match(s.nodes[i], tenant@, node.id_alias->0@));
                assert forall|a: int, b: int|
                    0 <= a < b < ns.len() && (#[trigger] ns[a].node).id_alias is Some && (
                    #[trigger] ns[b].node).id_alias is Some implies !(ns[a].tenant_id@
                    == ns[b].tenant_id@ && ns[a].node.id_alias->0@ == ns[b].node.id_alias->0@) by {
                    if a == i || b == i {
                        assert(updated.node.id_alias->0@ == s.nodes[i].node.id_alias->0@);
                        assert(updated.tenant_id@ == s.nodes[i].tenant_id@);
                    }
                }
                assert forall|k: int|
                    0 <= k < s2.edges.len() implies tenant_has_node(
                    ns,
                    (#[trigger] s2.edges[k]).tenant_id@,
                    s2.edges[k].edge.from_node_id,
                ) && tenant_has_node(ns, s2.edges[k].tenant_id@, s2.edges[k].edge.to_node_id) by {
                    let w1 = choose|j: int|
                        0 <= j < s.nodes.len() && #[trigger] s.nodes[j].id
                            == s.edges[k].edge.from_node_id && s.nodes[j].tenant_id@
                            == s.edges[k].tenant_id@;
                    assert(ns[w1].id == s.nodes[w1].id && ns[w1].tenant_id@
                        == s.nodes[w1].tenant_id@);
                    let w2 = choose|j: int|
                        0 <= j < s.nodes.len() && #[trigger] s.nodes[j].id
                            == s.edges[k].edge.to_node_id && s.nodes[j].tenant_id@
                            == s.edges[k].tenant_id@;
                    assert(ns[w2].id == s.nodes[w2].id && ns[w2].tenant_id@
                        == s.nodes[w2].tenant_id@);
                }
            },
            None => {
                if !at_node_cap(s) && s.next_id < u64::MAX {
                    lemma_insert_fresh_node_wf(s, tenant, node);
                }
            },
        }
    }
}

/// The `upsert_edge` transition preserves well-formedness.
pub proof fn lemma_upsert_edge_preserves_wf(s: StoreModel, tenant: TenantId, edge: TimeEdge, now: i64)
    requires
        store_wf(s),
    ensures
        store_wf(upsert_edge_spec(s, tenant, edge, now).0),
{
    let (s2, r) = upsert_edge_spec(s, tenant, edge, now);
    if r is Ok {
        let new = StoredEdge { id: s.next_id, edge: stamped_edge(edge, now), tenant_id: tenant };
        let es = s.edges.push(new);
        assert(es[es.len() - 1] == new);
        assert(forall|j: int| 0 <= j < s.edges.len() ==> es[j] == #[trigger] s.edges[j]);
        assert(stored_edge_wf(new));
        assert(tenant_has_node(s.nodes, new.tenant_id@, new.edge.from_node_id));
        assert(tenant_has_node(s.nodes, new.tenant_id@, new.edge.to_node_id));
    }
}

/// Every survivor of `remove_incident` is one of the prior records and is
/// not incident to the removed node.
pub proof fn lemma_remove_incident_props(edges: Seq<StoredEdge>, id: u64)
    ensures
        remove_incident(edges, id).len() <= edges.len(),
        forall|k: int|
            0 <= k < remove_incident(edges, id).len() ==> exists|j: int|
                0 <= j < edges.len() && #[trigger] remove_incident(edges, id)[k] == edges[j],
        forall|k: int|
            0 <= k < remove_incident(edges, id).len() ==> (#[trigger] remove_incident(
                edges,
                id,
            )[k]).edge.from_node_id != id && remove_incident(edges, id)[k].edge.to_node_id != id,
    decreases edges.len(),
{
    if edges.len() > 0 {
        lemma_remove_incident_props(edges.drop_last(), id);
        let ri = remove_incident(edges, id);
        let rest = remove_incident(edges.drop_last(), id);
        assert(forall|j: int| 0 <= j < edges.len() - 1 ==> edges.drop_last()[j] == #[trigger] edges[j]);
        assert forall|k: int| 0 <= k < ri.len() implies exists|j: int|
            0 <= j < edges.len() && #[trigger] ri[k] == edges[j] by {
            if k < rest.len() {
                let j = choose|j: int|
                    0 <= j < edges.drop_last().len() && #[trigger] rest[k] == edges.drop_last()[j];
                assert(ri[k] == edges[j]);
            } else {
                assert(ri[k] == edges[edges.len() - 1]);
            }
        }
    }
}

/// `remove_incident` keeps system ids pairwise distinct.
proof fn lemma_remove_incident_distinct(edges: Seq<StoredEdge>, id: u64)
    requires
        forall|i: int, j: int|
            0 <= i < j < edges.len() ==> #[trigger] edges[i].id != #[trigger] edges[j].id,
    ensures
        forall|i: int, j: int|
            0 <= i < j < remove_incident(edges, id).len() ==> #[trigger] remove_incident(
                edges,
                id,
            )[i].id != #[trigger] remove_incident(edges, id)[j].id,
    decreases edges.len(),
{
    if edges.len() > 0 {
        let dl = edges.drop_last();
        assert(forall|j: int| 0 <= j < dl.len() ==> dl[j] == #[trigger] edges[j]);
        lemma_remove_incident_distinct(dl, id);
        lemma_remove_incident_props(dl, id);
        let ri = remove_incident(edges, id);
        let rest = remove_incident(dl, id);
        assert forall|i: int, j: int|
            0 <= i < j < ri.len() implies #[trigger] ri[i].id != #[trigger] ri[j].id by {
            if j == ri.len() - 1 && ri.len() > rest.len() {
                let w = choose|w: int| 0 <= w < dl.len() && #[trigger] rest[i] == dl[w];
                assert(edges[w].id != edges[edges.len() - 1].id);
            }
        }
    }
}

/// The `delete_node` transition preserves well-formedness.
pub proof fn lemma_delete_node_preserves_wf(s: StoreModel, tenant: Seq<char>, id: u64)
    requires
        store_wf(s),
    ensures
        store_wf(delete_node_spec(s, tenant, id).0),
{
    lemma_node_idx_props(s.nodes, id);
    match node_idx(s.nodes, id) {
        Some(i) => {
            if s.nodes[i].tenant_id@ == tenant {
                let ns = s.nodes.remove(i);
                let es = remove_incident(s.edges, id);
                let s2 = delete_node_spec(s, tenant, id).0;
                assert(ns =~= s.nodes.subrange(0, i) + s.nodes.subrange(
                    i + 1,
                    s.nodes.len() as int,
                ));
                assert forall|k: int|
                    0 <= k < ns.len() implies ns[k] == (if k < i {
                    s.nodes[k]
                } else {
                    s.nodes[k + 1]
                }) by {}
                lemma_remove_incident_props(s.edges, id);
                lemma_remove_incident_distinct(s.edges, id);
                assert forall|k: int| 0 <= k < es.len() implies (#[trigger] es[k]).id < s.next_id
                    && stored_edge_wf(es[k]) by {
                    let j = choose|j: int| 0 <= j < s.edges.len() && #[trigger] es[k] == s.edges[j];
                    assert(stored_edge_wf(s.edges[j]));
                }
                assert forall|k: int, m: int|
                    0 <= k < ns.len() && 0 <= m < es.len() implies #[trigger] ns[k].id
                    != #[trigger] es[m].id by {
                    let j = choose|j: int| 0 <= j < s.edges.len() && #[trigger] es[m] == s.edges[j];
                }
                assert forall|k: int|
                    0 <= k < es.len() implies tenant_has_node(
                    ns,
                    (#[trigger] es[k]).tenant_id@,
                    es[k].edge.from_node_id,
                ) && tenant_has_node(ns, es[k].tenant_id@, es[k].edge.to_node_id) by {
                    let j = choose|j: int| 0 <= j < s.edges.len() && #[trigger] es[k] == s.edges[j];
                    let e = s.edges[j];
                    let w1 = choose|w: int|
                        0 <= w < s.nodes.len() && #[trigger] s.nodes[w].id == e.edge.from_node_id
                            && s.nodes[w].tenant_id@ == e.tenant_id@;
                    assert(s.nodes[w1].id != id);
                    assert(w1 != i);
                    if w1 < i {
                        assert(ns[w1] == s.nodes[w1]);
                    } else {
                        assert(ns[w1 - 1] == s.nodes[w1]);
                    }
                    let w2 = choose|w: int|
                        0 <= w < s.nodes.len() && #[trigger] s.nodes[w].id == e.edge.to_node_id
                            && s.nodes[w].tenant_id@ == e.tenant_id@;
                    assert(s.nodes[w2].id != id);
                    assert(w2 != i);
                    if w2 < i {
                        assert(ns[w2] == s.nodes[w2]);
                    } else {
                        assert(ns[w2 - 1] == s.nodes[w2]);
                    }
                }
            }
        },
        None => {},
    }
}

/// The `delete_edge` transition preserves well-formedness.
pub proof fn lemma_delete_edge_preserves_wf(s: StoreModel, tenant: Seq<char>, id: u64)
    requires
        store_wf(s),
    ensures
        store_wf(delete_edge_spec(s, tenant, id).0),
{
    lemma_edge_idx_props(s.edges, id);
    match edge_idx(s.edges, id) {
        Some(i) => {
            if s.edges[i].tenant_id@ == tenant {
                let es = s.edges.remove(i);
                assert(es =~= s.edges.subrange(0, i) + s.edges.subrange(
                    i + 1,
                    s.edges.len() as int,
                ));
                assert forall|k: int|
                    0 <= k < es.len() implies es[k] == (if k < i {
                    s.edges[k]
                } else {
                    s.edges[k + 1]
                }) by {}
            }
        },
        None => {},
    }
}

// ---------------------------------------------------------------------------
// Queries
// ---------------------------------------------------------------------------

/// Whether one of the label strings reads as the given label.
pub open spec fn label_in(labels: Seq<String>, label: Seq<char>) -> bool {
    exists|i: int| 0 <= i < labels.len() && #[trigger] labels[i]@ == label
}

/// A node matches a `FindNodes` query: the tenant owns it, its label is one
/// of the requested labels (or none were requested), and its properties are a
/// superset of the filter.
pub open spec fn node_filter_match(
    n: StoredNode,
    tenant: Seq<char>,
    labels: Seq<String>,
    filter: Seq<PropEntryView>,
) -> bool {
    &&& n.tenant_id@ == tenant
    &&& (labels.len() > 0 ==> label_in(labels, n.node.label@))
    &&& forall|j: int|
        0 <= j < filter.len() ==> lookup_prop(props_view(n.node.props@), (#[trigger] filter[j]).key)
            == Some(filter[j].value)
}

/// The length-1 path yielded for a matching node.
pub open spec fn node_path(n: StoredNode) -> PathView {
    PathView {
        nodes: seq![
            PathNodeView {
                id: n.id,
                labels: seq![n.node.label@],
                properties: props_view(n.node.props@),
            },
        ],
        relationships: Seq::empty(),
    }
}

/// The `FindNodes` results over the records in store order, unlimited.
pub open spec fn node_results(
    nodes: Seq<StoredNode>,
    tenant: Seq<char>,
    labels: Seq<String>,
    filter: Seq<PropEntryView>,
) -> Seq<PathView>
    decreases nodes.len(),
{
    if nodes.len() == 0 {
        Seq::empty()
    } else {
        let rest = node_results(nodes.drop_last(), tenant, labels, filter);
        if node_filter_match(nodes.last(), tenant, labels, filter) {
            rest.push(node_path(nodes.last()))
        } else {
            rest
        }
    }
}

/// An edge matches a `FindRelationships` query: the tenant owns it, it joins
/// the requested endpoints, its kind is one of the requested types (or none
/// were requested), and it was valid at the requested instant (if one was
/// given).
pub open spec fn edge_filter_match(
    e: StoredEdge,
    tenant: Seq<char>,
    from: Option<u64>,
    to: Option<u64>,
    types: Seq<String>,
    valid_at: Option<i64>,
) -> bool {
    &&& e.tenant_id@ == tenant
    &&& match from {
        Some(f) => e.edge.from_node_id == f,
        None => true,
    }
    &&& match to {
        Some(t) => e.edge.to_node_id == t,
        None => true,
    }
    &&& (types.len() > 0 ==> label_in(types, e.edge.kind@))
    &&& match valid_at {
        Some(p) => spec_valid_at(e.edge.valid_from, e.edge.valid_to, p),
        None => true,
    }
}

/// The path-node model of a stored node.
pub open spec fn path_node_of(n: StoredNode) -> PathNodeView {
    PathNodeView { id: n.id, labels: seq![n.node.label@], properties: props_view(n.node.props@) }
}

/// The length-2 path yielded for a matching edge: both endpoint nodes plus
/// the single relationship.
pub open spec fn edge_path(e: StoredEdge, nodes: Seq<StoredNode>) -> PathView {
    let from = nodes[node_idx(nodes, e.edge.from_node_id)->0];
    let to = nodes[node_idx(nodes, e.edge.to_node_id)->0];
    PathView {
        nodes: seq![path_node_of(from), path_node_of(to)],
        relationships: seq![
            PathRelationshipView {
                id: e.id,
                rel_type: e.edge.kind@,
                start_node_id: e.edge.from_node_id,
                end_node_id: e.edge.to_node_id,
                properties: props_view(e.edge.props@),
            },
        ],
    }
}

/// The `FindRelationships` results over the records in store order,
/// unlimited. An edge whose endpoints are missing from the primary records
/// yields no path.
pub open spec fn edge_results(
    edges: Seq<StoredEdge>,
    nodes: Seq<StoredNode>,
    tenant: Seq<char>,
    from: Option<u64>,
    to: Option<u64>,
    types: Seq<String>,
    valid_at: Option<i64>,
) -> Seq<PathView>
    decreases edges.len(),
{
    if edges.len() == 0 {
        Seq::empty()
    } else {
        let rest = edge_results(edges.drop_last(), nodes, tenant, from, to, types, valid_at);
        let e = edges.last();
        if edge_filter_match(e, tenant, from, to, types, valid_at) && node_idx(
            nodes,
            e.edge.from_node_id,
        ) is Some && node_idx(nodes, e.edge.to_node_id) is Some {
            rest.push(edge_path(e, nodes))
        } else {
            rest
        }
    }
}

/// Element-wise model of a vector of paths.
pub open spec fn paths_view(paths: Seq<crate::types::Path>) -> Seq<PathView> {
    Seq::new(
        paths.len(),
        |i: int|
            if 0 <= i < paths.len() {
                paths[i]@
            } else {
                PathView { nodes: Seq::empty(), relationships: Seq::empty() }
            },
    )
}

/// The node results over a prefix of the records are a prefix of the full
/// results.
pub proof fn lemma_node_results_take_prefix(
    nodes: Seq<StoredNode>,
    tenant: Seq<char>,
    labels: Seq<String>,
    filter: Seq<PropEntryView>,
    i: int,
)
    requires
        0 <= i <= nodes.len(),
    ensures
        ({
            let full = node_results(nodes, tenant, labels, filter);
            let part = node_results(nodes.take(i), tenant, labels, filter);
            part.len() <= full.len() && part == full.take(part.len() as int)
        }),
    decreases nodes.len(),
{
    let full = node_results(nodes, tenant, labels, filter);
    let part = node_results(nodes.take(i), tenant, labels, filter);
    if i == nodes.len() {
        assert(nodes.take(i) =~= nodes);
        assert(part == full.take(part.len() as int)) by {
            assert(full.take(full.len() as int) =~= full);
        }
    } else {
        let dl = nodes.drop_last();
        assert(nodes.take(i) =~= dl.take(i));
        lemma_node_results_take_prefix(dl, tenant, labels, filter, i);
        let rest = node_results(dl, tenant, labels, filter);
        assert(part == rest.take(part.len() as int));
        if node_filter_match(nodes.last(), tenant, labels, filter) {
            assert(full == rest.push(node_path(nodes.last())));
        } else {
            assert(full == rest);
        }
        assert(full.take(part.len() as int) =~= rest.take(part.len() as int));
    }
}

/// The edge results over a prefix of the records are a prefix of the full
/// results.
pub proof fn lemma_edge_results_take_prefix(
    edges: Seq<StoredEdge>,
    nodes: Seq<StoredNode>,
    tenant: Seq<char>,
    from: Option<u64>,
    to: Option<u64>,
    types: Seq<String>,
    valid_at: Option<i64>,
    i: int,
)
    requires
        0 <= i <= edges.len(),
    ensures
        ({
            let full = edge_results(edges, nodes, tenant, from, to, types, valid_at);
            let part = edge_results(edges.take(i), nodes, tenant, from, to, types, valid_at);
            part.len() <= full.len() && part == full.take(part.len() as int)
        }),
    decreases edges.len(),
{
    let full = edge_results(edges, nodes, tenant, from, to, types, valid_at);
    let part = edge_results(edges.take(i), nodes, tenant, from, to, types, valid_at);
    if i == edges.len() {
        assert(edges.take(i) =~= edges);
        assert(part == full.take(part.len() as int)) by {
            assert(full.take(full.len() as int) =~= full);
        }
    } else {
        let dl = edges.drop_last();
        assert(edges.take(i) =~= dl.take(i));
        lemma_edge_results_take_prefix(dl, nodes, tenant, from, to, types, valid_at, i);
        let rest = edge_results(dl, nodes, tenant, from, to, types, valid_at);
        assert(part == rest.take(part.len() as int));
        let e = edges.last();
        if edge_filter_match(e, tenant, from, to, types, valid_at) && node_idx(
            nodes,
            e.edge.from_node_id,
        ) is Some && node_idx(nodes, e.edge.to_node_id) is Some {
            assert(full == rest.push(edge_path(e, nodes)));
        } else {
            assert(full == rest);
        }
        assert(full.take(part.len() as int) =~= rest.take(part.len() as int));
    }
}

/// Truncation of results by a query limit: at most `limit` results, a prefix
/// of the unlimited results in store order.
pub open spec fn limited(s: Seq<PathView>, limit: Option<u32>) -> Seq<PathView> {
    match limit {
        Some(l) => if s.len() > l {
            s.take(l as int)
        } else {
            s
        },
        None => s,
    }
}

/// The result of `query` on the in-memory store. Raw queries are refused;
/// node and relationship queries filter the primary records in store order
/// and truncate at the limit; an as-of query reruns its relationship base
/// with the rewritten instant, and yields nothing for any other base.
pub open spec fn query_spec(s: StoreModel, tenant: Seq<char>, q: GraphQuery) -> Result<
    Seq<PathView>,
    GraphErrKind,
> {
    match q {
        GraphQuery::Raw { query, params } => Err(GraphErrKind::QueryFailed),
        GraphQuery::FindNodes { labels, properties, limit } => Ok(
            limited(node_results(s.nodes, tenant, labels@, props_view(properties@)), limit),
        ),
        GraphQuery::FindRelationships {
            from_node_id,
            to_node_id,
            relationship_types,
            valid_at,
            limit,
        } => Ok(
            limited(
                edge_results(
                    s.edges,
                    s.nodes,
                    tenant,
                    from_node_id,
                    to_node_id,
                    relationship_types@,
                    valid_at,
                ),
                limit,
            ),
        ),
        GraphQuery::AsOfQuery { base_query, as_of_time } => match *base_query {
            GraphQuery::FindRelationships {
                from_node_id,
                to_node_id,
                relationship_types,
                valid_at,
                limit,
            } => Ok(
                limited(
                    edge_results(
                        s.edges,
                        s.nodes,
                        tenant,
                        from_node_id,
                        to_node_id,
                        relationship_types@,
                        Some(as_of_time),
                    ),
                    limit,
                ),
            ),
            _ => Ok(Seq::empty()),
        },
    }
}


// ---------------------------------------------------------------------------
// Laws
// ---------------------------------------------------------------------------

/// The first position carrying an id determines the lookup.
pub proof fn lemma_node_idx_of(nodes: Seq<StoredNode>, id: u64, i: int)
    requires
        0 <= i < nodes.len(),
        nodes[i].id == id,
        forall|j: int| 0 <= j < i ==> (#[trigger] nodes[j]).id != id,
    ensures
        node_idx(nodes, id) == Some(i),
    decreases i,
{
    if i == 0 {
    } else {
        assert(forall|j: int|
            1 <= j < nodes.len() ==> nodes.drop_first()[j - 1] == #[trigger] nodes[j]);
        lemma_node_idx_of(nodes.drop_first(), id, i - 1);
    }
}

/// The first position carrying a tenant's alias determines the lookup.
pub proof fn lemma_alias_idx_of(nodes: Seq<StoredNode>, tenant: Seq<char>, alias: Seq<char>, i: int)
    requires
        0 <= i < nodes.len(),
        alias_match(nodes[i], tenant, alias),
        forall|j: int| 0 <= j < i ==> !alias_match(#[trigger] nodes[j], tenant, alias),
    ensures
        alias_idx(nodes, tenant, alias) == Some(i),
    decreases i,
{
    if i == 0 {
    } else {
        assert(forall|j: int|
            1 <= j < nodes.len() ==> nodes.drop_first()[j - 1] == #[trigger] nodes[j]);
        lemma_alias_idx_of(nodes.drop_first(), tenant, alias, i - 1);
    }
}

/// Tenant isolation: a record visible to one tenant is masked from every
/// other tenant, for nodes and for edges alike.
pub proof fn lemma_tenant_isolation(s: StoreModel, a: Seq<char>, b: Seq<char>, id: u64)
    requires
        a != b,
    ensures
        get_node_spec(s, a, id) is Some ==> get_node_spec(s, b, id) is None,
        get_edge_spec(s, a, id) is Some ==> get_edge_spec(s, b, id) is None,
{
}

/// Alias idempotence: upserting a second node under the same `(tenant,
/// alias)` always succeeds with the same system id — an alias overwrite never
/// grows the store, so no cap can refuse it — the record afterwards carries
/// the second node's label and properties, and the node count is unchanged.
pub proof fn lemma_alias_idempotent(s: StoreModel, tenant: TenantId, n1: Node, n2: Node)
    requires
        store_wf(s),
        n1.id_alias is Some,
        n2.id_alias is Some,
        n1.id_alias->0@ == n2.id_alias->0@,
        upsert_node_spec(s, tenant, n1).1 is Ok,
    ensures
        ({
            let (s1, r1) = upsert_node_spec(s, tenant, n1);
            let (s2, r2) = upsert_node_spec(s1, tenant, n2);
            &&& r2 is Ok
            &&& r2->Ok_0 == r1->Ok_0
            &&& s2.nodes.len() == s1.nodes.len()
            &&& get_node_spec(s2, tenant@, r1->Ok_0) matches Some(nv) && nv.label == n2.label@
                && nv.props == props_view(n2.props@) && nv.id_alias == Some(n2.id_alias->0@)
        }),
{
    let alias = n1.id_alias->0@;
    let (s1, r1) = upsert_node_spec(s, tenant, n1);
    lemma_upsert_node_preserves_wf(s, tenant, n1);
    lemma_alias_idx_props(s.nodes, tenant@, alias);
    match alias_idx(s.nodes, tenant@, alias) {
        Some(i) => {
            let updated = overwritten_node(s.nodes[i], n1);
            assert(s1.nodes == s.nodes.update(i, updated));
            assert(alias_match(s1.nodes[i], tenant@, alias));
            assert(forall|j: int|
                0 <= j < i ==> !alias_match(#[trigger] s1.nodes[j], tenant@, alias));
            lemma_alias_idx_of(s1.nodes, tenant@, alias, i);
            let (s2, r2) = upsert_node_spec(s1, tenant, n2);
            let id = s.nodes[i].id;
            assert(r2 == Ok::<u64, GraphErrKind>(id));
            assert(s2.nodes == s1.nodes.update(i, overwritten_node(s1.nodes[i], n2)));
            assert(forall|j: int| 0 <= j < i ==> (#[trigger] s2.nodes[j]).id != id);
            lemma_node_idx_of(s2.nodes, id, i);
            assert(s2.nodes[i].tenant_id@ == tenant@);
        },
        None => {
            let fresh = StoredNode { id: s.next_id, node: n1, tenant_id: tenant };
            assert(s1.nodes == s.nodes.push(fresh));
            let i = s.nodes.len() as int;
            assert(s1.nodes[i] == fresh);
            assert(alias_match(s1.nodes[i], tenant@, alias));
            assert(forall|j: int| 0 <= j < i ==> s1.nodes[j] == #[trigger] s.nodes[j]);
            lemma_alias_idx_of(s1.nodes, tenant@, alias, i);
            let (s2, r2) = upsert_node_spec(s1, tenant, n2);
            let id = s.next_id;
            assert(r2 == Ok::<u64, GraphErrKind>(id));
            assert(s2.nodes == s1.nodes.update(i, overwritten_node(fresh, n2)));
            assert(forall|j: int| 0 <= j < i ==> (#[trigger] s2.nodes[j]).id != id);
            lemma_node_idx_of(s2.nodes, id, i);
            assert(s2.nodes[i].tenant_id@ == tenant@);
        },
    }
}

/// Endpoint validity: an edge upsert succeeds only when both endpoints
/// existed in the tenant at call time.
pub proof fn lemma_edge_endpoint_validity(s: StoreModel, tenant: TenantId, edge: TimeEdge, now: i64)
    ensures
        upsert_edge_spec(s, tenant, edge, now).1 is Ok ==> tenant_has_node(
            s.nodes,
            tenant@,
            edge.from_node_id,
        ) && tenant_has_node(s.nodes, tenant@, edge.to_node_id),
{
}

/// Every relationship result originates in a stored edge that passed the
/// whole filter.
pub proof fn lemma_edge_results_origin(
    edges: Seq<StoredEdge>,
    nodes: Seq<StoredNode>,
    tenant: Seq<char>,
    from: Option<u64>,
    to: Option<u64>,
    types: Seq<String>,
    valid_at: Option<i64>,
)
    ensures
        forall|k: int|
            0 <= k < edge_results(edges, nodes, tenant, from, to, types, valid_at).len()
                ==> exists|j: int|
                0 <= j < edges.len() && edge_filter_match(
                    #[trigger] edges[j],
                    tenant,
                    from,
                    to,
                    types,
                    valid_at,
                ) && #[trigger] edge_results(edges, nodes, tenant, from, to, types, valid_at)[k]
                    == edge_path(edges[j], nodes),
    decreases edges.len(),
{
    if edges.len() > 0 {
        let dl = edges.drop_last();
        lemma_edge_results_origin(dl, nodes, tenant, from, to, types, valid_at);
        let res = edge_results(edges, nodes, tenant, from, to, types, valid_at);
        let rest = edge_results(dl, nodes, tenant, from, to, types, valid_at);
        assert(forall|j: int| 0 <= j < dl.len() ==> dl[j] == #[trigger] edges[j]);
        assert forall|k: int| #![trigger res[k]] 0 <= k < res.len() implies exists|j: int|
            0 <= j < edges.len() && edge_filter_match(
                #[trigger] edges[j],
                tenant,
                from,
                to,
                types,
                valid_at,
            ) && res[k] == edge_path(edges[j], nodes) by {
            if k < rest.len() {
                let j = choose|j: int|
                    0 <= j < dl.len() && edge_filter_match(
                        #[trigger] dl[j],
                        tenant,
                        from,
                        to,
                        types,
                        valid_at,
                    ) && rest[k] == edge_path(dl[j], nodes);
                assert(res[k] == edge_path(edges[j], nodes));
            } else {
                assert(res[k] == edge_path(edges[edges.len() - 1], nodes));
            }
        }
    }
}

/// A stored edge that passes the whole filter, with both endpoints present,
/// contributes a result.
pub proof fn lemma_edge_results_complete(
    edges: Seq<StoredEdge>,
    nodes: Seq<StoredNode>,
    tenant: Seq<char>,
    from: Option<u64>,
    to: Option<u64>,
    types: Seq<String>,
    valid_at: Option<i64>,
    j: int,
)
    requires
        0 <= j < edges.len(),
        edge_filter_match(edges[j], tenant, from, to, types, valid_at),
        node_idx(nodes, edges[j].edge.from_node_id) is Some,
        node_idx(nodes, edges[j].edge.to_node_id) is Some,
    ensures
        exists|k: int|
            0 <= k < edge_results(edges, nodes, tenant, from, to, types, valid_at).len()
                && #[trigger] edge_results(edges, nodes, tenant, from, to, types, valid_at)[k]
                == edge_path(edges[j], nodes),
    decreases edges.len(),
{
    let res = edge_results(edges, nodes, tenant, from, to, types, valid_at);
    let dl = edges.drop_last();
    let rest = edge_results(dl, nodes, tenant, from, to, types, valid_at);
    if j == edges.len() - 1 {
        assert(res[res.len() - 1] == edge_path(edges[j], nodes));
    } else {
        assert(dl[j] == edges[j]);
        lemma_edge_results_complete(dl, nodes, tenant, from, to, types, valid_at, j);
        let k = choose|k: int|
            0 <= k < rest.len() && #[trigger] rest[k] == edge_path(dl[j], nodes);
        assert(res[k] == edge_path(edges[j], nodes));
    }
}

/// Delete-cascade: after a successful node deletion, the node is masked for
/// every tenant, no surviving edge record is incident to it, and no
/// relationship query of any tenant yields a path through it.
pub proof fn lemma_delete_cascade(s: StoreModel, tenant: Seq<char>, id: u64)
    requires
        store_wf(s),
        delete_node_spec(s, tenant, id).1,
    ensures
        ({
            let s2 = delete_node_spec(s, tenant, id).0;
            &&& forall|t2: Seq<char>| #[trigger] get_node_spec(s2, t2, id) is None
            &&& forall|k: int|
                0 <= k < s2.edges.len() ==> (#[trigger] s2.edges[k]).edge.from_node_id != id
                    && s2.edges[k].edge.to_node_id != id
            &&& forall|t2: Seq<char>, from: Option<u64>, to: Option<u64>, types: Seq<String>, valid_at: Option<i64>, limit: Option<u32>, k: int|
                0 <= k < limited(
                    #[trigger] edge_results(s2.edges, s2.nodes, t2, from, to, types, valid_at),
                    limit,
                ).len() ==> (#[trigger] limited(
                    edge_results(s2.edges, s2.nodes, t2, from, to, types, valid_at),
                    limit,
                )[k]).relationships[0].start_node_id != id && limited(
                    edge_results(s2.edges, s2.nodes, t2, from, to, types, valid_at),
                    limit,
                )[k].relationships[0].end_node_id != id
        }),
{
    let s2 = delete_node_spec(s, tenant, id).0;
    lemma_node_idx_props(s.nodes, id);
    let i = node_idx(s.nodes, id)->0;
    let ns = s.nodes.remove(i);
    assert(ns =~= s.nodes.subrange(0, i) + s.nodes.subrange(i + 1, s.nodes.len() as int));
    assert forall|k: int| 0 <= k < ns.len() implies (#[trigger] ns[k]).id != id by {
        if k < i {
            assert(ns[k] == s.nodes[k]);
        } else {
            assert(ns[k] == s.nodes[k + 1]);
        }
    }
    assert forall|t2: Seq<char>| #[trigger] get_node_spec(s2, t2, id) is None by {
        lemma_node_idx_props(ns, id);
        if node_idx(ns, id) is Some {
            assert(ns[node_idx(ns, id)->0].id == id);
        }
    }
    lemma_remove_incident_props(s.edges, id);
    assert forall|t2: Seq<char>, from: Option<u64>, to: Option<u64>, types: Seq<String>, valid_at: Option<i64>, limit: Option<u32>, k: int|
        0 <= k < limited(
            #[trigger] edge_results(s2.edges, s2.nodes, t2, from, to, types, valid_at),
            limit,
        ).len() implies (#[trigger] limited(
        edge_results(s2.edges, s2.nodes, t2, from, to, types, valid_at),
        limit,
    )[k]).relationships[0].start_node_id != id && limited(
        edge_results(s2.edges, s2.nodes, t2, from, to, types, valid_at),
        limit,
    )[k].relationships[0].end_node_id != id by {
        let res = edge_results(s2.edges, s2.nodes, t2, from, to, types, valid_at);
        let lim = limited(res, limit);
        assert(lim[k] == res[k]);
        lemma_edge_results_origin(s2.edges, s2.nodes, t2, from, to, types, valid_at);
        let j = choose|j: int|
            0 <= j < s2.edges.len() && edge_filter_match(
                #[trigger] s2.edges[j],
                t2,
                from,
                to,
                types,
                valid_at,
            ) && res[k] == edge_path(s2.edges[j], s2.nodes);
        assert(s2.edges[j].edge.from_node_id != id && s2.edges[j].edge.to_node_id != id);
    }
}

/// The temporal predicate: a stored edge that passes the non-temporal filter
/// appears among the results of a query at instant `p` exactly when its
/// half-open valid-time interval contains `p`.
pub proof fn lemma_temporal_predicate(
    s: StoreModel,
    tenant: Seq<char>,
    from: Option<u64>,
    to: Option<u64>,
    types: Seq<String>,
    p: i64,
    j: int,
)
    requires
        store_wf(s),
        0 <= j < s.edges.len(),
        edge_filter_match(s.edges[j], tenant, from, to, types, None),
    ensures
        ({
            let res = edge_results(s.edges, s.nodes, tenant, from, to, types, Some(p));
            (exists|k: int|
                0 <= k < res.len() && (#[trigger] res[k]).relationships[0].id == s.edges[j].id)
                <==> spec_valid_at(s.edges[j].edge.valid_from, s.edges[j].edge.valid_to, p)
        }),
{
    let res = edge_results(s.edges, s.nodes, tenant, from, to, types, Some(p));
    let e = s.edges[j];
    if spec_valid_at(e.edge.valid_from, e.edge.valid_to, p) {
        assert(edge_filter_match(e, tenant, from, to, types, Some(p)));
        assert(tenant_has_node(s.nodes, e.tenant_id@, e.edge.from_node_id));
        assert(tenant_has_node(s.nodes, e.tenant_id@, e.edge.to_node_id));
        lemma_node_idx_props(s.nodes, e.edge.from_node_id);
        lemma_node_idx_props(s.nodes, e.edge.to_node_id);
        assert(node_idx(s.nodes, e.edge.from_node_id) is Some) by {
            if node_idx(s.nodes, e.edge.from_node_id) is None {
                let w = choose|w: int|
                    0 <= w < s.nodes.len() && #[trigger] s.nodes[w].id == e.edge.from_node_id
                        && s.nodes[w].tenant_id@ == e.tenant_id@;
                assert(false);
            }
        }
        assert(node_idx(s.nodes, e.edge.to_node_id) is Some) by {
            if node_idx(s.nodes, e.edge.to_node_id) is None {
                let w = choose|w: int|
                    0 <= w < s.nodes.len() && #[trigger] s.nodes[w].id == e.edge.to_node_id
                        && s.nodes[w].tenant_id@ == e.tenant_id@;
                assert(false);
            }
        }
        lemma_edge_results_complete(s.edges, s.nodes, tenant, from, to, types, Some(p), j);
        let k = choose|k: int|
            0 <= k < res.len() && #[trigger] res[k] == edge_path(e, s.nodes);
        assert(res[k].relationships[0].id == e.id);
    }
    if exists|k: int|
        0 <= k < res.len() && (#[trigger] res[k]).relationships[0].id == s.edges[j].id {
        let k = choose|k: int|
            0 <= k < res.len() && (#[trigger] res[k]).relationships[0].id == s.edges[j].id;
        lemma_edge_results_origin(s.edges, s.nodes, tenant, from, to, types, Some(p));
        let w = choose|w: int|
            0 <= w < s.edges.len() && edge_filter_match(
                #[trigger] s.edges[w],
                tenant,
                from,
                to,
                types,
                Some(p),
            ) && res[k] == edge_path(s.edges[w], s.nodes);
        assert(s.edges[w].id == s.edges[j].id);
        assert(w == j) by {
            if w != j {
                if w < j {
                    assert(s.edges[w].id != s.edges[j].id);
                } else {
                    assert(s.edges[j].id != s.edges[w].id);
                }
            }
        }
    }
}

/// The as-of rewrite: an as-of query over a relationship base returns exactly
/// what the base returns with its valid-time instant replaced by the as-of
/// instant.
pub proof fn lemma_as_of_rewrite(
    s: StoreModel,
    tenant: Seq<char>,
    q: GraphQuery,
    rewritten: GraphQuery,
)
    requires
        q matches GraphQuery::AsOfQuery { base_query, as_of_time } && (*base_query) matches
            GraphQuery::FindRelationships {
            from_node_id,
            to_node_id,
            relationship_types,
            valid_at,
            limit,
        } && rewritten == (GraphQuery::FindRelationships {
            from_node_id,
            to_node_id,
            relationship_types,
            valid_at: Some(as_of_time),
            limit,
        }),
    ensures
        query_spec(s, tenant, q) == query_spec(s, tenant, rewritten),
{
}

} // verus!
