//! The in-memory reference store: primary node and edge records in insertion
//! order, tenant isolation on every read path, cascading deletes, capacity
//! caps, and the closed query algebra. Every operation is proved against the
//! transition functions of the functional model.

use vstd::prelude::*;

use vstd::string::StringExecFns;

use crate::errors::GraphError;
use crate::model::{
    StoreModel, store_wf, get_node_spec, get_node_by_alias_spec, node_idx, edge_idx, alias_idx,
    alias_match, lemma_node_idx_props, lemma_node_idx_skip, lemma_edge_idx_skip,
    lemma_alias_idx_skip, upsert_node_spec, upsert_edge_spec, delete_node_spec, delete_edge_spec,
    overwritten_node, stamped_edge, remove_incident, tenant_has_node, kind_of,
    upsert_edge_outcome_matches, node_filter_match, edge_filter_match, label_in, node_path,
    path_node_of, edge_path, node_results, edge_results, limited, paths_view, query_spec,
    lemma_node_results_take_prefix, lemma_edge_results_take_prefix,
    lemma_upsert_node_preserves_wf, lemma_upsert_edge_preserves_wf, lemma_delete_node_preserves_wf,
    lemma_delete_edge_preserves_wf,
};
use crate::props::{PropEntry, props_view, lookup_prop};
use crate::types::{Node, TenantId, TimeEdge, GraphQuery, Path, PathNode, PathRelationship};

verus! {

broadcast use vstd::seq::group_seq_axioms;

/// Configuration of the in-memory store.
#[derive(Debug, Clone, Copy)]
pub struct InMemoryConfig {
    /// Maximum number of nodes to store; `None` means unbounded.
    pub max_nodes: Option<usize>,
    /// Maximum number of edges to store; `None` means unbounded.
    pub max_edges: Option<usize>,
    /// Whether to keep verbose accounting; the store's behaviour does not
    /// depend on it.
    pub verbose: bool,
}

impl Default for InMemoryConfig {
    /// The default caps: one hundred thousand nodes, half a million edges.
    fn default() -> (r: Self)
        ensures
            r.max_nodes == Some(100_000usize),
            r.max_edges == Some(500_000usize),
            !r.verbose,
    {
        InMemoryConfig { max_nodes: Some(100_000), max_edges: Some(500_000), verbose: false }
    }
}

/// A node record: the system id, the node value, and the owning tenant.
pub struct StoredNode {
    pub id: u64,
    pub node: Node,
    pub tenant_id: TenantId,
}

/// An edge record: the system id, the edge value, and the owning tenant.
pub struct StoredEdge {
    pub id: u64,
    pub edge: TimeEdge,
    pub tenant_id: TenantId,
}

/// The in-memory store.
pub struct InMemoryStore {
    nodes: Vec<StoredNode>,
    edges: Vec<StoredEdge>,
    next_id: u64,
    config: InMemoryConfig,
}

impl View for InMemoryStore {
    type V = StoreModel;

    closed spec fn view(&self) -> StoreModel {
        StoreModel {
            nodes: self.nodes@,
            edges: self.edges@,
            next_id: self.next_id,
            max_nodes: self.config.max_nodes,
            max_edges: self.config.max_edges,
        }
    }
}

impl InMemoryStore {
    /// Well-formedness of the store: the model's invariant holds. Every
    /// constructor establishes it and every operation preserves it.
    pub open spec fn inv(&self) -> bool {
        store_wf(self@)
    }

    /// An empty store with the default configuration.
    pub fn new() -> (r: Self)
        ensures
            r.inv(),
            r@.nodes == Seq::<StoredNode>::empty(),
            r@.edges == Seq::<StoredEdge>::empty(),
            r@.next_id == 1,
            r@.max_nodes == Some(100_000usize),
            r@.max_edges == Some(500_000usize),
    {
        Self::new_with_config(InMemoryConfig::default())
    }

    /// An empty store with the given configuration.
    pub fn new_with_config(config: InMemoryConfig) -> (r: Self)
        ensures
            r.inv(),
            r@.nodes == Seq::<StoredNode>::empty(),
            r@.edges == Seq::<StoredEdge>::empty(),
            r@.next_id == 1,
            r@.max_nodes == config.max_nodes,
            r@.max_edges == config.max_edges,
    {
        InMemoryStore { nodes: Vec::new(), edges: Vec::new(), next_id: 1, config }
    }

    /// The number of stored nodes and edges.
    pub fn stats(&self) -> (r: (usize, usize))
        ensures
            r.0 == self@.nodes.len(),
            r.1 == self@.edges.len(),
    {
        (self.nodes.len(), self.edges.len())
    }

    /// Removes every record, keeping the configuration.
    pub fn clear(&mut self)
        ensures
            final(self).inv(),
            final(self)@.nodes == Seq::<StoredNode>::empty(),
            final(self)@.edges == Seq::<StoredEdge>::empty(),
            final(self)@.next_id == 1,
            final(self)@.max_nodes == old(self)@.max_nodes,
            final(self)@.max_edges == old(self)@.max_edges,
    {
        self.nodes = Vec::new();
        self.edges = Vec::new();
        self.next_id = 1;
    }

    /// Liveness probe; the in-memory store is always reachable.
    pub fn health_check(&self) -> (r: Result<(), GraphError>)
        ensures
            r is Ok,
    {
        Ok(())
    }

    /// Returns the node with the given system id, masked unless its tenant
    /// matches: a caller never learns whether a foreign record exists.
    pub fn get_node(&self, tenant: &TenantId, id: u64) -> (r: Result<Option<Node>, GraphError>)
        ensures
            r matches Ok(opt) && match opt {
                Some(n) => get_node_spec(self@, tenant@, id) == Some(n@),
                None => get_node_spec(self@, tenant@, id) is None,
            },
    {
        let ghost nodes = self@.nodes;
        let mut i: usize = 0;
        while i < self.nodes.len()
            invariant
                0 <= i <= self.nodes.len(),
                nodes == self@.nodes,
                forall|j: int| 0 <= j < i ==> (#[trigger] nodes[j]).id != id,
            decreases self.nodes.len() - i,
        {
            if self.nodes[i].id == id {
                proof {
                    lemma_node_idx_skip(nodes, id, i as int);
                    assert(nodes.skip(i as int)[0] == nodes[i as int]);
                }
                if self.nodes[i].tenant_id == *tenant {
                    return Ok(Some(self.nodes[i].node.clone()));
                } else {
                    return Ok(None);
                }
            }
            i += 1;
        }
        proof {
            lemma_node_idx_skip(nodes, id, nodes.len() as int);
            assert(nodes.skip(nodes.len() as int).len() == 0);
        }
        Ok(None)
    }

    /// Returns the tenant's node carrying the given alias, with its system
    /// id.
    pub fn get_node_by_alias(&self, tenant: &TenantId, id_alias: &str) -> (r: Result<
        Option<(u64, Node)>,
        GraphError,
    >)
        ensures
            r matches Ok(opt) && match opt {
                Some(p) => get_node_by_alias_spec(self@, tenant@, id_alias@) == Some(
                    (p.0, p.1@),
                ),
                None => get_node_by_alias_spec(self@, tenant@, id_alias@) is None,
            },
    {
        let ghost nodes = self@.nodes;
        let mut i: usize = 0;
        while i < self.nodes.len()
            invariant
                0 <= i <= self.nodes.len(),
                nodes == self@.nodes,
                forall|j: int| 0 <= j < i ==> !alias_match(#[trigger] nodes[j], tenant@, id_alias@),
            decreases self.nodes.len() - i,
        {
            let candidate = &self.nodes[i];
            let tenant_matches = candidate.tenant_id == *tenant;
            let alias_matches = match &candidate.node.id_alias {
                Some(a) => crate::ext::str_eq(a.as_str(), id_alias),
                None => false,
            };
            if tenant_matches && alias_matches {
                proof {
                    lemma_alias_idx_skip(nodes, tenant@, id_alias@, i as int);
                    assert(nodes.skip(i as int)[0] == nodes[i as int]);
                }
                return Ok(Some((self.nodes[i].id, self.nodes[i].node.clone())));
            }
            i += 1;
        }
        proof {
            lemma_alias_idx_skip(nodes, tenant@, id_alias@, nodes.len() as int);
            assert(nodes.skip(nodes.len() as int).len() == 0);
        }
        Ok(None)
    }

    /// Index of the first record carrying the given system id.
    fn find_node_index(&self, id: u64) -> (r: Option<usize>)
        ensures
            match r {
                Some(i) => node_idx(self@.nodes, id) == Some(i as int) && i < self@.nodes.len()
                    && self@.nodes[i as int].id == id,
                None => node_idx(self@.nodes, id) is None,
            },
    {
        let ghost nodes = self@.nodes;
        let mut i: usize = 0;
        while i < self.nodes.len()
            invariant
                0 <= i <= self.nodes.len(),
                nodes == self@.nodes,
                forall|j: int| 0 <= j < i ==> (#[trigger] nodes[j]).id != id,
            decreases self.nodes.len() - i,
        {
            if self.nodes[i].id == id {
                proof {
                    lemma_node_idx_skip(nodes, id, i as int);
                    assert(nodes.skip(i as int)[0] == nodes[i as int]);
                }
                return Some(i);
            }
            i += 1;
        }
        proof {
            lemma_node_idx_skip(nodes, id, nodes.len() as int);
            assert(nodes.skip(nodes.len() as int).len() == 0);
        }
        None
    }

    /// Index of the first edge record carrying the given system id.
    fn find_edge_index(&self, id: u64) -> (r: Option<usize>)
        ensures
            match r {
                Some(i) => edge_idx(self@.edges, id) == Some(i as int) && i < self@.edges.len()
                    && self@.edges[i as int].id == id,
                None => edge_idx(self@.edges, id) is None,
            },
    {
        let ghost edges = self@.edges;
        let mut i: usize = 0;
        while i < self.edges.len()
            invariant
                0 <= i <= self.edges.len(),
                edges == self@.edges,
                forall|j: int| 0 <= j < i ==> (#[trigger] edges[j]).id != id,
            decreases self.edges.len() - i,
        {
            if self.edges[i].id == id {
                proof {
                    lemma_edge_idx_skip(edges, id, i as int);
                    assert(edges.skip(i as int)[0] == edges[i as int]);
                }
                return Some(i);
            }
            i += 1;
        }
        proof {
            lemma_edge_idx_skip(edges, id, edges.len() as int);
            assert(edges.skip(edges.len() as int).len() == 0);
        }
        None
    }

    /// Index of the first record carrying the tenant's alias.
    fn find_alias_index(&self, tenant: &TenantId, alias: &String) -> (r: Option<usize>)
        ensures
            match r {
                Some(i) => alias_idx(self@.nodes, tenant@, alias@) == Some(i as int) && i
                    < self@.nodes.len() && alias_match(self@.nodes[i as int], tenant@, alias@),
                None => alias_idx(self@.nodes, tenant@, alias@) is None,
            },
    {
        let ghost nodes = self@.nodes;
        let mut i: usize = 0;
        while i < self.nodes.len()
            invariant
                0 <= i <= self.nodes.len(),
                nodes == self@.nodes,
                forall|j: int| 0 <= j < i ==> !alias_match(#[trigger] nodes[j], tenant@, alias@),
            decreases self.nodes.len() - i,
        {
            let candidate = &self.nodes[i];
            let tenant_matches = candidate.tenant_id == *tenant;
            let alias_matches = match &candidate.node.id_alias {
                Some(a) => *a == *alias,
                None => false,
            };
            if tenant_matches && alias_matches {
                proof {
                    lemma_alias_idx_skip(nodes, tenant@, alias@, i as int);
                    assert(nodes.skip(i as int)[0] == nodes[i as int]);
                }
                return Some(i);
            }
            i += 1;
        }
        proof {
            lemma_alias_idx_skip(nodes, tenant@, alias@, nodes.len() as int);
            assert(nodes.skip(nodes.len() as int).len() == 0);
        }
        None
    }

    /// A node with the given id exists in the tenant.
    fn tenant_node_exists(&self, tenant: &TenantId, id: u64) -> (r: bool)
        ensures
            r == tenant_has_node(self@.nodes, tenant@, id),
    {
        let ghost nodes = self@.nodes;
        let mut i: usize = 0;
        while i < self.nodes.len()
            invariant
                0 <= i <= self.nodes.len(),
                nodes == self@.nodes,
                forall|j: int|
                    0 <= j < i ==> !((#[trigger] nodes[j]).id == id && nodes[j].tenant_id@
                        == tenant@),
            decreases self.nodes.len() - i,
        {
            if self.nodes[i].id == id && self.nodes[i].tenant_id == *tenant {
                proof {
                    assert(nodes[i as int].id == id && nodes[i as int].tenant_id@ == tenant@);
                }
                return true;
            }
            i += 1;
        }
        false
    }

    /// Inserts or updates a node for the tenant: a node whose alias is
    /// already indexed for the tenant overwrites that record and returns its
    /// existing id, whatever the cap — an overwrite does not grow the store.
    /// Any other node is inserted under a fresh id, which the node cap
    /// refuses with `ConstraintViolation`.
    pub fn upsert_node(&mut self, tenant: &TenantId, node: Node) -> (r: Result<u64, GraphError>)
        requires
            old(self).inv(),
        ensures
            final(self).inv(),
            ({
                let (s2, res) = upsert_node_spec(old(self)@, *tenant, node);
                &&& final(self)@ == s2
                &&& match (r, res) {
                    (Ok(id), Ok(mid)) => id == mid,
                    (Err(e), Err(k)) => kind_of(e) == k,
                    _ => false,
                }
            }),
    {
        proof {
            lemma_upsert_node_preserves_wf(old(self)@, *tenant, node);
        }
        let found = match &node.id_alias {
            Some(alias) => self.find_alias_index(tenant, alias),
            None => None,
        };
        match found {
            Some(i) => {
                let id = self.nodes[i].id;
                let prior_tenant = self.nodes[i].tenant_id.clone();
                proof {
                    assert(StoredNode { id, node: node, tenant_id: prior_tenant }
                        == overwritten_node(old(self)@.nodes[i as int], node));
                }
                self.nodes[i] = StoredNode { id, node, tenant_id: prior_tenant };
                Ok(id)
            },
            None => {
                let at_cap = match self.config.max_nodes {
                    Some(m) => self.nodes.len() >= m,
                    None => false,
                };
                if at_cap {
                    return Err(
                        GraphError::ConstraintViolation(
                            String::from_str("maximum node limit reached"),
                        ),
                    );
                }
                if self.next_id == u64::MAX {
                    return Err(
                        GraphError::ConstraintViolation(
                            String::from_str("system id space exhausted"),
                        ),
                    );
                }
                let id = self.next_id;
                self.nodes.push(StoredNode { id, node, tenant_id: tenant.clone() });
                self.next_id = id + 1;
                Ok(id)
            },
        }
    }

    /// Inserts an edge for the tenant at the given stamping instant: rejects
    /// it at the edge cap, when either endpoint is missing from the tenant
    /// (source first), or when its intervals are out of order once the
    /// transaction start is stamped; otherwise appends it under a fresh id.
    pub fn upsert_edge_at(&mut self, tenant: &TenantId, edge: TimeEdge, now: i64) -> (r: Result<
        u64,
        GraphError,
    >)
        requires
            old(self).inv(),
        ensures
            final(self).inv(),
            ({
                let (s2, res) = upsert_edge_spec(old(self)@, *tenant, edge, now);
                &&& final(self)@ == s2
                &&& match (r, res) {
                    (Ok(id), Ok(mid)) => id == mid,
                    (Err(e), Err(k)) => kind_of(e) == k,
                    _ => false,
                }
            }),
    {
        proof {
            lemma_upsert_edge_preserves_wf(old(self)@, *tenant, edge, now);
        }
        let at_cap = match self.config.max_edges {
            Some(m) => self.edges.len() >= m,
            None => false,
        };
        if at_cap {
            return Err(
                GraphError::ConstraintViolation(String::from_str("maximum edge limit reached")),
            );
        }
        if !self.tenant_node_exists(tenant, edge.from_node_id) {
            return Err(
                GraphError::NodeNotFound(String::from_str("source node missing from tenant")),
            );
        }
        if !self.tenant_node_exists(tenant, edge.to_node_id) {
            return Err(
                GraphError::NodeNotFound(String::from_str("target node missing from tenant")),
            );
        }
        let tx_start = match edge.transaction_start_time {
            Some(t) => t,
            None => now,
        };
        let stamped = TimeEdge { transaction_start_time: Some(tx_start), ..edge };
        proof {
            assert(stamped == stamped_edge(edge, now));
        }
        let valid_ok = match stamped.valid_to {
            Some(end) => stamped.valid_from <= end,
            None => true,
        };
        let tx_ok = match stamped.transaction_end_time {
            Some(end) => tx_start <= end,
            None => true,
        };
        if !(valid_ok && tx_ok) {
            return Err(
                GraphError::ConstraintViolation(
                    String::from_str("temporal interval out of order"),
                ),
            );
        }
        if self.next_id == u64::MAX {
            return Err(
                GraphError::ConstraintViolation(String::from_str("system id space exhausted")),
            );
        }
        let id = self.next_id;
        self.edges.push(StoredEdge { id, edge: stamped, tenant_id: tenant.clone() });
        self.next_id = id + 1;
        Ok(id)
    }

    /// Inserts an edge for the tenant, stamping an unset transaction start
    /// with the wall clock's current instant.
    pub fn upsert_edge(&mut self, tenant: &TenantId, edge: TimeEdge) -> (r: Result<
        u64,
        GraphError,
    >)
        requires
            old(self).inv(),
        ensures
            final(self).inv(),
            exists|now: i64|
                #[trigger] upsert_edge_outcome_matches(
                    old(self)@,
                    *tenant,
                    edge,
                    now,
                    final(self)@,
                    r,
                ),
            r is Ok ==> tenant_has_node(old(self)@.nodes, tenant@, edge.from_node_id)
                && tenant_has_node(old(self)@.nodes, tenant@, edge.to_node_id),
    {
        let now = crate::ext::now_micros();
        let r = self.upsert_edge_at(tenant, edge, now);
        proof {
            assert(upsert_edge_outcome_matches(old(self)@, *tenant, edge, now, self@, r));
        }
        r
    }

    /// Deletes a node of the tenant, cascading to every incident edge; `false`
    /// when the id is absent or owned by another tenant.
    pub fn delete_node(&mut self, tenant: &TenantId, id: u64) -> (r: Result<bool, GraphError>)
        requires
            old(self).inv(),
        ensures
            final(self).inv(),
            ({
                let (s2, deleted) = delete_node_spec(old(self)@, tenant@, id);
                &&& final(self)@ == s2
                &&& r matches Ok(b) && b == deleted
            }),
    {
        proof {
            lemma_delete_node_preserves_wf(old(self)@, tenant@, id);
            lemma_node_idx_props(old(self)@.nodes, id);
        }
        let found = self.find_node_index(id);
        match found {
            Some(i) => {
                if !(self.nodes[i].tenant_id == *tenant) {
                    return Ok(false);
                }
                self.remove_incident_edges(id);
                self.nodes.remove(i);
                Ok(true)
            },
            None => Ok(false),
        }
    }

    /// Removes every edge incident to the node with the given id, keeping the
    /// others in order.
    fn remove_incident_edges(&mut self, id: u64)
        ensures
            final(self)@.edges == remove_incident(old(self)@.edges, id),
            final(self)@.nodes == old(self)@.nodes,
            final(self)@.next_id == old(self)@.next_id,
            final(self)@.max_nodes == old(self)@.max_nodes,
            final(self)@.max_edges == old(self)@.max_edges,
    {
        let ghost orig = self@.edges;
        // Learn that the record count fits the machine word.
        let _count = self.edges.len();
        let mut consumed: usize = 0;
        let mut kept: usize = 0;
        while kept < self.edges.len()
            invariant
                orig.len() <= usize::MAX,
                0 <= kept <= self.edges.len(),
                0 <= consumed,
                consumed <= orig.len(),
                self.edges@.len() == kept + orig.len() - consumed,
                self.edges@ =~= remove_incident(orig.take(consumed as int), id) + orig.skip(
                    consumed as int,
                ),
                kept == remove_incident(orig.take(consumed as int), id).len(),
                self@.nodes == old(self)@.nodes,
                self@.next_id == old(self)@.next_id,
                self@.max_nodes == old(self)@.max_nodes,
                self@.max_edges == old(self)@.max_edges,
            decreases orig.len() - consumed,
        {
            proof {
                assert(orig.skip(consumed as int).len() > 0);
                assert(self.edges@[kept as int] == orig.skip(consumed as int)[0]);
                assert(orig.skip(consumed as int)[0] == orig[consumed as int]);
                assert(orig.take(consumed as int + 1).drop_last() =~= orig.take(consumed as int));
                assert(orig.take(consumed as int + 1).last() == orig[consumed as int]);
                assert(orig.skip(consumed as int).drop_first() =~= orig.skip(consumed as int + 1));
            }
            let incident = self.edges[kept].edge.from_node_id == id
                || self.edges[kept].edge.to_node_id == id;
            if incident {
                self.edges.remove(kept);
                proof {
                    assert(self.edges@ =~= remove_incident(orig.take(consumed as int + 1), id)
                        + orig.skip(consumed as int + 1));
                }
            } else {
                proof {
                    assert(remove_incident(orig.take(consumed as int + 1), id) =~= remove_incident(
                        orig.take(consumed as int),
                        id,
                    ).push(orig[consumed as int]));
                    assert(self.edges@ =~= remove_incident(orig.take(consumed as int + 1), id)
                        + orig.skip(consumed as int + 1));
                }
                kept += 1;
            }
            proof {
                assert(consumed < orig.len());
            }
            consumed += 1;
        }
        proof {
            assert(orig.take(orig.len() as int) =~= orig);
            assert(orig.skip(orig.len() as int).len() == 0);
            assert(self.edges@ =~= remove_incident(orig, id));
        }
    }

    /// Deletes an edge of the tenant; `false` when the id is absent or owned
    /// by another tenant.
    pub fn delete_edge(&mut self, tenant: &TenantId, id: u64) -> (r: Result<bool, GraphError>)
        requires
            old(self).inv(),
        ensures
            final(self).inv(),
            ({
                let (s2, deleted) = delete_edge_spec(old(self)@, tenant@, id);
                &&& final(self)@ == s2
                &&& r matches Ok(b) && b == deleted
            }),
    {
        proof {
            lemma_delete_edge_preserves_wf(old(self)@, tenant@, id);
        }
        let found = self.find_edge_index(id);
        match found {
            Some(i) => {
                if !(self.edges[i].tenant_id == *tenant) {
                    return Ok(false);
                }
                self.edges.remove(i);
                Ok(true)
            },
            None => Ok(false),
        }
    }

    /// Whether a node record passes a `FindNodes` filter.
    fn node_passes(
        &self,
        n: &StoredNode,
        tenant: &TenantId,
        labels: &Vec<String>,
        properties: &Vec<PropEntry>,
    ) -> (r: bool)
        ensures
            r == node_filter_match(*n, tenant@, labels@, props_view(properties@)),
    {
        if !(n.tenant_id == *tenant) {
            return false;
        }
        if labels.len() > 0 {
            let mut found = false;
            let mut i: usize = 0;
            while i < labels.len()
                invariant
                    0 <= i <= labels@.len(),
                    !found ==> forall|j: int| 0 <= j < i ==> (#[trigger] labels@[j])@
                        != n.node.label@,
                    found ==> label_in(labels@, n.node.label@),
                decreases labels@.len() - i,
            {
                if crate::ext::str_eq(labels[i].as_str(), n.node.label.as_str()) {
                    found = true;
                    proof {
                        assert(labels@[i as int]@ == n.node.label@);
                    }
                }
                i += 1;
            }
            if !found {
                proof {
                    assert(!label_in(labels@, n.node.label@));
                }
                return false;
            }
        }
        let ghost nprops = props_view(n.node.props@);
        let ghost filter = props_view(properties@);
        let mut i: usize = 0;
        while i < properties.len()
            invariant
                0 <= i <= properties@.len(),
                nprops == props_view(n.node.props@),
                filter == props_view(properties@),
                filter.len() == properties@.len(),
                forall|j: int|
                    0 <= j < i ==> lookup_prop(nprops, (#[trigger] filter[j]).key) == Some(
                        filter[j].value,
                    ),
            decreases properties@.len() - i,
        {
            let expected = &properties[i];
            match crate::props::props_get(&n.node.props, expected.key.as_str()) {
                Some(actual) => {
                    if !crate::props::prop_value_eq(actual, &expected.value) {
                        proof {
                            assert(lookup_prop(nprops, filter[i as int].key) != Some(
                                filter[i as int].value,
                            ));
                        }
                        return false;
                    }
                },
                None => {
                    proof {
                        assert(lookup_prop(nprops, filter[i as int].key) is None);
                    }
                    return false;
                },
            }
            i += 1;
        }
        true
    }

    /// The length-1 path for a matching node.
    fn build_node_path(n: &StoredNode) -> (r: Path)
        ensures
            r@ == node_path(*n),
    {
        let path_node = Self::build_path_node(n);
        let mut nodes: Vec<PathNode> = Vec::new();
        nodes.push(path_node);
        let r = Path { nodes, relationships: Vec::new() };
        proof {
            assert(node_path(*n).nodes[0] == path_node_of(*n));
            assert(r@.nodes =~= node_path(*n).nodes);
            assert(r@.relationships =~= node_path(*n).relationships);
        }
        r
    }

    /// Finds the tenant's nodes matching the labels and property filter,
    /// truncating at the limit.
    fn find_nodes(
        &self,
        tenant: &TenantId,
        labels: &Vec<String>,
        properties: &Vec<PropEntry>,
        limit: Option<u32>,
    ) -> (r: Vec<Path>)
        ensures
            paths_view(r@) == limited(
                node_results(self@.nodes, tenant@, labels@, props_view(properties@)),
                limit,
            ),
    {
        let ghost nodes = self@.nodes;
        let ghost filter = props_view(properties@);
        let unlimited = limit.is_none();
        let cap: usize = match limit {
            Some(l) => l as usize,
            None => 0,
        };
        let ghost full = node_results(nodes, tenant@, labels@, filter);
        let mut out: Vec<Path> = Vec::new();
        let mut i: usize = 0;
        while i < self.nodes.len() && (unlimited || out.len() < cap)
            invariant
                0 <= i <= self.nodes.len(),
                nodes == self@.nodes,
                filter == props_view(properties@),
                full == node_results(nodes, tenant@, labels@, filter),
                paths_view(out@) =~= node_results(nodes.take(i as int), tenant@, labels@, filter),
                out@.len() == node_results(nodes.take(i as int), tenant@, labels@, filter).len(),
                !unlimited ==> out@.len() <= cap,
            decreases self.nodes.len() - i,
        {
            proof {
                assert(nodes.take(i as int + 1).drop_last() =~= nodes.take(i as int));
                assert(nodes.take(i as int + 1).last() == nodes[i as int]);
            }
            if self.node_passes(&self.nodes[i], tenant, labels, properties) {
                let path = Self::build_node_path(&self.nodes[i]);
                out.push(path);
                proof {
                    assert(paths_view(out@) =~= node_results(
                        nodes.take(i as int + 1),
                        tenant@,
                        labels@,
                        filter,
                    ));
                }
            } else {
                proof {
                    assert(paths_view(out@) =~= node_results(
                        nodes.take(i as int + 1),
                        tenant@,
                        labels@,
                        filter,
                    ));
                }
            }
            i += 1;
        }
        proof {
            lemma_node_results_take_prefix(nodes, tenant@, labels@, filter, i as int);
            if i == nodes.len() {
                assert(nodes.take(i as int) =~= nodes);
                assert(paths_view(out@) =~= limited(full, limit));
            } else {
                assert(!unlimited && out@.len() == cap);
                assert(full.len() >= cap);
                assert(paths_view(out@) =~= full.take(cap as int));
                assert(paths_view(out@) =~= limited(full, limit));
            }
        }
        out
    }

    /// Whether an edge record passes a `FindRelationships` filter.
    fn edge_passes(
        &self,
        e: &StoredEdge,
        tenant: &TenantId,
        from_node_id: Option<u64>,
        to_node_id: Option<u64>,
        relationship_types: &Vec<String>,
        valid_at: Option<i64>,
    ) -> (r: bool)
        ensures
            r == edge_filter_match(
                *e,
                tenant@,
                from_node_id,
                to_node_id,
                relationship_types@,
                valid_at,
            ),
    {
        if !(e.tenant_id == *tenant) {
            return false;
        }
        match from_node_id {
            Some(f) => if e.edge.from_node_id != f {
                return false;
            },
            None => {},
        }
        match to_node_id {
            Some(t) => if e.edge.to_node_id != t {
                return false;
            },
            None => {},
        }
        if relationship_types.len() > 0 {
            let mut found = false;
            let mut i: usize = 0;
            while i < relationship_types.len()
                invariant
                    0 <= i <= relationship_types@.len(),
                    !found ==> forall|j: int|
                        0 <= j < i ==> (#[trigger] relationship_types@[j])@ != e.edge.kind@,
                    found ==> label_in(relationship_types@, e.edge.kind@),
                decreases relationship_types@.len() - i,
            {
                if crate::ext::str_eq(relationship_types[i].as_str(), e.edge.kind.as_str()) {
                    found = true;
                    proof {
                        assert(relationship_types@[i as int]@ == e.edge.kind@);
                    }
                }
                i += 1;
            }
            if !found {
                proof {
                    assert(!label_in(relationship_types@, e.edge.kind@));
                }
                return false;
            }
        }
        match valid_at {
            Some(p) => e.edge.was_valid_at(p),
            None => true,
        }
    }

    /// The path-node for a stored node.
    fn build_path_node(n: &StoredNode) -> (r: PathNode)
        ensures
            r@ == path_node_of(*n),
    {
        let mut labels: Vec<String> = Vec::new();
        labels.push(n.node.label.clone());
        let r = PathNode { id: n.id, labels, properties: crate::props::clone_props(&n.node.props) };
        proof {
            assert(r@.labels =~= path_node_of(*n).labels);
            assert(r@ == path_node_of(*n));
        }
        r
    }

    /// The length-2 path for a matching edge whose endpoints sit at the given
    /// record indices.
    fn build_edge_path(&self, e: &StoredEdge, from_i: usize, to_i: usize) -> (r: Path)
        requires
            from_i < self@.nodes.len(),
            to_i < self@.nodes.len(),
            node_idx(self@.nodes, e.edge.from_node_id) == Some(from_i as int),
            node_idx(self@.nodes, e.edge.to_node_id) == Some(to_i as int),
        ensures
            r@ == edge_path(*e, self@.nodes),
    {
        let start = Self::build_path_node(&self.nodes[from_i]);
        let end = Self::build_path_node(&self.nodes[to_i]);
        let mut nodes: Vec<PathNode> = Vec::new();
        nodes.push(start);
        nodes.push(end);
        let rel = PathRelationship {
            id: e.id,
            rel_type: e.edge.kind.clone(),
            start_node_id: e.edge.from_node_id,
            end_node_id: e.edge.to_node_id,
            properties: crate::props::clone_props(&e.edge.props),
        };
        let mut relationships: Vec<PathRelationship> = Vec::new();
        relationships.push(rel);
        let r = Path { nodes, relationships };
        proof {
            assert(r@.nodes =~= edge_path(*e, self@.nodes).nodes);
            assert(r@.relationships =~= edge_path(*e, self@.nodes).relationships);
        }
        r
    }

    /// Finds the tenant's relationships matching the endpoints, types and
    /// valid-time instant, truncating at the limit; each result path holds
    /// both endpoint nodes and the single relationship.
    fn find_relationships(
        &self,
        tenant: &TenantId,
        from_node_id: Option<u64>,
        to_node_id: Option<u64>,
        relationship_types: &Vec<String>,
        valid_at: Option<i64>,
        limit: Option<u32>,
    ) -> (r: Vec<Path>)
        ensures
            paths_view(r@) == limited(
                edge_results(
                    self@.edges,
                    self@.nodes,
                    tenant@,
                    from_node_id,
                    to_node_id,
                    relationship_types@,
                    valid_at,
                ),
                limit,
            ),
    {
        let ghost edges = self@.edges;
        let ghost nodes = self@.nodes;
        let unlimited = limit.is_none();
        let cap: usize = match limit {
            Some(l) => l as usize,
            None => 0,
        };
        let ghost full = edge_results(
            edges,
            nodes,
            tenant@,
            from_node_id,
            to_node_id,
            relationship_types@,
            valid_at,
        );
        let mut out: Vec<Path> = Vec::new();
        let mut i: usize = 0;
        while i < self.edges.len() && (unlimited || out.len() < cap)
            invariant
                0 <= i <= self.edges.len(),
                edges == self@.edges,
                nodes == self@.nodes,
                full == edge_results(
                    edges,
                    nodes,
                    tenant@,
                    from_node_id,
                    to_node_id,
                    relationship_types@,
                    valid_at,
                ),
                paths_view(out@) =~= edge_results(
                    edges.take(i as int),
                    nodes,
                    tenant@,
                    from_node_id,
                    to_node_id,
                    relationship_types@,
                    valid_at,
                ),
                out@.len() == edge_results(
                    edges.take(i as int),
                    nodes,
                    tenant@,
                    from_node_id,
                    to_node_id,
                    relationship_types@,
                    valid_at,
                ).len(),
                !unlimited ==> out@.len() <= cap,
            decreases self.edges.len() - i,
        {
            proof {
                assert(edges.take(i as int + 1).drop_last() =~= edges.take(i as int));
                assert(edges.take(i as int + 1).last() == edges[i as int]);
            }
            if self.edge_passes(
                &self.edges[i],
                tenant,
                from_node_id,
                to_node_id,
                relationship_types,
                valid_at,
            ) {
                let from_found = self.find_node_index(self.edges[i].edge.from_node_id);
                let to_found = self.find_node_index(self.edges[i].edge.to_node_id);
                match (from_found, to_found) {
                    (Some(fi), Some(ti)) => {
                        let path = self.build_edge_path(&self.edges[i], fi, ti);
                        out.push(path);
                        proof {
                            assert(paths_view(out@) =~= edge_results(
                                edges.take(i as int + 1),
                                nodes,
                                tenant@,
                                from_node_id,
                                to_node_id,
                                relationship_types@,
                                valid_at,
                            ));
                        }
                    },
                    _ => {
                        proof {
                            assert(paths_view(out@) =~= edge_results(
                                edges.take(i as int + 1),
                                nodes,
                                tenant@,
                                from_node_id,
                                to_node_id,
                                relationship_types@,
                                valid_at,
                            ));
                        }
                    },
                }
            } else {
                proof {
                    assert(paths_view(out@) =~= edge_results(
                        edges.take(i as int + 1),
                        nodes,
                        tenant@,
                        from_node_id,
                        to_node_id,
                        relationship_types@,
                        valid_at,
                    ));
                }
            }
            i += 1;
        }
        proof {
            lemma_edge_results_take_prefix(
                edges,
                nodes,
                tenant@,
                from_node_id,
                to_node_id,
                relationship_types@,
                valid_at,
                i as int,
            );
            if i == edges.len() {
                assert(edges.take(i as int) =~= edges);
                assert(paths_view(out@) =~= limited(full, limit));
            } else {
                assert(!unlimited && out@.len() == cap);
                assert(full.len() >= cap);
                assert(paths_view(out@) =~= full.take(cap as int));
                assert(paths_view(out@) =~= limited(full, limit));
            }
        }
        out
    }

    /// Runs a query for the tenant. Raw queries fail with `QueryFailed`; node
    /// and relationship queries filter the records in store order and
    /// truncate at the limit; an as-of query reruns its relationship base at
    /// the rewritten instant and yields nothing for any other base.
    pub fn query(&self, tenant: &TenantId, query: GraphQuery) -> (r: Result<Vec<Path>, GraphError>)
        ensures
            match (r, query_spec(self@, tenant@, query)) {
                (Ok(paths), Ok(expected)) => paths_view(paths@) == expected,
                (Err(e), Err(k)) => kind_of(e) == k,
                _ => false,
            },
    {
        match query {
            GraphQuery::Raw { query: _, params: _ } => Err(
                GraphError::QueryFailed(
                    String::from_str("raw queries are not supported by the in-memory store"),
                ),
            ),
            GraphQuery::FindNodes { labels, properties, limit } => Ok(
                self.find_nodes(tenant, &labels, &properties, limit),
            ),
            GraphQuery::FindRelationships {
                from_node_id,
                to_node_id,
                relationship_types,
                valid_at,
                limit,
            } => Ok(
                self.find_relationships(
                    tenant,
                    from_node_id,
                    to_node_id,
                    &relationship_types,
                    valid_at,
                    limit,
                ),
            ),
            GraphQuery::AsOfQuery { base_query, as_of_time } => match *base_query {
                GraphQuery::FindRelationships {
                    from_node_id,
                    to_node_id,
                    relationship_types,
                    valid_at: _,
                    limit,
                } => Ok(
                    self.find_relationships(
                        tenant,
                        from_node_id,
                        to_node_id,
                        &relationship_types,
                        Some(as_of_time),
                        limit,
                    ),
                ),
                _ => Ok(Vec::new()),
            },
        }
    }

    /// Returns the node's known versions: the reference store keeps no
    /// history, so the current version alone, or nothing when the node is
    /// absent or foreign.
    pub fn get_node_history(&self, tenant: &TenantId, id: u64) -> (r: Result<Vec<Node>, GraphError>)
        ensures
            r matches Ok(v) && match get_node_spec(self@, tenant@, id) {
                Some(n) => v@.len() == 1 && v@[0]@ == n,
                None => v@.len() == 0,
            },
    {
        let found = self.get_node(tenant, id)?;
        match found {
            Some(node) => {
                let mut v: Vec<Node> = Vec::new();
                v.push(node);
                Ok(v)
            },
            None => Ok(Vec::new()),
        }
    }
}

} // verus!
