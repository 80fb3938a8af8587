//! Core value model: tenants, nodes, bitemporal edges, queries and paths.

use vstd::prelude::*;

use crate::props::{PropEntry, PropEntryView, PropValue, props_view, update_prop, clone_props};

verus! {

/// Unique identifier of a tenant: an opaque string compared by value, the
/// isolation key of every stored record.
#[derive(Debug)]
pub struct TenantId(pub String);

impl View for TenantId {
    type V = Seq<char>;

    open spec fn view(&self) -> Seq<char> {
        self.0@
    }
}

impl TenantId {
    /// Wraps a string as a tenant identifier.
    pub fn new(id: String) -> (r: Self)
        ensures
            r@ == id@,
    {
        TenantId(id)
    }

    /// The inner string value.
    pub fn as_str(&self) -> (r: &str)
        ensures
            r@ == self@,
    {
        self.0.as_str()
    }
}

impl Clone for TenantId {
    /// Cloning yields an equal tenant identifier.
    fn clone(&self) -> (res: Self)
        ensures
            res == *self,
    {
        TenantId(self.0.clone())
    }
}

impl PartialEq for TenantId {
    /// Two tenant identifiers are equal exactly when their strings are.
    fn eq(&self, other: &Self) -> (r: bool) {
        self.0 == other.0
    }
}

impl vstd::std_specs::cmp::PartialEqSpecImpl for TenantId {
    open spec fn obeys_eq_spec() -> bool {
        true
    }

    open spec fn eq_spec(&self, other: &Self) -> bool {
        self.0@ == other.0@
    }
}

/// Mathematical model of a node.
pub struct NodeView {
    pub id_alias: Option<Seq<char>>,
    pub label: Seq<char>,
    pub props: Seq<PropEntryView>,
}

/// An entity in the knowledge graph: a label (type tag), an optional alias
/// (the idempotency key, unique within a tenant) and a property bag.
#[derive(Debug)]
pub struct Node {
    /// Optional user-supplied identifier for idempotent upserts.
    pub id_alias: Option<String>,
    /// The type tag of the node, e.g. "Person".
    pub label: String,
    /// Key-value properties describing the node.
    pub props: Vec<PropEntry>,
}

impl View for Node {
    type V = NodeView;

    open spec fn view(&self) -> NodeView {
        NodeView {
            id_alias: match self.id_alias {
                Some(a) => Some(a@),
                None => None,
            },
            label: self.label@,
            props: props_view(self.props@),
        }
    }
}

impl Node {
    /// A node with the given label, no alias and no properties.
    pub fn new(label: String) -> (r: Self)
        ensures
            r@ == (NodeView { id_alias: None, label: label@, props: Seq::empty() }),
    {
        let r = Node { id_alias: None, label, props: Vec::new() };
        proof {
            assert(props_view(r.props@) =~= Seq::<PropEntryView>::empty());
        }
        r
    }

    /// Sets the alias of this node.
    pub fn with_id_alias(self, id_alias: String) -> (r: Self)
        ensures
            r@ == (NodeView { id_alias: Some(id_alias@), ..self@ }),
    {
        Node { id_alias: Some(id_alias), ..self }
    }

    /// Replaces the whole property bag of this node.
    pub fn with_props(self, props: Vec<PropEntry>) -> (r: Self)
        ensures
            r@ == (NodeView { props: props_view(props@), ..self@ }),
    {
        Node { props, ..self }
    }

    /// Adds or replaces a single property of this node.
    pub fn with_property(self, key: String, value: PropValue) -> (r: Self)
        ensures
            r@ == (NodeView { props: update_prop(self@.props, key@, value@), ..self@ }),
    {
        let mut node = self;
        crate::props::props_set(&mut node.props, key, value);
        node
    }
}

impl Clone for Node {
    /// Cloning preserves the model.
    fn clone(&self) -> (res: Self)
        ensures
            res@ == self@,
    {
        Node {
            id_alias: match &self.id_alias {
                Some(a) => Some(a.clone()),
                None => None,
            },
            label: self.label.clone(),
            props: clone_props(&self.props),
        }
    }
}

/// Mathematical model of a bitemporal edge.
pub struct TimeEdgeView {
    pub from_node_id: u64,
    pub to_node_id: u64,
    pub kind: Seq<char>,
    pub valid_from: i64,
    pub valid_to: Option<i64>,
    pub transaction_start_time: Option<i64>,
    pub transaction_end_time: Option<i64>,
    pub props: Seq<PropEntryView>,
}

/// A directed typed relationship between two nodes of the same tenant,
/// carrying a half-open valid-time interval `[valid_from, valid_to)` and a
/// half-open transaction-time interval. Timestamps are microseconds since the
/// Unix epoch.
#[derive(Debug)]
pub struct TimeEdge {
    /// System id of the source node.
    pub from_node_id: u64,
    /// System id of the target node.
    pub to_node_id: u64,
    /// The relationship type tag, e.g. "WORKS_FOR".
    pub kind: String,
    /// When the relationship became true in the modeled world.
    pub valid_from: i64,
    /// When the relationship ceased to be true; `None` means still valid.
    pub valid_to: Option<i64>,
    /// When this version was recorded; the store stamps it on insert when
    /// unset.
    pub transaction_start_time: Option<i64>,
    /// When this version was superseded; `None` means current version.
    pub transaction_end_time: Option<i64>,
    /// Properties of the relationship.
    pub props: Vec<PropEntry>,
}

impl View for TimeEdge {
    type V = TimeEdgeView;

    open spec fn view(&self) -> TimeEdgeView {
        TimeEdgeView {
            from_node_id: self.from_node_id,
            to_node_id: self.to_node_id,
            kind: self.kind@,
            valid_from: self.valid_from,
            valid_to: self.valid_to,
            transaction_start_time: self.transaction_start_time,
            transaction_end_time: self.transaction_end_time,
            props: props_view(self.props@),
        }
    }
}

/// The half-open valid-time interval `[valid_from, valid_to)` contains `p`;
/// an absent upper bound means unbounded above.
pub open spec fn spec_valid_at(valid_from: i64, valid_to: Option<i64>, p: i64) -> bool {
    valid_from <= p && match valid_to {
        Some(end) => p < end,
        None => true,
    }
}

/// The half-open transaction-time interval contains `p`; an unset lower bound
/// means the version was never recorded, an absent upper bound means the
/// version is current.
pub open spec fn spec_existed_at_tx(
    tx_start: Option<i64>,
    tx_end: Option<i64>,
    p: i64,
) -> bool {
    match tx_start {
        Some(start) => start <= p && match tx_end {
            Some(end) => p < end,
            None => true,
        },
        None => false,
    }
}

impl TimeEdge {
    /// A new edge between two nodes, valid from the given instant, open-ended
    /// on both axes; the transaction start is left unset for the store to
    /// stamp on insert.
    pub fn new(from_node_id: u64, to_node_id: u64, kind: String, valid_from: i64, props: Vec<
        PropEntry,
    >) -> (r: Self)
        ensures
            r@ == (TimeEdgeView {
                from_node_id,
                to_node_id,
                kind: kind@,
                valid_from,
                valid_to: None,
                transaction_start_time: None,
                transaction_end_time: None,
                props: props_view(props@),
            }),
    {
        TimeEdge {
            from_node_id,
            to_node_id,
            kind,
            valid_from,
            valid_to: None,
            transaction_start_time: None,
            transaction_end_time: None,
            props,
        }
    }

    /// Sets the end of the valid-time interval.
    pub fn with_valid_to(self, valid_to: i64) -> (r: Self)
        ensures
            r@ == (TimeEdgeView { valid_to: Some(valid_to), ..self@ }),
    {
        TimeEdge { valid_to: Some(valid_to), ..self }
    }

    /// Sets the transaction start time.
    pub fn with_transaction_start_time(self, transaction_start_time: i64) -> (r: Self)
        ensures
            r@ == (TimeEdgeView {
                transaction_start_time: Some(transaction_start_time),
                ..self@
            }),
    {
        TimeEdge { transaction_start_time: Some(transaction_start_time), ..self }
    }

    /// Sets the transaction end time, superseding this version.
    pub fn with_transaction_end_time(self, transaction_end_time: i64) -> (r: Self)
        ensures
            r@ == (TimeEdgeView { transaction_end_time: Some(transaction_end_time), ..self@ }),
    {
        TimeEdge { transaction_end_time: Some(transaction_end_time), ..self }
    }

    /// Whether this edge was valid at the given instant.
    pub fn was_valid_at(&self, timestamp: i64) -> (r: bool)
        ensures
            r == spec_valid_at(self.valid_from, self.valid_to, timestamp),
    {
        self.valid_from <= timestamp && match self.valid_to {
            Some(end) => timestamp < end,
            None => true,
        }
    }

    /// Whether this edge is currently valid by the wall clock; an open-ended
    /// edge always is.
    pub fn is_currently_valid(&self) -> (r: bool)
        ensures
            self.valid_to is None ==> r,
    {
        match self.valid_to {
            Some(end) => end > crate::ext::now_micros(),
            None => true,
        }
    }

    /// Whether this record is the current version of the edge.
    pub fn is_current_version(&self) -> (r: bool)
        ensures
            r == (self.transaction_end_time is None),
    {
        self.transaction_end_time.is_none()
    }

    /// Whether this version existed in the store at the given transaction
    /// time.
    pub fn existed_at_transaction_time(&self, timestamp: i64) -> (r: bool)
        ensures
            r == spec_existed_at_tx(
                self.transaction_start_time,
                self.transaction_end_time,
                timestamp,
            ),
    {
        match self.transaction_start_time {
            Some(start) => start <= timestamp && match self.transaction_end_time {
                Some(end) => timestamp < end,
                None => true,
            },
            None => false,
        }
    }
}

impl Clone for TimeEdge {
    /// Cloning preserves the model.
    fn clone(&self) -> (res: Self)
        ensures
            res@ == self@,
    {
        TimeEdge {
            from_node_id: self.from_node_id,
            to_node_id: self.to_node_id,
            kind: self.kind.clone(),
            valid_from: self.valid_from,
            valid_to: self.valid_to,
            transaction_start_time: self.transaction_start_time,
            transaction_end_time: self.transaction_end_time,
            props: clone_props(&self.props),
        }
    }
}

/// The closed query algebra over a tenant's graph.
#[derive(Debug)]
pub enum GraphQuery {
    /// An opaque backend-native query; the in-memory store rejects it.
    Raw { query: String, params: Vec<PropEntry> },
    /// Finds nodes by labels and a property equality filter.
    FindNodes { labels: Vec<String>, properties: Vec<PropEntry>, limit: Option<u32> },
    /// Finds relationships by endpoints, types and valid-time instant.
    FindRelationships {
        from_node_id: Option<u64>,
        to_node_id: Option<u64>,
        relationship_types: Vec<String>,
        valid_at: Option<i64>,
        limit: Option<u32>,
    },
    /// Rewrites a relationship query to a past valid-time instant.
    AsOfQuery { base_query: Box<GraphQuery>, as_of_time: i64 },
}

/// Mathematical model of a node inside a path result.
pub struct PathNodeView {
    pub id: u64,
    pub labels: Seq<Seq<char>>,
    pub properties: Seq<PropEntryView>,
}

/// A node inside a path result.
#[derive(Debug)]
pub struct PathNode {
    /// The node's system id.
    pub id: u64,
    /// The node's labels.
    pub labels: Vec<String>,
    /// The node's properties.
    pub properties: Vec<PropEntry>,
}

impl View for PathNode {
    type V = PathNodeView;

    open spec fn view(&self) -> PathNodeView {
        PathNodeView {
            id: self.id,
            labels: Seq::new(
                self.labels@.len(),
                |i: int|
                    if 0 <= i < self.labels@.len() {
                        self.labels@[i]@
                    } else {
                        Seq::empty()
                    },
            ),
            properties: props_view(self.properties@),
        }
    }
}

/// Mathematical model of a relationship inside a path result.
pub struct PathRelationshipView {
    pub id: u64,
    pub rel_type: Seq<char>,
    pub start_node_id: u64,
    pub end_node_id: u64,
    pub properties: Seq<PropEntryView>,
}

/// A relationship inside a path result.
#[derive(Debug)]
pub struct PathRelationship {
    /// The edge's system id.
    pub id: u64,
    /// The relationship type.
    pub rel_type: String,
    /// System id of the source node.
    pub start_node_id: u64,
    /// System id of the target node.
    pub end_node_id: u64,
    /// The relationship's properties.
    pub properties: Vec<PropEntry>,
}

impl View for PathRelationship {
    type V = PathRelationshipView;

    open spec fn view(&self) -> PathRelationshipView {
        PathRelationshipView {
            id: self.id,
            rel_type: self.rel_type@,
            start_node_id: self.start_node_id,
            end_node_id: self.end_node_id,
            properties: props_view(self.properties@),
        }
    }
}

/// Mathematical model of a path result.
pub struct PathView {
    pub nodes: Seq<PathNodeView>,
    pub relationships: Seq<PathRelationshipView>,
}

/// A query result fragment: an ordered sequence of nodes and the
/// relationships connecting them.
#[derive(Debug)]
pub struct Path {
    /// Nodes in the path.
    pub nodes: Vec<PathNode>,
    /// Relationships in the path.
    pub relationships: Vec<PathRelationship>,
}

impl View for Path {
    type V = PathView;

    open spec fn view(&self) -> PathView {
        PathView {
            nodes: Seq::new(
                self.nodes@.len(),
                |i: int|
                    if 0 <= i < self.nodes@.len() {
                        self.nodes@[i]@
                    } else {
                        PathNodeView { id: 0, labels: Seq::empty(), properties: Seq::empty() }
                    },
            ),
            relationships: Seq::new(
                self.relationships@.len(),
                |i: int|
                    if 0 <= i < self.relationships@.len() {
                        self.relationships@[i]@
                    } else {
                        PathRelationshipView {
                            id: 0,
                            rel_type: Seq::empty(),
                            start_node_id: 0,
                            end_node_id: 0,
                            properties: Seq::empty(),
                        }
                    },
            ),
        }
    }
}

/// A mutation request against a tenant's graph.
#[derive(Debug)]
pub enum GraphMutation {
    /// Create or update a node.
    UpsertNode(Node),
    /// Create or update a relationship.
    UpsertEdge(TimeEdge),
    /// Delete a node.
    DeleteNode { id: u64 },
    /// Delete a relationship.
    DeleteEdge { id: u64 },
}

} // verus!
