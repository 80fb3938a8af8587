//! Behavior of the in-memory store: alias idempotence, tenant isolation,
//! temporal filtering, cascading deletes, capacity caps and the query
//! algebra.

use telamentis::props::{PropEntry, PropValue};
use telamentis::store::{InMemoryConfig, InMemoryStore};
use telamentis::types::{GraphQuery, Node, TenantId, TimeEdge};

fn micros(rfc3339: &str) -> i64 {
    chrono::DateTime::parse_from_rfc3339(rfc3339)
        .unwrap()
        .timestamp_micros()
}

fn person(alias: &str) -> Node {
    Node::new("Person".to_string()).with_id_alias(alias.to_string())
}

#[test]
fn test_node_upsert() {
    let mut store = InMemoryStore::new();
    let tenant = TenantId::new("test_tenant".to_string());

    let node = Node::new("Person".to_string())
        .with_id_alias("alice".to_string())
        .with_property("name".to_string(), PropValue::Str("Alice".to_string()));

    let id1 = store.upsert_node(&tenant, node.clone()).unwrap();
    let id2 = store.upsert_node(&tenant, node).unwrap();

    // Same alias, same id.
    assert_eq!(id1, id2);

    let retrieved = store.get_node(&tenant, id1).unwrap().unwrap();
    assert_eq!(retrieved.label, "Person");
    assert_eq!(retrieved.id_alias, Some("alice".to_string()));
}

#[test]
fn test_edge_operations() {
    let mut store = InMemoryStore::new();
    let tenant = TenantId::new("test_tenant".to_string());

    let alice_id = store.upsert_node(&tenant, person("alice")).unwrap();
    let bob_id = store.upsert_node(&tenant, person("bob")).unwrap();

    let edge = TimeEdge::new(
        alice_id,
        bob_id,
        "KNOWS".to_string(),
        micros("2023-01-01T00:00:00Z"),
        vec![PropEntry {
            key: "since".to_string(),
            value: PropValue::Str("2023".to_string()),
        }],
    );
    let _edge_id = store.upsert_edge(&tenant, edge).unwrap();

    let query = GraphQuery::FindRelationships {
        from_node_id: Some(alice_id),
        to_node_id: None,
        relationship_types: vec!["KNOWS".to_string()],
        valid_at: None,
        limit: None,
    };

    let results = store.query(&tenant, query).unwrap();
    assert_eq!(results.len(), 1);
    assert_eq!(results[0].relationships.len(), 1);
    assert_eq!(results[0].relationships[0].rel_type, "KNOWS");
}

#[test]
fn test_tenant_isolation() {
    let mut store = InMemoryStore::new();
    let tenant_a = TenantId::new("tenant_a".to_string());
    let tenant_b = TenantId::new("tenant_b".to_string());

    let id_a = store.upsert_node(&tenant_a, person("alice")).unwrap();
    let id_b = store.upsert_node(&tenant_b, person("alice")).unwrap();

    // Different tenants get different ids for the same alias.
    assert_ne!(id_a, id_b);

    // Each tenant sees its own node only.
    assert!(store.get_node(&tenant_a, id_a).unwrap().is_some());
    assert!(store.get_node(&tenant_a, id_b).unwrap().is_none());

    assert!(store.get_node(&tenant_b, id_b).unwrap().is_some());
    assert!(store.get_node(&tenant_b, id_a).unwrap().is_none());
}

#[test]
fn test_temporal_queries() {
    let mut store = InMemoryStore::new();
    let tenant = TenantId::new("test_tenant".to_string());

    let alice_id = store.upsert_node(&tenant, person("alice")).unwrap();
    let company_id = store
        .upsert_node(
            &tenant,
            Node::new("Company".to_string()).with_id_alias("acme".to_string()),
        )
        .unwrap();

    let past_time = micros("2023-01-01T00:00:00Z");
    let current_time = micros("2024-06-01T00:00:00Z");
    let future_time = micros("2025-01-01T00:00:00Z");

    let edge = TimeEdge::new(
        alice_id,
        company_id,
        "WORKS_FOR".to_string(),
        past_time,
        Vec::new(),
    )
    .with_valid_to(future_time);

    store.upsert_edge(&tenant, edge).unwrap();

    // Query inside the validity interval: one result.
    let query = GraphQuery::FindRelationships {
        from_node_id: Some(alice_id),
        to_node_id: None,
        relationship_types: vec!["WORKS_FOR".to_string()],
        valid_at: Some(current_time),
        limit: None,
    };
    let results = store.query(&tenant, query).unwrap();
    assert_eq!(results.len(), 1);

    // Query before the relationship started: nothing.
    let before_time = micros("2022-01-01T00:00:00Z");
    let query = GraphQuery::FindRelationships {
        from_node_id: Some(alice_id),
        to_node_id: None,
        relationship_types: vec!["WORKS_FOR".to_string()],
        valid_at: Some(before_time),
        limit: None,
    };
    let results = store.query(&tenant, query).unwrap();
    assert_eq!(results.len(), 0);

    // Query at the exclusive end of the interval: nothing.
    let query = GraphQuery::FindRelationships {
        from_node_id: Some(alice_id),
        to_node_id: None,
        relationship_types: vec!["WORKS_FOR".to_string()],
        valid_at: Some(future_time),
        limit: None,
    };
    let results = store.query(&tenant, query).unwrap();
    assert_eq!(results.len(), 0);
}

#[test]
fn test_alias_round_trip_updates_properties() {
    let mut store = InMemoryStore::new();
    let tenant = TenantId::new("T1".to_string());

    let first = person("alice");
    let x = store.upsert_node(&tenant, first).unwrap();

    let second = person("alice").with_property("age".to_string(), PropValue::Int(30));
    let again = store.upsert_node(&tenant, second).unwrap();
    assert_eq!(x, again);

    let node = store.get_node(&tenant, x).unwrap().unwrap();
    let age = node
        .props
        .iter()
        .find(|e| e.key == "age")
        .map(|e| &e.value);
    assert!(matches!(age, Some(PropValue::Int(30))));
}

#[test]
fn test_tenant_blindness_on_fresh_ids() {
    let mut store = InMemoryStore::new();
    let t1 = TenantId::new("T1".to_string());
    let t2 = TenantId::new("T2".to_string());

    let x = store.upsert_node(&t1, person("alice")).unwrap();
    let y = store.upsert_node(&t2, person("alice")).unwrap();

    assert_ne!(x, y);
    assert!(store.get_node(&t1, y).unwrap().is_none());
    assert!(store.get_node(&t2, x).unwrap().is_none());
}

#[test]
fn test_cascade_delete() {
    let mut store = InMemoryStore::new();
    let tenant = TenantId::new("T1".to_string());

    let alice_id = store.upsert_node(&tenant, person("alice")).unwrap();
    let acme_id = store
        .upsert_node(
            &tenant,
            Node::new("Company".to_string()).with_id_alias("acme".to_string()),
        )
        .unwrap();

    let edge = TimeEdge::new(
        alice_id,
        acme_id,
        "WORKS_FOR".to_string(),
        micros("2023-01-01T00:00:00Z"),
        Vec::new(),
    );
    store.upsert_edge(&tenant, edge).unwrap();

    assert_eq!(store.delete_node(&tenant, alice_id).unwrap(), true);

    // The node is gone.
    assert!(store.get_node(&tenant, alice_id).unwrap().is_none());

    // No edge incident to it survives in any relationship query.
    let query = GraphQuery::FindRelationships {
        from_node_id: Some(alice_id),
        to_node_id: None,
        relationship_types: vec!["WORKS_FOR".to_string()],
        valid_at: None,
        limit: None,
    };
    let results = store.query(&tenant, query).unwrap();
    assert!(results.is_empty());

    let query_all = GraphQuery::FindRelationships {
        from_node_id: None,
        to_node_id: None,
        relationship_types: Vec::new(),
        valid_at: None,
        limit: None,
    };
    let results = store.query(&tenant, query_all).unwrap();
    assert!(results.is_empty());
}

#[test]
fn test_edge_requires_both_endpoints() {
    let mut store = InMemoryStore::new();
    let tenant = TenantId::new("T1".to_string());
    let other = TenantId::new("T2".to_string());

    let alice_id = store.upsert_node(&tenant, person("alice")).unwrap();
    let foreign_id = store.upsert_node(&other, person("bob")).unwrap();

    // Missing target node.
    let edge = TimeEdge::new(
        alice_id,
        999_999,
        "KNOWS".to_string(),
        micros("2023-01-01T00:00:00Z"),
        Vec::new(),
    );
    let err = store.upsert_edge(&tenant, edge).unwrap_err();
    assert!(matches!(
        err,
        telamentis::errors::GraphError::NodeNotFound(_)
    ));

    // A node of another tenant does not count as an endpoint.
    let edge = TimeEdge::new(
        alice_id,
        foreign_id,
        "KNOWS".to_string(),
        micros("2023-01-01T00:00:00Z"),
        Vec::new(),
    );
    let err = store.upsert_edge(&tenant, edge).unwrap_err();
    assert!(matches!(
        err,
        telamentis::errors::GraphError::NodeNotFound(_)
    ));
}

#[test]
fn test_invalid_interval_rejected() {
    let mut store = InMemoryStore::new();
    let tenant = TenantId::new("T1".to_string());
    let a = store.upsert_node(&tenant, person("a")).unwrap();
    let b = store.upsert_node(&tenant, person("b")).unwrap();

    let edge = TimeEdge::new(
        a,
        b,
        "KNOWS".to_string(),
        micros("2025-01-01T00:00:00Z"),
        Vec::new(),
    )
    .with_valid_to(micros("2023-01-01T00:00:00Z"));
    let err = store.upsert_edge(&tenant, edge).unwrap_err();
    assert!(matches!(
        err,
        telamentis::errors::GraphError::ConstraintViolation(_)
    ));
}

#[test]
fn test_node_cap() {
    let config = InMemoryConfig {
        max_nodes: Some(1),
        max_edges: Some(10),
        verbose: false,
    };
    let mut store = InMemoryStore::new_with_config(config);
    let tenant = TenantId::new("T1".to_string());

    store.upsert_node(&tenant, person("a")).unwrap();
    let err = store.upsert_node(&tenant, person("b")).unwrap_err();
    assert!(matches!(
        err,
        telamentis::errors::GraphError::ConstraintViolation(_)
    ));
}

#[test]
fn test_raw_query_rejected() {
    let store = InMemoryStore::new();
    let tenant = TenantId::new("T1".to_string());
    let err = store
        .query(
            &tenant,
            GraphQuery::Raw {
                query: "MATCH (n) RETURN n".to_string(),
                params: Vec::new(),
            },
        )
        .unwrap_err();
    assert!(matches!(
        err,
        telamentis::errors::GraphError::QueryFailed(_)
    ));
}

#[test]
fn test_as_of_query_rewrites_relationships() {
    let mut store = InMemoryStore::new();
    let tenant = TenantId::new("T1".to_string());

    let a = store.upsert_node(&tenant, person("a")).unwrap();
    let b = store.upsert_node(&tenant, person("b")).unwrap();

    let edge = TimeEdge::new(
        a,
        b,
        "WORKS_FOR".to_string(),
        micros("2023-01-01T00:00:00Z"),
        Vec::new(),
    )
    .with_valid_to(micros("2025-01-01T00:00:00Z"));
    store.upsert_edge(&tenant, edge).unwrap();

    let as_of_inside = GraphQuery::AsOfQuery {
        base_query: Box::new(GraphQuery::FindRelationships {
            from_node_id: Some(a),
            to_node_id: None,
            relationship_types: vec!["WORKS_FOR".to_string()],
            valid_at: None,
            limit: None,
        }),
        as_of_time: micros("2024-01-01T00:00:00Z"),
    };
    assert_eq!(store.query(&tenant, as_of_inside).unwrap().len(), 1);

    let as_of_outside = GraphQuery::AsOfQuery {
        base_query: Box::new(GraphQuery::FindRelationships {
            from_node_id: Some(a),
            to_node_id: None,
            relationship_types: vec!["WORKS_FOR".to_string()],
            valid_at: None,
            limit: None,
        }),
        as_of_time: micros("2022-01-01T00:00:00Z"),
    };
    assert_eq!(store.query(&tenant, as_of_outside).unwrap().len(), 0);

    // A non-relationship base yields an empty result.
    let as_of_nodes = GraphQuery::AsOfQuery {
        base_query: Box::new(GraphQuery::FindNodes {
            labels: Vec::new(),
            properties: Vec::new(),
            limit: None,
        }),
        as_of_time: micros("2024-01-01T00:00:00Z"),
    };
    assert_eq!(store.query(&tenant, as_of_nodes).unwrap().len(), 0);
}

#[test]
fn test_find_nodes_label_and_property_filter() {
    let mut store = InMemoryStore::new();
    let tenant = TenantId::new("T1".to_string());

    store
        .upsert_node(
            &tenant,
            person("alice").with_property("age".to_string(), PropValue::Int(30)),
        )
        .unwrap();
    store
        .upsert_node(
            &tenant,
            person("bob").with_property("age".to_string(), PropValue::Int(40)),
        )
        .unwrap();
    store
        .upsert_node(
            &tenant,
            Node::new("Company".to_string()).with_id_alias("acme".to_string()),
        )
        .unwrap();

    let by_label = GraphQuery::FindNodes {
        labels: vec!["Person".to_string()],
        properties: Vec::new(),
        limit: None,
    };
    assert_eq!(store.query(&tenant, by_label).unwrap().len(), 2);

    let by_prop = GraphQuery::FindNodes {
        labels: vec!["Person".to_string()],
        properties: vec![PropEntry {
            key: "age".to_string(),
            value: PropValue::Int(30),
        }],
        limit: None,
    };
    let results = store.query(&tenant, by_prop).unwrap();
    assert_eq!(results.len(), 1);
    assert_eq!(results[0].nodes.len(), 1);

    let limited = GraphQuery::FindNodes {
        labels: vec!["Person".to_string()],
        properties: Vec::new(),
        limit: Some(1),
    };
    assert_eq!(store.query(&tenant, limited).unwrap().len(), 1);

    // A zero limit yields zero results.
    let none_wanted = GraphQuery::FindNodes {
        labels: vec!["Person".to_string()],
        properties: Vec::new(),
        limit: Some(0),
    };
    assert_eq!(store.query(&tenant, none_wanted).unwrap().len(), 0);
}

#[test]
fn test_alias_update_succeeds_at_cap() {
    let config = InMemoryConfig {
        max_nodes: Some(1),
        max_edges: Some(10),
        verbose: false,
    };
    let mut store = InMemoryStore::new_with_config(config);
    let tenant = TenantId::new("T1".to_string());

    let id = store.upsert_node(&tenant, person("alice")).unwrap();
    // The store sits at its node cap, but an alias overwrite does not grow it.
    let updated = person("alice").with_property("age".to_string(), PropValue::Int(31));
    assert_eq!(store.upsert_node(&tenant, updated).unwrap(), id);
    assert_eq!(store.stats().0, 1);
}

#[test]
fn test_delete_edge_and_get_by_alias() {
    let mut store = InMemoryStore::new();
    let tenant = TenantId::new("T1".to_string());
    let other = TenantId::new("T2".to_string());

    let a = store.upsert_node(&tenant, person("a")).unwrap();
    let b = store.upsert_node(&tenant, person("b")).unwrap();
    let edge_id = store
        .upsert_edge(
            &tenant,
            TimeEdge::new(
                a,
                b,
                "KNOWS".to_string(),
                micros("2023-01-01T00:00:00Z"),
                Vec::new(),
            ),
        )
        .unwrap();

    // Cross-tenant deletion is masked.
    assert_eq!(store.delete_edge(&other, edge_id).unwrap(), false);
    assert_eq!(store.delete_edge(&tenant, edge_id).unwrap(), true);
    assert_eq!(store.delete_edge(&tenant, edge_id).unwrap(), false);

    let found = store.get_node_by_alias(&tenant, "a").unwrap().unwrap();
    assert_eq!(found.0, a);
    assert!(store.get_node_by_alias(&other, "a").unwrap().is_none());
}

#[test]
fn test_history_stats_and_clear() {
    let mut store = InMemoryStore::new();
    let tenant = TenantId::new("T1".to_string());

    let a = store.upsert_node(&tenant, person("a")).unwrap();
    let history = store.get_node_history(&tenant, a).unwrap();
    assert_eq!(history.len(), 1);
    assert_eq!(history[0].id_alias, Some("a".to_string()));
    assert!(store.get_node_history(&tenant, a + 1).unwrap().is_empty());

    assert_eq!(store.stats(), (1, 0));
    store.clear();
    assert_eq!(store.stats(), (0, 0));
    assert!(store.health_check().is_ok());
}

#[test]
fn test_transaction_start_stamped_when_unset() {
    let mut store = InMemoryStore::new();
    let tenant = TenantId::new("T1".to_string());
    let a = store.upsert_node(&tenant, person("a")).unwrap();
    let b = store.upsert_node(&tenant, person("b")).unwrap();

    let stamp = micros("2024-01-01T00:00:00Z");
    let unset = TimeEdge::new(
        a,
        b,
        "KNOWS".to_string(),
        micros("2023-01-01T00:00:00Z"),
        Vec::new(),
    );
    assert!(unset.transaction_start_time.is_none());
    store.upsert_edge_at(&tenant, unset, stamp).unwrap();

    let preset = TimeEdge::new(
        a,
        b,
        "KNOWS".to_string(),
        micros("2023-01-01T00:00:00Z"),
        Vec::new(),
    )
    .with_transaction_start_time(micros("2023-06-01T00:00:00Z"));
    store.upsert_edge_at(&tenant, preset, stamp).unwrap();

    let results = store
        .query(
            &tenant,
            GraphQuery::FindRelationships {
                from_node_id: Some(a),
                to_node_id: None,
                relationship_types: Vec::new(),
                valid_at: None,
                limit: None,
            },
        )
        .unwrap();
    assert_eq!(results.len(), 2);
}
