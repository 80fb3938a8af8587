//! Behavior of the Cypher helpers: escaping, label sanitising, identifier
//! checking, parameter naming and filter construction.

use telamentis::neo4j::{
    build_property_filters, escape_cypher_string, generate_param_name, is_valid_identifier,
    sanitize_label, Neo4jConfig,
};
use telamentis::props::{PropEntry, PropValue};

#[test]
fn test_escape_cypher_string() {
    assert_eq!(escape_cypher_string("hello"), "hello");
    assert_eq!(escape_cypher_string("hello'world"), "hello\\'world");
    assert_eq!(escape_cypher_string("hello\"world"), "hello\\\"world");
    assert_eq!(escape_cypher_string("hello\\world"), "hello\\\\world");
}

#[test]
fn test_sanitize_label() {
    assert!(sanitize_label("Person").is_ok());
    assert!(sanitize_label("User_Profile").is_ok());
    assert!(sanitize_label("Item123").is_ok());
    assert!(sanitize_label("").is_err());
    assert!(sanitize_label("Invalid-Label").is_err());
    assert!(sanitize_label("Invalid Label").is_err());
}

#[test]
fn test_build_property_filters() {
    let props = vec![
        PropEntry {
            key: "name".to_string(),
            value: PropValue::Str("Alice".to_string()),
        },
        PropEntry {
            key: "age".to_string(),
            value: PropValue::Int(30),
        },
    ];

    let (where_clause, params) = build_property_filters(&props, "n", "prop");

    assert!(where_clause.contains("n.name = $prop_name"));
    assert!(where_clause.contains("n.age = $prop_age"));
    assert!(where_clause.starts_with(" AND "));
    assert_eq!(params.len(), 2);
    assert_eq!(params[0].key, "prop_name");
    assert!(matches!(&params[0].value, PropValue::Str(s) if s == "Alice"));
    assert_eq!(params[1].key, "prop_age");
    assert!(matches!(params[1].value, PropValue::Int(30)));
}

#[test]
fn test_is_valid_identifier() {
    assert!(is_valid_identifier("validName"));
    assert!(is_valid_identifier("valid_name"));
    assert!(is_valid_identifier("ValidName123"));
    assert!(!is_valid_identifier(""));
    assert!(!is_valid_identifier("123invalid"));
    assert!(!is_valid_identifier("invalid-name"));
    assert!(!is_valid_identifier("invalid name"));
}

#[test]
fn test_generate_param_name() {
    assert_eq!(generate_param_name("p", 0), "p_0");
    assert_eq!(generate_param_name("prop", 42), "prop_42");
    assert_eq!(generate_param_name("x", 1005), "x_1005");
}

#[test]
fn test_neo4j_config() {
    let config = Neo4jConfig::new("bolt://example.com:7687".to_string())
        .with_auth("user".to_string(), "secret".to_string())
        .with_max_connections(20)
        .with_timeout(10_000);

    assert_eq!(config.uri, "bolt://example.com:7687");
    assert_eq!(config.user, Some("user".to_string()));
    assert_eq!(config.password, Some("secret".to_string()));
    assert_eq!(config.max_connections, 20);
    assert_eq!(config.connection_timeout_ms, 10_000);

    let default_config = Neo4jConfig::default();
    assert_eq!(default_config.uri, "bolt://localhost:7687");
    assert_eq!(default_config.max_connections, 10);
}
