//! Behavior of the control client configuration: endpoint construction,
//! tenant selection, defaults and format names.

use telamentis::kgctl::{ExportFormat, KgctlConfig, OutputFormat};

#[test]
fn test_api_url_generation() {
    let config = KgctlConfig::default();
    assert_eq!(config.api_url("/tenants"), "http://localhost:8000/v1/tenants");

    let config = KgctlConfig {
        endpoint: "http://example.com/".to_string(),
        ..Default::default()
    };
    assert_eq!(config.api_url("/tenants"), "http://example.com/v1/tenants");
}

#[test]
fn test_default_config() {
    let config = KgctlConfig::default();
    assert_eq!(config.endpoint, "http://localhost:8000");
    assert_eq!(config.timeout, 30);
}

#[test]
fn test_get_tenant() {
    let config = KgctlConfig {
        default_tenant: Some("default".to_string()),
        ..Default::default()
    };

    // The override wins.
    assert_eq!(
        config.get_tenant(&Some("override".to_string())).unwrap(),
        "override"
    );

    // Else the configured default.
    assert_eq!(config.get_tenant(&None).unwrap(), "default");

    let config = KgctlConfig::default();
    // With neither, an error.
    assert!(config.get_tenant(&None).is_err());
}

#[test]
fn test_format_names() {
    assert_eq!(OutputFormat::Table.as_str(), "table");
    assert_eq!(OutputFormat::Json.as_str(), "json");
    assert_eq!(ExportFormat::Graphml.as_str(), "graphml");
    assert_eq!(ExportFormat::Cypher.as_str(), "cypher");
}
