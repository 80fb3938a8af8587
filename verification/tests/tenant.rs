//! Behavior of tenant metadata: identifiers, isolation models, status names
//! and record construction.

use telamentis::tenant::{IsolationModel, TenantInfo, TenantStatus};
use telamentis::types::TenantId;

#[test]
fn test_isolation_model_conversion() {
    assert_eq!(IsolationModel::parse("property").unwrap(), IsolationModel::Property);
    assert_eq!(IsolationModel::parse("DATABASE").unwrap(), IsolationModel::Database);
    assert_eq!(IsolationModel::parse("Label").unwrap(), IsolationModel::Label);
    assert!(IsolationModel::parse("unknown").is_err());
    assert_eq!(IsolationModel::default(), IsolationModel::Property);
    assert_eq!(IsolationModel::Property.as_str(), "property");
}

#[test]
fn test_tenant_info_creation() {
    let info = TenantInfo::new(TenantId::new("test_tenant".to_string()))
        .with_name("Test tenant".to_string())
        .with_description("A tenant for tests".to_string())
        .with_isolation_model(IsolationModel::Database);

    assert_eq!(info.id.as_str(), "test_tenant");
    assert_eq!(info.name, Some("Test tenant".to_string()));
    assert_eq!(info.description, Some("A tenant for tests".to_string()));
    assert_eq!(info.isolation_model, IsolationModel::Database);
    assert_eq!(info.status, TenantStatus::Creating);

    let active = info.activate();
    assert_eq!(active.status, TenantStatus::Active);
    assert_eq!(TenantStatus::Active.as_str(), "Active");
}

#[test]
fn test_tenant_id() {
    let a = TenantId::new("alpha".to_string());
    let b = TenantId::new("alpha".to_string());
    let c = TenantId::new("beta".to_string());
    assert!(a == b);
    assert!(a != c);
    assert_eq!(a.as_str(), "alpha");
}
