//! Behavior of the HTTP-facing shapes: response envelopes, defaults and
//! tenant extraction from paths.

use telamentis::api::{
    extract_tenant_from_path, ApiResponse, ApiVersion, PaginationParams,
};

#[test]
fn test_api_response_success() {
    let response = ApiResponse::success("test data");
    assert!(response.success);
    assert_eq!(response.data, Some("test data"));
    assert!(response.error.is_none());

    let stamped = ApiResponse::success_at(41, "2024-01-01T00:00:00Z".to_string());
    assert_eq!(stamped.timestamp, "2024-01-01T00:00:00Z");
}

#[test]
fn test_api_response_error() {
    let response: ApiResponse<()> = ApiResponse::error("test error".to_string());
    assert!(!response.success);
    assert!(response.data.is_none());
    assert_eq!(response.error, Some("test error".to_string()));
}

#[test]
fn test_api_version_default() {
    let v = ApiVersion::default();
    assert_eq!(v.build, "development");
    assert!(v.commit.is_none());
}

#[test]
fn test_pagination_params_default() {
    let p = PaginationParams::default();
    assert_eq!(p.page, Some(1));
    assert_eq!(p.limit, Some(100));
    assert_eq!(p.offset, None);
}

#[test]
fn test_extract_tenant_id_from_path() {
    assert_eq!(
        extract_tenant_from_path("/v1/graph/tenant1/nodes"),
        Some("tenant1".to_string())
    );
    assert_eq!(
        extract_tenant_from_path("/v1/graph/t-2"),
        Some("t-2".to_string())
    );
}

#[test]
fn test_extract_tenant_id_not_found() {
    assert_eq!(extract_tenant_from_path("/v1/health"), None);
    assert_eq!(extract_tenant_from_path("/v1/graph/"), None);
    assert_eq!(extract_tenant_from_path("/v1/graph//nodes"), None);
}

#[test]
fn test_health_status_creation() {
    let health = telamentis::api::HealthStatus {
        status: "healthy".to_string(),
        version: "0.1.0".to_string(),
        timestamp: "2024-01-01T00:00:00Z".to_string(),
    };

    assert_eq!(health.status, "healthy");
    assert_eq!(health.version, "0.1.0");
}
