//! Behavior of the request pipeline: stage ordering, halting, tenant
//! validation, audit stamping and the request context.

use telamentis::pipeline::{
    AuditTrailPlugin, PipelineRunner, PipelineStage, Plugin, PluginOutcome, RequestContext,
    RequestLoggingPlugin, ScriptedPlugin, TenantValidationPlugin,
};
use telamentis::props::PropValue;
use telamentis::types::TenantId;

fn counter(ctx: &RequestContext, key: &str) -> i64 {
    match ctx.get_attribute(key) {
        Some(PropValue::Int(n)) => *n,
        _ => 0,
    }
}

fn counting_plugin(name: &str, outcome: PluginOutcome) -> Plugin {
    Plugin::Scripted(ScriptedPlugin {
        name: name.to_string(),
        outcome,
        counter_key: format!("calls:{}", name),
    })
}

#[test]
fn test_pipeline_execution() {
    let mut runner = PipelineRunner::new();
    runner.register_plugin(
        PipelineStage::PreOperation,
        counting_plugin("first", PluginOutcome::Continue),
    );
    runner.register_plugin(
        PipelineStage::PreOperation,
        counting_plugin("second", PluginOutcome::Continue),
    );

    let ctx = RequestContext::new("GET".to_string(), "/test".to_string());
    let result = runner.execute(ctx).unwrap();

    assert_eq!(counter(&result, "calls:first"), 1);
    assert_eq!(counter(&result, "calls:second"), 1);
    assert!(result.error.is_none());
}

#[test]
fn test_plugin_halt() {
    let mut runner = PipelineRunner::new();
    runner.register_plugin(
        PipelineStage::PreOperation,
        counting_plugin("halting", PluginOutcome::Halt),
    );
    runner.register_plugin(
        PipelineStage::PreOperation,
        counting_plugin("after", PluginOutcome::Continue),
    );

    let ctx = RequestContext::new("GET".to_string(), "/test".to_string());
    let result = runner.execute(ctx).unwrap();

    // The plugin after the halt never ran.
    assert_eq!(counter(&result, "calls:halting"), 1);
    assert_eq!(counter(&result, "calls:after"), 0);
}

#[test]
fn test_pre_stage_halt_skips_later_stages() {
    let mut runner = PipelineRunner::new();
    runner.register_plugin(
        PipelineStage::PreOperation,
        counting_plugin("gate", PluginOutcome::Halt),
    );
    runner.register_plugin(
        PipelineStage::Operation,
        counting_plugin("work", PluginOutcome::Continue),
    );
    runner.register_plugin(
        PipelineStage::PostOperation,
        counting_plugin("audit", PluginOutcome::Continue),
    );

    let ctx = RequestContext::new("POST".to_string(), "/anything".to_string());
    let result = runner.execute(ctx).unwrap();

    // The operation and post-operation counters stayed at zero; the context
    // as it stood at the halt is the response.
    assert_eq!(counter(&result, "calls:gate"), 1);
    assert_eq!(counter(&result, "calls:work"), 0);
    assert_eq!(counter(&result, "calls:audit"), 0);
}

#[test]
fn test_halt_with_error_records_error() {
    let mut runner = PipelineRunner::new();
    runner.register_plugin(
        PipelineStage::PreOperation,
        counting_plugin(
            "failing",
            PluginOutcome::HaltWithError("boom".to_string()),
        ),
    );
    runner.register_plugin(
        PipelineStage::Operation,
        counting_plugin("work", PluginOutcome::Continue),
    );

    let ctx = RequestContext::new("GET".to_string(), "/test".to_string());
    let result = runner.execute(ctx).unwrap();

    assert_eq!(result.error, Some("boom".to_string()));
    assert_eq!(counter(&result, "calls:work"), 0);
}

#[test]
fn test_tenant_validation_plugin() {
    let mut runner = PipelineRunner::new();
    runner.register_plugin(
        PipelineStage::PreOperation,
        Plugin::TenantValidation(TenantValidationPlugin::new()),
    );
    runner.register_plugin(
        PipelineStage::Operation,
        counting_plugin("work", PluginOutcome::Continue),
    );

    // A graph path without a tenant halts with an error.
    let ctx = RequestContext::new("POST".to_string(), "/v1/graph/upsert".to_string());
    let result = runner.execute(ctx).unwrap();
    assert_eq!(
        result.error,
        Some("Tenant ID is required for this operation".to_string())
    );
    assert_eq!(counter(&result, "calls:work"), 0);

    // The same path with a tenant goes through.
    let mut ctx = RequestContext::new("POST".to_string(), "/v1/graph/upsert".to_string());
    ctx.tenant_id = Some(TenantId::new("T1".to_string()));
    let result = runner.execute(ctx).unwrap();
    assert!(result.error.is_none());
    assert_eq!(counter(&result, "calls:work"), 1);

    // A path that needs no tenant goes through without one.
    let ctx = RequestContext::new("GET".to_string(), "/health".to_string());
    let result = runner.execute(ctx).unwrap();
    assert!(result.error.is_none());
}

#[test]
fn test_audit_trail_plugin() {
    let mut runner = PipelineRunner::new();
    runner.register_plugin(
        PipelineStage::PostOperation,
        Plugin::AuditTrail(AuditTrailPlugin::new()),
    );

    let ctx = RequestContext::new("GET".to_string(), "/test".to_string());
    let result = runner.execute(ctx).unwrap();

    assert!(matches!(
        result.get_attribute("audit_logged"),
        Some(PropValue::Bool(true))
    ));
    // The audit timestamp is an RFC 3339 string.
    match result.get_attribute("audit_timestamp") {
        Some(PropValue::Str(s)) => assert!(s.contains("T")),
        other => panic!("expected a string timestamp, got {:?}", other),
    }
}

#[test]
fn test_request_context() {
    let mut ctx = RequestContext::new("POST".to_string(), "/api/test".to_string());

    assert_eq!(ctx.method, "POST");
    assert_eq!(ctx.path, "/api/test");
    assert!(ctx.tenant_id.is_none());

    ctx.set_attribute(
        "test_key".to_string(),
        PropValue::Str("test_value".to_string()),
    );
    assert!(matches!(
        ctx.get_attribute("test_key"),
        Some(PropValue::Str(s)) if s == "test_value"
    ));
    assert!(ctx.get_attribute("missing").is_none());
    assert!(ctx.elapsed_micros() >= 0);
}

#[test]
fn test_runner_bookkeeping() {
    let mut runner = PipelineRunner::new();
    assert_eq!(runner.plugin_count(&PipelineStage::PreOperation), 0);
    assert!(runner.stages().is_empty());

    runner.register_plugin(
        PipelineStage::PreOperation,
        Plugin::RequestLogging(RequestLoggingPlugin::new()),
    );
    runner.register_plugin(
        PipelineStage::PostOperation,
        Plugin::AuditTrail(AuditTrailPlugin::new()),
    );

    assert_eq!(runner.plugin_count(&PipelineStage::PreOperation), 1);
    assert_eq!(runner.plugin_count(&PipelineStage::Operation), 0);
    assert_eq!(runner.plugin_count(&PipelineStage::PostOperation), 1);
    assert_eq!(
        runner.stages(),
        vec![PipelineStage::PreOperation, PipelineStage::PostOperation]
    );
    assert_eq!(PipelineStage::PreOperation.as_str(), "pre-operation");
}
