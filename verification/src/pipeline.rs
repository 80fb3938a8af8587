//! The request processing pipeline: three ordered stages of plugins sharing a
//! mutable request context. A plugin either continues, halts the request, or
//! halts with an error; a halt observed in one stage skips every later stage.
//! The runner is proved against a functional model of the whole run, and the
//! halt law is stated over that model.

use vstd::prelude::*;

use vstd::string::StringExecFns;

use crate::props::{PropEntry, PropEntryView, PropValue, PropView, props_view, lookup_prop,
    update_prop};
use crate::text::{contains_seq, str_contains};
use crate::types::TenantId;
use crate::errors::CoreError;

verus! {

broadcast use vstd::seq::group_seq_axioms;

/// The three ordered stages of the pipeline.
#[derive(Debug, Clone, PartialEq, Eq, Structural)]
pub enum PipelineStage {
    PreOperation,
    Operation,
    PostOperation,
}

impl PipelineStage {
    /// The stage's conventional name.
    pub fn as_str(&self) -> (r: &'static str)
        ensures
            r@ == match self {
                PipelineStage::PreOperation => "pre-operation"@,
                PipelineStage::Operation => "operation"@,
                PipelineStage::PostOperation => "post-operation"@,
            },
    {
        match self {
            PipelineStage::PreOperation => "pre-operation",
            PipelineStage::Operation => "operation",
            PipelineStage::PostOperation => "post-operation",
        }
    }
}

/// Mathematical model of a plugin's verdict.
pub enum PluginOutcomeView {
    Continue,
    Halt,
    HaltWithError(Seq<char>),
}

/// What a plugin returns: continue to the next plugin, halt the request, or
/// halt and record an error on the context.
pub enum PluginOutcome {
    Continue,
    Halt,
    HaltWithError(String),
}

impl View for PluginOutcome {
    type V = PluginOutcomeView;

    open spec fn view(&self) -> PluginOutcomeView {
        match self {
            PluginOutcome::Continue => PluginOutcomeView::Continue,
            PluginOutcome::Halt => PluginOutcomeView::Halt,
            PluginOutcome::HaltWithError(e) => PluginOutcomeView::HaltWithError(e@),
        }
    }
}

impl Clone for PluginOutcome {
    /// Cloning preserves the model.
    fn clone(&self) -> (res: Self)
        ensures
            res@ == self@,
    {
        match self {
            PluginOutcome::Continue => PluginOutcome::Continue,
            PluginOutcome::Halt => PluginOutcome::Halt,
            PluginOutcome::HaltWithError(e) => PluginOutcome::HaltWithError(e.clone()),
        }
    }
}

/// Mathematical model of a header entry.
pub struct HeaderView {
    pub name: Seq<char>,
    pub value: Seq<char>,
}

/// One request header.
pub struct Header {
    pub name: String,
    pub value: String,
}

impl View for Header {
    type V = HeaderView;

    open spec fn view(&self) -> HeaderView {
        HeaderView { name: self.name@, value: self.value@ }
    }
}

/// Mathematical model of a request context.
pub struct RequestContextView {
    pub request_id: u128,
    pub tenant_id: Option<Seq<char>>,
    pub method: Seq<char>,
    pub path: Seq<char>,
    pub headers: Seq<HeaderView>,
    pub raw_request: Option<PropView>,
    pub core_operation_input: Option<PropView>,
    pub core_operation_output: Option<PropView>,
    pub final_response: Option<PropView>,
    pub attributes: Seq<PropEntryView>,
    pub start_time_micros: i64,
    pub error: Option<Seq<char>>,
}

/// The shared context flowing through the pipeline: request identity, routing
/// data, the operation's input and output, an attribute bag for inter-plugin
/// communication, the start timestamp, and a possibly-set error.
pub struct RequestContext {
    pub request_id: u128,
    pub tenant_id: Option<TenantId>,
    pub method: String,
    pub path: String,
    pub headers: Vec<Header>,
    pub raw_request: Option<PropValue>,
    pub core_operation_input: Option<PropValue>,
    pub core_operation_output: Option<PropValue>,
    pub final_response: Option<PropValue>,
    pub attributes: Vec<PropEntry>,
    pub start_time_micros: i64,
    pub error: Option<String>,
}

impl View for RequestContext {
    type V = RequestContextView;

    open spec fn view(&self) -> RequestContextView {
        RequestContextView {
            request_id: self.request_id,
            tenant_id: match self.tenant_id {
                Some(t) => Some(t@),
                None => None,
            },
            method: self.method@,
            path: self.path@,
            headers: Seq::new(
                self.headers@.len(),
                |i: int|
                    if 0 <= i < self.headers@.len() {
                        self.headers@[i]@
                    } else {
                        HeaderView { name: Seq::empty(), value: Seq::empty() }
                    },
            ),
            raw_request: match self.raw_request {
                Some(ref v) => Some(v@),
                None => None,
            },
            core_operation_input: match self.core_operation_input {
                Some(ref v) => Some(v@),
                None => None,
            },
            core_operation_output: match self.core_operation_output {
                Some(ref v) => Some(v@),
                None => None,
            },
            final_response: match self.final_response {
                Some(ref v) => Some(v@),
                None => None,
            },
            attributes: props_view(self.attributes@),
            start_time_micros: self.start_time_micros,
            error: match self.error {
                Some(ref e) => Some(e@),
                None => None,
            },
        }
    }
}

impl RequestContext {
    /// A fresh context for a request with the given identity and start time:
    /// no tenant, no payloads, no attributes, no error.
    pub fn new_at(method: String, path: String, request_id: u128, start_time_micros: i64) -> (r:
        Self)
        ensures
            r@ == (RequestContextView {
                request_id,
                tenant_id: None,
                method: method@,
                path: path@,
                headers: Seq::empty(),
                raw_request: None,
                core_operation_input: None,
                core_operation_output: None,
                final_response: None,
                attributes: Seq::empty(),
                start_time_micros,
                error: None,
            }),
    {
        let r = RequestContext {
            request_id,
            tenant_id: None,
            method,
            path,
            headers: Vec::new(),
            raw_request: None,
            core_operation_input: None,
            core_operation_output: None,
            final_response: None,
            attributes: Vec::new(),
            start_time_micros,
            error: None,
        };
        proof {
            assert(r@.headers =~= Seq::<HeaderView>::empty());
            assert(r@.attributes =~= Seq::<PropEntryView>::empty());
        }
        r
    }

    /// A fresh context with a randomly drawn request id and the wall clock's
    /// current instant as start time.
    pub fn new(method: String, path: String) -> (r: Self)
        ensures
            r@ == (RequestContextView {
                request_id: r@.request_id,
                tenant_id: None,
                method: method@,
                path: path@,
                headers: Seq::empty(),
                raw_request: None,
                core_operation_input: None,
                core_operation_output: None,
                final_response: None,
                attributes: Seq::empty(),
                start_time_micros: r@.start_time_micros,
                error: None,
            }),
    {
        let request_id = crate::ext::fresh_uuid_u128();
        let start = crate::ext::now_micros();
        Self::new_at(method, path, request_id, start)
    }

    /// Microseconds elapsed since the context was created, by the wall clock;
    /// zero when the clock reads earlier than the start time.
    pub fn elapsed_micros(&self) -> (r: i64)
        ensures
            r >= 0,
    {
        let n = crate::ext::now_micros();
        let d: i128 = n as i128 - self.start_time_micros as i128;
        if d <= 0 {
            0
        } else if d > i64::MAX as i128 {
            i64::MAX
        } else {
            d as i64
        }
    }

    /// Sets an attribute, replacing any prior value under the key.
    pub fn set_attribute(&mut self, key: String, value: PropValue)
        ensures
            final(self)@ == (RequestContextView {
                attributes: update_prop(old(self)@.attributes, key@, value@),
                ..old(self)@
            }),
    {
        crate::props::props_set(&mut self.attributes, key, value);
        proof {
            assert(final(self)@.headers =~= old(self)@.headers);
        }
    }

    /// Reads an attribute.
    pub fn get_attribute(&self, key: &str) -> (r: Option<&PropValue>)
        ensures
            match r {
                Some(v) => lookup_prop(self@.attributes, key@) == Some(v@),
                None => lookup_prop(self@.attributes, key@) is None,
            },
    {
        crate::props::props_get(&self.attributes, key)
    }
}

/// The built-in request logging plugin: purely observational, it never
/// changes the context.
pub struct RequestLoggingPlugin {}

impl RequestLoggingPlugin {
    /// The plugin's fixed name.
    pub open spec fn spec_name(&self) -> Seq<char> {
        "RequestLogging"@
    }

    /// The logging plugin.
    pub fn new() -> (r: Self) {
        RequestLoggingPlugin {  }
    }

    /// The plugin's unique name.
    pub fn name(&self) -> (r: &'static str)
        ensures
            r@ == self.spec_name(),
    {
        "RequestLogging"
    }
}

/// The built-in tenant validation plugin: halts a request whose path requires
/// a tenant when none is set.
pub struct TenantValidationPlugin {}

impl TenantValidationPlugin {
    /// The plugin's fixed name.
    pub open spec fn spec_name(&self) -> Seq<char> {
        "TenantValidation"@
    }

    /// The tenant validation plugin.
    pub fn new() -> (r: Self) {
        TenantValidationPlugin {  }
    }

    /// The plugin's unique name.
    pub fn name(&self) -> (r: &'static str)
        ensures
            r@ == self.spec_name(),
    {
        "TenantValidation"
    }
}

/// The built-in audit trail plugin: stamps the attributes with the audit
/// timestamp as an RFC 3339 string and the audit marker.
pub struct AuditTrailPlugin {}

impl AuditTrailPlugin {
    /// The plugin's fixed name.
    pub open spec fn spec_name(&self) -> Seq<char> {
        "AuditTrail"@
    }

    /// The audit trail plugin.
    pub fn new() -> (r: Self) {
        AuditTrailPlugin {  }
    }

    /// The plugin's unique name.
    pub fn name(&self) -> (r: &'static str)
        ensures
            r@ == self.spec_name(),
    {
        "AuditTrail"
    }
}

/// A plugin with a fixed verdict that counts its invocations in an attribute:
/// the building block for probing the runner's control flow.
pub struct ScriptedPlugin {
    pub name: String,
    pub outcome: PluginOutcome,
    pub counter_key: String,
}

/// The closed sum of plugins the runner dispatches over.
pub enum Plugin {
    RequestLogging(RequestLoggingPlugin),
    TenantValidation(TenantValidationPlugin),
    AuditTrail(AuditTrailPlugin),
    Scripted(ScriptedPlugin),
}

/// A request path names an operation that requires a tenant.
pub open spec fn path_requires_tenant(path: Seq<char>) -> bool {
    contains_seq(path, "/graph/"@) || contains_seq(path, "/llm/"@)
}

/// The incremented invocation counter: one more than the attribute's current
/// integer value, saturating, and one when the attribute is missing or not an
/// integer.
pub open spec fn bumped_counter(current: Option<PropView>) -> PropView {
    match current {
        Some(PropView::Int(n)) => if n == i64::MAX as int {
            PropView::Int(n)
        } else {
            PropView::Int(n + 1)
        },
        _ => PropView::Int(1),
    }
}

/// What one plugin call does to the context, and its verdict, at stamping
/// instant `now`.
pub open spec fn plugin_call_spec(p: Plugin, ctx: RequestContextView, now: i64) -> (
    RequestContextView,
    PluginOutcomeView,
) {
    match p {
        Plugin::RequestLogging(_) => (ctx, PluginOutcomeView::Continue),
        Plugin::TenantValidation(_) => if path_requires_tenant(ctx.path) && ctx.tenant_id
            is None {
            (
                RequestContextView {
                    error: Some("Tenant ID is required for this operation"@),
                    ..ctx
                },
                PluginOutcomeView::Halt,
            )
        } else {
            (ctx, PluginOutcomeView::Continue)
        },
        Plugin::AuditTrail(_) => (
            RequestContextView {
                attributes: update_prop(
                    update_prop(
                        ctx.attributes,
                        "audit_timestamp"@,
                        PropView::Str(crate::ext::rfc3339_or_empty(now as int)),
                    ),
                    "audit_logged"@,
                    PropView::Bool(true),
                ),
                ..ctx
            },
            PluginOutcomeView::Continue,
        ),
        Plugin::Scripted(sp) => (
            RequestContextView {
                attributes: update_prop(
                    ctx.attributes,
                    sp.counter_key@,
                    bumped_counter(lookup_prop(ctx.attributes, sp.counter_key@)),
                ),
                ..ctx
            },
            sp.outcome@,
        ),
    }
}

impl Plugin {
    /// The plugin's unique name.
    pub fn name(&self) -> (r: &str)
        ensures
            r@ == match self {
                Plugin::RequestLogging(p) => p.spec_name(),
                Plugin::TenantValidation(p) => p.spec_name(),
                Plugin::AuditTrail(p) => p.spec_name(),
                Plugin::Scripted(p) => p.name@,
            },
    {
        match self {
            Plugin::RequestLogging(p) => p.name(),
            Plugin::TenantValidation(p) => p.name(),
            Plugin::AuditTrail(p) => p.name(),
            Plugin::Scripted(p) => p.name.as_str(),
        }
    }

    /// Runs the plugin on the context at the given stamping instant.
    pub fn call_at(&self, ctx: &mut RequestContext, now: i64) -> (r: PluginOutcome)
        ensures
            (final(ctx)@, r@) == plugin_call_spec(*self, old(ctx)@, now),
    {
        match self {
            Plugin::RequestLogging(_) => PluginOutcome::Continue,
            Plugin::TenantValidation(_) => {
                let needs_tenant = str_contains(ctx.path.as_str(), "/graph/") || str_contains(
                    ctx.path.as_str(),
                    "/llm/",
                );
                if needs_tenant && ctx.tenant_id.is_none() {
                    ctx.error = Some(String::from_str("Tenant ID is required for this operation"));
                    PluginOutcome::Halt
                } else {
                    PluginOutcome::Continue
                }
            },
            Plugin::AuditTrail(_) => {
                let stamp = match crate::ext::format_rfc3339_micros(now) {
                    Some(s) => s,
                    None => String::new(),
                };
                ctx.set_attribute(String::from_str("audit_timestamp"), PropValue::Str(stamp));
                ctx.set_attribute(String::from_str("audit_logged"), PropValue::Bool(true));
                PluginOutcome::Continue
            },
            Plugin::Scripted(sp) => {
                let current = crate::props::props_get(&ctx.attributes, sp.counter_key.as_str());
                let next = match current {
                    Some(PropValue::Int(n)) => {
                        if *n == i64::MAX {
                            PropValue::Int(*n)
                        } else {
                            PropValue::Int(*n + 1)
                        }
                    },
                    _ => PropValue::Int(1),
                };
                let key = sp.counter_key.clone();
                ctx.set_attribute(key, next);
                sp.outcome.clone()
            },
        }
    }

    /// Runs the plugin on the context, stamping with the wall clock where the
    /// plugin records a timestamp.
    pub fn call(&self, ctx: &mut RequestContext) -> (r: PluginOutcome)
        ensures
            exists|now: i64| (final(ctx)@, r@) == #[trigger] plugin_call_spec(
                *self,
                old(ctx)@,
                now,
            ),
    {
        let now = crate::ext::now_micros();
        let r = self.call_at(ctx, now);
        proof {
            assert((ctx@, r@) == plugin_call_spec(*self, old(ctx)@, now));
        }
        r
    }
}

/// What one stage does to the context at stamping instant `now`: the plugins
/// run in registration order until one of them halts; the flag says whether
/// one did.
pub open spec fn run_stage_spec(plugins: Seq<Plugin>, ctx: RequestContextView, now: i64) -> (
    RequestContextView,
    bool,
)
    decreases plugins.len(),
{
    if plugins.len() == 0 {
        (ctx, false)
    } else {
        let (c1, o) = plugin_call_spec(plugins[0], ctx, now);
        match o {
            PluginOutcomeView::Continue => run_stage_spec(plugins.drop_first(), c1, now),
            PluginOutcomeView::Halt => (c1, true),
            PluginOutcomeView::HaltWithError(e) => (
                RequestContextView { error: Some(e), ..c1 },
                true,
            ),
        }
    }
}

/// What a whole run does to the context at stamping instant `now`: the three
/// stages in order, stopping after any stage that halted or recorded an
/// error.
pub open spec fn run_pipeline_spec(
    pre: Seq<Plugin>,
    operation: Seq<Plugin>,
    post: Seq<Plugin>,
    ctx: RequestContextView,
    now: i64,
) -> RequestContextView {
    let (c1, h1) = run_stage_spec(pre, ctx, now);
    if h1 || c1.error is Some {
        c1
    } else {
        let (c2, h2) = run_stage_spec(operation, c1, now);
        if h2 || c2.error is Some {
            c2
        } else {
            run_stage_spec(post, c2, now).0
        }
    }
}

/// The pipeline-halt law: when some plugin of the pre-operation stage halts,
/// the run is decided by that stage alone; no operation-stage or post-stage
/// plugin touches the context.
pub proof fn lemma_pipeline_halt(
    pre: Seq<Plugin>,
    operation: Seq<Plugin>,
    post: Seq<Plugin>,
    ctx: RequestContextView,
    now: i64,
)
    requires
        run_stage_spec(pre, ctx, now).1,
    ensures
        run_pipeline_spec(pre, operation, post, ctx, now) == run_stage_spec(pre, ctx, now).0,
{
}

/// The stages holding at least one plugin, in pipeline order.
pub open spec fn stages_of(
    pre: Seq<Plugin>,
    operation: Seq<Plugin>,
    post: Seq<Plugin>,
) -> Seq<PipelineStage> {
    (if pre.len() > 0 {
        seq![PipelineStage::PreOperation]
    } else {
        Seq::<PipelineStage>::empty()
    }) + (if operation.len() > 0 {
        seq![PipelineStage::Operation]
    } else {
        Seq::<PipelineStage>::empty()
    }) + (if post.len() > 0 {
        seq![PipelineStage::PostOperation]
    } else {
        Seq::<PipelineStage>::empty()
    })
}

/// The runner: one ordered plugin list per stage, immutable during requests.
pub struct PipelineRunner {
    pre_plugins: Vec<Plugin>,
    operation_plugins: Vec<Plugin>,
    post_plugins: Vec<Plugin>,
}

impl PipelineRunner {
    /// The plugins of the pre-operation stage.
    pub closed spec fn pre(&self) -> Seq<Plugin> {
        self.pre_plugins@
    }

    /// The plugins of the operation stage.
    pub closed spec fn operation(&self) -> Seq<Plugin> {
        self.operation_plugins@
    }

    /// The plugins of the post-operation stage.
    pub closed spec fn post(&self) -> Seq<Plugin> {
        self.post_plugins@
    }

    /// A runner with no plugins.
    pub fn new() -> (r: Self)
        ensures
            r.pre() == Seq::<Plugin>::empty(),
            r.operation() == Seq::<Plugin>::empty(),
            r.post() == Seq::<Plugin>::empty(),
    {
        PipelineRunner {
            pre_plugins: Vec::new(),
            operation_plugins: Vec::new(),
            post_plugins: Vec::new(),
        }
    }

    /// Registers a plugin at the end of a stage's list.
    pub fn register_plugin(&mut self, stage: PipelineStage, plugin: Plugin)
        ensures
            ({
                let p0 = old(self).pre();
                let o0 = old(self).operation();
                let q0 = old(self).post();
                match stage {
                    PipelineStage::PreOperation => final(self).pre() == p0.push(plugin)
                        && final(self).operation() == o0 && final(self).post() == q0,
                    PipelineStage::Operation => final(self).operation() == o0.push(plugin)
                        && final(self).pre() == p0 && final(self).post() == q0,
                    PipelineStage::PostOperation => final(self).post() == q0.push(plugin)
                        && final(self).pre() == p0 && final(self).operation() == o0,
                }
            }),
    {
        match stage {
            PipelineStage::PreOperation => self.pre_plugins.push(plugin),
            PipelineStage::Operation => self.operation_plugins.push(plugin),
            PipelineStage::PostOperation => self.post_plugins.push(plugin),
        }
    }

    /// The number of plugins registered for a stage.
    pub fn plugin_count(&self, stage: &PipelineStage) -> (r: usize)
        ensures
            r == match stage {
                PipelineStage::PreOperation => self.pre().len(),
                PipelineStage::Operation => self.operation().len(),
                PipelineStage::PostOperation => self.post().len(),
            },
    {
        match stage {
            PipelineStage::PreOperation => self.pre_plugins.len(),
            PipelineStage::Operation => self.operation_plugins.len(),
            PipelineStage::PostOperation => self.post_plugins.len(),
        }
    }

    /// The stages that have at least one plugin, in pipeline order.
    pub fn stages(&self) -> (r: Vec<PipelineStage>)
        ensures
            r@ == stages_of(self.pre(), self.operation(), self.post()),
    {
        let mut r: Vec<PipelineStage> = Vec::new();
        if self.pre_plugins.len() > 0 {
            r.push(PipelineStage::PreOperation);
        }
        let ghost g1 = r@;
        proof {
            assert(g1 =~= if self.pre().len() > 0 {
                seq![PipelineStage::PreOperation]
            } else {
                Seq::<PipelineStage>::empty()
            });
        }
        if self.operation_plugins.len() > 0 {
            r.push(PipelineStage::Operation);
        }
        let ghost g2 = r@;
        proof {
            assert(g2 =~= g1 + if self.operation().len() > 0 {
                seq![PipelineStage::Operation]
            } else {
                Seq::<PipelineStage>::empty()
            });
        }
        if self.post_plugins.len() > 0 {
            r.push(PipelineStage::PostOperation);
        }
        proof {
            assert(r@ =~= g2 + if self.post().len() > 0 {
                seq![PipelineStage::PostOperation]
            } else {
                Seq::<PipelineStage>::empty()
            });
            assert(r@ =~= stages_of(self.pre(), self.operation(), self.post()));
        }
        r
    }

    /// Runs one stage's plugins in order on the context at the given stamping
    /// instant; the flag says whether one of them halted the request.
    fn execute_stage_at(&self, stage: PipelineStage, ctx: &mut RequestContext, now: i64) -> (r:
        bool)
        ensures
            ({
                let plugins = match stage {
                    PipelineStage::PreOperation => self.pre(),
                    PipelineStage::Operation => self.operation(),
                    PipelineStage::PostOperation => self.post(),
                };
                (final(ctx)@, r) == run_stage_spec(plugins, old(ctx)@, now)
            }),
    {
        let plugins = match stage {
            PipelineStage::PreOperation => &self.pre_plugins,
            PipelineStage::Operation => &self.operation_plugins,
            PipelineStage::PostOperation => &self.post_plugins,
        };
        let ghost all = plugins@;
        let ghost ctx0 = ctx@;
        proof {
            assert(all.skip(0) =~= all);
        }
        let mut i: usize = 0;
        while i < plugins.len()
            invariant
                0 <= i <= plugins@.len(),
                all == plugins@,
                ctx0 == old(ctx)@,
                all == match stage {
                    PipelineStage::PreOperation => self.pre(),
                    PipelineStage::Operation => self.operation(),
                    PipelineStage::PostOperation => self.post(),
                },
                run_stage_spec(all.skip(i as int), ctx@, now) == run_stage_spec(all, ctx0, now),
            decreases plugins@.len() - i,
        {
            proof {
                assert(all.skip(i as int)[0] == all[i as int]);
                assert(all.skip(i as int).drop_first() =~= all.skip(i as int + 1));
            }
            let ghost prev = ctx@;
            let outcome = plugins[i].call_at(ctx, now);
            proof {
                assert(plugin_call_spec(all[i as int], prev, now) == (ctx@, outcome@));
            }
            match outcome {
                PluginOutcome::Continue => {
                    proof {
                        assert(run_stage_spec(all.skip(i as int), prev, now) == run_stage_spec(
                            all.skip(i as int + 1),
                            ctx@,
                            now,
                        ));
                    }
                },
                PluginOutcome::Halt => {
                    proof {
                        assert(run_stage_spec(all.skip(i as int), prev, now) == (ctx@, true));
                    }
                    return true;
                },
                PluginOutcome::HaltWithError(e) => {
                    let ghost c1 = ctx@;
                    let ghost msg = e@;
                    ctx.error = Some(e);
                    proof {
                        assert(ctx@.headers =~= c1.headers);
                        assert(ctx@ == (RequestContextView { error: Some(msg), ..c1 }));
                        assert(run_stage_spec(all.skip(i as int), prev, now) == (ctx@, true));
                    }
                    return true;
                },
            }
            i += 1;
        }
        proof {
            assert(all.skip(all.len() as int).len() == 0);
        }
        false
    }

    /// Runs the whole pipeline on a context at the given stamping instant:
    /// the three stages in order, stopping after any stage that halted or
    /// recorded an error; the context, however far it got, is the response.
    pub fn execute_at(&self, ctx: RequestContext, now: i64) -> (r: Result<
        RequestContext,
        CoreError,
    >)
        ensures
            r matches Ok(out) && out@ == run_pipeline_spec(
                self.pre(),
                self.operation(),
                self.post(),
                ctx@,
                now,
            ),
    {
        let mut cur = ctx;
        let halted = self.execute_stage_at(PipelineStage::PreOperation, &mut cur, now);
        if halted || cur.error.is_some() {
            return Ok(cur);
        }
        let halted = self.execute_stage_at(PipelineStage::Operation, &mut cur, now);
        if halted || cur.error.is_some() {
            return Ok(cur);
        }
        let _ = self.execute_stage_at(PipelineStage::PostOperation, &mut cur, now);
        Ok(cur)
    }

    /// Runs the whole pipeline on a context, stamping with the wall clock.
    pub fn execute(&self, ctx: RequestContext) -> (r: Result<RequestContext, CoreError>)
        ensures
            exists|now: i64|
                r matches Ok(out) && out@ == #[trigger] run_pipeline_spec(
                    self.pre(),
                    self.operation(),
                    self.post(),
                    ctx@,
                    now,
                ),
    {
        let now = crate::ext::now_micros();
        let r = self.execute_at(ctx, now);
        r
    }
}

} // verus!
