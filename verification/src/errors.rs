//! Typed errors for store, extractor, pipeline and core operations. Each kind
//! carries a short human-readable message; `message` renders it with the
//! kind's prefix.

use vstd::prelude::*;

verus! {

use vstd::string::StringExecFns;

/// Errors of graph storage operations.
#[derive(Debug)]
pub enum GraphError {
    /// Backend unreachable; retryable.
    ConnectionFailed(String),
    /// Malformed or unsupported query; not retryable.
    QueryFailed(String),
    /// A node is explicitly absent.
    NodeNotFound(String),
    /// An edge is explicitly absent.
    EdgeNotFound(String),
    /// Capacity cap, uniqueness breach or invalid temporal interval.
    ConstraintViolation(String),
    /// Backend transaction aborted; potentially retryable.
    TransactionFailed(String),
    /// A caller touched a record it does not own.
    TenantIsolationViolation(String),
    /// Backend-internal error with no finer category.
    DatabaseError(String),
    /// Deadline exceeded.
    Timeout(String),
}

impl GraphError {
    /// The error's category prefix followed by its message.
    pub fn message(&self) -> (r: String)
        ensures
            r@ == self.prefix() + self.detail(),
    {
        match self {
            GraphError::ConnectionFailed(m) => String::from_str("Connection failed: ").concat(
                m.as_str(),
            ),
            GraphError::QueryFailed(m) => String::from_str("Query execution failed: ").concat(
                m.as_str(),
            ),
            GraphError::NodeNotFound(m) => String::from_str("Node not found: ").concat(m.as_str()),
            GraphError::EdgeNotFound(m) => String::from_str("Edge not found: ").concat(m.as_str()),
            GraphError::ConstraintViolation(m) => String::from_str(
                "Constraint violation: ",
            ).concat(m.as_str()),
            GraphError::TransactionFailed(m) => String::from_str("Transaction failed: ").concat(
                m.as_str(),
            ),
            GraphError::TenantIsolationViolation(m) => String::from_str(
                "Tenant isolation violation: ",
            ).concat(m.as_str()),
            GraphError::DatabaseError(m) => String::from_str("Database error: ").concat(m.as_str()),
            GraphError::Timeout(m) => String::from_str("Timeout: ").concat(m.as_str()),
        }
    }

    /// The prefix that `message` puts before the detail text.
    pub open spec fn prefix(&self) -> Seq<char> {
        match self {
            GraphError::ConnectionFailed(_) => "Connection failed: "@,
            GraphError::QueryFailed(_) => "Query execution failed: "@,
            GraphError::NodeNotFound(_) => "Node not found: "@,
            GraphError::EdgeNotFound(_) => "Edge not found: "@,
            GraphError::ConstraintViolation(_) => "Constraint violation: "@,
            GraphError::TransactionFailed(_) => "Transaction failed: "@,
            GraphError::TenantIsolationViolation(_) => "Tenant isolation violation: "@,
            GraphError::DatabaseError(_) => "Database error: "@,
            GraphError::Timeout(_) => "Timeout: "@,
        }
    }

    /// The detail text carried by the error.
    pub open spec fn detail(&self) -> Seq<char> {
        match self {
            GraphError::ConnectionFailed(m) => m@,
            GraphError::QueryFailed(m) => m@,
            GraphError::NodeNotFound(m) => m@,
            GraphError::EdgeNotFound(m) => m@,
            GraphError::ConstraintViolation(m) => m@,
            GraphError::TransactionFailed(m) => m@,
            GraphError::TenantIsolationViolation(m) => m@,
            GraphError::DatabaseError(m) => m@,
            GraphError::Timeout(m) => m@,
        }
    }
}

/// Errors of LLM connector operations.
#[derive(Debug)]
pub enum LlmError {
    /// The connector was configured wrongly.
    ConfigError(String),
    /// The provider could not be reached.
    NetworkError(String),
    /// The provider answered with an error.
    ApiError(String),
    /// The call exceeded its deadline.
    Timeout,
    /// The provider's answer could not be parsed.
    ResponseParseError(String),
    /// The extraction envelope failed structural validation.
    SchemaValidationError(String),
    /// The extraction budget was exhausted.
    BudgetExceeded,
    /// Connector-internal error.
    InternalError(String),
}

impl LlmError {
    /// The error's category prefix followed by its message.
    pub fn message(&self) -> (r: String)
        ensures
            r@ == self.prefix() + self.detail(),
    {
        match self {
            LlmError::ConfigError(m) => String::from_str("Configuration error: ").concat(
                m.as_str(),
            ),
            LlmError::NetworkError(m) => String::from_str("Network error: ").concat(m.as_str()),
            LlmError::ApiError(m) => String::from_str("API error from LLM provider: ").concat(
                m.as_str(),
            ),
            LlmError::Timeout => String::from_str("Timeout during LLM call"),
            LlmError::ResponseParseError(m) => String::from_str(
                "Failed to parse LLM response: ",
            ).concat(m.as_str()),
            LlmError::SchemaValidationError(m) => String::from_str(
                "LLM response failed schema validation: ",
            ).concat(m.as_str()),
            LlmError::BudgetExceeded => String::from_str("Extraction budget exceeded"),
            LlmError::InternalError(m) => String::from_str("Internal connector error: ").concat(
                m.as_str(),
            ),
        }
    }

    /// The prefix that `message` puts before the detail text.
    pub open spec fn prefix(&self) -> Seq<char> {
        match self {
            LlmError::ConfigError(_) => "Configuration error: "@,
            LlmError::NetworkError(_) => "Network error: "@,
            LlmError::ApiError(_) => "API error from LLM provider: "@,
            LlmError::Timeout => "Timeout during LLM call"@,
            LlmError::ResponseParseError(_) => "Failed to parse LLM response: "@,
            LlmError::SchemaValidationError(_) => "LLM response failed schema validation: "@,
            LlmError::BudgetExceeded => "Extraction budget exceeded"@,
            LlmError::InternalError(_) => "Internal connector error: "@,
        }
    }

    /// The detail text carried by the error.
    pub open spec fn detail(&self) -> Seq<char> {
        match self {
            LlmError::ConfigError(m) => m@,
            LlmError::NetworkError(m) => m@,
            LlmError::ApiError(m) => m@,
            LlmError::Timeout => Seq::empty(),
            LlmError::ResponseParseError(m) => m@,
            LlmError::SchemaValidationError(m) => m@,
            LlmError::BudgetExceeded => Seq::empty(),
            LlmError::InternalError(m) => m@,
        }
    }
}

/// Errors of the request processing pipeline.
#[derive(Debug)]
pub enum PipelineError {
    PluginInitFailed(String),
    PluginExecutionFailed(String),
    ConfigurationError(String),
    StageExecutionFailed(String),
    PluginNotFound(String),
    PipelineHalted(String),
}

impl PipelineError {
    /// The error's category prefix followed by its message.
    pub fn message(&self) -> (r: String)
        ensures
            r@ == self.prefix() + self.detail(),
    {
        match self {
            PipelineError::PluginInitFailed(m) => String::from_str(
                "Plugin initialization failed: ",
            ).concat(m.as_str()),
            PipelineError::PluginExecutionFailed(m) => String::from_str(
                "Plugin execution failed: ",
            ).concat(m.as_str()),
            PipelineError::ConfigurationError(m) => String::from_str(
                "Pipeline configuration error: ",
            ).concat(m.as_str()),
            PipelineError::StageExecutionFailed(m) => String::from_str(
                "Stage execution failed: ",
            ).concat(m.as_str()),
            PipelineError::PluginNotFound(m) => String::from_str("Plugin not found: ").concat(
                m.as_str(),
            ),
            PipelineError::PipelineHalted(m) => String::from_str("Pipeline halted: ").concat(
                m.as_str(),
            ),
        }
    }

    /// The prefix that `message` puts before the detail text.
    pub open spec fn prefix(&self) -> Seq<char> {
        match self {
            PipelineError::PluginInitFailed(_) => "Plugin initialization failed: "@,
            PipelineError::PluginExecutionFailed(_) => "Plugin execution failed: "@,
            PipelineError::ConfigurationError(_) => "Pipeline configuration error: "@,
            PipelineError::StageExecutionFailed(_) => "Stage execution failed: "@,
            PipelineError::PluginNotFound(_) => "Plugin not found: "@,
            PipelineError::PipelineHalted(_) => "Pipeline halted: "@,
        }
    }

    /// The detail text carried by the error.
    pub open spec fn detail(&self) -> Seq<char> {
        match self {
            PipelineError::PluginInitFailed(m) => m@,
            PipelineError::PluginExecutionFailed(m) => m@,
            PipelineError::ConfigurationError(m) => m@,
            PipelineError::StageExecutionFailed(m) => m@,
            PipelineError::PluginNotFound(m) => m@,
            PipelineError::PipelineHalted(m) => m@,
        }
    }
}

/// The top-level error of core operations.
#[derive(Debug)]
pub enum CoreError {
    /// A graph storage error.
    Storage(GraphError),
    /// An LLM connector error.
    Llm(LlmError),
    /// A pipeline error.
    Pipeline(PipelineError),
    /// A tenant was missing or invalid.
    Tenant(String),
    /// A temporal query was invalid.
    Temporal(String),
    /// The configuration was invalid.
    Configuration(String),
    /// An internal error.
    Internal(String),
}

impl CoreError {
    /// The error's category prefix followed by its message.
    pub fn message(&self) -> (r: String)
        ensures
            r@ == self.prefix() + self.detail(),
    {
        match self {
            CoreError::Storage(e) => String::from_str("Graph storage error: ").concat(
                e.message().as_str(),
            ),
            CoreError::Llm(e) => String::from_str("LLM connector error: ").concat(
                e.message().as_str(),
            ),
            CoreError::Pipeline(e) => String::from_str("Pipeline error: ").concat(
                e.message().as_str(),
            ),
            CoreError::Tenant(m) => String::from_str("Tenant error: ").concat(m.as_str()),
            CoreError::Temporal(m) => String::from_str("Temporal query error: ").concat(
                m.as_str(),
            ),
            CoreError::Configuration(m) => String::from_str("Invalid configuration: ").concat(
                m.as_str(),
            ),
            CoreError::Internal(m) => String::from_str("Internal error: ").concat(m.as_str()),
        }
    }

    /// The prefix that `message` puts before the detail text.
    pub open spec fn prefix(&self) -> Seq<char> {
        match self {
            CoreError::Storage(_) => "Graph storage error: "@,
            CoreError::Llm(_) => "LLM connector error: "@,
            CoreError::Pipeline(_) => "Pipeline error: "@,
            CoreError::Tenant(_) => "Tenant error: "@,
            CoreError::Temporal(_) => "Temporal query error: "@,
            CoreError::Configuration(_) => "Invalid configuration: "@,
            CoreError::Internal(_) => "Internal error: "@,
        }
    }

    /// The detail text carried by the error: nested errors render with their
    /// own prefixes.
    pub open spec fn detail(&self) -> Seq<char> {
        match self {
            CoreError::Storage(e) => e.prefix() + e.detail(),
            CoreError::Llm(e) => e.prefix() + e.detail(),
            CoreError::Pipeline(e) => e.prefix() + e.detail(),
            CoreError::Tenant(m) => m@,
            CoreError::Temporal(m) => m@,
            CoreError::Configuration(m) => m@,
            CoreError::Internal(m) => m@,
        }
    }
}

} // verus!
