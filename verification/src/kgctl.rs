//! The control client's value model: command shapes, output formats, client
//! configuration, endpoint construction and tenant selection. Argument
//! parsing, HTTP transport and output rendering live outside the library.

use vstd::prelude::*;

use vstd::string::StringExecFns;

use crate::errors::CoreError;
use crate::text::{trimmed_end, trim_end_char};

verus! {

broadcast use vstd::seq::group_seq_axioms;

/// Tenant management commands.
pub enum TenantCommands {
    /// Create a tenant.
    Create {
        tenant_id: String,
        name: Option<String>,
        description: Option<String>,
        isolation: IsolationModel,
    },
    /// List all tenants.
    List,
    /// Describe one tenant.
    Describe { tenant_id: String },
    /// Delete a tenant.
    Delete { tenant_id: String, force: bool },
}

/// Data ingestion commands. File paths are carried as strings.
pub enum IngestCommands {
    /// Ingest comma-separated files.
    Csv {
        files: Vec<String>,
        tenant: Option<String>,
        data_type: DataType,
        delimiter: char,
        header: bool,
        id_col: Option<String>,
        label_col: Option<String>,
        label: Option<String>,
        props_cols: Option<String>,
        from_col: Option<String>,
        to_col: Option<String>,
        rel_type_val: Option<String>,
        rel_type_col: Option<String>,
        valid_from_col: Option<String>,
        valid_to_col: Option<String>,
        date_format: String,
        batch_size: usize,
    },
}

/// Query commands.
pub enum QueryCommands {
    /// Run a backend-native query.
    Raw { tenant: Option<String>, query: String, params: Option<String> },
    /// Find nodes.
    Nodes {
        tenant: Option<String>,
        labels: Vec<String>,
        properties: Vec<String>,
        limit: Option<u32>,
    },
    /// Find relationships.
    Relationships {
        tenant: Option<String>,
        from: Option<String>,
        to: Option<String>,
        types: Vec<String>,
        valid_at: Option<String>,
        limit: Option<u32>,
    },
}

/// The isolation model named on the command line.
#[derive(Debug, Clone, PartialEq, Eq, Structural)]
pub enum IsolationModel {
    Property,
    Database,
    Label,
}

/// What kind of records an ingest carries.
#[derive(Debug, Clone, PartialEq, Eq, Structural)]
pub enum DataType {
    Node,
    Relationship,
}

/// How results are rendered.
#[derive(Debug, Clone, PartialEq, Eq, Structural)]
pub enum OutputFormat {
    Table,
    Json,
    Yaml,
    Csv,
}

impl OutputFormat {
    /// The format's conventional name.
    pub fn as_str(&self) -> (r: &'static str)
        ensures
            r@ == match self {
                OutputFormat::Table => "table"@,
                OutputFormat::Json => "json"@,
                OutputFormat::Yaml => "yaml"@,
                OutputFormat::Csv => "csv"@,
            },
    {
        match self {
            OutputFormat::Table => "table",
            OutputFormat::Json => "json",
            OutputFormat::Yaml => "yaml",
            OutputFormat::Csv => "csv",
        }
    }
}

/// How exported data is encoded.
#[derive(Debug, Clone, PartialEq, Eq, Structural)]
pub enum ExportFormat {
    Graphml,
    Jsonl,
    Cypher,
    Csv,
}

impl ExportFormat {
    /// The format's conventional name.
    pub fn as_str(&self) -> (r: &'static str)
        ensures
            r@ == match self {
                ExportFormat::Graphml => "graphml"@,
                ExportFormat::Jsonl => "jsonl"@,
                ExportFormat::Cypher => "cypher"@,
                ExportFormat::Csv => "csv"@,
            },
    {
        match self {
            ExportFormat::Graphml => "graphml",
            ExportFormat::Jsonl => "jsonl",
            ExportFormat::Cypher => "cypher",
            ExportFormat::Csv => "csv",
        }
    }
}

/// A service health answer.
pub struct HealthResponse {
    /// The service's reported status.
    pub status: String,
    /// The service's version, when it reports one.
    pub version: Option<String>,
    /// When the answer was produced, as an RFC 3339 string.
    pub timestamp: String,
}

/// Configuration of the control client.
pub struct KgctlConfig {
    /// The service endpoint.
    pub endpoint: String,
    /// The tenant used when none is named.
    pub default_tenant: Option<String>,
    /// The default output format.
    pub default_format: OutputFormat,
    /// The authentication token, if required.
    pub auth_token: Option<String>,
    /// Request timeout in seconds.
    pub timeout: u64,
    /// Date format string used when parsing.
    pub default_date_format: String,
}

impl Default for KgctlConfig {
    /// The local default endpoint, table output, a 30-second timeout and the
    /// conventional date format.
    fn default() -> (r: Self)
        ensures
            r.endpoint@ == "http://localhost:8000"@,
            r.default_tenant is None,
            r.default_format == OutputFormat::Table,
            r.auth_token is None,
            r.timeout == 30,
            r.default_date_format@ == "%Y-%m-%d %H:%M:%S"@,
    {
        KgctlConfig {
            endpoint: String::from_str("http://localhost:8000"),
            default_tenant: None,
            default_format: OutputFormat::Table,
            auth_token: None,
            timeout: 30,
            default_date_format: String::from_str("%Y-%m-%d %H:%M:%S"),
        }
    }
}

impl KgctlConfig {
    /// The full URL of an API path: the endpoint without trailing slashes,
    /// the version segment, and the path.
    pub fn api_url(&self, path: &str) -> (r: String)
        ensures
            r@ == trimmed_end(self.endpoint@, '/') + "/v1"@ + path@,
    {
        trim_end_char(self.endpoint.as_str(), '/').concat("/v1").concat(path)
    }

    /// The tenant to use: the override when given, else the configured
    /// default, else a `Tenant` error.
    pub fn get_tenant(&self, override_tenant: &Option<String>) -> (r: Result<String, CoreError>)
        ensures
            match (r, override_tenant, &self.default_tenant) {
                (Ok(t), Some(o), _) => t@ == o@,
                (Ok(t), None, Some(d)) => t@ == d@,
                (Err(e), None, None) => e is Tenant,
                _ => false,
            },
    {
        match override_tenant {
            Some(t) => Ok(t.clone()),
            None => match &self.default_tenant {
                Some(d) => Ok(d.clone()),
                None => Err(
                    CoreError::Tenant(
                        String::from_str(
                            "No tenant specified. Use --tenant or set default_tenant in config",
                        ),
                    ),
                ),
            },
        }
    }
}

} // verus!
