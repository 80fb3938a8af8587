//! Tenant management: isolation models, tenant status, and tenant metadata.

use vstd::prelude::*;

use vstd::string::StringExecFns;

use crate::props::PropEntry;
use crate::types::TenantId;

verus! {

broadcast use vstd::seq::group_seq_axioms;

/// How a tenant's records are isolated in a backend.
#[derive(Debug, Clone, PartialEq, Eq, Structural)]
pub enum IsolationModel {
    /// Shared database with property-based row-level security.
    Property,
    /// Dedicated database per tenant.
    Database,
    /// Shared database with label namespacing.
    Label,
}

impl Default for IsolationModel {
    /// The default isolation model: property-based.
    fn default() -> (r: Self)
        ensures
            r == IsolationModel::Property,
    {
        IsolationModel::Property
    }
}

impl IsolationModel {
    /// The model's conventional name.
    pub fn as_str(&self) -> (r: &'static str)
        ensures
            r@ == match self {
                IsolationModel::Property => "property"@,
                IsolationModel::Database => "database"@,
                IsolationModel::Label => "label"@,
            },
    {
        match self {
            IsolationModel::Property => "property",
            IsolationModel::Database => "database",
            IsolationModel::Label => "label",
        }
    }

    /// Parses a model name, folding ASCII letter case; any unknown name is
    /// rejected with a message.
    pub fn parse(s: &str) -> (r: Result<Self, String>)
        ensures
            ({
                let folded = crate::text::ascii_lower(s@);
                match r {
                    Ok(m) => (folded == "property"@ && m == IsolationModel::Property) || (folded
                        == "database"@ && m == IsolationModel::Database) || (folded == "label"@
                        && m == IsolationModel::Label),
                    Err(_) => folded != "property"@ && folded != "database"@ && folded
                        != "label"@,
                }
            }),
    {
        let folded = crate::text::to_ascii_lowercase(s);
        if crate::ext::str_eq(folded.as_str(), "property") {
            Ok(IsolationModel::Property)
        } else if crate::ext::str_eq(folded.as_str(), "database") {
            Ok(IsolationModel::Database)
        } else if crate::ext::str_eq(folded.as_str(), "label") {
            Ok(IsolationModel::Label)
        } else {
            Err(String::from_str("unknown isolation model"))
        }
    }
}

/// The lifecycle status of a tenant.
#[derive(Debug, Clone, PartialEq, Eq, Structural)]
pub enum TenantStatus {
    /// Active and operational.
    Active,
    /// Suspended: read-only.
    Suspended,
    /// Being created.
    Creating,
    /// Being deleted.
    Deleting,
    /// Deleted.
    Deleted,
}

impl TenantStatus {
    /// The status's conventional name.
    pub fn as_str(&self) -> (r: &'static str)
        ensures
            r@ == match self {
                TenantStatus::Active => "Active"@,
                TenantStatus::Suspended => "Suspended"@,
                TenantStatus::Creating => "Creating"@,
                TenantStatus::Deleting => "Deleting"@,
                TenantStatus::Deleted => "Deleted"@,
            },
    {
        match self {
            TenantStatus::Active => "Active",
            TenantStatus::Suspended => "Suspended",
            TenantStatus::Creating => "Creating",
            TenantStatus::Deleting => "Deleting",
            TenantStatus::Deleted => "Deleted",
        }
    }
}

/// Metadata and configuration of one tenant. Timestamps are microseconds
/// since the Unix epoch.
pub struct TenantInfo {
    /// The unique tenant identifier.
    pub id: TenantId,
    /// Human-readable name.
    pub name: Option<String>,
    /// Description of the tenant.
    pub description: Option<String>,
    /// The isolation model used for this tenant.
    pub isolation_model: IsolationModel,
    /// The tenant's lifecycle status.
    pub status: TenantStatus,
    /// Creation timestamp.
    pub created_at: i64,
    /// Last-update timestamp.
    pub updated_at: i64,
    /// Additional metadata.
    pub metadata: Vec<PropEntry>,
}

impl TenantInfo {
    /// A tenant record created at the given instant: no name, no description,
    /// default isolation, in the creating state, with empty metadata.
    pub fn new_at(id: TenantId, now: i64) -> (r: Self)
        ensures
            r.id == id,
            r.name is None,
            r.description is None,
            r.isolation_model == IsolationModel::Property,
            r.status == TenantStatus::Creating,
            r.created_at == now,
            r.updated_at == now,
            r.metadata@.len() == 0,
    {
        TenantInfo {
            id,
            name: None,
            description: None,
            isolation_model: IsolationModel::Property,
            status: TenantStatus::Creating,
            created_at: now,
            updated_at: now,
            metadata: Vec::new(),
        }
    }

    /// A tenant record created now, by the wall clock.
    pub fn new(id: TenantId) -> (r: Self)
        ensures
            r.id == id,
            r.name is None,
            r.description is None,
            r.isolation_model == IsolationModel::Property,
            r.status == TenantStatus::Creating,
            r.created_at == r.updated_at,
            r.metadata@.len() == 0,
    {
        let now = crate::ext::now_micros();
        Self::new_at(id, now)
    }

    /// Sets the tenant's name.
    pub fn with_name(self, name: String) -> (r: Self)
        ensures
            r == (TenantInfo { name: Some(name), ..self }),
    {
        TenantInfo { name: Some(name), ..self }
    }

    /// Sets the tenant's description.
    pub fn with_description(self, description: String) -> (r: Self)
        ensures
            r == (TenantInfo { description: Some(description), ..self }),
    {
        TenantInfo { description: Some(description), ..self }
    }

    /// Sets the isolation model.
    pub fn with_isolation_model(self, model: IsolationModel) -> (r: Self)
        ensures
            r == (TenantInfo { isolation_model: model, ..self }),
    {
        TenantInfo { isolation_model: model, ..self }
    }

    /// Marks the tenant active, stamping the update time with the wall clock.
    pub fn activate(self) -> (r: Self)
        ensures
            r.status == TenantStatus::Active,
            r.id == self.id,
            r.name == self.name,
            r.description == self.description,
            r.isolation_model == self.isolation_model,
            r.created_at == self.created_at,
            r.metadata == self.metadata,
    {
        let now = crate::ext::now_micros();
        TenantInfo { status: TenantStatus::Active, updated_at: now, ..self }
    }
}

} // verus!
