//! A multi-tenant bitemporal knowledge-graph engine.
//!
//! Nodes (labeled entities) and edges (typed relationships) are stored per
//! tenant; every edge carries a valid-time interval and a transaction-time
//! interval, both half-open. The crate provides the value model, the temporal
//! algebra, an in-memory reference store with tenant isolation and cascading
//! deletes, a closed query algebra with as-of rewriting, the extraction
//! envelope contract, and a staged request pipeline.

pub mod api;
pub mod connectors;
pub mod errors;
pub mod ext;
pub mod extraction;
pub mod framing;
pub mod ingest;
pub mod kgctl;
pub mod model;
pub mod neo4j;
pub mod pipeline;
pub mod props;
pub mod store;
pub mod temporal;
pub mod tenant;
pub mod text;
pub mod types;

