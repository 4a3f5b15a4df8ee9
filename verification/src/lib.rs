//! One-way synchronisation between a local directory tree and a remote
//! object-storage bucket/prefix.
//!
//! The crate holds the reconciliation engine: change detection against a
//! persisted snapshot, direction-driven action planning, a step-wise
//! executor that a host drives, and the in-memory registry / state store /
//! session tracker that make repeated runs idempotent. All I/O (directory
//! walks, object-storage calls, persistence) is performed by the host, which
//! feeds plain values in and carries plain values out.

pub mod account;
pub mod analytics;
pub mod buckets;
pub mod clock;
pub mod content_type;
pub mod dedupe;
pub mod detect;
pub mod engine;
pub mod errors;
pub mod history;
pub mod laws;
pub mod objects;
pub mod plan;
pub mod provider;
pub mod s3meta;
pub mod scan;
pub mod store;
pub mod sync_types;
pub mod text;
