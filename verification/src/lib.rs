//! Metadata and storage-addressing core of a segment-based search index.
//!
//! The library tracks which immutable data segments make up a committed
//! index, persists that catalog durably and atomically, generates unique
//! segment identities, and mediates access to a pluggable storage backend.

pub mod codec;
pub mod directory;
pub mod error;
pub mod index;
pub mod meta;
pub mod schema;
pub mod segment;
pub mod segment_id;
