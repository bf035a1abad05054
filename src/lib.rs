//! Indexing of audio files: a bounded recency cache of name to location,
//! a directory scanner, the import decisions, and reconciliation of stored
//! records against the active import roots.

mod lru_wrap;
mod text;

pub mod cache;
pub mod importer;
pub mod logger;
pub mod recency;
pub mod reconcile;
pub mod registry;
pub mod scan;
pub mod sound;
pub mod store_model;
