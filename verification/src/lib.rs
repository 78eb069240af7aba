//! Incremental duplicate-file indexing: directory-walk decisions, change
//! detection, streamed content hashing, a content-addressed hash store, a
//! per-path file index with upsert semantics, a bounded-concurrency scheduler
//! with cooperative cancellation, reconciliation against the live filesystem,
//! and the duplicate-group query built on top.

pub mod change_filter;
pub mod dup_query;
pub mod file_index;
pub mod hash_store;
pub mod hashing;
pub mod hexcode;
pub mod path_order;
pub mod pipeline;
pub mod records;
pub mod scheduler;
pub mod walk;
