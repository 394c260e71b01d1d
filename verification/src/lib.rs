//! A read-through, multi-table TTL cache with per-key fetch coalescing.
//!
//! The cache keeps one table per resource kind. A lookup returns a cached
//! value while it is fresh; on a miss, callers coordinate through per-key
//! in-flight handles so that at most one upstream fetch runs per key, and a
//! failed fetch leaves the table exactly as it was (no negative caching).
//! The asynchronous runtime that performs the fetches drives the state
//! machine exposed here; every decision the cache makes is verified.

pub mod cache;
pub mod error;
pub mod keys;
pub mod table;
