//! A verified core for a cache-warming tool: a registry of URIs drained by
//! concurrent workers, a pure classifier for the responses, and the request
//! and report building around them.
//!
//! - `registry` owns the shared state: the `todo` and `done` collections, the
//!   captcha stop signal, and the configuration snapshot.
//! - `worker` holds each worker's decisions between the outside steps; the
//!   fetch itself is the caller's.
//! - `classify` maps a response to its cache status, recorded status code and
//!   captcha flag.
//! - `model` proves what any interleaving of the registry's atomic steps
//!   preserves: conservation, no duplication, a monotonic signal, and how
//!   concurrent `pop` calls divide the work.
//! - `config`, `request`, `resource`, `stats` and `text` carry the data types
//!   and the string and report building around those.

pub mod classify;
pub mod config;
pub mod model;
pub mod registry;
pub mod request;
pub mod resource;
pub mod stats;
pub mod text;
pub mod worker;

pub use classify::lookup_cache_status;
pub use config::Args;

use vstd::prelude::*;

verus! {

/// Cache outcome of one warmed URI, read from the `X-Cache-Status` response
/// header; `Error` marks a resource whose request failed at the transport
/// layer, so that no resource is silently dropped from the report.
#[derive(Clone, Copy, PartialEq, Eq, Structural, Debug, Hash)]
pub enum CacheStatus {
    Hit,
    Miss,
    Bypass,
    Unset,
    Error,
}

} // verus!
