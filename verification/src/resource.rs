//! The work item: one URI under test, with the classification it receives
//! when a worker has fetched it.

use vstd::prelude::*;
use crate::CacheStatus;

verus! {

/// One URI to warm, together with the outcome of its request. Created in the
/// unclassified state; a worker classifies it exactly once, after which it is
/// owned by the registry's `done` collection.
#[derive(Debug, Clone)]
pub struct CacheResource {
    pub uri: String,
    pub cache_status: CacheStatus,
    pub http_status: u16,
    pub captcha: bool,
}

/// Mathematical value of a `CacheResource`.
pub struct ResourceView {
    pub uri: Seq<char>,
    pub cache_status: CacheStatus,
    pub http_status: u16,
    pub captcha: bool,
}

impl View for CacheResource {
    type V = ResourceView;

    open spec fn view(&self) -> ResourceView {
        ResourceView {
            uri: self.uri@,
            cache_status: self.cache_status,
            http_status: self.http_status,
            captcha: self.captcha,
        }
    }
}

impl DeepView for CacheResource {
    type V = ResourceView;

    open spec fn deep_view(&self) -> ResourceView {
        self.view()
    }
}

/// The state every resource starts in: not yet classified. The zero status
/// code is the sentinel for "no response recorded yet".
pub open spec fn fresh_resource(uri: Seq<char>) -> ResourceView {
    ResourceView { uri, cache_status: CacheStatus::Unset, http_status: 0, captcha: false }
}

impl CacheResource {
    /// A new, unclassified resource for the given URI.
    pub fn new(uri: String) -> (r: CacheResource)
        ensures
            r@ == fresh_resource(uri@),
    {
        CacheResource { uri, cache_status: CacheStatus::Unset, http_status: 0, captcha: false }
    }
}

} // verus!
