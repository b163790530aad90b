//! The worker's decisions: what one loop iteration does between the outside
//! steps. A worker repeatedly asks for the next task (stop check plus pop
//! plus request building), lets the transport fetch it, and hands the outcome
//! back to be classified and recorded. Only the fetch itself — the one
//! suspension point — lives outside the library.

use vstd::prelude::*;
use crate::CacheStatus;
use crate::classify::{classify, decode_utf8_lossy, spec_classify, utf8_lossy};
use crate::registry::{config_unchanged, Loader};
use crate::request::{encoding_preference, RequestPlan};
use crate::resource::{CacheResource, ResourceView};

verus! {

/// What the transport reports for one request: a response — its
/// `X-Cache-Status` header value if any, its status code, its raw body — or
/// a failure at the network or TLS layer.
pub enum FetchOutcome {
    Response { cache_header: Option<String>, status: u16, body: Vec<u8> },
    TransportError,
}

/// Mathematical value of a `FetchOutcome`.
pub enum OutcomeView {
    Response { cache_header: Option<Seq<char>>, status: u16, body: Seq<u8> },
    TransportError,
}

impl View for FetchOutcome {
    type V = OutcomeView;

    open spec fn view(&self) -> OutcomeView {
        match self {
            FetchOutcome::Response { cache_header, status, body } => OutcomeView::Response {
                cache_header: match cache_header {
                    Some(s) => Some(s@),
                    None => None,
                },
                status: *status,
                body: body@,
            },
            FetchOutcome::TransportError => OutcomeView::TransportError,
        }
    }
}

/// The classified resource that recording an outcome appends to `done`: a
/// response is classified from its header, status and decoded body; a
/// transport failure is recorded explicitly as `Error`, so that the resource
/// is not silently lost.
pub open spec fn record_of(uri: Seq<char>, outcome: OutcomeView, marker: Seq<char>) -> ResourceView {
    match outcome {
        OutcomeView::Response { cache_header, status, body } => {
            let c = spec_classify(cache_header, status, utf8_lossy(body), marker);
            ResourceView {
                uri,
                cache_status: c.cache_status,
                http_status: c.http_status,
                captcha: c.captcha_found,
            }
        },
        OutcomeView::TransportError => ResourceView {
            uri,
            cache_status: CacheStatus::Error,
            http_status: 0,
            captcha: false,
        },
    }
}

impl Loader {
    /// The request that the configuration dictates for one resource: method
    /// GET on the resource's URI, the configured `User-Agent` and `Cookie`
    /// values, the fixed encoding preference when negotiation is on, and the
    /// configured connection-reuse choice.
    pub fn build_plan(&self, resource: &CacheResource) -> (r: RequestPlan)
        ensures
            r.uri@ == resource@.uri,
            r.user_agent@ == self@.user_agent,
            r.cookie@ == self@.cookie,
            self@.gzip ==> (r.accept_encoding matches Some(s) && s@ == encoding_preference()),
            !self@.gzip ==> r.accept_encoding is None,
            r.keep_alive == self@.keep_alive,
    {
        RequestPlan {
            uri: resource.uri.clone(),
            user_agent: self.user_agent().clone(),
            cookie: self.cookie().clone(),
            accept_encoding: crate::request::accept_encoding_value(self.gzip()),
            keep_alive: self.keep_alive(),
        }
    }

    /// One iteration's decision: stop when the captcha signal is up or the
    /// work has run out; otherwise take one resource and say how to fetch it.
    pub fn next_task(&mut self) -> (r: Option<(CacheResource, RequestPlan)>)
        ensures
            config_unchanged(old(self)@, final(self)@),
            final(self)@.done == old(self)@.done,
            final(self)@.captcha_signal == old(self)@.captcha_signal,
            old(self)@.captcha_signal ==> (r is None && final(self)@.todo == old(self)@.todo),
            !old(self)@.captcha_signal ==> match r {
                Some(t) => {
                    &&& old(self)@.todo.len() > 0
                    &&& t.0@ == old(self)@.todo.last()
                    &&& final(self)@.todo == old(self)@.todo.drop_last()
                    &&& t.1.uri@ == t.0@.uri
                    &&& t.1.user_agent@ == old(self)@.user_agent
                    &&& t.1.cookie@ == old(self)@.cookie
                    &&& (old(self)@.gzip ==> (t.1.accept_encoding matches Some(s) && s@
                        == encoding_preference()))
                    &&& (!old(self)@.gzip ==> t.1.accept_encoding is None)
                    &&& t.1.keep_alive == old(self)@.keep_alive
                },
                None => old(self)@.todo.len() == 0 && final(self)@.todo == old(self)@.todo,
            },
            old(self)@.wf() ==> final(self)@.wf(),
    {
        if self.found_captcha() {
            return None;
        }
        match self.pop() {
            Some(resource) => {
                let plan = self.build_plan(&resource);
                Some((resource, plan))
            },
            None => None,
        }
    }

    /// Record what the transport reported for a popped resource: classify a
    /// response from its header, status and decoded body, or mark a transport
    /// failure as `Error`; either way the resource reaches `done` and the
    /// stop signal rises iff the body carried the captcha marker.
    pub fn finish(&mut self, resource: CacheResource, outcome: &FetchOutcome)
        ensures
            config_unchanged(old(self)@, final(self)@),
            final(self)@.todo == old(self)@.todo,
            final(self)@.done == old(self)@.done.push(
                record_of(resource@.uri, outcome@, old(self)@.captcha_string),
            ),
            final(self)@.captcha_signal == (old(self)@.captcha_signal || record_of(
                resource@.uri,
                outcome@,
                old(self)@.captcha_string,
            ).captcha),
            old(self)@.wf() ==> final(self)@.wf(),
    {
        let mut res = resource;
        match outcome {
            FetchOutcome::Response { cache_header, status, body } => {
                let text_body = decode_utf8_lossy(body);
                let header_ref: Option<&String> = match cache_header {
                    Some(s) => Some(s),
                    None => None,
                };
                let c = classify(
                    header_ref,
                    *status,
                    text_body.as_str(),
                    self.captcha_string().as_str(),
                );
                res.cache_status = c.cache_status;
                res.http_status = c.http_status;
                res.captcha = c.captcha_found;
            },
            FetchOutcome::TransportError => {
                res.cache_status = CacheStatus::Error;
                res.http_status = 0;
                res.captcha = false;
            },
        }
        proof {
            assert(res@ == record_of(resource@.uri, outcome@, old(self)@.captcha_string));
        }
        self.complete(res);
    }
}

} // verus!
