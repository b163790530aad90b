//! The registry: the only shared mutable state of a run. It owns the `todo`
//! and `done` collections and the captcha signal, and it carries the
//! configuration snapshot that every worker reads.
//!
//! Each method mutates the registry in one atomic step; a run wraps the
//! registry in a mutual-exclusion lock, so a concurrent run is a sequence of
//! these steps. The transition system in `model` states what every such
//! sequence preserves.

use vstd::prelude::*;
use crate::config::Args;
use crate::request;
use crate::resource::{CacheResource, ResourceView, fresh_resource};

verus! {

/// The URI that one input line resolves to: the line appended to the
/// configured base URI.
pub open spec fn resolved_uri(base: Seq<char>, line: Seq<char>) -> Seq<char> {
    base + line
}

/// The resources that seeding a registry from the given lines creates: one
/// fresh resource per line whose resolved URI hyper accepts, in input order.
pub open spec fn seeded_todo(base: Seq<char>, lines: Seq<Seq<char>>) -> Seq<ResourceView>
    decreases lines.len(),
{
    if lines.len() == 0 {
        Seq::empty()
    } else {
        let rest = seeded_todo(base, lines.drop_last());
        if request::uri_accepted(resolved_uri(base, lines.last())) {
            rest.push(fresh_resource(resolved_uri(base, lines.last())))
        } else {
            rest
        }
    }
}

/// The lines whose resolved URI hyper rejects, in input order: they never
/// become resources and are reported back for a warning.
pub open spec fn rejected_lines(base: Seq<char>, lines: Seq<Seq<char>>) -> Seq<Seq<char>>
    decreases lines.len(),
{
    if lines.len() == 0 {
        Seq::empty()
    } else {
        let rest = rejected_lines(base, lines.drop_last());
        if request::uri_accepted(resolved_uri(base, lines.last())) {
            rest
        } else {
            rest.push(lines.last())
        }
    }
}

/// Every seeded resource starts unclassified.
pub proof fn lemma_seeded_fresh(base: Seq<char>, lines: Seq<Seq<char>>)
    ensures
        forall|k: int|
            0 <= k < seeded_todo(base, lines).len() ==> seeded_todo(base, lines)[k]
                == fresh_resource(seeded_todo(base, lines)[k].uri),
    decreases lines.len(),
{
    if lines.len() > 0 {
        lemma_seeded_fresh(base, lines.drop_last());
    }
}

/// Mathematical value of the registry: its mutable state and the immutable
/// configuration snapshot beside it.
pub struct LoaderView {
    /// Resources not yet handed to a worker, in stack order.
    pub todo: Seq<ResourceView>,
    /// Classified resources, in completion order.
    pub done: Seq<ResourceView>,
    /// Monotonic stop signal: set once a completed resource carried the
    /// captcha marker, never reset.
    pub captcha_signal: bool,
    /// Value of the `User-Agent` header on every request.
    pub user_agent: Seq<char>,
    /// Value of the `Cookie` header on every request.
    pub cookie: Seq<char>,
    /// Marker whose occurrence in a body stops the run; empty disables it.
    pub captcha_string: Seq<char>,
    /// Whether connections may be reused across requests.
    pub keep_alive: bool,
    /// Whether requests negotiate a content encoding.
    pub gzip: bool,
    /// Delay between two requests of one worker, in milliseconds.
    pub delay: u64,
}

impl LoaderView {
    /// Well-formedness: the signal holds exactly when some completed resource
    /// saw the captcha marker, and nothing in `todo` has been classified yet.
    pub open spec fn wf(self) -> bool {
        &&& (self.captcha_signal <==> exists|i: int|
            0 <= i < self.done.len() && self.done[i].captcha)
        &&& forall|i: int| 0 <= i < self.todo.len() ==> self.todo[i] == fresh_resource(
            self.todo[i].uri,
        )
    }
}

/// The registry plus the configuration the workers share. The collections
/// stay private: they are reached only through `pop`, `complete` and the
/// snapshot counts.
#[derive(Debug)]
pub struct Loader {
    uris_todo: Vec<CacheResource>,
    uris_done: Vec<CacheResource>,
    captcha_signal: bool,
    user_agent: String,
    cookie: String,
    captcha_string: String,
    keep_alive: bool,
    gzip: bool,
    delay: u64,
}

impl View for Loader {
    type V = LoaderView;

    closed spec fn view(&self) -> LoaderView {
        LoaderView {
            todo: self.uris_todo.deep_view(),
            done: self.uris_done.deep_view(),
            captcha_signal: self.captcha_signal,
            user_agent: self.user_agent@,
            cookie: self.cookie@,
            captcha_string: self.captcha_string@,
            keep_alive: self.keep_alive,
            gzip: self.gzip,
            delay: self.delay,
        }
    }
}

/// The configuration fields of two registry views agree.
pub open spec fn config_unchanged(pre: LoaderView, post: LoaderView) -> bool {
    &&& post.user_agent == pre.user_agent
    &&& post.cookie == pre.cookie
    &&& post.captcha_string == pre.captcha_string
    &&& post.keep_alive == pre.keep_alive
    &&& post.gzip == pre.gzip
    &&& post.delay == pre.delay
}

impl Loader {
    /// Seed a registry from the configuration and the lines of the URI file:
    /// each line is appended to the base URI and becomes one unclassified
    /// resource if hyper accepts the result as a URI. The lines that were
    /// rejected come back beside the registry, for the caller to warn about.
    pub fn new(args: Args, lines: Vec<String>) -> (r: (Loader, Vec<String>))
        ensures
            r.0@.todo == seeded_todo(args.base_uri@, lines.deep_view()),
            r.0@.done == Seq::<ResourceView>::empty(),
            !r.0@.captcha_signal,
            r.0@.user_agent == args.user_agent@,
            r.0@.cookie == request::cookie_header(args.cookies.deep_view(), args.bypass),
            r.0@.captcha_string == args.captcha_string@,
            r.0@.keep_alive == args.keep_alive,
            r.0@.gzip == args.gzip,
            r.0@.delay == args.delay,
            r.0@.wf(),
            r.1.deep_view() == rejected_lines(args.base_uri@, lines.deep_view()),
    {
        let ghost base = args.base_uri@;
        let ghost lviews = lines.deep_view();
        let mut todo: Vec<CacheResource> = Vec::new();
        let mut rejected: Vec<String> = Vec::new();
        let n = lines.len();
        let mut i: usize = 0;
        proof {
            assert(todo.deep_view() =~= seeded_todo(base, lviews.take(0)));
            assert(rejected.deep_view() =~= rejected_lines(base, lviews.take(0)));
        }
        while i < n
            invariant
                n == lines@.len(),
                i <= n,
                base == args.base_uri@,
                lviews == lines.deep_view(),
                todo.deep_view() == seeded_todo(base, lviews.take(i as int)),
                rejected.deep_view() == rejected_lines(base, lviews.take(i as int)),
            decreases n - i,
        {
            let uri_string = args.base_uri.clone().concat(lines[i].as_str());
            let ghost pre_todo = todo.deep_view();
            let ghost pre_rejected = rejected.deep_view();
            let accepted = request::uri_ok(uri_string.as_str());
            if accepted {
                todo.push(CacheResource::new(uri_string));
            } else {
                rejected.push(lines[i].clone());
            }
            proof {
                let cur = lviews.take(i + 1);
                assert(cur.drop_last() =~= lviews.take(i as int));
                assert(cur.last() == lviews[i as int]);
                assert(lviews[i as int] == lines@[i as int]@);
                assert(uri_string@ == resolved_uri(base, cur.last()));
                if accepted {
                    assert(todo.deep_view() =~= pre_todo.push(
                        fresh_resource(resolved_uri(base, cur.last())),
                    ));
                    assert(rejected.deep_view() == rejected_lines(base, cur));
                } else {
                    assert(rejected.deep_view() =~= pre_rejected.push(cur.last()));
                    assert(todo.deep_view() == seeded_todo(base, cur));
                }
            }
            i = i + 1;
        }
        proof {
            assert(lviews.take(n as int) =~= lviews);
        }
        let cookie = request::cookie_header_value(&args.cookies, args.bypass);
        let loader = Loader {
            uris_todo: todo,
            uris_done: Vec::new(),
            captcha_signal: false,
            user_agent: args.user_agent,
            cookie,
            captcha_string: args.captcha_string,
            keep_alive: args.keep_alive,
            gzip: args.gzip,
            delay: args.delay,
        };
        proof {
            assert(loader@.done =~= Seq::<ResourceView>::empty());
            lemma_seeded_fresh(base, lviews);
        }
        (loader, rejected)
    }

    /// The configured `User-Agent` header value.
    pub fn user_agent(&self) -> (r: &String)
        ensures
            r@ == self@.user_agent,
    {
        &self.user_agent
    }

    /// The configured `Cookie` header value.
    pub fn cookie(&self) -> (r: &String)
        ensures
            r@ == self@.cookie,
    {
        &self.cookie
    }

    /// The configured captcha marker; empty disables detection.
    pub fn captcha_string(&self) -> (r: &String)
        ensures
            r@ == self@.captcha_string,
    {
        &self.captcha_string
    }

    /// Whether connections may be reused across requests.
    pub fn keep_alive(&self) -> (r: bool)
        ensures
            r == self@.keep_alive,
    {
        self.keep_alive
    }

    /// Whether requests negotiate a content encoding.
    pub fn gzip(&self) -> (r: bool)
        ensures
            r == self@.gzip,
    {
        self.gzip
    }

    /// The delay between two requests of one worker, in milliseconds.
    pub fn delay(&self) -> (r: u64)
        ensures
            r == self@.delay,
    {
        self.delay
    }

    /// Point-in-time count of resources not yet handed out. Racy under
    /// concurrent mutation; meant for progress reporting only.
    pub fn length(&self) -> (r: usize)
        ensures
            r == self@.todo.len(),
    {
        self.uris_todo.len()
    }

    /// Point-in-time count of completed resources. Racy under concurrent
    /// mutation; meant for progress reporting only.
    pub fn length_done(&self) -> (r: usize)
        ensures
            r == self@.done.len(),
    {
        self.uris_done.len()
    }

    /// Read one completed resource, for reporting.
    pub fn done_resource(&self, i: usize) -> (r: &CacheResource)
        requires
            i < self@.done.len(),
        ensures
            r@ == self@.done[i as int],
    {
        &self.uris_done[i]
    }

    /// Current value of the stop signal.
    pub fn found_captcha(&self) -> (r: bool)
        ensures
            r == self@.captcha_signal,
    {
        self.captcha_signal
    }

    /// Remove and return one not-yet-processed resource, or nothing when all
    /// work has been handed out. Under the registry's lock this is one atomic
    /// step, so of several concurrent callers each receives a distinct
    /// resource. Which resource comes out is unspecified to callers of the
    /// registry; this implementation hands out the last seeded one first.
    pub fn pop(&mut self) -> (r: Option<CacheResource>)
        ensures
            config_unchanged(old(self)@, final(self)@),
            final(self)@.done == old(self)@.done,
            final(self)@.captcha_signal == old(self)@.captcha_signal,
            match r {
                Some(res) => {
                    &&& old(self)@.todo.len() > 0
                    &&& res@ == old(self)@.todo.last()
                    &&& final(self)@.todo == old(self)@.todo.drop_last()
                },
                None => {
                    &&& old(self)@.todo.len() == 0
                    &&& final(self)@.todo == old(self)@.todo
                },
            },
            old(self)@.wf() ==> final(self)@.wf(),
    {
        let ghost pre = self.uris_todo.deep_view();
        let r = self.uris_todo.pop();
        proof {
            if pre.len() > 0 {
                assert(self.uris_todo.deep_view() =~= pre.drop_last());
            } else {
                assert(self.uris_todo.deep_view() =~= pre);
            }
        }
        r
    }

    /// Append one fully classified resource to `done`, and raise the stop
    /// signal if it carried the captcha marker. Called exactly once per
    /// popped resource; one atomic step under the registry's lock.
    pub fn complete(&mut self, resource: CacheResource)
        ensures
            config_unchanged(old(self)@, final(self)@),
            final(self)@.todo == old(self)@.todo,
            final(self)@.done == old(self)@.done.push(resource@),
            final(self)@.captcha_signal == (old(self)@.captcha_signal || resource@.captcha),
            old(self)@.wf() ==> final(self)@.wf(),
    {
        let ghost pre = self.uris_done.deep_view();
        if resource.captcha {
            self.captcha_signal = true;
        }
        self.uris_done.push(resource);
        proof {
            assert(self.uris_done.deep_view() =~= pre.push(resource@));
            if old(self)@.wf() {
                let nd = self@.done;
                assert forall|i: int|
                    0 <= i < pre.len() && pre[i].captcha implies nd[i].captcha by {}
                if resource@.captcha {
                    assert(nd[pre.len() as int].captcha);
                }
                assert(self@.wf());
            }
        }
    }
}

} // verus!
