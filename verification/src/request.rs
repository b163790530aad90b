//! What one outgoing request looks like: the resolved URI and the header
//! values that the configuration dictates.

use vstd::prelude::*;

verus! {

/// Whether hyper accepts a string as a URI.
pub uninterp spec fn uri_accepted(s: Seq<char>) -> bool;

/// Relies on `hyper::Uri`'s `FromStr` (the `http` crate's URI parser):
/// whether a string parses as a URI is a function of its characters alone.
#[verifier::external_body]
pub(crate) fn uri_ok(s: &str) -> (r: bool)
    ensures
        r == uri_accepted(s@),
{
    s.parse::<hyper::Uri>().is_ok()
}

/// One `key=value` entry of a `Cookie` header.
pub open spec fn cookie_pair(k: Seq<char>, v: Seq<char>) -> Seq<char> {
    k + "="@ + v
}

/// The fixed cookie that asks the cache layer to refresh instead of serving
/// from cache.
pub open spec fn bypass_cookie() -> (Seq<char>, Seq<char>) {
    ("cacheupdate"@, "true"@)
}

/// `key=value` entries joined with `"; "`, in order.
pub open spec fn cookie_join(cs: Seq<(Seq<char>, Seq<char>)>) -> Seq<char>
    decreases cs.len(),
{
    if cs.len() == 0 {
        Seq::empty()
    } else if cs.len() == 1 {
        cookie_pair(cs[0].0, cs[0].1)
    } else {
        cookie_join(cs.drop_last()) + "; "@ + cookie_pair(cs.last().0, cs.last().1)
    }
}

/// The full `Cookie` header value: the configured cookies, plus the bypass
/// cookie when the bypass flag is set.
pub open spec fn cookie_header(cs: Seq<(Seq<char>, Seq<char>)>, bypass: bool) -> Seq<char> {
    cookie_join(
        if bypass {
            cs.push(bypass_cookie())
        } else {
            cs
        },
    )
}

/// Build the `Cookie` header value for the configured cookies.
pub fn cookie_header_value(cookies: &Vec<(String, String)>, bypass: bool) -> (r: String)
    ensures
        r@ == cookie_header(cookies.deep_view(), bypass),
{
    let ghost cs = cookies.deep_view();
    let mut r = String::new();
    let n = cookies.len();
    let mut i: usize = 0;
    while i < n
        invariant
            n == cookies@.len(),
            cs == cookies.deep_view(),
            i <= n,
            r@ == cookie_join(cs.take(i as int)),
        decreases n - i,
    {
        if i > 0 {
            r.append("; ");
        }
        r.append(cookies[i].0.as_str());
        r.append("=");
        r.append(cookies[i].1.as_str());
        proof {
            let pre = cs.take(i as int);
            let cur = cs.take(i + 1);
            assert(cur.drop_last() =~= pre);
            assert(cur.last() == cs[i as int]);
            assert(cs[i as int].0 == cookies@[i as int].0@);
            assert(cs[i as int].1 == cookies@[i as int].1@);
            if i == 0 {
                assert(r@ =~= cookie_pair(cur[0].0, cur[0].1));
            } else {
                assert(r@ =~= cookie_join(pre) + "; "@ + cookie_pair(cur.last().0, cur.last().1));
            }
        }
        i = i + 1;
    }
    proof {
        assert(cs.take(n as int) =~= cs);
    }
    if bypass {
        if n > 0 {
            r.append("; ");
        }
        r.append("cacheupdate=true");
        proof {
            let full = cs.push(bypass_cookie());
            assert(full.drop_last() =~= cs);
            assert(full.last() == bypass_cookie());
            reveal_strlit("cacheupdate=true");
            reveal_strlit("cacheupdate");
            reveal_strlit("true");
            reveal_strlit("=");
            assert("cacheupdate=true"@ =~= cookie_pair("cacheupdate"@, "true"@));
            if n == 0 {
                assert(full.len() == 1);
                assert(r@ =~= cookie_pair(full[0].0, full[0].1));
            } else {
                assert(r@ =~= cookie_join(cs) + "; "@ + cookie_pair(full.last().0, full.last().1));
            }
        }
    }
    r
}

/// The encoding preference sent when content-encoding negotiation is on:
/// brotli, then gzip, then deflate.
pub open spec fn encoding_preference() -> Seq<char> {
    "br, gzip, deflate"@
}

/// The `Accept-Encoding` header value to send, if any: the fixed preference
/// list when negotiation is enabled, nothing otherwise.
pub fn accept_encoding_value(gzip: bool) -> (r: Option<String>)
    ensures
        gzip ==> (r matches Some(s) && s@ == encoding_preference()),
        !gzip ==> r is None,
{
    if gzip {
        Some(String::from_str("br, gzip, deflate"))
    } else {
        None
    }
}

/// Everything the transport needs to issue one request: method is always GET,
/// target and headers as configured.
#[derive(Debug, Clone)]
pub struct RequestPlan {
    /// Target of the request.
    pub uri: String,
    /// Value of the `User-Agent` header.
    pub user_agent: String,
    /// Value of the `Cookie` header.
    pub cookie: String,
    /// Value of the `Accept-Encoding` header; absent when negotiation is off.
    pub accept_encoding: Option<String>,
    /// Whether the connection may be kept open for reuse.
    pub keep_alive: bool,
}

} // verus!
