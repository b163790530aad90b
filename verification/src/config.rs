//! The configuration snapshot that all workers share, and the small pieces of
//! logic that build it: option defaults and `key=value` cookie parsing.

use vstd::prelude::*;

verus! {

/// Immutable configuration for one run. Built once before any worker starts
/// and shared read-only afterwards.
#[derive(Debug, Clone)]
pub struct Args {
    /// Number of workers to run in parallel.
    pub threads: u32,
    /// Delay between two requests of one worker, in milliseconds.
    pub delay: u64,
    /// Prefix that every line of the URI file is appended to.
    pub base_uri: String,
    /// Path of the file that lists the URIs to warm.
    pub uri_file: String,
    /// Value of the `User-Agent` request header.
    pub user_agent: String,
    /// Whether connections may be reused across requests.
    pub keep_alive: bool,
    /// Whether requests negotiate a content encoding.
    pub gzip: bool,
    /// Suppress the report and the progress indicator.
    pub quiet: bool,
    /// Show a progress indicator while the run lasts.
    pub progress_bar: bool,
    /// Stop picking up new work once this string is seen in a response body;
    /// empty disables the check.
    pub captcha_string: String,
    /// Cookies sent with every request.
    pub cookies: Vec<(String, String)>,
    /// Add the fixed cookie that tells the cache layer to refresh instead of
    /// serving from cache.
    pub bypass: bool,
}

/// The default desktop `User-Agent` value.
pub open spec fn desktop_user_agent() -> Seq<char> {
    "Mozilla/5.0 (compatible; Googlebot/cache_warmer; +https://example.com)"@
}

/// The default mobile `User-Agent` value.
pub open spec fn mobile_user_agent() -> Seq<char> {
    "Mozilla/5.0 (Linux; Android 6.0.1; Nexus 5X Build/MMB29P) AppleWebKit/537.36 (KHTML, like Gecko) Chrome/41.0.2272.96 Mobile Safari/537.36 (compatible; Googlebot/cache_warmer; +https://example.com)"@
}

/// The preset `User-Agent` string for the desktop or the mobile profile.
pub fn default_user_agent(mobile: bool) -> (r: String)
    ensures
        r@ == if mobile {
            mobile_user_agent()
        } else {
            desktop_user_agent()
        },
{
    if mobile {
        String::from_str(
            "Mozilla/5.0 (Linux; Android 6.0.1; Nexus 5X Build/MMB29P) AppleWebKit/537.36 (KHTML, like Gecko) Chrome/41.0.2272.96 Mobile Safari/537.36 (compatible; Googlebot/cache_warmer; +https://example.com)",
        )
    } else {
        String::from_str("Mozilla/5.0 (compatible; Googlebot/cache_warmer; +https://example.com)")
    }
}

impl Args {
    /// The configuration for the given URI file with every option at its
    /// documented default: 4 workers, no delay, empty base URI, desktop
    /// user agent, keep-alive and encoding negotiation on, report and
    /// progress indicator on, captcha detection off, no cookies, no bypass.
    pub fn new(uri_file: String) -> (r: Args)
        ensures
            r.threads == 4u32,
            r.delay == 0u64,
            r.base_uri@ == Seq::<char>::empty(),
            r.uri_file@ == uri_file@,
            r.user_agent@ == desktop_user_agent(),
            r.keep_alive,
            r.gzip,
            !r.quiet,
            r.progress_bar,
            r.captcha_string@ == Seq::<char>::empty(),
            r.cookies.deep_view() == Seq::<(Seq<char>, Seq<char>)>::empty(),
            !r.bypass,
    {
        let r = Args {
            threads: 4,
            delay: 0,
            base_uri: String::new(),
            uri_file,
            user_agent: default_user_agent(false),
            keep_alive: true,
            gzip: true,
            quiet: false,
            progress_bar: true,
            captcha_string: String::new(),
            cookies: Vec::new(),
            bypass: false,
        };
        proof {
            assert(r.cookies.deep_view() =~= Seq::<(Seq<char>, Seq<char>)>::empty());
        }
        r
    }
}

/// Split a `key=value` cookie option at its first `=`. A string without `=`
/// is rejected; key or value may be empty.
pub fn parse_cookie(s: &str) -> (r: Option<(String, String)>)
    ensures
        r is Some <==> (exists|i: int| 0 <= i < s@.len() && s@[i] == '='),
        r matches Some(p) ==> exists|i: int|
            {
                &&& 0 <= i < s@.len()
                &&& s@[i] == '='
                &&& forall|j: int| 0 <= j < i ==> s@[j] != '='
                &&& p.0@ == s@.take(i)
                &&& p.1@ == s@.skip(i + 1)
            },
{
    let len = s.unicode_len();
    let mut i: usize = 0;
    while i < len
        invariant
            len == s@.len(),
            i <= len,
            forall|j: int| 0 <= j < i ==> s@[j] != '=',
        decreases len - i,
    {
        if s.get_char(i) == '=' {
            let key = s.substring_char(0, i).to_owned();
            let value = s.substring_char(i + 1, len).to_owned();
            proof {
                assert(key@ =~= s@.take(i as int));
                assert(value@ =~= s@.skip(i + 1));
            }
            return Some((key, value));
        }
        i = i + 1;
    }
    None
}

} // verus!
