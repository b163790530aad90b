//! The classifier: a pure, total function from one response — cache header,
//! status code, body — and the configured captcha marker to the triple of
//! cache status, recorded status code and captcha flag.

use vstd::prelude::*;
use crate::CacheStatus;
use crate::text;

verus! {

/// The cache status that a given `X-Cache-Status` header value denotes:
/// exactly the three known literals map to their variant, everything else
/// to `Unset`.
pub open spec fn cache_status_of(s: Seq<char>) -> CacheStatus {
    if s == "HIT"@ {
        CacheStatus::Hit
    } else if s == "MISS"@ {
        CacheStatus::Miss
    } else if s == "BYPASS"@ {
        CacheStatus::Bypass
    } else {
        CacheStatus::Unset
    }
}

/// Map an `X-Cache-Status` header value to its cache status.
pub fn lookup_cache_status(status: &str) -> (r: CacheStatus)
    ensures
        r == cache_status_of(status@),
{
    if text::str_eq(status, "HIT") {
        CacheStatus::Hit
    } else if text::str_eq(status, "MISS") {
        CacheStatus::Miss
    } else if text::str_eq(status, "BYPASS") {
        CacheStatus::Bypass
    } else {
        CacheStatus::Unset
    }
}

/// What a decoded body and the configured marker say about a captcha: the
/// marker is non-empty and occurs literally in the body. An empty marker
/// disables detection, whatever the body holds.
pub open spec fn spec_captcha_found(body: Seq<char>, marker: Seq<char>) -> bool {
    marker.len() > 0 && text::occurs_in(body, marker)
}

/// The text that lossy UTF-8 decoding yields for a byte sequence.
pub uninterp spec fn utf8_lossy(b: Seq<u8>) -> Seq<char>;

/// Relies on `String::from_utf8_lossy`: the decoded text is a function of the
/// bytes alone, every malformed sequence is replaced rather than rejected.
#[verifier::external_body]
pub(crate) fn decode_utf8_lossy(b: &Vec<u8>) -> (r: String)
    ensures
        r@ == utf8_lossy(b@),
{
    String::from_utf8_lossy(b.as_slice()).into_owned()
}

/// The classifier's result for one response.
#[derive(Clone, Copy, PartialEq, Eq, Structural, Debug)]
pub struct Classification {
    /// Outcome read from the `X-Cache-Status` header.
    pub cache_status: CacheStatus,
    /// The response's status code, recorded verbatim.
    pub http_status: u16,
    /// Whether the configured captcha marker occurred in the body.
    pub captcha_found: bool,
}

/// The classification that a response gets: total and deterministic — a spec
/// function of the header value, the status code, the decoded body and the
/// configured marker, and of nothing else.
pub open spec fn spec_classify(
    cache_header: Option<Seq<char>>,
    status: u16,
    body: Seq<char>,
    marker: Seq<char>,
) -> Classification {
    Classification {
        cache_status: match cache_header {
            Some(v) => cache_status_of(v),
            None => CacheStatus::Unset,
        },
        http_status: status,
        captcha_found: spec_captcha_found(body, marker),
    }
}

/// Classify one response from its decoded body.
pub fn classify(cache_header: Option<&String>, status: u16, body: &str, marker: &str) -> (r:
    Classification)
    ensures
        r == spec_classify(
            match cache_header {
                Some(v) => Some(v@),
                None => None,
            },
            status,
            body@,
            marker@,
        ),
{
    let cache_status = match cache_header {
        Some(v) => lookup_cache_status(v.as_str()),
        None => CacheStatus::Unset,
    };
    let captcha_found = if marker.unicode_len() > 0 {
        text::str_contains(body, marker)
    } else {
        false
    };
    Classification { cache_status, http_status: status, captcha_found }
}

} // verus!
