use cache_warmer::classify::{classify, lookup_cache_status};
use cache_warmer::text::{str_contains, str_eq};
use cache_warmer::CacheStatus;

#[test]
fn lookup_known_values() {
    assert_eq!(lookup_cache_status("HIT"), CacheStatus::Hit);
    assert_eq!(lookup_cache_status("MISS"), CacheStatus::Miss);
    assert_eq!(lookup_cache_status("BYPASS"), CacheStatus::Bypass);
}

#[test]
fn lookup_is_case_sensitive_and_total() {
    assert_eq!(lookup_cache_status("hit"), CacheStatus::Unset);
    assert_eq!(lookup_cache_status("Miss"), CacheStatus::Unset);
    assert_eq!(lookup_cache_status(""), CacheStatus::Unset);
    assert_eq!(lookup_cache_status("EXPIRED"), CacheStatus::Unset);
}

#[test]
fn str_eq_cases() {
    assert!(str_eq("", ""));
    assert!(str_eq("abc", "abc"));
    assert!(!str_eq("abc", "abd"));
    assert!(!str_eq("abc", "ab"));
    assert!(str_eq("héllo", "héllo"));
    assert!(!str_eq("héllo", "hello"));
}

#[test]
fn str_contains_cases() {
    assert!(str_contains("hello world", "world"));
    assert!(str_contains("hello world", ""));
    assert!(str_contains("hello world", "hello world"));
    assert!(!str_contains("hello world", "worlds"));
    assert!(!str_contains("", "x"));
    assert!(str_contains("ababc", "abc"));
    assert!(str_contains("çhällengé pagé", "ällengé"));
}

#[test]
fn classify_reads_cache_header() {
    let hit = String::from("HIT");
    let c = classify(Some(&hit), 200, "body", "");
    assert_eq!(c.cache_status, CacheStatus::Hit);
    assert_eq!(c.http_status, 200);
    assert!(!c.captcha_found);
}

#[test]
fn classify_header_absent_is_unset() {
    let c = classify(None, 200, "body", "");
    assert_eq!(c.cache_status, CacheStatus::Unset);
}

#[test]
fn classify_header_unknown_value_is_unset() {
    let odd = String::from("STALE");
    let c = classify(Some(&odd), 200, "body", "");
    assert_eq!(c.cache_status, CacheStatus::Unset);
}

#[test]
fn classify_records_nonstandard_status_verbatim() {
    let c = classify(None, 999, "body", "");
    assert_eq!(c.http_status, 999);
}

#[test]
fn classify_finds_marker_in_body() {
    let c = classify(None, 200, "please prove you are not a ROBOT today", "ROBOT");
    assert!(c.captcha_found);
}

#[test]
fn classify_marker_absent_from_body() {
    let c = classify(None, 200, "an ordinary page", "ROBOT");
    assert!(!c.captcha_found);
}

#[test]
fn classify_empty_marker_never_matches() {
    let c = classify(None, 200, "any body at all", "");
    assert!(!c.captcha_found);
}

#[test]
fn classify_is_deterministic() {
    let hdr = String::from("MISS");
    let a = classify(Some(&hdr), 503, "ROBOT check", "ROBOT");
    let b = classify(Some(&hdr), 503, "ROBOT check", "ROBOT");
    assert_eq!(a, b);
    assert_eq!(a.cache_status, CacheStatus::Miss);
    assert_eq!(a.http_status, 503);
    assert!(a.captcha_found);
}
