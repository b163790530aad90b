use cache_warmer::config::{default_user_agent, parse_cookie, Args};
use cache_warmer::request::{accept_encoding_value, cookie_header_value};

#[test]
fn parse_cookie_key_value() {
    assert_eq!(
        parse_cookie("a=1"),
        Some((String::from("a"), String::from("1")))
    );
}

#[test]
fn parse_cookie_splits_at_first_equals() {
    assert_eq!(
        parse_cookie("a=b=c"),
        Some((String::from("a"), String::from("b=c")))
    );
}

#[test]
fn parse_cookie_empty_parts() {
    assert_eq!(parse_cookie("a="), Some((String::from("a"), String::new())));
    assert_eq!(parse_cookie("=b"), Some((String::new(), String::from("b"))));
}

#[test]
fn parse_cookie_without_equals_is_rejected() {
    assert_eq!(parse_cookie("a"), None);
    assert_eq!(parse_cookie(""), None);
}

#[test]
fn args_defaults() {
    let a = Args::new(String::from("uris.txt"));
    assert_eq!(a.threads, 4);
    assert_eq!(a.delay, 0);
    assert_eq!(a.base_uri, "");
    assert_eq!(a.uri_file, "uris.txt");
    assert!(a.keep_alive);
    assert!(a.gzip);
    assert!(!a.quiet);
    assert!(a.progress_bar);
    assert_eq!(a.captcha_string, "");
    assert!(a.cookies.is_empty());
    assert!(!a.bypass);
    assert_eq!(a.user_agent, default_user_agent(false));
}

#[test]
fn user_agent_presets_differ() {
    let desktop = default_user_agent(false);
    let mobile = default_user_agent(true);
    assert_eq!(
        desktop,
        "Mozilla/5.0 (compatible; Googlebot/cache_warmer; +https://example.com)"
    );
    assert!(mobile.contains("Android"));
    assert_ne!(desktop, mobile);
}

#[test]
fn cookie_header_joins_pairs() {
    let cookies = vec![
        (String::from("a"), String::from("1")),
        (String::from("b"), String::from("2")),
    ];
    assert_eq!(cookie_header_value(&cookies, false), "a=1; b=2");
}

#[test]
fn cookie_header_with_bypass_appends_fixed_cookie() {
    let cookies = vec![
        (String::from("a"), String::from("1")),
        (String::from("b"), String::from("2")),
    ];
    let header = cookie_header_value(&cookies, true);
    assert_eq!(header, "a=1; b=2; cacheupdate=true");
    assert!(header.contains("a=1"));
    assert!(header.contains("b=2"));
    assert!(header.contains("cacheupdate=true"));
}

#[test]
fn cookie_header_empty_cases() {
    let none: Vec<(String, String)> = vec![];
    assert_eq!(cookie_header_value(&none, false), "");
    assert_eq!(cookie_header_value(&none, true), "cacheupdate=true");
}

#[test]
fn accept_encoding_preference_order() {
    assert_eq!(
        accept_encoding_value(true),
        Some(String::from("br, gzip, deflate"))
    );
    assert_eq!(accept_encoding_value(false), None);
}
