use cache_warmer::config::Args;
use cache_warmer::registry::Loader;
use cache_warmer::worker::FetchOutcome;
use cache_warmer::CacheStatus;

fn args_with(base_uri: &str) -> Args {
    let mut a = Args::new(String::from("uris.txt"));
    a.base_uri = String::from(base_uri);
    a
}

fn lines(items: &[&str]) -> Vec<String> {
    items.iter().map(|s| String::from(*s)).collect()
}

#[test]
fn seeding_counts_valid_and_rejected_lines() {
    let (loader, rejected) = Loader::new(
        args_with("http://x/"),
        lines(&["a", "b", "with space", "c"]),
    );
    assert_eq!(loader.length(), 3);
    assert_eq!(loader.length_done(), 0);
    assert_eq!(rejected, vec![String::from("with space")]);
    assert!(!loader.found_captcha());
}

#[test]
fn seeding_concatenates_base_uri() {
    let (mut loader, rejected) = Loader::new(args_with("http://host/pre"), lines(&["fix"]));
    assert!(rejected.is_empty());
    let res = loader.pop().unwrap();
    assert_eq!(res.uri, "http://host/prefix");
    assert_eq!(res.cache_status, CacheStatus::Unset);
    assert_eq!(res.http_status, 0);
    assert!(!res.captcha);
}

#[test]
fn pop_hands_out_each_resource_once() {
    let (mut loader, _) = Loader::new(args_with("http://x/"), lines(&["a", "b"]));
    let first = loader.pop().expect("two resources seeded");
    let second = loader.pop().expect("two resources seeded");
    let third = loader.pop();
    assert_ne!(first.uri, second.uri);
    assert!(third.is_none());
    assert_eq!(loader.length(), 0);
}

#[test]
fn complete_appends_and_counts() {
    let (mut loader, _) = Loader::new(args_with("http://x/"), lines(&["a", "b", "c"]));
    let popped = loader.pop().unwrap();
    assert_eq!(loader.length(), 2);
    assert_eq!(loader.length_done(), 0);
    loader.complete(popped);
    assert_eq!(loader.length(), 2);
    assert_eq!(loader.length_done(), 1);
}

#[test]
fn conservation_holds_through_a_run() {
    let (mut loader, _) = Loader::new(args_with("http://x/"), lines(&["a", "b", "c", "d"]));
    let total: usize = 4;
    let mut held: usize = 0;
    let mut popped = Vec::new();
    assert_eq!(loader.length() + held + loader.length_done(), total);
    for _ in 0..2 {
        popped.push(loader.pop().unwrap());
        held += 1;
        assert_eq!(loader.length() + held + loader.length_done(), total);
    }
    for res in popped {
        loader.finish(res, &FetchOutcome::TransportError);
        held -= 1;
        assert_eq!(loader.length() + held + loader.length_done(), total);
    }
    assert_eq!(loader.length_done(), 2);
}

#[test]
fn transport_error_is_recorded_not_dropped() {
    let (mut loader, _) = Loader::new(args_with("http://x/"), lines(&["a"]));
    let res = loader.pop().unwrap();
    loader.finish(res, &FetchOutcome::TransportError);
    assert_eq!(loader.length_done(), 1);
    let done = loader.done_resource(0);
    assert_eq!(done.cache_status, CacheStatus::Error);
    assert_eq!(done.http_status, 0);
    assert!(!done.captcha);
}

#[test]
fn finish_classifies_a_response() {
    let (mut loader, _) = {
        let mut a = args_with("http://x/");
        a.captcha_string = String::from("ROBOT");
        Loader::new(a, lines(&["a"]))
    };
    let res = loader.pop().unwrap();
    let outcome = FetchOutcome::Response {
        cache_header: Some(String::from("MISS")),
        status: 403,
        body: b"are you a ROBOT?".to_vec(),
    };
    loader.finish(res, &outcome);
    let done = loader.done_resource(0);
    assert_eq!(done.cache_status, CacheStatus::Miss);
    assert_eq!(done.http_status, 403);
    assert!(done.captcha);
    assert!(loader.found_captcha());
}

#[test]
fn finish_decodes_malformed_bytes_with_replacement() {
    let (mut loader, _) = {
        let mut a = args_with("http://x/");
        a.captcha_string = String::from("\u{FFFD}");
        Loader::new(a, lines(&["a"]))
    };
    let res = loader.pop().unwrap();
    let outcome = FetchOutcome::Response {
        cache_header: None,
        status: 200,
        body: vec![b'o', b'k', 0xFF, b'!'],
    };
    loader.finish(res, &outcome);
    let done = loader.done_resource(0);
    assert!(done.captcha, "invalid byte must decode to the replacement character");
}

#[test]
fn captcha_signal_is_monotonic() {
    let (mut loader, _) = {
        let mut a = args_with("http://x/");
        a.captcha_string = String::from("ROBOT");
        Loader::new(a, lines(&["a", "b"]))
    };
    assert!(!loader.found_captcha());
    let first = loader.pop().unwrap();
    loader.finish(
        first,
        &FetchOutcome::Response {
            cache_header: None,
            status: 200,
            body: b"a ROBOT page".to_vec(),
        },
    );
    assert!(loader.found_captcha());
    let second = loader.pop().unwrap();
    loader.finish(
        second,
        &FetchOutcome::Response {
            cache_header: None,
            status: 200,
            body: b"a clean page".to_vec(),
        },
    );
    assert!(loader.found_captcha(), "the signal never resets");
}

#[test]
fn next_task_stops_on_captcha_signal() {
    let (mut loader, _) = {
        let mut a = args_with("http://x/");
        a.captcha_string = String::from("ROBOT");
        Loader::new(a, lines(&["a", "b"]))
    };
    let (res, _plan) = loader.next_task().unwrap();
    loader.finish(
        res,
        &FetchOutcome::Response {
            cache_header: None,
            status: 200,
            body: b"ROBOT".to_vec(),
        },
    );
    assert!(loader.next_task().is_none(), "cooperative stop");
    assert_eq!(loader.length(), 1, "remaining work is left untouched");
}

#[test]
fn next_task_stops_when_work_runs_out() {
    let (mut loader, _) = Loader::new(args_with("http://x/"), lines(&["a"]));
    let (res, _plan) = loader.next_task().unwrap();
    loader.finish(res, &FetchOutcome::TransportError);
    assert!(loader.next_task().is_none());
}

#[test]
fn request_plan_carries_configured_headers() {
    let (mut loader, _) = {
        let mut a = args_with("http://x/");
        a.user_agent = String::from("agent-under-test");
        a.cookies = vec![
            (String::from("a"), String::from("1")),
            (String::from("b"), String::from("2")),
        ];
        a.bypass = true;
        a.keep_alive = false;
        Loader::new(a, lines(&["a"]))
    };
    let (_res, plan) = loader.next_task().unwrap();
    assert_eq!(plan.uri, "http://x/a");
    assert_eq!(plan.user_agent, "agent-under-test");
    assert_eq!(plan.cookie, "a=1; b=2; cacheupdate=true");
    assert_eq!(plan.accept_encoding, Some(String::from("br, gzip, deflate")));
    assert!(!plan.keep_alive);
}

#[test]
fn request_plan_omits_encoding_header_when_disabled() {
    let (mut loader, _) = {
        let mut a = args_with("http://x/");
        a.gzip = false;
        Loader::new(a, lines(&["a"]))
    };
    let (_res, plan) = loader.next_task().unwrap();
    assert_eq!(plan.accept_encoding, None);
}

#[test]
fn two_workers_four_resources_captcha_on_second() {
    // Two workers drain the registry; the resource seeded from line "2" is
    // mocked to answer with a cache hit and a captcha body. The workers
    // interleave pop/finish, checking the signal before every pop.
    let mut a = args_with("http://x/");
    a.captcha_string = String::from("ROBOT");
    let (mut loader, _) = Loader::new(a, lines(&["1", "2", "3", "4"]));
    let mock = |uri: &str| -> FetchOutcome {
        if uri == "http://x/2" {
            FetchOutcome::Response {
                cache_header: Some(String::from("HIT")),
                status: 200,
                body: b"stop, ROBOT".to_vec(),
            }
        } else {
            FetchOutcome::Response {
                cache_header: Some(String::from("MISS")),
                status: 200,
                body: b"fine".to_vec(),
            }
        }
    };
    // Interleave two logical workers: each holds at most one task.
    let mut pending: Vec<_> = Vec::new();
    loop {
        while pending.len() < 2 {
            match loader.next_task() {
                Some(t) => pending.push(t),
                None => break,
            }
        }
        if pending.is_empty() {
            break;
        }
        let (res, plan) = pending.remove(0);
        let outcome = mock(&plan.uri);
        loader.finish(res, &outcome);
    }
    assert!(loader.found_captcha());
    let done_count = loader.length_done();
    assert!(done_count >= 1 && done_count <= 4);
    let mut saw_second = false;
    for i in 0..done_count {
        let r = loader.done_resource(i);
        if r.uri == "http://x/2" {
            saw_second = true;
            assert_eq!(r.cache_status, CacheStatus::Hit);
            assert!(r.captcha);
        }
    }
    assert!(saw_second, "the mocked resource reached done");
}

#[test]
fn stats_counts_everything() {
    let mut a = args_with("http://x/");
    a.captcha_string = String::from("ROBOT");
    let (mut loader, _) = Loader::new(a, lines(&["1", "2", "3", "4"]));
    // Pop order is unspecified to callers; classify by the seeded line.
    while let Some(res) = loader.pop() {
        let outcome = match res.uri.as_str() {
            "http://x/1" => FetchOutcome::Response {
                cache_header: Some(String::from("HIT")),
                status: 200,
                body: b"one".to_vec(),
            },
            "http://x/2" => FetchOutcome::Response {
                cache_header: Some(String::from("MISS")),
                status: 200,
                body: b"two ROBOT".to_vec(),
            },
            "http://x/3" => FetchOutcome::Response {
                cache_header: None,
                status: 404,
                body: b"three".to_vec(),
            },
            _ => FetchOutcome::TransportError,
        };
        loader.finish(res, &outcome);
    }
    let stats = loader.stats();
    assert_eq!(stats.total, 4);
    assert_eq!(stats.hit, 1);
    assert_eq!(stats.miss, 1);
    assert_eq!(stats.bypass, 0);
    assert_eq!(stats.unset, 1);
    assert_eq!(stats.error, 1);
    let mut hist = stats.http_statuses.clone();
    hist.sort();
    assert_eq!(hist, vec![(0, 1), (200, 2), (404, 1)]);
    assert_eq!(stats.captcha_uri, Some(String::from("http://x/2")));
}

#[test]
fn stats_without_captcha() {
    let (mut loader, _) = Loader::new(args_with("http://x/"), lines(&["1"]));
    let res = loader.pop().unwrap();
    loader.finish(
        res,
        &FetchOutcome::Response {
            cache_header: Some(String::from("BYPASS")),
            status: 301,
            body: b"moved".to_vec(),
        },
    );
    let stats = loader.stats();
    assert_eq!(stats.total, 1);
    assert_eq!(stats.bypass, 1);
    assert_eq!(stats.captcha_uri, None);
    assert_eq!(stats.http_statuses, vec![(301, 1)]);
}
