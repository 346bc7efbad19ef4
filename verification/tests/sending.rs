use http::{HeaderMap, HeaderName, HeaderValue};
use http_cache_semantics::fields::FieldValue;
use http_cache_semantics::forwarding::copy_without_hop_by_hop_headers;
use http_cache_semantics::{
    CachePolicy, CachePolicyOptions, Duration, RequestParts, ResponseLike, ResponseParts, SystemTime,
};

// Tue, 14 Nov 2023 22:13:20 GMT
const NOW: i64 = 1_700_000_000;

fn at(secs: i64) -> SystemTime {
    SystemTime::from_unix(NOW + secs, 0)
}

fn headers(list: &[(&str, &str)]) -> HeaderMap {
    let mut map = HeaderMap::new();
    for (name, value) in list {
        map.append(
            HeaderName::from_bytes(name.as_bytes()).unwrap(),
            HeaderValue::from_bytes(value.as_bytes()).unwrap(),
        );
    }
    map
}

fn request() -> RequestParts {
    RequestParts {
        method: String::from("GET"),
        uri: String::from("http://example.com/"),
        headers: HeaderMap::new(),
    }
}

fn policy_of(res: &ResponseParts, received: SystemTime) -> CachePolicy {
    CachePolicy::new(&request(), res, CachePolicyOptions::received_at(received))
}

fn policy(status: u16, list: &[(&str, &str)]) -> CachePolicy {
    policy_of(&ResponseParts { status, headers: headers(list) }, at(0))
}

fn passed_on(map: &HeaderMap) -> HeaderMap {
    copy_without_hop_by_hop_headers(map).unwrap()
}

/// A map that takes no more names.
fn full_map() -> HeaderMap {
    let mut map = HeaderMap::new();
    for i in 0.. {
        let name = HeaderName::from_bytes(format!("x-{}", i).as_bytes()).unwrap();
        if map.try_insert(name, HeaderValue::from_static("v")).is_err() {
            break;
        }
    }
    map
}

fn text(map: &HeaderMap, name: &str) -> Vec<String> {
    map.get_all(name).iter().map(|v| v.to_str().unwrap().to_string()).collect()
}

#[test]
fn hop_by_hop_fields_are_stripped() {
    let names = [
        "date",
        "connection",
        "keep-alive",
        "proxy-authenticate",
        "proxy-authorization",
        "te",
        "trailer",
        "transfer-encoding",
        "upgrade",
    ];
    let list: Vec<(&str, &str)> = names.iter().map(|n| (*n, "x")).collect();
    assert_eq!(passed_on(&headers(&list)).len(), 0);
    let copied = passed_on(&headers(&[("te", "x"), ("X-Kept", "y"), ("tee", "z")]));
    assert_eq!(copied.len(), 2);
    assert_eq!(text(&copied, "x-kept"), vec!["y"]);
    assert_eq!(text(&copied, "tee"), vec!["z"]);
}

#[test]
fn fields_that_connection_names_are_stripped() {
    let copied = passed_on(&headers(&[
        ("connection", "Close, X-One"),
        ("connection", " x-two"),
        ("x-one", "1"),
        ("x-two", "2"),
        ("x-three", "3"),
    ]));
    assert_eq!(copied.len(), 1);
    assert_eq!(text(&copied, "x-three"), vec!["3"]);
}

#[test]
fn each_field_is_passed_on_with_its_last_value() {
    let copied = passed_on(&headers(&[("a", "1"), ("b", "2"), ("a", "3")]));
    assert_eq!(text(&copied, "a"), vec!["3"]);
    assert_eq!(text(&copied, "b"), vec!["2"]);
}

#[test]
fn values_are_passed_on_as_they_are() {
    let mut map = HeaderMap::new();
    let mut secret = HeaderValue::from_bytes(b"a\xff\tb").unwrap();
    secret.set_sensitive(true);
    map.insert("x", secret);
    let copied = passed_on(&map);
    assert_eq!(copied.get("x").unwrap().as_bytes(), b"a\xff\tb");
    assert!(copied.get("x").unwrap().is_sensitive());
}

#[test]
fn warnings_that_come_out_of_date_are_dropped() {
    let copied = passed_on(&headers(&[
        ("warning", "199 test danger, 200 ok ok"),
        ("warning", "110 - stale , 299 - lasting"),
    ]));
    assert_eq!(text(&copied, "warning"), vec!["200 ok ok, 299 - lasting"]);
    let copied = passed_on(&headers(&[("warning", "199 test danger")]));
    assert!(!copied.contains_key("warning"));
    let kept = "1 a, 10 b, 1000 c, 1x9 d, 19x e";
    let copied = passed_on(&headers(&[("warning", kept)]));
    assert_eq!(text(&copied, "warning"), vec![kept]);
    let copied = passed_on(&headers(&[("warning", "100, 1999, 150x, 199-")]));
    assert_eq!(text(&copied, "warning"), vec!["1999"]);
    // Where `connection` names them, the lasting ones are passed on all the same.
    let copied = passed_on(&headers(&[("warning", "200 a"), ("connection", "warning")]));
    assert_eq!(text(&copied, "warning"), vec!["200 a"]);
}

#[test]
fn a_cached_response_has_an_age_and_a_date() {
    let p = policy(
        203,
        &[
            ("cache-control", "max-age=100"),
            ("age", "10"),
            ("date", "Tue, 14 Nov 2023 22:13:00 GMT"),
            ("te", "deflate"),
            ("connection", "close, x-hop"),
            ("x-hop", "1"),
            ("x-kept", "2"),
        ],
    );
    let r = p.cached_response(at(5));
    assert_eq!(r.status, 203);
    assert_eq!(r.status(), 203);
    assert_eq!(text(&r.headers, "age"), vec!["25"]);
    assert_eq!(text(&r.headers, "date"), vec!["Tue, 14 Nov 2023 22:13:25 +0000"]);
    assert_eq!(text(&r.headers, "cache-control"), vec!["max-age=100"]);
    assert_eq!(text(&r.headers, "x-kept"), vec!["2"]);
    assert_eq!(r.headers.len(), 4);
}

#[test]
fn age_is_carried_from_cache_to_cache() {
    let first = policy(200, &[("cache-control", "max-age=100"), ("age", "30")]);
    let second = policy_of(&first.cached_response(at(20)), at(21));
    assert_eq!(second.age(at(21)), Duration::from_secs(50));
    assert_eq!(second.time_to_live(at(31)), Duration::from_secs(40));
    let third = policy_of(&second.cached_response(at(31)), at(31));
    assert_eq!(third.age(at(31)), Duration::from_secs(60));
}

#[test]
fn the_age_field_counts_up_to_32_bits() {
    let p = policy(200, &[("age", "4294967294")]);
    assert_eq!(text(&p.cached_response(at(0)).headers, "age"), vec!["4294967294"]);
    assert_eq!(text(&p.cached_response(at(1)).headers, "age"), vec!["4294967295"]);
    assert_eq!(text(&p.cached_response(at(2)).headers, "age"), vec!["4294967295"]);
    let p = policy(200, &[("age", "18446744073709551615")]);
    assert_eq!(text(&p.cached_response(at(0)).headers, "age"), vec!["4294967295"]);
}

#[test]
fn a_lifetime_that_was_guessed_is_warned_of() {
    let warning = "113 - \"rfc7234 5.5.4\"";
    // Fresh for about 1967 days by guess.
    let p = policy(200, &[("last-modified", "Thu, 01 Jan 1970 00:00:00 GMT"), ("warning", "299 a")]);
    assert_eq!(text(&p.cached_response(at(86_400)).headers, "warning"), vec!["299 a"]);
    assert_eq!(text(&p.cached_response(at(86_401)).headers, "warning"), vec!["299 a", warning]);
    let p = policy(200, &[("last-modified", "Thu, 01 Jan 1970 00:00:00 GMT")]);
    assert_eq!(text(&p.cached_response(at(86_401)).headers, "warning"), vec![warning]);
    let p = policy(200, &[("cache-control", "max-age=999999999")]);
    assert!(!p.cached_response(at(86_401)).headers.contains_key("warning"));
    let p = policy(200, &[]);
    assert!(!p.cached_response(at(86_401)).headers.contains_key("warning"));
}

#[test]
fn cached_responses_on_given_ages() {
    let s = Duration::from_secs;
    let p = policy(404, &[("x", "1"), ("connection", "close")]);
    let r = p.checked_cached_response_given(s(86_401), s(86_401), "today").unwrap();
    assert_eq!(r.status, 404);
    assert_eq!(text(&r.headers, "age"), vec!["86401"]);
    assert_eq!(text(&r.headers, "date"), vec!["today"]);
    assert_eq!(text(&r.headers, "warning").len(), 1);
    assert_eq!(text(&r.headers, "x"), vec!["1"]);
    assert_eq!(r.headers.len(), 4);
    let r = p.checked_cached_response_given(s(86_401), s(86_400), "today").unwrap();
    assert!(!r.headers.contains_key("warning"));
    let r = p.checked_cached_response_given(s(86_400), s(86_401), "today").unwrap();
    assert!(!r.headers.contains_key("warning"));
}

#[test]
fn instants_without_a_written_form_are_refused() {
    let p = policy(200, &[]);
    assert!(p.checked_cached_response(SystemTime::from_unix(-1, 999_999_999)).is_none());
    let epoch = p.checked_cached_response(SystemTime::from_unix(0, 0)).unwrap();
    assert_eq!(text(&epoch.headers, "date"), vec!["Thu, 1 Jan 1970 00:00:00 +0000"]);
    let last = p.checked_cached_response(SystemTime::from_unix(253_402_300_799, 0)).unwrap();
    assert_eq!(text(&last.headers, "date"), vec!["Fri, 31 Dec 9999 23:59:59 +0000"]);
    assert!(p.checked_cached_response(SystemTime::from_unix(253_402_300_800, 0)).is_none());
    let old = policy(200, &[("age", "18446744073709551615")]);
    assert!(old.checked_cached_response(at(0)).is_some());
    assert!(old.checked_cached_response(at(1)).is_none());
}

#[test]
fn cached_responses_have_as_much_room_as_the_map_takes() {
    let mut map = HeaderMap::new();
    for i in 0..10_000 {
        map.insert(
            HeaderName::from_bytes(format!("x-{}", i).as_bytes()).unwrap(),
            HeaderValue::from_static("v"),
        );
    }
    let p = policy_of(&ResponseParts { status: 200, headers: map }, at(0));
    let r = p.checked_cached_response(at(0)).unwrap();
    assert_eq!(r.headers.keys_len(), 10_002);
    assert_eq!(text(&r.headers, "age"), vec!["0"]);
    let p = policy_of(&ResponseParts { status: 200, headers: full_map() }, at(0));
    assert!(p.checked_cached_response(at(0)).is_none());
}

const BLANK_IN_LONG_NAME: &str =
    "x-0123456789-0123456789-0123456789-0123456789-0123456789-0123456789-a b-c";

#[test]
fn long_names_that_are_no_field_names_are_passed_on() {
    let mut map = HeaderMap::new();
    map.insert(BLANK_IN_LONG_NAME, HeaderValue::from_static("1"));
    map.append(BLANK_IN_LONG_NAME, HeaderValue::from_static("2"));
    map.insert("y", HeaderValue::from_static("3"));
    let held = map.keys().find(|k| k.as_str().len() > 64).unwrap().clone();
    assert!(held.as_str().contains('\0'));
    // So is a value that is made of one.
    map.insert("z", HeaderValue::from(held.clone()));
    let passed = passed_on(&map);
    assert_eq!(passed.keys_len(), 3);
    assert_eq!(text(&passed, BLANK_IN_LONG_NAME), vec!["2"]);
    assert_eq!(passed.get(&held).unwrap(), "2");
    assert_eq!(passed.get("z").unwrap().as_bytes(), held.as_str().as_bytes());
    let p = policy_of(&ResponseParts { status: 200, headers: map.clone() }, at(0));
    assert_eq!(text(&p.cached_response(at(0)).headers, BLANK_IN_LONG_NAME), vec!["2"]);
    // `connection` finds it by any character that a field name does not have.
    let named = BLANK_IN_LONG_NAME.to_uppercase().replace(' ', "(");
    map.insert("connection", HeaderValue::from_bytes(named.as_bytes()).unwrap());
    let passed = passed_on(&map);
    assert_eq!(passed.keys_len(), 2);
    assert!(!passed.contains_key(BLANK_IN_LONG_NAME));
}

#[test]
fn values_are_made_from_text() {
    let v = FieldValue::from_text("a b");
    assert_eq!(v.bytes, b"a b");
    assert!(!v.sensitive);
}
