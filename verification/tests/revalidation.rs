use http::{HeaderMap, HeaderName, HeaderValue};
use http_cache_semantics::updating::updated_headers;
use http_cache_semantics::{
    CachePolicy, CachePolicyOptions, Duration, RequestParts, ResponseParts, RevalidatedPolicy, SystemTime,
};

const NOW: i64 = 1_700_000_000;

fn at(secs: i64) -> SystemTime {
    SystemTime::from_unix(NOW + secs, 0)
}

fn headers(list: &[(&str, &str)]) -> HeaderMap {
    let mut map = HeaderMap::new();
    for (name, value) in list {
        map.append(
            HeaderName::from_bytes(name.as_bytes()).unwrap(),
            HeaderValue::from_bytes(value.as_bytes()).unwrap(),
        );
    }
    map
}

fn request_by(method: &str, list: &[(&str, &str)]) -> RequestParts {
    RequestParts {
        method: method.to_string(),
        uri: String::from("http://example.com/"),
        headers: headers(list),
    }
}

fn request(list: &[(&str, &str)]) -> RequestParts {
    request_by("GET", list)
}

fn response(status: u16, list: &[(&str, &str)]) -> ResponseParts {
    ResponseParts { status, headers: headers(list) }
}

fn policy_by(method: &str, list: &[(&str, &str)]) -> CachePolicy {
    CachePolicy::new(
        &request_by(method, &[]),
        &response(200, list),
        CachePolicyOptions::received_at(at(0)),
    )
}

fn policy(list: &[(&str, &str)]) -> CachePolicy {
    policy_by("GET", list)
}

fn text(map: &HeaderMap, name: &str) -> Vec<String> {
    map.get_all(name).iter().map(|v| v.to_str().unwrap().to_string()).collect()
}

fn answered(old: &[(&str, &str)], status: u16, answer: &[(&str, &str)]) -> RevalidatedPolicy {
    policy(old).revalidated_policy(&request(&[]), &response(status, answer), at(50))
}

#[test]
fn the_entity_tag_is_sent() {
    let p = policy(&[("etag", "\"v1\"")]);
    let r = p.revalidation_request(&request(&[("x", "1")]));
    assert_eq!(r.method, "GET");
    assert_eq!(r.uri, "http://example.com/");
    assert_eq!(text(&r.headers, "if-none-match"), vec!["\"v1\""]);
    assert_eq!(text(&r.headers, "x"), vec!["1"]);
    assert_eq!(r.headers.len(), 2);
}

#[test]
fn the_entity_tag_joins_those_of_the_request() {
    let p = policy(&[("etag", "\"v1\"")]);
    let r = p.revalidation_request(&request(&[("if-none-match", "\"a\" ,W/\"b\""), ("if-none-match", "\"c\"")]));
    // Of several fields only the last is passed on.
    assert_eq!(text(&r.headers, "if-none-match"), vec!["\"c\", \"v1\""]);
    let r = p.revalidation_request(&request(&[("if-none-match", "\"a\" ,W/\"b\"")]));
    assert_eq!(text(&r.headers, "if-none-match"), vec!["\"a\", W/\"b\", \"v1\""]);
}

#[test]
fn the_date_of_modification_is_sent() {
    let p = policy(&[("last-modified", "Tue, 15 Nov 1994 12:45:26 GMT")]);
    let r = p.revalidation_request(&request(&[]));
    assert_eq!(text(&r.headers, "if-modified-since"), vec!["Tue, 15 Nov 1994 12:45:26 GMT"]);
    assert!(!r.headers.contains_key("if-none-match"));
    let r = p.revalidation_request(&request(&[("if-modified-since", "own")]));
    assert_eq!(text(&r.headers, "if-modified-since"), vec!["own"]);
}

#[test]
fn hop_by_hop_and_range_fields_are_not_sent() {
    let p = policy(&[("etag", "\"v1\"")]);
    let r = p.revalidation_request(&request(&[
        ("connection", "x-hop, if-none-match"),
        ("x-hop", "1"),
        ("te", "gzip"),
        ("if-range", "\"v1\""),
        ("if-none-match", "\"own\""),
        ("date", "today"),
    ]));
    assert_eq!(r.headers.len(), 1);
    assert_eq!(text(&r.headers, "if-none-match"), vec!["\"v1\""]);
}

#[test]
fn weak_validators_are_not_sent_with_other_methods() {
    let etag = ("etag", "W/\"v1\"");
    let fresh = ("cache-control", "max-age=9");
    let p = policy_by("POST", &[etag, fresh, ("last-modified", "then")]);
    let r = p.revalidation_request(&request_by("POST", &[("if-modified-since", "x")]));
    assert_eq!(r.method, "POST");
    assert!(!r.headers.contains_key("if-modified-since"));
    assert!(!r.headers.contains_key("if-none-match"));
    let r = p.revalidation_request(&request_by("POST", &[("if-none-match", "W/\"a\", \"b\",\"c\"")]));
    assert_eq!(text(&r.headers, "if-none-match"), vec!["\"b\", \"c\""]);
}

#[test]
fn weak_validators_are_not_sent_with_ranges_and_preconditions() {
    for name in ["accept-ranges", "if-match", "if-unmodified-since"] {
        let p = policy(&[("etag", "\"v1\""), ("last-modified", "then")]);
        let r = p.revalidation_request(&request(&[(name, "x"), ("if-none-match", "W/\"a\"")]));
        assert_eq!(text(&r.headers, "if-none-match"), vec!["\"v1\""], "{}", name);
        assert!(!r.headers.contains_key("if-modified-since"));
    }
}

#[test]
fn other_requests_are_sent_without_conditions() {
    let conditions = [("if-none-match", "\"a\""), ("if-modified-since", "x"), ("y", "1")];
    let p = policy(&[("etag", "\"v1\""), ("last-modified", "then")]);
    let mut other = request(&conditions);
    other.uri = String::from("http://example.com/other");
    let unstored = policy(&[("etag", "\"v1\""), ("cache-control", "no-store")]);
    for r in [p.revalidation_request(&other), unstored.revalidation_request(&request(&conditions))] {
        assert!(!r.headers.contains_key("if-none-match"));
        assert!(!r.headers.contains_key("if-modified-since"));
        assert_eq!(text(&r.headers, "y"), vec!["1"]);
        // It is the stored resource that is asked for.
        assert_eq!(r.uri, "http://example.com/");
    }
}

#[test]
fn revalidation_is_allowed_by_head() {
    let p = policy(&[("etag", "\"v1\"")]);
    let r = p.revalidation_request(&request_by("HEAD", &[]));
    assert_eq!(r.method, "GET");
    assert_eq!(text(&r.headers, "if-none-match"), vec!["\"v1\""]);
}

/// A map that takes no more names.
fn full_map() -> HeaderMap {
    let mut map = HeaderMap::new();
    for i in 0.. {
        let name = HeaderName::from_bytes(format!("x-{}", i).as_bytes()).unwrap();
        if map.try_insert(name, HeaderValue::from_static("v")).is_err() {
            break;
        }
    }
    map
}

#[test]
fn revalidation_requests_have_as_much_room_as_the_map_takes() {
    let mut req = request(&[]);
    for i in 0..10_000 {
        req.headers.insert(
            HeaderName::from_bytes(format!("x-{}", i).as_bytes()).unwrap(),
            HeaderValue::from_static("v"),
        );
    }
    let p = policy(&[("etag", "\"v1\""), ("last-modified", "then")]);
    let r = p.checked_revalidation_request(&req).unwrap();
    assert_eq!(r.headers.keys_len(), 10_002);
    req.headers = full_map();
    assert!(p.checked_revalidation_request(&req).is_none());
}

#[test]
fn the_same_entity_tag_confirms() {
    for (old, new, confirmed) in [
        ("\"a\"", "\"a\"", true),
        ("\"a\"", "\"b\"", false),
        ("W/\"a\"", "\"a\"", true),
        ("\"a\"", "W/\"a\"", true),
        ("W/\"a\"", "W/\"a\"", true),
        ("W/\"a\"", "W/\"b\"", false),
        (" \"a\" ", "\"a\"", true),
    ] {
        let r = answered(&[("etag", old)], 304, &[("etag", new)]);
        assert_eq!(r.matches, confirmed, "{} {}", old, new);
        assert!(!r.modified);
    }
}

#[test]
fn a_strong_entity_tag_that_was_not_stored_does_not_confirm() {
    let r = answered(&[("last-modified", "a")], 304, &[("etag", "\"a\""), ("last-modified", "a")]);
    assert!(!r.matches);
    let r = answered(&[("last-modified", "a")], 304, &[("etag", "W/\"a\""), ("last-modified", "a")]);
    assert!(r.matches);
    let r = answered(&[], 304, &[("etag", "W/\"a\"")]);
    assert!(!r.matches);
}

#[test]
fn without_entity_tags_the_same_date_or_nothing_confirms() {
    assert!(answered(&[], 304, &[]).matches);
    assert!(answered(&[("last-modified", "a")], 304, &[("last-modified", "a")]).matches);
    assert!(answered(&[("last-modified", " a ")], 304, &[("last-modified", "a")]).matches);
    assert!(!answered(&[("last-modified", "a")], 304, &[("last-modified", "b")]).matches);
    assert!(!answered(&[], 304, &[("last-modified", "a")]).matches);
    assert!(!answered(&[("etag", "\"a\"")], 304, &[("last-modified", "a")]).matches);
    let old = [("etag", "\"a\""), ("last-modified", "a")];
    assert!(answered(&old, 304, &[("last-modified", "a")]).matches);
    assert!(!answered(&old, 304, &[("last-modified", "b")]).matches);
}

#[test]
fn an_answer_without_validators_does_not_confirm_a_response_that_has_one() {
    let stored = [("last-modified", "Thu, 01 Jan 1970 00:00:00 GMT")];
    let r = answered(&stored, 304, &[]);
    assert!(!r.matches);
    assert!(!r.modified);
    assert_eq!(r.policy.response().status, 304);
    assert!(!answered(&[("etag", "\"a\"")], 304, &[]).matches);
}

#[test]
fn only_304_confirms() {
    let r = answered(&[("etag", "\"a\"")], 200, &[("etag", "\"a\"")]);
    assert!(!r.matches);
    assert!(r.modified);
}

#[test]
fn a_confirmed_response_is_brought_up_to_date() {
    let r = answered(
        &[
            ("etag", "\"a\""),
            ("cache-control", "max-age=10"),
            ("content-length", "5"),
            ("x-old", "1"),
            ("x-many", "1"),
            ("x-many", "2"),
        ],
        304,
        &[
            ("etag", "\"a\""),
            ("cache-control", "max-age=20"),
            ("cache-control", "max-age=30"),
            ("content-length", "0"),
            ("x-new", "1"),
        ],
    );
    assert!(r.matches && !r.modified);
    assert_eq!(r.policy.max_age(), Duration::from_secs(20));
    assert_eq!(r.policy.age(at(50)), Duration::from_secs(0));
    assert_eq!(r.policy.options().response_time, at(50));
    let held = r.policy.response();
    assert_eq!(held.status, 200);
    assert_eq!(text(&held.headers, "content-length"), vec!["5"]);
    assert_eq!(text(&held.headers, "x-old"), vec!["1"]);
    assert_eq!(text(&held.headers, "x-many"), vec!["2"]);
    assert!(!held.headers.contains_key("x-new"));
    assert_eq!(held.headers.len(), 5);
}

#[test]
fn fields_that_describe_the_body_are_kept() {
    for name in ["content-length", "content-encoding", "transfer-encoding", "content-range"] {
        let map = updated_headers(&headers(&[(name, "old")]), &headers(&[(name, "new")])).unwrap();
        assert_eq!(text(&map, name), vec!["old"]);
    }
    let map =
        updated_headers(&headers(&[("content-type", "old")]), &headers(&[("Content-Type", "new")])).unwrap();
    assert_eq!(text(&map, "content-type"), vec!["new"]);
}

#[test]
fn another_answer_takes_the_place_of_the_response() {
    let r = answered(
        &[("etag", "\"a\""), ("x-old", "1")],
        200,
        &[("etag", "\"b\""), ("cache-control", "max-age=7"), ("x-new", "1"), ("x-new", "2")],
    );
    assert!(!r.matches && r.modified);
    let held = r.policy.response();
    assert_eq!(text(&held.headers, "x-new"), vec!["1", "2"]);
    assert!(!held.headers.contains_key("x-old"));
    assert_eq!(r.policy.max_age(), Duration::from_secs(7));
    let r = answered(&[("etag", "\"a\"")], 304, &[("etag", "\"b\"")]);
    assert_eq!(r.policy.response().status, 304);
    assert!(!r.policy.is_storable());
}

#[test]
fn the_new_policy_is_for_the_new_request() {
    let r = policy(&[("vary", "x")]).revalidated_policy(
        &request(&[("x", "1")]),
        &response(304, &[]),
        at(50),
    );
    assert_eq!(text(&r.policy.request().headers, "x"), vec!["1"]);
}

#[test]
fn revalidated_policies_have_as_much_room_as_the_map_takes() {
    let res = ResponseParts { status: 200, headers: full_map() };
    let names = res.headers.keys_len();
    let opts = CachePolicyOptions { ignore_cargo_cult: true, ..CachePolicyOptions::received_at(at(0)) };
    let p = CachePolicy::new(&request(&[]), &res, opts);
    let r = p.checked_revalidated_policy(&request(&[]), &response(304, &[]), at(1)).unwrap();
    assert!(r.matches);
    assert_eq!(r.policy.response().headers.keys_len(), names);
    let replaced = response(200, &[("x", "1")]);
    let r = p.checked_revalidated_policy(&request(&[]), &replaced, at(1)).unwrap();
    assert!(!r.matches);
    assert_eq!(r.policy.response().headers.len(), 1);
    let mut copied = ResponseParts { status: 200, headers: full_map() };
    copied.headers.remove("x-0");
    copied.headers.insert("cache-control", HeaderValue::from_static("pre-check, post-check"));
    assert!(p.checked_revalidated_policy(&request(&[]), &copied, at(1)).is_none());
}

#[test]
fn long_names_that_are_no_field_names_are_brought_up_to_date() {
    let name = "x-0123456789-0123456789-0123456789-0123456789-0123456789-0123456789-a b-c";
    let mut stored = headers(&[("y", "1")]);
    stored.insert(name, HeaderValue::from_static("old"));
    let mut answer = HeaderMap::new();
    assert_eq!(updated_headers(&stored, &answer).unwrap().get(name).unwrap(), "old");
    answer.insert(name, HeaderValue::from_static("new"));
    let map = updated_headers(&stored, &answer).unwrap();
    assert_eq!(map.get(name).unwrap(), "new");
    assert_eq!(map.len(), 2);
}
