use http::{HeaderMap, HeaderName, HeaderValue};
use http_cache_semantics::{
    CachePolicy, CachePolicyOptions, Duration, RequestLike, RequestParts, ResponseParts, SystemTime,
};

const NOW: i64 = 1_700_000_000;

fn at(secs: i64) -> SystemTime {
    SystemTime::from_unix(NOW + secs, 0)
}

fn headers(list: &[(&str, &str)]) -> HeaderMap {
    let mut map = HeaderMap::new();
    for (name, value) in list {
        map.append(
            HeaderName::from_bytes(name.as_bytes()).unwrap(),
            HeaderValue::from_bytes(value.as_bytes()).unwrap(),
        );
    }
    map
}

fn to(uri: &str, method: &str, list: &[(&str, &str)]) -> RequestParts {
    RequestParts { method: method.to_string(), uri: uri.to_string(), headers: headers(list) }
}

fn request(list: &[(&str, &str)]) -> RequestParts {
    to("http://example.com/a?b", "GET", list)
}

fn policy(req: &[(&str, &str)], res: &[(&str, &str)]) -> CachePolicy {
    CachePolicy::new(
        &request(req),
        &ResponseParts { status: 200, headers: headers(res) },
        CachePolicyOptions::received_at(at(0)),
    )
}

const FRESH: (&str, &str) = ("cache-control", "max-age=100");

#[test]
fn a_fresh_response_is_reused_for_its_own_request() {
    let p = policy(&[("host", "h"), ("accept", "x")], &[FRESH, ("vary", "Accept")]);
    let own = request(&[("host", "h"), ("accept", "x")]);
    assert!(p.satisfies_without_revalidation(&own, at(0)));
    assert!(p.satisfies_without_revalidation(&own, at(99)));
    assert!(!p.satisfies_without_revalidation(&own, at(100)));
}

#[test]
fn uris_have_to_be_the_same() {
    let p = policy(&[], &[FRESH]);
    assert!(p.satisfies_without_revalidation(&request(&[]), at(0)));
    assert!(!p.satisfies_without_revalidation(&to("http://example.com/a", "GET", &[]), at(0)));
    assert!(!p.satisfies_without_revalidation(&to("http://example.com/a?c", "GET", &[]), at(0)));
    assert!(!p.satisfies_without_revalidation(&to("https://example.com/a?b", "GET", &[]), at(0)));
    // Scheme and host are the same in capitals, the path is not.
    assert!(p.satisfies_without_revalidation(&to("HTTP://EXAMPLE.com/a?b", "GET", &[]), at(0)));
    assert!(!p.satisfies_without_revalidation(&to("http://example.com/A?b", "GET", &[]), at(0)));
}

#[test]
fn a_uri_is_its_own() {
    assert!(request(&[]).is_same_uri("http://example.com/a?b"));
    assert!(!request(&[]).is_same_uri("http://example.com/"));
    assert!(!request(&[]).is_same_uri("no uri at all"));
    assert!(!to("no uri", "GET", &[]).is_same_uri("no uri at all"));
    assert!(to("no uri", "GET", &[]).is_same_uri("no uri"));
    assert_eq!(request(&[]).uri(), "http://example.com/a?b");
    assert_eq!(request(&[]).method(), "GET");
}

#[test]
fn methods_have_to_be_the_same() {
    let p = policy(&[], &[FRESH]);
    assert!(!p.satisfies_without_revalidation(&to("http://example.com/a?b", "HEAD", &[]), at(0)));
    assert!(!p.satisfies_without_revalidation(&to("http://example.com/a?b", "POST", &[]), at(0)));
}

#[test]
fn hosts_have_to_be_the_same() {
    let p = policy(&[("host", "a")], &[FRESH]);
    assert!(p.satisfies_without_revalidation(&request(&[("host", "a")]), at(0)));
    assert!(!p.satisfies_without_revalidation(&request(&[("host", "b")]), at(0)));
    assert!(!p.satisfies_without_revalidation(&request(&[]), at(0)));
}

#[test]
fn fields_that_vary_have_to_be_the_same() {
    let p = policy(&[("weather", "nice"), ("moon", "full")], &[FRESH, ("vary", "Weather, MOON , sun")]);
    assert!(p.satisfies_without_revalidation(&request(&[("weather", "nice"), ("moon", "full")]), at(0)));
    assert!(!p.satisfies_without_revalidation(&request(&[("weather", "bad"), ("moon", "full")]), at(0)));
    assert!(!p.satisfies_without_revalidation(&request(&[("weather", "nice")]), at(0)));
    assert!(!p.satisfies_without_revalidation(
        &request(&[("weather", "nice"), ("moon", "full"), ("sun", "up")]),
        at(0),
    ));
    // Only the first value is compared.
    assert!(p.satisfies_without_revalidation(
        &request(&[("weather", "nice"), ("weather", "bad"), ("moon", "full")]),
        at(0),
    ));
}

#[test]
fn vary_in_several_fields_counts() {
    let p = policy(&[("a", "1"), ("b", "1")], &[FRESH, ("vary", "a"), ("vary", "b")]);
    assert!(p.satisfies_without_revalidation(&request(&[("a", "1"), ("b", "1")]), at(0)));
    assert!(!p.satisfies_without_revalidation(&request(&[("a", "1"), ("b", "2")]), at(0)));
}

#[test]
fn nothing_matches_where_everything_varies() {
    for vary in ["*", "a, *", "* , a"] {
        let p = policy(&[("a", "1")], &[FRESH, ("vary", vary)]);
        assert!(!p.satisfies_without_revalidation(&request(&[("a", "1")]), at(0)));
        let p = policy(&[("a", "1")], &[("vary", vary)]);
        let willing = request(&[("a", "1"), ("cache-control", "max-stale")]);
        assert!(!p.satisfies_without_revalidation(&willing, at(0)));
    }
}

#[test]
fn names_that_vary_but_are_no_names_match() {
    let p = policy(&[], &[FRESH, ("vary", ", a b, ()")]);
    assert!(p.satisfies_without_revalidation(&request(&[]), at(0)));
}

#[test]
fn requests_can_insist_on_the_server() {
    let p = policy(&[], &[FRESH]);
    assert!(!p.satisfies_without_revalidation(&request(&[("cache-control", "no-cache")]), at(0)));
    assert!(!p.satisfies_without_revalidation(&request(&[("pragma", "no-cache")]), at(0)));
    assert!(p.satisfies_without_revalidation(&request(&[("pragma", "cache")]), at(0)));
}

#[test]
fn requests_can_limit_the_age() {
    let p = policy(&[], &[FRESH, ("age", "10")]);
    let limit = request(&[("cache-control", "max-age=20")]);
    assert!(p.satisfies_without_revalidation(&limit, at(10)));
    assert!(!p.satisfies_without_revalidation(&limit, at(11)));
    assert!(p.satisfies_without_revalidation(&request(&[("cache-control", "max-age=x")]), at(50)));
}

#[test]
fn requests_can_ask_for_time_that_is_left() {
    let p = policy(&[], &[FRESH]);
    let left = request(&[("cache-control", "min-fresh=10")]);
    assert!(p.satisfies_without_revalidation(&left, at(90)));
    assert!(!p.satisfies_without_revalidation(&left, at(91)));
}

#[test]
fn requests_can_accept_stale_responses() {
    let p = policy(&[], &[FRESH]);
    assert!(!p.satisfies_without_revalidation(&request(&[]), at(150)));
    assert!(p.satisfies_without_revalidation(&request(&[("cache-control", "max-stale")]), at(150)));
    assert!(p.satisfies_without_revalidation(&request(&[("cache-control", "max-stale")]), at(900_000)));
    let some = request(&[("cache-control", "max-stale=51")]);
    assert!(p.satisfies_without_revalidation(&some, at(150)));
    assert!(!p.satisfies_without_revalidation(&some, at(151)));
    assert!(p.satisfies_without_revalidation(&request(&[("cache-control", "max-stale=x")]), at(150)));
    // Accepting them does not lift the other conditions.
    let both = request(&[("cache-control", "max-stale, max-age=100")]);
    assert!(!p.satisfies_without_revalidation(&both, at(150)));
}

#[test]
fn responses_can_forbid_that() {
    let p = policy(&[], &[("cache-control", "max-age=100, must-revalidate")]);
    let willing = request(&[("cache-control", "max-stale")]);
    assert!(p.satisfies_without_revalidation(&willing, at(99)));
    assert!(!p.satisfies_without_revalidation(&willing, at(100)));
    // Contradictory directives do the same.
    let p = policy(&[], &[("cache-control", "max-age=100, max-age=200")]);
    assert!(p.satisfies_without_revalidation(&willing, at(99)));
    assert!(!p.satisfies_without_revalidation(&willing, at(100)));
}

#[test]
fn reuse_on_given_ages() {
    let p = policy(&[], &[]);
    let s = Duration::from_secs;
    assert!(p.satisfies_given(&request(&[]), s(4), s(5)));
    assert!(!p.satisfies_given(&request(&[]), s(5), s(5)));
    assert!(!p.satisfies_given(&request(&[("cache-control", "max-age=3")]), s(4), s(5)));
    assert!(p.satisfies_given(&request(&[("cache-control", "max-age=4")]), s(4), s(5)));
    assert!(p.satisfies_given(&request(&[("cache-control", "min-fresh=1")]), s(4), s(5)));
    assert!(!p.satisfies_given(&request(&[("cache-control", "min-fresh=2")]), s(4), s(5)));
    assert!(p.satisfies_given(&request(&[("cache-control", "max-stale=2")]), s(6), s(5)));
    assert!(!p.satisfies_given(&request(&[("cache-control", "max-stale=1")]), s(6), s(5)));
    assert!(!p.satisfies_given(&request(&[("cache-control", "no-cache")]), s(0), s(5)));
}

#[test]
fn reuse_is_left_open_where_the_age_does_not_fit() {
    let p = policy(&[], &[FRESH, ("age", "18446744073709551615")]);
    assert_eq!(p.checked_satisfies_without_revalidation(&request(&[]), at(0)), Some(false));
    assert_eq!(p.checked_satisfies_without_revalidation(&request(&[]), at(1)), None);
    let insisting = request(&[("cache-control", "no-cache")]);
    assert_eq!(p.checked_satisfies_without_revalidation(&insisting, at(1)), Some(false));
    assert!(!p.satisfies_without_revalidation(&insisting, at(1)));
    let p = policy(&[], &[FRESH]);
    assert_eq!(p.checked_satisfies_without_revalidation(&request(&[]), at(1)), Some(true));
}

#[test]
fn reuse_does_not_come_back() {
    let p = policy(&[], &[FRESH]);
    for list in [vec![], vec![("cache-control", "max-stale=30")], vec![("cache-control", "max-age=50")]] {
        let req = request(&list);
        let mut reused = true;
        for t in 0..200 {
            let next = p.satisfies_without_revalidation(&req, at(t));
            assert!(reused || !next);
            reused = next;
        }
        assert!(!reused);
    }
}

struct Borrowed<'a> {
    uri: &'a str,
    headers: &'a HeaderMap,
}

impl RequestLike for Borrowed<'_> {
    fn uri(&self) -> String {
        self.uri.to_string()
    }

    fn is_same_uri(&self, other: &str) -> bool {
        self.uri.trim_end_matches('/') == other.trim_end_matches('/')
    }

    fn method(&self) -> &str {
        "GET"
    }

    fn headers(&self) -> &HeaderMap {
        self.headers
    }
}

#[test]
fn requests_of_other_types_decide_what_uri_is_theirs() {
    let map = headers(&[]);
    let stored = Borrowed { uri: "http://example.com/a", headers: &map };
    let p = CachePolicy::new(
        &stored,
        &ResponseParts { status: 200, headers: headers(&[FRESH]) },
        CachePolicyOptions::received_at(at(0)),
    );
    let slash = Borrowed { uri: "http://example.com/a/", headers: &map };
    let other = Borrowed { uri: "http://example.com/b/", headers: &map };
    assert!(p.satisfies_without_revalidation(&slash, at(0)));
    assert!(!p.satisfies_without_revalidation(&other, at(0)));
    assert!(!p.satisfies_without_revalidation(&to("http://example.com/a/", "GET", &[]), at(0)));
}

#[test]
fn long_names_that_are_no_field_names_vary() {
    let name = "x-0123456789-0123456789-0123456789-0123456789-0123456789-0123456789-a b-c";
    let long = |value: &'static str| {
        let mut req = request(&[]);
        req.headers.insert(name, HeaderValue::from_static(value));
        req
    };
    let res = ResponseParts { status: 200, headers: headers(&[FRESH, ("vary", name)]) };
    let p = CachePolicy::new(&long("1"), &res, CachePolicyOptions::received_at(at(0)));
    assert!(p.satisfies_without_revalidation(&long("1"), at(0)));
    assert!(!p.satisfies_without_revalidation(&long("2"), at(0)));
    assert!(!p.satisfies_without_revalidation(&request(&[]), at(0)));
}
