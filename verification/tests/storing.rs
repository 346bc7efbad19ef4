use http::{HeaderMap, HeaderName, HeaderValue};
use http_cache_semantics::{
    CachePolicy, CachePolicyOptions, Duration, Fraction, RequestParts, ResponseParts, SystemTime,
};

const NOW: i64 = 1_700_000_000;

fn now() -> SystemTime {
    SystemTime::from_unix(NOW, 0)
}

fn headers(list: &[(&str, &str)]) -> HeaderMap {
    let mut map = HeaderMap::new();
    for (name, value) in list {
        map.append(
            HeaderName::from_bytes(name.as_bytes()).unwrap(),
            HeaderValue::from_bytes(value.as_bytes()).unwrap(),
        );
    }
    map
}

fn request(method: &str, list: &[(&str, &str)]) -> RequestParts {
    RequestParts {
        method: method.to_string(),
        uri: String::from("http://example.com/a"),
        headers: headers(list),
    }
}

fn response(status: u16, list: &[(&str, &str)]) -> ResponseParts {
    ResponseParts { status, headers: headers(list) }
}

fn options() -> CachePolicyOptions {
    CachePolicyOptions::received_at(now())
}

fn unshared() -> CachePolicyOptions {
    CachePolicyOptions { shared: false, ..options() }
}

fn storable(
    method: &str,
    req: &[(&str, &str)],
    status: u16,
    res: &[(&str, &str)],
    opts: CachePolicyOptions,
) -> bool {
    CachePolicy::new(&request(method, req), &response(status, res), opts).is_storable()
}

#[test]
fn default_options() {
    let opts = CachePolicyOptions::default();
    assert!(opts.shared);
    assert_eq!(opts.cache_heuristic, Fraction { bits: 0.1f32.to_bits() });
    assert_eq!(opts.immutable_min_time_to_live, Duration::from_secs(24 * 3600));
    assert!(!opts.ignore_cargo_cult);
    assert!(opts.trust_server_date);
    let late = SystemTime::now();
    assert!(late.since(opts.response_time).is_some());
}

#[test]
fn plain_answers_are_stored() {
    assert!(storable("GET", &[], 200, &[], options()));
    assert!(storable("HEAD", &[], 200, &[], options()));
    assert!(!storable("get", &[], 200, &[], options()));
    assert!(!storable("PUT", &[], 200, &[("cache-control", "max-age=60")], options()));
}

#[test]
fn statuses_decide() {
    for status in [200, 203, 204, 300, 301, 404, 405, 410, 414, 501] {
        assert!(storable("GET", &[], status, &[], options()), "{}", status);
    }
    // Understood, but not stored without a reason.
    for status in [302, 303, 307, 308] {
        assert!(!storable("GET", &[], status, &[], options()), "{}", status);
        assert!(storable("GET", &[], status, &[("cache-control", "public")], options()));
    }
    // Not understood.
    for status in [206, 201, 304, 400, 500, 503] {
        assert!(!storable("GET", &[], status, &[("cache-control", "max-age=9")], options()));
    }
}

#[test]
fn posts_are_stored_where_they_say_for_how_long() {
    assert!(!storable("POST", &[], 200, &[], options()));
    assert!(!storable("POST", &[], 200, &[("cache-control", "public")], options()));
    assert!(storable("POST", &[], 200, &[("cache-control", "max-age=9")], options()));
    assert!(storable("POST", &[], 200, &[("expires", "whenever")], options()));
    assert!(storable("POST", &[], 200, &[("cache-control", "s-maxage=9")], options()));
    assert!(!storable("POST", &[], 200, &[("cache-control", "s-maxage=9")], unshared()));
}

#[test]
fn no_store_is_obeyed() {
    assert!(!storable("GET", &[("cache-control", "no-store")], 200, &[], options()));
    assert!(!storable("GET", &[], 200, &[("cache-control", "no-store, max-age=99")], options()));
    assert!(!storable("GET", &[], 200, &[("Cache-Control", "no-store")], unshared()));
}

#[test]
fn private_answers_are_for_single_users() {
    assert!(!storable("GET", &[], 200, &[("cache-control", "private, max-age=99")], options()));
    assert!(storable("GET", &[], 200, &[("cache-control", "private, max-age=99")], unshared()));
}

#[test]
fn authenticated_answers_have_to_allow_it() {
    let auth = [("authorization", "test")];
    assert!(!storable("GET", &auth, 200, &[("cache-control", "max-age=99")], options()));
    assert!(storable("GET", &auth, 200, &[("cache-control", "max-age=99")], unshared()));
    for directive in ["public", "must-revalidate", "s-maxage=12"] {
        let res = [("cache-control", "max-age=99"), ("cache-control", directive)];
        assert!(storable("GET", &auth, 200, &res, options()), "{}", directive);
    }
}

#[test]
fn any_reason_to_store_will_do() {
    assert!(!storable("GET", &[], 302, &[], options()));
    assert!(storable("GET", &[], 302, &[("expires", "0")], options()));
    assert!(storable("GET", &[], 302, &[("cache-control", "max-age")], options()));
    assert!(storable("GET", &[], 302, &[("cache-control", "s-maxage=1")], options()));
    assert!(!storable("GET", &[], 302, &[("cache-control", "s-maxage=1")], unshared()));
}

#[test]
fn blindly_copied_directives_are_ignored() {
    let res = response(
        200,
        &[
            (
                "cache-control",
                "pre-check=0, post-check=0, no-cache, no-store, must-revalidate, max-age=100, foo=\"b-r\"",
            ),
            ("expires", "yesterday"),
            ("pragma", "no-cache"),
            ("x-other", "kept"),
        ],
    );
    let ignoring = CachePolicyOptions { ignore_cargo_cult: true, ..options() };
    let policy = CachePolicy::new(&request("GET", &[]), &res, ignoring);
    assert!(policy.is_storable());
    assert_eq!(policy.max_age(), Duration::from_secs(100));
    let held = policy.response();
    assert_eq!(held.headers.get("cache-control").unwrap(), "max-age=100, foo=\"b-r\"");
    assert!(!held.headers.contains_key("expires"));
    assert!(!held.headers.contains_key("pragma"));
    assert_eq!(held.headers.get("x-other").unwrap(), "kept");
    // The response that was given is not touched.
    assert!(res.headers.contains_key("pragma"));

    let strict = CachePolicy::new(&request("GET", &[]), &res, options());
    assert!(!strict.is_storable());
    assert_eq!(strict.max_age(), Duration::from_secs(0));
}

#[test]
fn one_of_the_two_legacy_directives_is_not_enough() {
    let ignoring = CachePolicyOptions { ignore_cargo_cult: true, ..options() };
    let res = [("cache-control", "pre-check=0, no-store, max-age=9")];
    assert!(!storable("GET", &[], 200, &res, ignoring));
}

#[test]
fn pragma_counts_where_there_is_no_cache_control() {
    let req = request("GET", &[]);
    let pragma = CachePolicy::new(
        &req,
        &response(200, &[("pragma", "x, no-cache"), ("expires", "Wed, 15 Nov 2023 22:13:20 GMT")]),
        options(),
    );
    assert_eq!(pragma.max_age(), Duration::from_secs(0));
    let both = CachePolicy::new(
        &req,
        &response(200, &[("pragma", "no-cache"), ("cache-control", "max-age=5")]),
        options(),
    );
    assert_eq!(both.max_age(), Duration::from_secs(5));
}

#[test]
fn a_policy_is_made_again_from_what_it_holds() {
    let ignoring = CachePolicyOptions { ignore_cargo_cult: true, ..options() };
    for cache_control in ["pre-check=0, post-check=0, no-store, max-age=100", "max-age=7, max-age=8"] {
        let policy = CachePolicy::new(
            &request("GET", &[("accept", "a"), ("cache-control", "no-cache")]),
            &response(200, &[("cache-control", cache_control), ("vary", "accept")]),
            ignoring,
        );
        let again = CachePolicy::new(&policy.request(), &policy.response(), policy.options());
        assert_eq!(format!("{:?}", again), format!("{:?}", policy));
        assert_eq!(again.request().uri, "http://example.com/a");
        assert_eq!(again.request().method, "GET");
        assert_eq!(again.response().status, 200);
    }
}

#[test]
fn full_header_maps_are_refused() {
    let ignoring = CachePolicyOptions { ignore_cargo_cult: true, ..options() };
    let mut res = response(200, &[("cache-control", "pre-check=0, post-check=0")]);
    for i in 0..10_000 {
        res.headers.insert(
            HeaderName::from_bytes(format!("x-{}", i).as_bytes()).unwrap(),
            HeaderValue::from_static("v"),
        );
    }
    let req = request("GET", &[]);
    assert!(CachePolicy::checked_new(&req, &res, ignoring).is_some());
    for i in 10_000.. {
        let name = HeaderName::from_bytes(format!("x-{}", i).as_bytes()).unwrap();
        if res.headers.try_insert(name, HeaderValue::from_static("v")).is_err() {
            break;
        }
    }
    assert!(CachePolicy::checked_new(&req, &res, ignoring).is_none());
    assert!(CachePolicy::checked_new(&req, &res, options()).is_some());
}

#[test]
fn a_policy_lists_its_directives() {
    let policy = CachePolicy::new(
        &request("GET", &[("cache-control", "max-stale=\"5\", a")]),
        &response(200, &[("pragma", "no-cache")]),
        options(),
    );
    assert_eq!(
        policy.request_directives(),
        vec![(String::from("max-stale"), Some(String::from("5"))), (String::from("a"), None)],
    );
    assert_eq!(policy.response_directives(), vec![(String::from("no-cache"), None)]);
}
