use http::{HeaderMap, HeaderName, HeaderValue};
use http_cache_semantics::{
    CachePolicy, CachePolicyOptions, Dates, Duration, Fraction, RequestParts, ResponseParts, SystemTime,
};

// Tue, 14 Nov 2023 22:13:20 GMT
const NOW: i64 = 1_700_000_000;

fn at(secs: i64) -> SystemTime {
    SystemTime::from_unix(NOW + secs, 0)
}

fn headers(list: &[(&str, &str)]) -> HeaderMap {
    let mut map = HeaderMap::new();
    for (name, value) in list {
        map.append(
            HeaderName::from_bytes(name.as_bytes()).unwrap(),
            HeaderValue::from_bytes(value.as_bytes()).unwrap(),
        );
    }
    map
}

fn policy_with(opts: CachePolicyOptions, list: &[(&str, &str)]) -> CachePolicy {
    let req = RequestParts {
        method: String::from("GET"),
        uri: String::from("http://example.com/"),
        headers: HeaderMap::new(),
    };
    CachePolicy::new(&req, &ResponseParts { status: 200, headers: headers(list) }, opts)
}

fn options() -> CachePolicyOptions {
    CachePolicyOptions::received_at(at(0))
}

fn policy(list: &[(&str, &str)]) -> CachePolicy {
    policy_with(options(), list)
}

fn secs(n: u64) -> Duration {
    Duration::from_secs(n)
}

#[test]
fn max_age_is_taken_from_the_directive() {
    let p = policy(&[("cache-control", "max-age=123456, public")]);
    assert_eq!(p.max_age(), secs(123456));
    assert_eq!(p.age(at(0)), secs(0));
    assert!(!p.is_stale(at(0)));
    assert_eq!(p.time_to_live(at(0)), secs(123456));
}

#[test]
fn shared_caches_go_by_s_maxage() {
    let list = [("cache-control", "max-age=10, s-maxage=20"), ("expires", "0")];
    assert_eq!(policy(&list).max_age(), secs(20));
    let single = CachePolicyOptions { shared: false, ..options() };
    assert_eq!(policy_with(single, &list).max_age(), secs(10));
    // Without a value it does not count.
    assert_eq!(policy(&[("cache-control", "s-maxage, max-age=7")]).max_age(), secs(7));
}

#[test]
fn what_is_no_number_counts_as_zero() {
    assert_eq!(policy(&[("cache-control", "max-age=soon")]).max_age(), secs(0));
    assert_eq!(policy(&[("cache-control", "max-age=1, s-maxage=-5")]).max_age(), secs(0));
    assert_eq!(policy(&[("cache-control", "max-age=\"30\"")]).max_age(), secs(30));
}

#[test]
fn a_single_user_cache_ignores_what_is_for_shared_ones() {
    let single = CachePolicyOptions { shared: false, ..options() };
    let with = policy_with(
        single,
        &[("cache-control", "max-age=9, s-maxage=99, private, proxy-revalidate"), ("set-cookie", "a=b")],
    );
    let without = policy_with(single, &[("cache-control", "max-age=9")]);
    assert!(with.is_storable() && without.is_storable());
    assert_eq!(with.max_age(), without.max_age());
    assert_eq!(with.max_age(), secs(9));
}

#[test]
fn some_responses_are_never_fresh() {
    for list in [
        vec![("cache-control", "no-cache, max-age=99")],
        vec![("cache-control", "no-store, max-age=99")],
        vec![("cache-control", "proxy-revalidate, max-age=99")],
        vec![("cache-control", "max-age=99"), ("set-cookie", "a=b")],
        vec![("cache-control", "max-age=99"), ("vary", " * ")],
        vec![("cache-control", "private, max-age=99")],
    ] {
        let p = policy(&list);
        assert_eq!(p.max_age(), secs(0), "{:?}", list);
        assert_eq!(p.time_to_live(at(0)), secs(0));
        assert!(p.is_stale(at(0)));
        assert!(p.is_stale(at(-5)));
    }
}

#[test]
fn cookies_are_shared_where_the_response_allows_it() {
    for directive in ["public", "immutable"] {
        let p = policy(&[
            ("cache-control", "max-age=99"),
            ("cache-control", directive),
            ("set-cookie", "a=b"),
        ]);
        assert_eq!(p.max_age(), secs(99));
    }
}

#[test]
fn expires_counts_from_the_date_of_the_server() {
    let p = policy(&[
        ("date", "Tue, 14 Nov 2023 22:13:10 GMT"),
        ("expires", "Tue, 14 Nov 2023 22:14:20 GMT"),
    ]);
    assert_eq!(p.max_age(), secs(70));
    assert_eq!(p.age(at(0)), secs(10));
    assert_eq!(p.time_to_live(at(0)), secs(60));
    assert!(!p.is_stale(at(59)));
    assert!(p.is_stale(at(60)));
}

#[test]
fn dates_in_other_zones_are_understood() {
    let p = policy(&[("expires", "Wed, 15 Nov 2023 00:13:50 +0200")]);
    assert_eq!(p.max_age(), secs(30));
}

#[test]
fn expires_that_is_no_date_has_passed() {
    for text in ["0", "-1", "never", "Thu, 99 Nov 2023 22:14:20 GMT"] {
        assert_eq!(policy(&[("expires", text)]).max_age(), secs(0), "{}", text);
        assert_eq!(
            policy(&[("expires", text), ("cache-control", "immutable")]).max_age(),
            secs(0),
        );
    }
    assert_eq!(policy(&[("expires", "Tue, 14 Nov 2023 22:13:19 GMT")]).max_age(), secs(0));
    assert_eq!(policy(&[("expires", "Sat, 01 Jan 1955 00:00:00 GMT")]).max_age(), secs(0));
}

#[test]
fn max_age_comes_before_expires() {
    let p = policy(&[("cache-control", "max-age=5"), ("expires", "Tue, 14 Nov 2023 23:13:20 GMT")]);
    assert_eq!(p.max_age(), secs(5));
}

#[test]
fn unmodified_for_a_hundred_days_is_fresh_for_ten() {
    let p = policy(&[("last-modified", "Sun, 06 Aug 2023 22:13:20 GMT")]);
    assert_eq!(p.max_age(), secs(10 * 24 * 3600));
    let half = CachePolicyOptions { cache_heuristic: Fraction { bits: 0.5f32.to_bits() }, ..options() };
    let p = policy_with(half, &[("last-modified", "Sun, 06 Aug 2023 22:13:20 GMT")]);
    assert_eq!(p.max_age(), secs(50 * 24 * 3600));
}

#[test]
fn last_modified_in_the_future_tells_nothing() {
    assert_eq!(policy(&[("last-modified", "Wed, 15 Nov 2023 22:13:20 GMT")]).max_age(), secs(0));
    assert_eq!(policy(&[("last-modified", "long ago")]).max_age(), secs(0));
    assert_eq!(policy(&[]).max_age(), secs(0));
}

#[test]
fn last_modified_before_the_epoch_counts_as_the_epoch() {
    let p = policy(&[("last-modified", "Sat, 01 Jan 1955 00:00:00 GMT")]);
    assert_eq!(p.max_age(), secs(170_000_002));
    let q = policy(&[("last-modified", "Thu, 01 Jan 1970 00:00:00 GMT")]);
    assert_eq!(p.max_age(), q.max_age());
}

#[test]
fn immutable_responses_are_fresh_for_a_day() {
    assert_eq!(policy(&[("cache-control", "immutable")]).max_age(), secs(86_400));
    assert_eq!(policy(&[("cache-control", "immutable, max-age=7")]).max_age(), secs(7));
    let p = policy(&[("cache-control", "immutable"), ("expires", "Tue, 14 Nov 2023 22:13:30 GMT")]);
    assert_eq!(p.max_age(), secs(86_400));
    let short = CachePolicyOptions { immutable_min_time_to_live: secs(3), ..options() };
    assert_eq!(policy_with(short, &[("cache-control", "immutable")]).max_age(), secs(3));
    let p = policy_with(
        short,
        &[("cache-control", "immutable"), ("expires", "Tue, 14 Nov 2023 22:13:30 GMT")],
    );
    assert_eq!(p.max_age(), secs(10));
}

#[test]
fn age_counts_the_time_since() {
    let p = policy(&[("age", "10"), ("cache-control", "max-age=100")]);
    assert_eq!(p.age(at(0)), secs(10));
    assert_eq!(p.age(at(5)), secs(15));
    assert_eq!(p.age(SystemTime::from_unix(NOW + 5, 500)), Duration::new(15, 500));
    // Before it was received it was as old as when it was.
    assert_eq!(p.age(at(-50)), secs(10));
    assert_eq!(p.time_to_live(at(30)), secs(60));
    assert!(!p.is_stale(at(89)));
    assert!(p.is_stale(at(90)));
    assert!(p.is_stale(at(91)));
    assert_eq!(p.time_to_live(at(90)), secs(0));
    assert_eq!(p.time_to_live(at(900)), secs(0));
}

#[test]
fn the_larger_of_age_and_date_counts() {
    let date = ("date", "Tue, 14 Nov 2023 22:13:00 GMT");
    assert_eq!(policy(&[date, ("age", "5")]).age(at(0)), secs(20));
    assert_eq!(policy(&[date, ("age", "50")]).age(at(0)), secs(50));
    // A date in the future counts as no age.
    assert_eq!(policy(&[("date", "Tue, 14 Nov 2023 22:14:00 GMT")]).age(at(0)), secs(0));
}

#[test]
fn an_age_that_is_no_number_counts_as_zero() {
    for age in ["x", "-5", " 5", ""] {
        assert_eq!(policy(&[("age", age)]).age(at(3)), secs(3), "{}", age);
    }
    let mut map = HeaderMap::new();
    map.insert("age", HeaderValue::from_bytes(b"5\xff").unwrap());
    let req = RequestParts {
        method: String::from("GET"),
        uri: String::from("http://example.com/"),
        headers: HeaderMap::new(),
    };
    let p = CachePolicy::new(&req, &ResponseParts { status: 200, headers: map }, options());
    assert_eq!(p.age(at(0)), secs(0));
}

#[test]
fn the_first_of_several_ages_counts() {
    assert_eq!(policy(&[("age", "7"), ("age", "70")]).age(at(0)), secs(7));
}

#[test]
fn a_date_that_is_far_off_is_not_believed() {
    // Seven hours and 59 minutes, and eight hours.
    assert_eq!(policy(&[("date", "Tue, 14 Nov 2023 14:14:20 GMT")]).age(at(0)), secs(28_740));
    assert_eq!(policy(&[("date", "Tue, 14 Nov 2023 14:13:20 GMT")]).age(at(0)), secs(0));
    assert_eq!(policy(&[("date", "yesterday")]).age(at(0)), secs(0));
    assert_eq!(policy(&[("date", "Sat, 01 Jan 1955 00:00:00 GMT")]).age(at(0)), secs(0));
}

#[test]
fn an_untrusted_date_is_not_the_base_of_the_age() {
    let opts = CachePolicyOptions { trust_server_date: false, ..options() };
    let list = [
        ("date", "Tue, 14 Nov 2023 22:13:00 GMT"),
        ("expires", "Tue, 14 Nov 2023 22:13:30 GMT"),
    ];
    let p = policy_with(opts, &list);
    assert_eq!(p.age(at(0)), secs(0));
    // It still is what `expires` counts from.
    assert_eq!(p.max_age(), secs(30));
    assert_eq!(policy(&list).age(at(0)), secs(20));
}

#[test]
fn decisions_on_given_dates() {
    let p = policy(&[("expires", "a date"), ("cache-control", "immutable")]);
    assert_eq!(p.server_date_given(None), at(0));
    assert_eq!(p.server_date_given(Some(NOW - 60)), at(-60));
    assert_eq!(p.server_date_given(Some(NOW + 60)), at(60));
    assert_eq!(p.server_date_given(Some(NOW - 28_799)), at(-28_799));
    assert_eq!(p.server_date_given(Some(NOW - 28_800)), at(0));
    assert_eq!(p.server_date_given(Some(NOW + 28_799)), at(28_799));
    assert_eq!(p.server_date_given(Some(NOW + 28_800)), at(0));
    assert_eq!(p.server_date_given(Some(-1)), at(0));
    assert_eq!(p.checked_age_given(at(7), Some(NOW - 60)), Some(secs(67)));
    let none = Dates { date: None, expires: None, last_modified: None };
    assert_eq!(p.max_age_given(none), secs(0));
    assert_eq!(p.max_age_given(Dates { expires: Some(NOW + 5), ..none }), secs(86_400));
    assert_eq!(p.max_age_given(Dates { expires: Some(NOW + 100_000), ..none }), secs(100_000));
    assert_eq!(
        p.max_age_given(Dates { expires: Some(NOW + 100_000), date: Some(NOW + 10), ..none }),
        secs(99_990),
    );
    let q = policy(&[]);
    assert_eq!(q.max_age_given(Dates { last_modified: Some(NOW - 1000), ..none }), secs(100));
    assert_eq!(q.max_age_given(Dates { last_modified: Some(NOW + 1), ..none }), secs(0));
    assert_eq!(q.max_age_given(Dates { last_modified: Some(-5), ..none }), secs(170_000_002));
    // Without an `expires` field the date is of no account.
    assert_eq!(q.max_age_given(Dates { expires: Some(NOW + 100_000), ..none }), secs(0));
}

#[test]
fn an_epoch_away_from_the_server_date_is_near_enough() {
    let opts = CachePolicyOptions::received_at(SystemTime::from_unix(100, 0));
    let p = policy_with(opts, &[]);
    assert_eq!(p.server_date_given(Some(0)), SystemTime::from_unix(0, 0));
    assert_eq!(p.server_date_given(Some(-1)), SystemTime::from_unix(100, 0));
}

#[test]
fn ages_that_do_not_fit_are_refused() {
    let p = policy(&[("age", "18446744073709551615"), ("cache-control", "max-age=5")]);
    assert_eq!(p.checked_age(at(0)), Some(secs(u64::MAX)));
    assert_eq!(p.checked_age(at(1)), None);
    assert_eq!(p.checked_time_to_live(at(0)), Some(secs(0)));
    assert_eq!(p.checked_time_to_live(at(1)), None);
    assert_eq!(p.checked_is_stale(at(0)), Some(true));
    assert_eq!(p.checked_is_stale(at(1)), None);
    assert_eq!(p.age(at(-1)), secs(u64::MAX));
}

#[test]
fn checked_decisions_agree_where_they_are_made() {
    let p = policy(&[("age", "10"), ("cache-control", "max-age=100")]);
    assert_eq!(p.checked_age(at(5)), Some(p.age(at(5))));
    assert_eq!(p.checked_time_to_live(at(5)), Some(secs(85)));
    assert_eq!(p.checked_is_stale(at(5)), Some(false));
}

#[test]
fn freshness_ends_when_no_time_is_left() {
    let p = policy(&[("age", "10"), ("cache-control", "max-age=100")]);
    for now in [0, 30, 89, 90, 200] {
        let left = p.time_to_live(at(now)).as_secs() as i64;
        assert!(p.is_stale(at(now + left)));
        if left > 0 {
            assert!(!p.is_stale(at(now + left - 1)));
        }
        assert_eq!(p.is_stale(at(now)), left == 0);
        assert!(p.age(at(now + 1)).exceeds(p.age(at(now))));
    }
}
