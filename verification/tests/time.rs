use http_cache_semantics::{Duration, SystemTime};

#[test]
fn spans_are_counted_in_nanoseconds() {
    let d = Duration::new(3, 250_000_000);
    assert_eq!(d.as_secs(), 3);
    assert_eq!(d.subsec_nanos(), 250_000_000);
    assert_eq!(Duration::new(1, 1_500_000_000), Duration::new(2, 500_000_000));
    assert_eq!(Duration::from_secs(u64::MAX).as_secs(), u64::MAX);
}

#[test]
fn spans_are_compared_and_combined() {
    let a = Duration::from_secs(5);
    let b = Duration::new(5, 1);
    assert_eq!(a.longer(b), b);
    assert_eq!(b.longer(a), b);
    assert!(b.exceeds(a));
    assert!(!a.exceeds(a));
    assert_eq!(b.minus(a), Duration::new(0, 1));
    assert_eq!(a.minus(b), Duration::from_secs(0));
    assert_eq!(a.checked_plus(b), Some(Duration::new(10, 1)));
}

#[test]
fn spans_that_do_not_fit_are_refused() {
    let most = Duration::new(u64::MAX, 999_999_999);
    assert_eq!(most.checked_plus(Duration::from_secs(0)), Some(most));
    assert_eq!(most.checked_plus(Duration::new(0, 1)), None);
}

#[test]
fn instants_are_told_apart() {
    let a = SystemTime::from_unix(100, 0);
    let b = SystemTime::from_unix(101, 5);
    assert_eq!(b.since(a), Some(Duration::new(1, 5)));
    assert_eq!(a.since(b), None);
    assert_eq!(a.since(a), Some(Duration::from_secs(0)));
    assert!(b.is_after(a));
    assert!(!a.is_after(a));
}

#[test]
fn instants_before_the_epoch_are_rounded_down() {
    assert_eq!(SystemTime::from_unix(-1, 999_999_999).to_unix(), (-1, 999_999_999));
    assert_eq!(SystemTime::from_unix(-2, 1_500_000_000).to_unix(), (-1, 500_000_000));
    assert_eq!(SystemTime::from_unix(7, 8).to_unix(), (7, 8));
    assert_eq!(SystemTime::from_unix(i64::MIN, 0).to_unix(), (i64::MIN, 0));
    assert_eq!(SystemTime::from_unix(i64::MAX, 999_999_999).to_unix(), (i64::MAX, 999_999_999));
}

#[test]
fn the_longest_span_between_instants_fits() {
    let first = SystemTime::from_unix(i64::MIN, 0);
    let last = SystemTime::from_unix(i64::MAX, 999_999_999);
    assert_eq!(last.since(first), Some(Duration::new(u64::MAX, 999_999_999)));
}

#[test]
fn now_is_what_the_clock_says() {
    let seconds = || {
        std::time::SystemTime::now().duration_since(std::time::UNIX_EPOCH).unwrap().as_secs() as i64
    };
    let before = seconds();
    let (now, _) = SystemTime::now().to_unix();
    let after = seconds();
    assert!(before <= now && now <= after);
}

#[test]
fn readings_of_the_clock_are_instants() {
    assert_eq!(SystemTime::from_clock(Ok((7, 8))), SystemTime::from_unix(7, 8));
    assert_eq!(SystemTime::from_clock(Ok((0, 0))), SystemTime::from_unix(0, 0));
    assert_eq!(SystemTime::from_clock(Err((7, 0))), SystemTime::from_unix(-7, 0));
    assert_eq!(SystemTime::from_clock(Err((7, 8))), SystemTime::from_unix(-8, 999_999_992));
    let last = SystemTime::from_unix(i64::MAX, 999_999_999);
    assert_eq!(SystemTime::from_clock(Ok((i64::MAX as u64, 999_999_999))), last);
    assert_eq!(SystemTime::from_clock(Ok((i64::MAX as u64 + 1, 0))), last);
    let first = SystemTime::from_unix(i64::MIN, 0);
    assert_eq!(SystemTime::from_clock(Err((1 << 63, 0))), first);
    assert_eq!(SystemTime::from_clock(Err((u64::MAX, 5))), first);
}
