use axactor::time::{backoff, Duration, MAX_NANOS};

#[test]
fn backoff_doubles_up_to_the_longest_wait() {
    let (min, max) = (Duration::from_millis(100), Duration::from_secs(1));
    let waits: Vec<Duration> = (1..=6).map(|n| backoff(n, min, max)).collect();
    let millis: Vec<u64> = vec![100, 200, 400, 800, 1000, 1000];
    assert_eq!(waits, millis.into_iter().map(Duration::from_millis).collect::<Vec<_>>());
}

#[test]
fn backoff_starts_at_the_longest_wait_where_that_is_shorter() {
    let (min, max) = (Duration::from_secs(2), Duration::from_secs(1));
    assert_eq!(backoff(1, min, max), max);
    assert_eq!(backoff(3, min, max), max);
}

#[test]
fn backoff_does_not_overflow() {
    let (min, max) = (Duration::from_secs(u64::MAX), Duration::from_nanos(MAX_NANOS).unwrap());
    assert_eq!(backoff(100, min, max), max);
    assert_eq!(backoff(5, Duration::from_millis(0), max), Duration::from_millis(0));
}

#[test]
fn spans_agree_with_the_standard_library() {
    let longest = std::time::Duration::MAX;
    assert_eq!(longest.as_nanos(), MAX_NANOS);
    assert!(Duration::from_nanos(MAX_NANOS).is_some());
    assert!(Duration::from_nanos(MAX_NANOS + 1).is_none());
    for millis in [0u64, 1, 999, 12_345, u64::MAX] {
        let d = std::time::Duration::from_millis(millis);
        assert_eq!(Duration::from_millis(millis).as_nanos(), d.as_nanos());
        for factor in [0u32, 1, 2, u32::MAX] {
            assert_eq!(
                Duration::from_millis(millis).saturating_mul(factor).as_nanos(),
                d.saturating_mul(factor).as_nanos()
            );
        }
    }
    assert_eq!(
        Duration::from_secs(u64::MAX).saturating_mul(2).as_nanos(),
        std::time::Duration::from_secs(u64::MAX).saturating_mul(2).as_nanos()
    );
}

#[test]
fn spans_are_ordered_by_length() {
    let (short, long) = (Duration::from_millis(999), Duration::from_secs(1));
    assert!(long.at_least(&short));
    assert!(long.at_least(&long));
    assert!(!short.at_least(&long));
}
