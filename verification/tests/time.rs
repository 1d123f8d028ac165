use walrus_server::text::{signed_to_string, unsigned_to_string};
use walrus_server::time::{Timestamp, MAX_TIMESTAMP_SECS, MIN_TIMESTAMP_SECS};

#[test]
fn timestamp_new_refuses_what_is_not_valid() {
    assert_eq!(Timestamp::new(0, 0), Some(Timestamp { secs: 0, nanos: 0 }));
    assert_eq!(
        Timestamp::new(MAX_TIMESTAMP_SECS, 999_999_999),
        Some(Timestamp { secs: MAX_TIMESTAMP_SECS, nanos: 999_999_999 })
    );
    assert_eq!(Timestamp::new(MAX_TIMESTAMP_SECS + 1, 0), None);
    assert_eq!(Timestamp::new(MIN_TIMESTAMP_SECS - 1, 0), None);
    assert!(Timestamp::new(MIN_TIMESTAMP_SECS, 0).is_some());
    assert_eq!(Timestamp::new(0, 1_000_000_000), None);
    assert!(!Timestamp { secs: 0, nanos: 1_000_000_000 }.check_valid());
}

#[test]
fn timestamps_are_ordered_by_seconds_then_nanoseconds() {
    let a = Timestamp { secs: 10, nanos: 5 };
    let b = Timestamp { secs: 10, nanos: 6 };
    let c = Timestamp { secs: 11, nanos: 0 };
    let d = Timestamp { secs: -1, nanos: 999_999_999 };
    assert!(a.is_at_or_before(&a));
    assert!(a.is_at_or_before(&b));
    assert!(!b.is_at_or_before(&a));
    assert!(b.is_at_or_before(&c));
    assert!(!c.is_at_or_before(&b));
    assert!(d.is_at_or_before(&a));
    assert!(!a.is_at_or_before(&d));
}

#[test]
fn checked_add_seconds_stays_in_range() {
    let t = Timestamp::new(100, 7).unwrap();
    assert_eq!(t.checked_add_seconds(50), Some(Timestamp { secs: 150, nanos: 7 }));
    assert_eq!(t.checked_add_seconds(-200), Some(Timestamp { secs: -100, nanos: 7 }));
    assert_eq!(t.checked_add_seconds(i64::MAX), None);
    assert_eq!(t.checked_add_seconds(i64::MIN), None);
    assert_eq!(
        t.checked_add_seconds(MAX_TIMESTAMP_SECS - 100),
        Some(Timestamp { secs: MAX_TIMESTAMP_SECS, nanos: 7 })
    );
    assert_eq!(t.checked_add_seconds(MAX_TIMESTAMP_SECS - 99), None);
    let last = Timestamp::new(MAX_TIMESTAMP_SECS, 0).unwrap();
    assert_eq!(last.checked_add_seconds(1), None);
    assert_eq!(last.checked_add_seconds(0), Some(last));
}

#[test]
fn rfc3339_text_of_known_instants() {
    assert_eq!(
        Timestamp::new(0, 0).unwrap().to_rfc3339(),
        "1970-01-01T00:00:00+00:00"
    );
    assert_eq!(
        Timestamp::new(1_431_648_000, 0).unwrap().to_rfc3339(),
        "2015-05-15T00:00:00+00:00"
    );
    assert_eq!(
        Timestamp::new(MAX_TIMESTAMP_SECS, 0).unwrap().to_rfc3339(),
        "9999-12-31T23:59:59+00:00"
    );
    assert_eq!(
        Timestamp::new(MIN_TIMESTAMP_SECS, 0).unwrap().to_rfc3339(),
        "0000-01-01T00:00:00+00:00"
    );
    assert_eq!(
        Timestamp::new(1_431_648_000, 1).unwrap().to_rfc3339(),
        "2015-05-15T00:00:00.000000001+00:00"
    );
    assert_eq!(
        Timestamp::new(MAX_TIMESTAMP_SECS, 999_999_999).unwrap().to_rfc3339(),
        "9999-12-31T23:59:59.999999999+00:00"
    );
}

#[test]
fn decimal_numerals() {
    assert_eq!(unsigned_to_string(0), "0");
    assert_eq!(unsigned_to_string(7), "7");
    assert_eq!(unsigned_to_string(10), "10");
    assert_eq!(unsigned_to_string(4096), "4096");
    assert_eq!(unsigned_to_string(u64::MAX), "18446744073709551615");
    assert_eq!(signed_to_string(0), "0");
    assert_eq!(signed_to_string(-1), "-1");
    assert_eq!(signed_to_string(42), "42");
    assert_eq!(signed_to_string(i64::MAX), "9223372036854775807");
    assert_eq!(signed_to_string(i64::MIN), "-9223372036854775808");
}
