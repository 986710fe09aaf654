use zero_bin::time::{Timestamp, MAX_TIMESTAMP_SECS, MIN_TIMESTAMP_SECS};

fn at(secs: i64, nanos: u32) -> Timestamp {
    Timestamp::new(secs, nanos).unwrap()
}

#[test]
fn limits_are_those_of_the_calendar() {
    assert_eq!(chrono::DateTime::<chrono::Utc>::MIN_UTC.timestamp(), MIN_TIMESTAMP_SECS);
    assert_eq!(chrono::DateTime::<chrono::Utc>::MAX_UTC.timestamp(), MAX_TIMESTAMP_SECS);
    assert!(Timestamp::new(MIN_TIMESTAMP_SECS, 0).is_some());
    assert!(Timestamp::new(MAX_TIMESTAMP_SECS, 999_999_999).is_some());
    assert!(Timestamp::new(MIN_TIMESTAMP_SECS - 1, 0).is_none());
    assert!(Timestamp::new(MAX_TIMESTAMP_SECS + 1, 0).is_none());
    assert!(Timestamp::new(0, 1_000_000_000).is_none());
}

#[test]
fn whole_seconds_are_counted() {
    assert_eq!(at(100, 0).elapsed_seconds_since(&at(40, 0)), 60);
    assert_eq!(at(100, 0).elapsed_seconds_since(&at(40, 1)), 59);
    assert_eq!(at(100, 5).elapsed_seconds_since(&at(40, 5)), 60);
    assert_eq!(at(100, 999_999_999).elapsed_seconds_since(&at(100, 0)), 0);
}

#[test]
fn seconds_before_the_start_wrap_around() {
    assert_eq!(at(40, 0).elapsed_seconds_since(&at(100, 0)), (-60i64) as u64);
    assert_eq!(at(40, 1).elapsed_seconds_since(&at(100, 0)), (-59i64) as u64);
    assert_eq!(at(99, 500_000_000).elapsed_seconds_since(&at(100, 0)), 0);
}

#[test]
fn widest_distance_is_counted() {
    let first = at(MIN_TIMESTAMP_SECS, 0);
    let last = at(MAX_TIMESTAMP_SECS, 999_999_999);
    assert_eq!(last.elapsed_seconds_since(&first), (MAX_TIMESTAMP_SECS - MIN_TIMESTAMP_SECS) as u64);
    assert_eq!(first.elapsed_seconds_since(&last), (MIN_TIMESTAMP_SECS - MAX_TIMESTAMP_SECS) as u64);
}
