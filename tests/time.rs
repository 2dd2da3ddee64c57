use finql_store::model::DataError;
use finql_store::time::{make_time, to_time, Instant};

#[test]
fn parses_utc_time() {
    assert_eq!(to_time("2023-01-01T00:00:00Z"), Ok(Instant { secs: 1_672_531_200, nanos: 0 }));
    assert_eq!(to_time("1970-01-01T00:00:01.5+00:00"), Ok(Instant { secs: 1, nanos: 500_000_000 }));
}

#[test]
fn parses_offset_to_utc() {
    assert_eq!(to_time("2023-01-01T01:00:00+01:00"), Ok(Instant { secs: 1_672_531_200, nanos: 0 }));
}

#[test]
fn rejects_non_rfc3339() {
    for bad in ["", "2023-01-01", "yesterday", "2023-13-01T00:00:00Z"] {
        assert!(matches!(to_time(bad), Err(DataError::NotFound(_))));
    }
}

#[test]
fn make_time_rejects_impossible_dates() {
    assert_eq!(make_time(2023, 2, 30, 0, 0, 0), None);
    assert_eq!(make_time(2023, 13, 1, 0, 0, 0), None);
    assert_eq!(make_time(2023, 1, 1, 24, 0, 0), None);
}

#[test]
fn make_time_gives_whole_seconds_near_the_date() {
    let t = make_time(2023, 6, 15, 12, 0, 0).expect("a plain noon exists in every zone");
    assert_eq!(t.nanos, 0);
    let utc_noon = 1_686_830_400i64;
    assert!((t.secs - utc_noon).abs() <= 14 * 3600);
}

#[test]
fn instants_are_ordered() {
    let a = Instant { secs: 5, nanos: 10 };
    let b = Instant { secs: 5, nanos: 11 };
    let c = Instant { secs: 6, nanos: 0 };
    assert!(a.at_or_before(&b) && b.at_or_before(&c) && a.at_or_before(&a));
    assert!(!c.at_or_before(&b));
}

