use chrono::{DateTime, FixedOffset, TimeZone, Utc};
use pst_to_pdf::time::{LocalTimestamp, Timestamp, MAX_SECONDS, MIN_SECONDS};

#[test]
fn the_range_is_that_of_chrono() {
    assert_eq!(MIN_SECONDS, DateTime::<Utc>::MIN_UTC.timestamp());
    assert_eq!(MAX_SECONDS, DateTime::<Utc>::MAX_UTC.timestamp());
    assert!(DateTime::from_timestamp(MIN_SECONDS, 0).is_some());
    assert!(DateTime::from_timestamp(MIN_SECONDS - 1, 0).is_none());
    assert!(DateTime::from_timestamp(MAX_SECONDS, 999_999_999).is_some());
    assert!(DateTime::from_timestamp(MAX_SECONDS + 1, 0).is_none());
}

#[test]
fn timestamps_exist_exactly_where_chrono_has_them() {
    let seconds = [
        MIN_SECONDS - 1,
        MIN_SECONDS,
        MIN_SECONDS + 59,
        -61,
        -60,
        -1,
        0,
        59,
        60,
        119,
        1_704_103_200,
        MAX_SECONDS - 1,
        MAX_SECONDS,
        MAX_SECONDS + 1,
        i64::MIN,
        i64::MAX,
    ];
    let nanos = [0u32, 1, 999_999_999, 1_000_000_000, 1_500_000_000, 1_999_999_999, 2_000_000_000, u32::MAX];
    for secs in seconds {
        for nsecs in nanos {
            let ours = Timestamp::new(secs, nsecs);
            let theirs = DateTime::from_timestamp(secs, nsecs);
            assert_eq!(ours.is_some(), theirs.is_some(), "{} {}", secs, nsecs);
            if let (Some(t), Some(dt)) = (ours, theirs) {
                assert_eq!(t.secs(), dt.timestamp());
                assert_eq!(t.nanos(), dt.timestamp_subsec_nanos());
                assert_eq!(t.formatted(), dt.format("%d.%m.%Y %H:%M:%S").to_string());
            }
        }
    }
}

#[test]
fn formatted_is_day_month_year_and_time() {
    let t = Timestamp::new(1_704_103_200, 0).unwrap();
    assert_eq!(t.formatted(), "01.01.2024 10:00:00");
    let t = Timestamp::new(0, 0).unwrap();
    assert_eq!(t.formatted(), "01.01.1970 00:00:00");
    // A leap second shows as second 60.
    let leap = Timestamp::new(1_483_228_799, 1_000_000_000).unwrap();
    assert_eq!(leap.formatted(), "31.12.2016 23:59:60");
}

#[test]
fn from_ymd_hms_is_chronos_calendar() {
    let t = Timestamp::from_ymd_hms(2024, 1, 1, 10, 0, 0).unwrap();
    assert_eq!(t.secs(), 1_704_103_200);
    assert_eq!(t.nanos(), 0);
    assert_eq!(t.secs(), Utc.with_ymd_and_hms(2024, 1, 1, 10, 0, 0).unwrap().timestamp());
    assert!(Timestamp::from_ymd_hms(2024, 2, 30, 0, 0, 0).is_none());
    assert!(Timestamp::from_ymd_hms(2024, 13, 1, 0, 0, 0).is_none());
    assert!(Timestamp::from_ymd_hms(2024, 1, 1, 24, 0, 0).is_none());
    assert!(Timestamp::from_ymd_hms(2024, 2, 29, 23, 59, 59).is_some());
}

#[test]
fn plus_days_adds_whole_days() {
    let base = Timestamp::from_ymd_hms(2024, 1, 1, 10, 0, 0).unwrap();
    let later = base.plus_days(366).unwrap();
    let expected = Utc.with_ymd_and_hms(2025, 1, 1, 10, 0, 0).unwrap();
    assert_eq!(later.secs(), expected.timestamp());
    assert_eq!(base.plus_days(0).unwrap(), base);
    let theirs = Utc.with_ymd_and_hms(2024, 1, 1, 10, 0, 0).unwrap() + chrono::Duration::days(49_999);
    assert_eq!(base.plus_days(49_999).unwrap().secs(), theirs.timestamp());
    assert!(base.plus_days(u64::MAX).is_none());
    assert!(base.plus_days(95_000_000).is_some());
    assert!(base.plus_days(96_000_000).is_none());
}

#[test]
fn order_is_by_seconds_then_nanoseconds() {
    let a = Timestamp::new(10, 5).unwrap();
    let b = Timestamp::new(10, 6).unwrap();
    let c = Timestamp::new(11, 0).unwrap();
    assert!(a.is_before(&b));
    assert!(b.is_before(&c));
    assert!(a.is_before(&c));
    assert!(!b.is_before(&a));
    assert!(!a.is_before(&a));
}

#[test]
fn elapsed_is_chronos_difference() {
    let start = Timestamp::new(100, 900_000_000).unwrap();
    let end = Timestamp::new(103, 100_000_000).unwrap();
    let elapsed = start.elapsed_until(&end);
    let theirs = DateTime::from_timestamp(103, 100_000_000)
        .unwrap()
        .signed_duration_since(DateTime::from_timestamp(100, 900_000_000).unwrap());
    assert_eq!(elapsed.secs, theirs.num_seconds());
    assert_eq!(elapsed.nanos, theirs.subsec_nanos());
    assert_eq!(elapsed.secs, 2);
    assert_eq!(elapsed.nanos, 200_000_000);
    let back = end.elapsed_until(&start);
    assert_eq!(back.secs, -2);
    assert_eq!(back.nanos, -200_000_000);
}

#[test]
fn now_is_close_to_chronos_now() {
    let before = Utc::now().timestamp();
    let t = Timestamp::now();
    let after = Utc::now().timestamp();
    assert!(before <= t.secs() && t.secs() <= after);
    // The clock never reads a leap second.
    assert!(t.nanos() < 1_000_000_000);
    assert!(Timestamp::new(t.secs(), t.nanos()).is_some());
    let local = LocalTimestamp::now();
    assert!(before <= local.instant().secs() && local.instant().secs() <= after + 1);
    assert!(local.instant().nanos() < 1_000_000_000);
    assert!(-86_400 < local.offset() && local.offset() < 86_400);
}

#[test]
fn local_stamps_use_the_offset() {
    let instant = Timestamp::new(1_709_647_629, 0).unwrap();
    let east = LocalTimestamp::new(instant, 7200).unwrap();
    assert_eq!(east.formatted(), "05.03.2024 16:07:09");
    assert_eq!(east.file_stamp(), "2024-03-05T16-07-09");
    let west = LocalTimestamp::new(instant, -18_000).unwrap();
    assert_eq!(west.formatted(), "05.03.2024 09:07:09");
    assert_eq!(west.file_stamp(), "2024-03-05T09-07-09");
    let utc = LocalTimestamp::new(instant, 0).unwrap();
    assert_eq!(utc.formatted(), instant.formatted());
    let theirs = DateTime::from_timestamp(1_709_647_629, 0)
        .unwrap()
        .with_timezone(&FixedOffset::east_opt(-18_000).unwrap());
    assert_eq!(west.file_stamp(), theirs.format("%Y-%m-%dT%H-%M-%S").to_string());
    assert!(LocalTimestamp::new(instant, 86_400).is_none());
    assert!(LocalTimestamp::new(instant, -86_400).is_none());
    assert!(LocalTimestamp::new(instant, 86_399).is_some());
}

#[test]
fn stamps_exist_at_the_ends_of_the_range() {
    for secs in [MIN_SECONDS, MAX_SECONDS] {
        for offset in [-86_399, 0, 86_399] {
            let local = LocalTimestamp::new(Timestamp::new(secs, 0).unwrap(), offset).unwrap();
            let theirs = DateTime::from_timestamp(secs, 0)
                .unwrap()
                .with_timezone(&FixedOffset::east_opt(offset).unwrap());
            assert_eq!(local.formatted(), theirs.format("%d.%m.%Y %H:%M:%S").to_string());
            assert_eq!(local.file_stamp(), theirs.format("%Y-%m-%dT%H-%M-%S").to_string());
            assert!(!local.file_stamp().is_empty());
        }
    }
}

#[test]
fn days_are_added_as_chrono_adds_them() {
    for (secs, nanos) in [(0i64, 0u32), (1_704_103_200, 999_999_999), (-86_401, 5), (1_483_228_799, 1_500_000_000)] {
        for days in [0u64, 1, 2, 365, 40_000] {
            let ours = Timestamp::new(secs, nanos).unwrap().plus_days(days).unwrap();
            let theirs = DateTime::from_timestamp(secs, nanos).unwrap()
                + chrono::Duration::days(days as i64);
            assert_eq!(ours.secs(), theirs.timestamp());
            assert_eq!(ours.nanos(), theirs.timestamp_subsec_nanos());
            if nanos < 1_000_000_000 {
                assert_eq!(ours.secs(), secs + 86_400 * days as i64);
                assert_eq!(ours.nanos(), nanos);
            }
        }
    }
    // The last day of the range can be reached, the day after cannot.
    let last_morning = Timestamp::new(MAX_SECONDS - 86_399, 0).unwrap();
    assert!(last_morning.plus_days(0).is_some());
    assert!(last_morning.plus_days(1).is_none());
    let day_before = Timestamp::new(MAX_SECONDS - 86_400, 0).unwrap();
    assert_eq!(day_before.plus_days(1).unwrap().secs(), MAX_SECONDS);
}

#[test]
fn elapsed_time_is_the_difference_rounded_towards_zero() {
    let points = [(0i64, 0u32), (0, 1), (0, 999_999_999), (1, 0), (1, 500_000_000), (-1, 250_000_000), (100, 900_000_000), (103, 100_000_000), (-5, 0)];
    for (s1, n1) in points {
        for (s2, n2) in points {
            let start = Timestamp::new(s1, n1).unwrap();
            let end = Timestamp::new(s2, n2).unwrap();
            let elapsed = start.elapsed_until(&end);
            let total: i128 = (s2 as i128 - s1 as i128) * 1_000_000_000 + (n2 as i128 - n1 as i128);
            assert_eq!(elapsed.secs as i128, total / 1_000_000_000);
            assert_eq!(elapsed.nanos as i128, total % 1_000_000_000);
        }
    }
    let start = Timestamp::new(10, 0).unwrap();
    let end = Timestamp::new(8, 500_000_000).unwrap();
    assert_eq!((start.elapsed_until(&end).secs, start.elapsed_until(&end).nanos), (-1, -500_000_000));
}
