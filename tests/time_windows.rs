use chrono::{Datelike, Duration, TimeZone, Utc};
use dashboard_backend::request::query_params;
use dashboard_backend::time::{parse_instant, query_start_of, Instant, TimeWindow};

fn instant_of(dt: chrono::DateTime<Utc>) -> Instant {
    Instant { secs: dt.timestamp(), nanos: dt.timestamp_subsec_nanos() }
}

#[test]
fn activity_test_time_window_to_duration() {
    let now = Utc.with_ymd_and_hms(2025, 2, 17, 0, 0, 0).unwrap();
    let t = instant_of(now);

    assert_eq!(TimeWindow::Last24Hours.to_duration(t), 1);
    assert_eq!(TimeWindow::Last30Days.to_duration(t), 30);

    // Year to date is the number of days since Jan 1st
    let expected_days = now.ordinal() as i64;
    assert_eq!(TimeWindow::YearToDate.to_duration(t), expected_days);
}

#[test]
fn usage_test_time_window_to_duration() {
    let now = Utc.with_ymd_and_hms(2025, 2, 17, 0, 0, 0).unwrap();
    let t = instant_of(now);

    assert_eq!(TimeWindow::Last24Hours.to_duration(t), 1);
    assert_eq!(TimeWindow::Last30Days.to_duration(t), 30);

    let expected_days = now.ordinal() as i64;
    assert_eq!(TimeWindow::YearToDate.to_duration(t), expected_days);
}

#[test]
fn year_to_date_is_ordinal_day() {
    let cases = [((2025, 1, 1, 0, 0, 0), 1), ((2025, 2, 17, 0, 0, 0), 48), ((2024, 12, 31, 23, 59, 59), 366), ((2023, 12, 31, 12, 0, 0), 365)];
    for ((y, mo, d, h, mi, s), expected) in cases {
        let t = instant_of(Utc.with_ymd_and_hms(y, mo, d, h, mi, s).unwrap());
        assert_eq!(TimeWindow::YearToDate.to_duration(t), expected);
    }
    // before the epoch
    let t = instant_of(Utc.with_ymd_and_hms(1969, 3, 1, 6, 0, 0).unwrap());
    assert_eq!(TimeWindow::YearToDate.to_duration(t), 60);
}

#[test]
fn query_start_is_earlier_of_thirty_days_and_new_year() {
    // late in the year: the start of the year is earlier
    let now = Utc.with_ymd_and_hms(2025, 6, 10, 15, 30, 0).unwrap();
    let start = query_start_of(instant_of(now));
    assert_eq!(start, instant_of(Utc.with_ymd_and_hms(2025, 1, 1, 0, 0, 0).unwrap()));
    // early in the year: thirty days back is earlier
    let now = Utc.with_ymd_and_hms(2025, 1, 10, 15, 30, 0).unwrap();
    let start = query_start_of(instant_of(now));
    assert_eq!(start, instant_of(now - Duration::days(30)));
    // before the epoch
    let now = Utc.with_ymd_and_hms(1969, 7, 4, 8, 0, 0).unwrap();
    let start = query_start_of(instant_of(now));
    assert_eq!(start, instant_of(Utc.with_ymd_and_hms(1969, 1, 1, 0, 0, 0).unwrap()));
}

#[test]
fn window_contains_boundaries() {
    let now = instant_of(Utc.with_ymd_and_hms(2025, 3, 10, 12, 0, 0).unwrap());
    let exactly_one_day = Instant { secs: now.secs - 86_400, nanos: 0 };
    let just_over = Instant { secs: now.secs - 86_401, nanos: 999_999_999 };
    assert!(TimeWindow::Last24Hours.contains(now, exactly_one_day));
    assert!(!TimeWindow::Last24Hours.contains(now, just_over));
    assert!(TimeWindow::Last30Days.contains(now, just_over));
    let forty_days = Instant { secs: now.secs - 40 * 86_400, nanos: 0 };
    assert!(!TimeWindow::Last30Days.contains(now, forty_days));
    assert!(TimeWindow::YearToDate.contains(now, forty_days));
}

#[test]
fn parse_instant_reads_rfc3339() {
    assert_eq!(parse_instant("2024-03-10T12:00:00Z"), Some(Instant { secs: 1_710_072_000, nanos: 0 }));
    assert_eq!(parse_instant("2024-03-10T13:00:00+01:00"), Some(Instant { secs: 1_710_072_000, nanos: 0 }));
    assert_eq!(parse_instant("2024-03-10T12:00:00.5Z"), Some(Instant { secs: 1_710_072_000, nanos: 500_000_000 }));
    assert_eq!(parse_instant("2024-03-10 12:00:00"), None);
    assert_eq!(parse_instant("yesterday"), None);
    assert_eq!(parse_instant(""), None);
}

#[test]
fn instant_order_and_key() {
    let a = Instant { secs: 10, nanos: 5 };
    let b = Instant { secs: 10, nanos: 6 };
    let c = Instant { secs: 11, nanos: 0 };
    assert!(a.le(&b) && b.le(&c) && a.le(&a));
    assert!(!c.le(&a));
    assert!(a.rank_key() < b.rank_key() && b.rank_key() < c.rank_key());
    assert_eq!(a.minus_days(1), Instant { secs: 10 - 86_400, nanos: 5 });
    assert_eq!(Instant::from_secs(-5), Instant { secs: -5, nanos: 0 });
}

#[test]
fn query_params_format_range_size_and_token() {
    let start = instant_of(Utc.with_ymd_and_hms(2025, 1, 1, 0, 0, 0).unwrap());
    let end = Instant { secs: instant_of(Utc.with_ymd_and_hms(2025, 2, 17, 8, 5, 9).unwrap()).secs, nanos: 123 };
    let p = query_params(start, end, 100, Some("tok1".to_string()));
    assert_eq!(
        p,
        vec![
            ("start_time".to_string(), "2025-01-01 00:00:00".to_string()),
            ("end_time".to_string(), "2025-02-17 08:05:09".to_string()),
            ("page_size".to_string(), "100".to_string()),
            ("page_token".to_string(), "tok1".to_string()),
        ]
    );
    let p = query_params(start, end, 0, None);
    assert_eq!(p.len(), 3);
    assert_eq!(p[2].1, "0");
    let before_epoch = instant_of(Utc.with_ymd_and_hms(1969, 12, 31, 23, 0, 0).unwrap());
    assert_eq!(query_params(before_epoch, before_epoch, u64::MAX, None)[0].1, "1969-12-31 23:00:00");
    assert_eq!(query_params(before_epoch, before_epoch, u64::MAX, None)[2].1, "18446744073709551615");
}
