use chrono::{DateTime, Duration, TimeZone, Utc};
use dashboard_backend::aggregate::OpsAggregator;
use dashboard_backend::cycle::{finish_cycle, windows_of, CycleReport, PageCursor, SourceOutcome};
use dashboard_backend::json::Json;
use dashboard_backend::keys::{ActivityMonitoringConfig, ActivityStatName, ActivityStatsKeys, SelectAccountsBy};
use dashboard_backend::page::UserOpsResponse;
use dashboard_backend::records::{Account, UserOp};
use dashboard_backend::select::top_gas_consumers;
use dashboard_backend::stats::ActivityStats;
use dashboard_backend::time::{Instant, TimeWindow};

fn instant_of(dt: DateTime<Utc>) -> Instant {
    Instant { secs: dt.timestamp(), nanos: dt.timestamp_subsec_nanos() }
}

fn catalog() -> ActivityStatsKeys {
    ActivityStatsKeys {
        activity_stat_names: vec![
            (ActivityStatName::UserOps, "user_ops".to_string()),
            (ActivityStatName::GasUsed, "gas_used".to_string()),
            (ActivityStatName::UniqueActiveAccounts, "unique_active_accounts".to_string()),
        ],
        time_windows: vec![
            (TimeWindow::Last24Hours, "24h".to_string()),
            (TimeWindow::Last30Days, "30d".to_string()),
            (TimeWindow::YearToDate, "YTD".to_string()),
        ],
        select_accounts_by: vec![
            (SelectAccountsBy::Recent, "recent".to_string()),
            (SelectAccountsBy::TopGasConsumers24h, "top_gas_consumers_24h".to_string()),
        ],
    }
}

fn op(sender: &str, gas: u64, at: DateTime<Utc>) -> UserOp {
    UserOp { sender: sender.to_string(), gas_used: gas, timestamp: at.to_rfc3339() }
}

fn value(stats: &ActivityStats, stat: &str, window: &str) -> Option<u64> {
    stats.stat_value(&stat.to_string(), &window.to_string())
}

fn s(v: &str) -> Json {
    Json::Str(v.to_string())
}

fn obj(members: Vec<(&str, Json)>) -> Json {
    Json::Object(members.into_iter().map(|(k, v)| (k.to_string(), v)).collect())
}

fn op_json(hash: &str, fee: &str, ts: &str) -> Json {
    obj(vec![("address", obj(vec![("hash", s(hash))])), ("fee", s(fee)), ("timestamp", s(ts))])
}

fn run_operations(pages: &[Json], keys: &ActivityStatsKeys, now: Instant) -> (OpsAggregator, PageCursor) {
    let mut agg = OpsAggregator::new(windows_of(keys), now);
    let mut cursor = PageCursor::start();
    let mut served = pages.iter();
    while let Some(_token) = cursor.next_request() {
        match served.next().map(UserOpsResponse::decode) {
            Some(Ok(page)) => {
                agg.ingest_page(&page.user_ops);
                cursor.on_page(page.next_page_token);
            }
            _ => cursor.on_error(),
        }
    }
    (agg, cursor)
}

#[test]
fn two_pages_end_to_end() {
    let now_dt = Utc.with_ymd_and_hms(2025, 2, 1, 12, 0, 0).unwrap();
    let now = instant_of(now_dt);
    let page1 = obj(vec![
        ("items", Json::Array(vec![op_json("0xAA", "100", &(now_dt - Duration::hours(2)).to_rfc3339())])),
        ("next_page_params", obj(vec![("page_token", s("tok1"))])),
    ]);
    let page2 = obj(vec![("items", Json::Array(vec![op_json("0xBB", "50", &(now_dt - Duration::days(40)).to_rfc3339())]))]);
    let keys = catalog();
    let config = ActivityMonitoringConfig::from_parts(String::new(), String::new(), 120, 100, catalog());
    let mut stats = ActivityStats::default(&config);
    let (agg, cursor) = run_operations(&[page1, page2], &keys, now);
    assert_eq!(cursor.pages_read, 2);
    let accounts: Vec<Account> = Vec::new();
    let report = finish_cycle(&mut stats, &keys, &agg, &cursor, &accounts, &PageCursor::start());
    assert_eq!(report, CycleReport { operations: SourceOutcome::Complete, accounts: SourceOutcome::Complete });

    assert_eq!(value(&stats, "user_ops", "24h"), Some(1));
    assert_eq!(value(&stats, "gas_used", "24h"), Some(100));
    assert_eq!(value(&stats, "unique_active_accounts", "24h"), Some(1));
    assert_eq!(value(&stats, "user_ops", "30d"), Some(1));
    assert_eq!(value(&stats, "unique_active_accounts", "30d"), Some(1));
    // 32 days into the year: 0xBB, 40 days old, is outside the year-to-date window
    assert_eq!(value(&stats, "user_ops", "YTD"), Some(1));
    assert_eq!(value(&stats, "gas_used", "YTD"), Some(100));
    let top = stats.selected(&"top_gas_consumers_24h".to_string()).unwrap();
    assert_eq!(top.len(), 1);
    assert_eq!(top[0].address, "0xAA");
    assert_eq!(top[0].gas_used, 100);
    assert_eq!(top[0].creation_timestamp, "");
}

#[test]
fn later_in_year_ytd_includes_old_record() {
    let now_dt = Utc.with_ymd_and_hms(2025, 6, 1, 12, 0, 0).unwrap();
    let mut agg = OpsAggregator::new(windows_of(&catalog()), instant_of(now_dt));
    agg.ingest_page(&vec![op("0xAA", 100, now_dt - Duration::hours(2)), op("0xBB", 50, now_dt - Duration::days(40))]);
    assert_eq!(agg.user_ops, vec![1, 1, 2]);
    assert_eq!(agg.gas_used, vec![100, 100, 150]);
    assert_eq!(agg.senders[2], vec!["0xAA".to_string(), "0xBB".to_string()]);
}

#[test]
fn counts_per_window_and_skips_bad_timestamps() {
    let now_dt = Utc.with_ymd_and_hms(2025, 3, 15, 0, 0, 0).unwrap();
    let mut agg = OpsAggregator::new(windows_of(&catalog()), instant_of(now_dt));
    agg.ingest_page(&vec![
        op("0x1", 10, now_dt - Duration::hours(2)),
        op("0x2", 20, now_dt - Duration::days(3)),
        op("0x3", 30, now_dt - Duration::days(60)),
        op("0x4", 40, now_dt - Duration::days(400)),
        UserOp { sender: "0x5".to_string(), gas_used: 1000, timestamp: "not a time".to_string() },
    ]);
    assert_eq!(agg.user_ops, vec![1, 2, 3]);
    assert_eq!(agg.gas_used, vec![10, 30, 60]);
    assert_eq!(agg.gas_by_sender, vec![("0x1".to_string(), 10)]);
}

#[test]
fn unique_senders_count_once() {
    let now_dt = Utc.with_ymd_and_hms(2025, 3, 15, 0, 0, 0).unwrap();
    let mut agg = OpsAggregator::new(vec![TimeWindow::Last24Hours], instant_of(now_dt));
    for _ in 0..3 {
        agg.ingest(&op("0xA", 5, now_dt - Duration::hours(1)));
    }
    agg.ingest(&op("0xB", 7, now_dt - Duration::hours(3)));
    agg.ingest(&op("0xA", 1, now_dt - Duration::hours(4)));
    assert_eq!(agg.user_ops, vec![5]);
    assert_eq!(agg.senders[0].len(), 2);
    assert_eq!(agg.gas_by_sender, vec![("0xA".to_string(), 16), ("0xB".to_string(), 7)]);
}

#[test]
fn totals_saturate_at_u64_max() {
    let now_dt = Utc.with_ymd_and_hms(2025, 3, 15, 0, 0, 0).unwrap();
    let mut agg = OpsAggregator::new(vec![TimeWindow::Last24Hours], instant_of(now_dt));
    agg.ingest(&op("0xA", u64::MAX - 1, now_dt - Duration::hours(1)));
    agg.ingest(&op("0xA", 5, now_dt - Duration::hours(1)));
    assert_eq!(agg.gas_used, vec![u64::MAX]);
    assert_eq!(agg.gas_by_sender[0].1, u64::MAX);
}

#[test]
fn failed_first_page_keeps_previous_values() {
    let now_dt = Utc.with_ymd_and_hms(2025, 3, 15, 0, 0, 0).unwrap();
    let keys = catalog();
    let config = ActivityMonitoringConfig::from_parts(String::new(), String::new(), 120, 100, catalog());
    let mut stats = ActivityStats::default(&config);
    stats.stats[0].values[0].value = 42;
    let bad = obj(vec![("nothing", Json::Null)]);
    let (agg, cursor) = run_operations(&[bad], &keys, instant_of(now_dt));
    assert_eq!(cursor.outcome(), SourceOutcome::Failed);
    let mut acc_cursor = PageCursor::start();
    acc_cursor.on_error();
    let report = finish_cycle(&mut stats, &keys, &agg, &cursor, &Vec::new(), &acc_cursor);
    assert_eq!(report, CycleReport { operations: SourceOutcome::Failed, accounts: SourceOutcome::Failed });
    assert_eq!(value(&stats, "user_ops", "24h"), Some(42));
}

#[test]
fn failure_after_a_page_keeps_partial_counts() {
    let now_dt = Utc.with_ymd_and_hms(2025, 3, 15, 0, 0, 0).unwrap();
    let keys = catalog();
    let page1 = obj(vec![
        ("items", Json::Array(vec![op_json("0xAA", "100", &(now_dt - Duration::hours(2)).to_rfc3339())])),
        ("next_page_params", obj(vec![("page_token", s("tok1"))])),
    ]);
    let broken = obj(vec![("items", Json::Array(vec![op_json("0xBB", "abc", "2025-03-14T00:00:00Z")]))]);
    let (agg, cursor) = run_operations(&[page1, broken], &keys, instant_of(now_dt));
    assert_eq!(cursor.outcome(), SourceOutcome::Partial);
    let config = ActivityMonitoringConfig::from_parts(String::new(), String::new(), 120, 100, catalog());
    let mut stats = ActivityStats::default(&config);
    finish_cycle(&mut stats, &keys, &agg, &cursor, &Vec::new(), &PageCursor::start());
    assert_eq!(value(&stats, "user_ops", "24h"), Some(1));
    assert_eq!(value(&stats, "gas_used", "30d"), Some(100));
}

#[test]
fn cursor_walks_tokens() {
    let mut c = PageCursor::start();
    assert_eq!(c.next_request(), Some(None));
    assert!(!c.has_data());
    c.on_page(Some("tok1".to_string()));
    assert_eq!(c.next_request(), Some(Some("tok1".to_string())));
    c.on_page(None);
    assert_eq!(c.next_request(), None);
    assert_eq!(c.outcome(), SourceOutcome::Complete);
    assert!(c.has_data());
}

#[test]
fn top_consumers_rank_by_gas_then_first_seen() {
    let totals = vec![
        ("a".to_string(), 5),
        ("b".to_string(), 9),
        ("c".to_string(), 5),
        ("d".to_string(), 1),
        ("e".to_string(), 9),
        ("f".to_string(), 7),
        ("g".to_string(), 0),
    ];
    let top = top_gas_consumers(&totals);
    let names: Vec<&str> = top.iter().map(|a| a.address.as_str()).collect();
    assert_eq!(names, vec!["b", "e", "f", "a", "c"]);
    assert!(top.windows(2).all(|w| w[0].gas_used >= w[1].gas_used));
    assert!(top_gas_consumers(&Vec::new()).is_empty());
}
