use dashboard_backend::config::{BridgeMonitoringConfig, NetworkConfig};
use dashboard_backend::json::Json;
use dashboard_backend::pgu64::PgU64;
use dashboard_backend::status::{bundler_status, should_retry, sync_status, NetworkStatus, Status};
use dashboard_backend::wallets::{balance_from_hex, PaymasterWallets, Wallet};

#[test]
fn pgu64_shifts_by_two_to_the_63() {
    assert_eq!(PgU64(0).to_i64(), i64::MIN);
    assert_eq!(PgU64(u64::MAX).to_i64(), i64::MAX);
    assert_eq!(PgU64(1u64 << 63).to_i64(), 0);
    assert_eq!(PgU64::from_i64(i64::MIN).0, 0);
    assert_eq!(PgU64::from_i64(0).0, 1u64 << 63);
    for v in [0u64, 1, 12345, u64::MAX / 3, u64::MAX] {
        assert_eq!(PgU64::from_i64(PgU64::new(v).to_i64()), PgU64::from_u64(v));
    }
    assert!(PgU64(5).to_i64() < PgU64(6).to_i64());
}

#[test]
fn wallet_balances() {
    let mut w = Wallet::new("0xCAFE".to_string(), "0".to_string());
    w.update_balance("15".to_string());
    assert_eq!(w.address(), "0xCAFE");
    assert_eq!(w.balance(), "15");
    let mut pw = PaymasterWallets::new(w, Wallet::new("0xC0FFEE".to_string(), "0".to_string()));
    pw.update_balances("1".to_string(), "2".to_string());
    assert_eq!(pw.deposit().balance(), "1");
    assert_eq!(pw.validating().balance(), "2");
    assert_eq!(pw.validating().address(), "0xC0FFEE");
}

#[test]
fn balance_reads_hex() {
    assert_eq!(balance_from_hex("0x1bc16d674ec80000"), Some(2_000_000_000_000_000_000));
    assert_eq!(balance_from_hex("0x0"), Some(0));
    assert_eq!(balance_from_hex("0xFF"), Some(255));
    assert_eq!(balance_from_hex("0x+a"), Some(10));
    assert_eq!(balance_from_hex("0xffffffffffffffffffffffffffffffff"), Some(u128::MAX));
    assert_eq!(balance_from_hex("0x100000000000000000000000000000000"), None);
    assert_eq!(balance_from_hex("0x"), None);
    assert_eq!(balance_from_hex("ff"), None);
    assert_eq!(balance_from_hex("0xzz"), None);
}

#[test]
fn statuses() {
    assert_eq!(bundler_status(Some("{\"status\":\"ok\"}")), Status::Online);
    assert_eq!(bundler_status(Some("down")), Status::Offline);
    assert_eq!(bundler_status(Some("o")), Status::Offline);
    assert_eq!(bundler_status(None), Status::Offline);
    let reply = Json::Object(vec![("tip_height".to_string(), Json::Null)]);
    assert_eq!(sync_status(&reply), Status::Online);
    assert_eq!(sync_status(&Json::Object(vec![])), Status::Offline);
    assert!(should_retry(0, 5));
    assert!(!should_retry(5, 5));
    assert_eq!(NetworkStatus::offline().bundler_endpoint, Status::Offline);
}

#[test]
fn network_and_bridge_config_getters() {
    let c = NetworkConfig::from_parts(
        "http://localhost:8432".to_string(),
        "http://localhost:8434".to_string(),
        "http://localhost:8433".to_string(),
        5,
        60,
        "0xCAFE".to_string(),
        "0xC0FFEE".to_string(),
    );
    assert_eq!(c.rpc_url(), "http://localhost:8432");
    assert_eq!(c.reth_url(), "http://localhost:8434");
    assert_eq!(c.bundler_url(), "http://localhost:8433");
    assert_eq!(c.max_retries(), 5);
    assert_eq!(c.total_retry_time(), 60);
    assert_eq!(c.deposit_wallet(), "0xCAFE");
    assert_eq!(c.validating_wallet(), "0xC0FFEE");
    let b = BridgeMonitoringConfig::from_parts("http://localhost:8545".to_string(), "http://localhost:8546".to_string(), 120_000);
    assert_eq!(b.strata_rpc_url(), "http://localhost:8545");
    assert_eq!(b.bridge_rpc_url(), "http://localhost:8546");
    assert_eq!(b.status_refetch_interval(), 120_000);
}
