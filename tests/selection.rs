use dashboard_backend::ranking::top_indices;
use dashboard_backend::records::Account;
use dashboard_backend::select::select_recent;

fn account(address: &str, created: &str) -> Account {
    Account { address: address.to_string(), creation_timestamp: created.to_string(), gas_used: 0 }
}

#[test]
fn recent_keeps_five_latest_in_descending_order() {
    let accounts = vec![
        account("0x1", "2025-01-03T00:00:00Z"),
        account("0x2", "2025-01-06T00:00:00Z"),
        account("0x3", "2025-01-01T00:00:00Z"),
        account("0x4", "2025-01-05T00:00:00Z"),
        account("0x5", "2025-01-02T00:00:00Z"),
        account("0x6", "2025-01-04T00:00:00Z"),
    ];
    let recent = select_recent(&accounts);
    let names: Vec<&str> = recent.iter().map(|a| a.address.as_str()).collect();
    assert_eq!(names, vec!["0x2", "0x4", "0x6", "0x1", "0x5"]);
}

#[test]
fn recent_skips_missing_and_unparseable() {
    let accounts = vec![
        account("0x1", "2025-01-03T00:00:00Z"),
        account("0x2", ""),
        account("0x3", "garbage"),
        account("0x4", "2025-01-05T00:00:00+02:00"),
    ];
    let recent = select_recent(&accounts);
    let names: Vec<&str> = recent.iter().map(|a| a.address.as_str()).collect();
    assert_eq!(names, vec!["0x4", "0x1"]);
    assert!(select_recent(&Vec::new()).is_empty());
}

#[test]
fn recent_ties_keep_input_order() {
    let accounts = vec![account("0xa", "2025-01-03T00:00:00Z"), account("0xb", "2025-01-03T01:00:00+01:00")];
    let recent = select_recent(&accounts);
    let names: Vec<&str> = recent.iter().map(|a| a.address.as_str()).collect();
    assert_eq!(names, vec!["0xa", "0xb"]);
}

#[test]
fn top_indices_is_stable_descending() {
    let keys: Vec<u128> = vec![3, 9, 3, 7, 9, 1];
    assert_eq!(top_indices(&keys, 4), vec![1, 4, 3, 0]);
    assert_eq!(top_indices(&keys, 10), vec![1, 4, 3, 0, 2, 5]);
    assert_eq!(top_indices(&keys, 0), Vec::<usize>::new());
    assert_eq!(top_indices(&Vec::new(), 5), Vec::<usize>::new());
}

#[test]
fn recent_with_only_unparseable_timestamp_is_empty() {
    assert!(select_recent(&vec![account("0x1", "garbage")]).is_empty());
}

#[test]
fn recent_across_more_than_five_in_any_order() {
    let accounts = vec![
        account("a4", "2025-01-04T00:00:00Z"),
        account("a1", "2025-01-07T00:00:00Z"),
        account("a6", "2025-01-02T00:00:00Z"),
        account("none", ""),
        account("a2", "2025-01-06T00:00:00.5Z"),
        account("a5", "2025-01-03T23:59:59Z"),
        account("a3", "2025-01-06T00:00:00Z"),
        account("a7", "2025-01-01T00:00:00Z"),
    ];
    let recent = select_recent(&accounts);
    let names: Vec<&str> = recent.iter().map(|a| a.address.as_str()).collect();
    assert_eq!(names, vec!["a1", "a2", "a3", "a4", "a5"]);
}
