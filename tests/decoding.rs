use dashboard_backend::json::{parse_u64, trim_quotes, Json, JsonNumber};
use dashboard_backend::page::{next_page_token, AccountsResponse, UserOpsResponse};
use dashboard_backend::records::{convert_to_u64, from_null_or_string, get_address_hash, Account, DecodeError, UserOp};

fn s(v: &str) -> Json {
    Json::Str(v.to_string())
}

fn obj(members: Vec<(&str, Json)>) -> Json {
    Json::Object(members.into_iter().map(|(k, v)| (k.to_string(), v)).collect())
}

fn key(k: &str) -> String {
    k.to_string()
}

#[test]
fn activity_test_convert_to_u64() {
    let json_data = obj(vec![("fee", s("12345"))]);
    let fee = convert_to_u64(json_data.get(&key("fee"))).unwrap();
    assert_eq!(fee, 12345);

    let json_data = obj(vec![("fee", s("invalid"))]);
    let result = convert_to_u64(json_data.get(&key("fee")));
    assert!(result.is_err());
}

#[test]
fn usage_test_convert_to_u64() {
    let json_data = obj(vec![("fee", s("12345"))]);
    assert_eq!(convert_to_u64(json_data.get(&key("fee"))), Ok(12345));

    let json_data = obj(vec![("fee", s("invalid"))]);
    assert!(convert_to_u64(json_data.get(&key("fee"))).is_err());
}

#[test]
fn activity_test_get_address_hash() {
    let json_data = obj(vec![("address", obj(vec![("hash", s("0x123456"))]))]);
    let address = get_address_hash(json_data.get(&key("address"))).unwrap();
    assert_eq!(address, "0x123456");

    let json_data = obj(vec![("address", obj(vec![]))]); // Missing "hash"
    assert!(get_address_hash(json_data.get(&key("address"))).is_err());

    let json_data = obj(vec![]); // Missing "address" field
    assert!(get_address_hash(json_data.get(&key("address"))).is_err());
}

#[test]
fn usage_test_get_address_hash() {
    let json_data = obj(vec![("address", obj(vec![("hash", s("0x123456"))]))]);
    assert_eq!(get_address_hash(json_data.get(&key("address"))), Ok("0x123456".to_string()));

    let json_data = obj(vec![("address", obj(vec![]))]);
    assert_eq!(get_address_hash(json_data.get(&key("address"))), Err(DecodeError::MissingAddressHash));

    let json_data = obj(vec![]);
    assert_eq!(get_address_hash(json_data.get(&key("address"))), Err(DecodeError::MissingAddressHash));
}

#[test]
fn parse_u64_follows_from_str() {
    assert_eq!(parse_u64("0"), Some(0));
    assert_eq!(parse_u64("+7"), Some(7));
    assert_eq!(parse_u64("18446744073709551615"), Some(u64::MAX));
    assert_eq!(parse_u64("18446744073709551616"), None);
    assert_eq!(parse_u64("99999999999999999999x"), None);
    assert_eq!(parse_u64(""), None);
    assert_eq!(parse_u64("+"), None);
    assert_eq!(parse_u64("-1"), None);
    assert_eq!(parse_u64(" 1"), None);
    assert_eq!(parse_u64("abc"), None);
    for text in ["0", "42", "+42", "007", "18446744073709551615", "18446744073709551616", "1e3", "", "+", "٣"] {
        assert_eq!(parse_u64(text), text.parse::<u64>().ok(), "{}", text);
    }
}

#[test]
fn trim_quotes_strips_both_ends() {
    assert_eq!(trim_quotes("\"tok1\""), "tok1");
    assert_eq!(trim_quotes("\"\"a\"b\"\""), "a\"b");
    assert_eq!(trim_quotes("plain"), "plain");
    assert_eq!(trim_quotes("\"\"\""), "");
    assert_eq!(trim_quotes(""), "");
}

#[test]
fn from_null_or_string_cases() {
    let v = obj(vec![("t", s("2024-03-10T12:00:00Z")), ("n", Json::Null), ("x", Json::Bool(true))]);
    assert_eq!(from_null_or_string(v.get(&key("t"))), Ok("2024-03-10T12:00:00Z".to_string()));
    assert_eq!(from_null_or_string(v.get(&key("n"))), Ok(String::new()));
    assert_eq!(from_null_or_string(v.get(&key("missing"))), Ok(String::new()));
    assert_eq!(from_null_or_string(v.get(&key("x"))), Err(DecodeError::InvalidType));
}

fn op(hash: &str, fee: &str, ts: &str) -> Json {
    obj(vec![("address", obj(vec![("hash", s(hash))])), ("fee", s(fee)), ("timestamp", s(ts))])
}

#[test]
fn decode_user_ops_page_like_feed() {
    let page = obj(vec![("items", Json::Array(vec![op("0x123456789abcdef", "100", "2024-03-10T12:00:00Z")]))]);
    let result = UserOpsResponse::decode(&page).unwrap();
    assert_eq!(result.user_ops.len(), 1);
    assert_eq!(result.user_ops[0].sender, "0x123456789abcdef");
    assert_eq!(result.user_ops[0].gas_used, 100);
    assert_eq!(result.user_ops[0].timestamp, "2024-03-10T12:00:00Z");
    assert!(result.next_page_token.is_none());
}

#[test]
fn decode_accounts_page_like_feed() {
    let page = obj(vec![(
        "items",
        Json::Array(vec![obj(vec![
            ("address", obj(vec![("hash", s("0xabcdef123456"))])),
            ("creation_timestamp", s("2024-03-10T12:00:00Z")),
        ])]),
    )]);
    let result = AccountsResponse::decode(&page).unwrap();
    assert_eq!(result.accounts.len(), 1);
    assert_eq!(result.accounts[0].address, "0xabcdef123456");
    assert_eq!(result.accounts[0].gas_used, 0);
    assert!(result.next_page_token.is_none());
}

#[test]
fn page_with_hashless_address_fails() {
    let bad = obj(vec![("address", obj(vec![])), ("fee", s("1")), ("timestamp", s("2024-03-10T12:00:00Z"))]);
    let page = obj(vec![("items", Json::Array(vec![op("0x1", "1", "2024-03-10T12:00:00Z"), bad]))]);
    assert_eq!(UserOpsResponse::decode(&page).err(), Some(DecodeError::MissingAddressHash));
    let bad_account = obj(vec![("address", obj(vec![("hash", Json::Number(JsonNumber::PosInt(5)))]))]);
    let page = obj(vec![("items", Json::Array(vec![bad_account]))]);
    assert_eq!(AccountsResponse::decode(&page).err(), Some(DecodeError::MissingAddressHash));
}

#[test]
fn page_with_non_numeric_fee_fails() {
    let page = obj(vec![("items", Json::Array(vec![op("0x1", "abc", "2024-03-10T12:00:00Z")]))]);
    assert_eq!(UserOpsResponse::decode(&page).err(), Some(DecodeError::InvalidInteger));
    let numeric_fee = obj(vec![
        ("address", obj(vec![("hash", s("0x1"))])),
        ("fee", Json::Number(JsonNumber::PosInt(5))),
        ("timestamp", s("2024-03-10T12:00:00Z")),
    ]);
    assert_eq!(UserOp::decode(&numeric_fee).err(), Some(DecodeError::InvalidType));
}

#[test]
fn null_creation_timestamp_reads_as_empty() {
    let page = obj(vec![(
        "items",
        Json::Array(vec![obj(vec![
            ("address", obj(vec![("hash", s("0xabc"))])),
            ("creation_timestamp", Json::Null),
            ("gas_used", Json::Number(JsonNumber::PosInt(77))),
        ])]),
    )]);
    let result = AccountsResponse::decode(&page).unwrap();
    assert_eq!(result.accounts[0].creation_timestamp, "");
    assert_eq!(result.accounts[0].gas_used, 77);
}

#[test]
fn account_field_type_errors() {
    let a = obj(vec![("address", obj(vec![("hash", s("0xabc"))])), ("gas_used", s("5"))]);
    assert_eq!(Account::decode(&a).err(), Some(DecodeError::InvalidType));
    let a = obj(vec![("address", obj(vec![("hash", s("0xabc"))])), ("gas_used", Json::Number(JsonNumber::NegInt(-5)))]);
    assert_eq!(Account::decode(&a).err(), Some(DecodeError::InvalidType));
    let a = obj(vec![("address", obj(vec![("hash", s("0xabc"))])), ("creation_timestamp", Json::Number(JsonNumber::NonInteger))]);
    assert_eq!(Account::decode(&a).err(), Some(DecodeError::InvalidType));
    assert_eq!(Account::decode(&s("x")).err(), Some(DecodeError::InvalidType));
}

#[test]
fn user_op_missing_fields() {
    let no_fee = obj(vec![("address", obj(vec![("hash", s("0x1"))])), ("timestamp", s("t"))]);
    assert_eq!(UserOp::decode(&no_fee).err(), Some(DecodeError::MissingField));
    let no_ts = obj(vec![("address", obj(vec![("hash", s("0x1"))])), ("fee", s("1"))]);
    assert_eq!(UserOp::decode(&no_ts).err(), Some(DecodeError::MissingField));
}

#[test]
fn page_without_items_fails() {
    assert_eq!(UserOpsResponse::decode(&obj(vec![])).err(), Some(DecodeError::MissingItems));
    assert_eq!(AccountsResponse::decode(&obj(vec![("items", s("x"))])).err(), Some(DecodeError::InvalidType));
    assert_eq!(UserOpsResponse::decode(&Json::Null).err(), Some(DecodeError::MissingItems));
}

#[test]
fn next_token_is_trimmed_and_optional() {
    let page = obj(vec![
        ("items", Json::Array(vec![])),
        ("next_page_params", obj(vec![("page_token", s("\"tok1\""))])),
    ]);
    assert_eq!(next_page_token(&page), Some("tok1".to_string()));
    assert_eq!(UserOpsResponse::decode(&page).unwrap().next_page_token, Some("tok1".to_string()));
    let numeric = obj(vec![("next_page_params", obj(vec![("page_token", Json::Number(JsonNumber::PosInt(3)))]))]);
    assert_eq!(next_page_token(&numeric), None);
    let absent = obj(vec![("next_page_params", Json::Null)]);
    assert_eq!(next_page_token(&absent), None);
}
