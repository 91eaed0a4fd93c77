use adytum::json::{extract_component_address, search_for_component, JsonValue};
use adytum::manifest::vars;
use adytum::wallet::{
    auth_params, no_params, parse_default_account, parse_transaction_id, read_params, rpc_result, submit_params, wait_params,
    WalletError, WalletSession,
};

fn s(x: &str) -> JsonValue {
    JsonValue::Str(x.to_string())
}

fn obj(pairs: Vec<(&str, JsonValue)>) -> JsonValue {
    JsonValue::Object(pairs.into_iter().map(|(k, v)| (k.to_string(), v)).collect())
}

fn member<'a>(v: &'a JsonValue, key: &str) -> &'a JsonValue {
    v.get(key).expect("member present")
}

#[test]
fn finds_first_component_depth_first() {
    let v = obj(vec![
        ("a", JsonValue::Array(vec![s("resource_1"), obj(vec![("x", s("component_first"))])])),
        ("b", s("component_second")),
    ]);
    assert_eq!(extract_component_address(&v), Some("component_first".to_string()));
    assert_eq!(search_for_component(&s("component_")), Some("component_".to_string()));
}

#[test]
fn no_component_in_value() {
    let v = obj(vec![
        ("n", JsonValue::Number("5".into())),
        ("b", JsonValue::Bool(true)),
        ("z", JsonValue::Null),
        ("s", s("componen")),
        ("t", s("xcomponent_1")),
    ]);
    assert_eq!(extract_component_address(&v), None);
}

#[test]
fn requests_get_fresh_ids() {
    let mut w = WalletSession::new();
    assert_eq!(w.req_id, 1);
    let r = w.next_request("auth.request", auth_params());
    assert_eq!(w.req_id, 2);
    assert_eq!(member(&r, "jsonrpc").as_str(), Some("2.0"));
    assert!(matches!(member(&r, "id"), JsonValue::Number(n) if n == "2"));
    assert_eq!(member(&r, "method").as_str(), Some("auth.request"));
    let params = member(&r, "params");
    assert_eq!(member(params, "credentials").as_str(), Some("None"));
    let r2 = w.next_request("accounts.get_default", no_params());
    assert!(matches!(member(&r2, "id"), JsonValue::Number(n) if n == "3"));
}

#[test]
fn auth_reply_stores_token() {
    let mut w = WalletSession::new();
    let reply = obj(vec![("result", obj(vec![("token", s("jwt-token"))]))]);
    assert!(w.accept_auth_reply(reply).is_ok());
    assert_eq!(w.token.as_deref(), Some("jwt-token"));
    let mut w2 = WalletSession::new();
    assert!(matches!(w2.accept_auth_reply(obj(vec![("result", JsonValue::Null)])), Err(WalletError::NoToken)));
    assert_eq!(w2.token, None);
}

#[test]
fn rpc_error_member_is_an_error() {
    let raw = obj(vec![("error", obj(vec![("code", JsonValue::Number("-32600".into()))]))]);
    match rpc_result("transactions.submit_manifest", raw) {
        Err(WalletError::Rpc { method, error }) => {
            assert_eq!(method, "transactions.submit_manifest");
            assert!(error.get("code").is_some());
        }
        _ => panic!("an error member is an RPC error"),
    }
    let ok = rpc_result("m", obj(vec![("result", s("fine"))]));
    assert!(matches!(ok, Ok(JsonValue::Str(x)) if x == "fine"));
    let missing = rpc_result("m", obj(vec![]));
    assert!(matches!(missing, Ok(JsonValue::Null)));
}

#[test]
fn default_account_fields() {
    let result = obj(vec![(
        "account",
        obj(vec![("component_address", s("component_acc")), ("owner_public_key", s("abcd"))]),
    )]);
    match parse_default_account(result) {
        Ok((a, k)) => {
            assert_eq!(a, "component_acc");
            assert_eq!(k, "abcd");
        }
        Err(_) => panic!("both fields are present"),
    }
    let no_addr = obj(vec![("account", obj(vec![("owner_public_key", s("abcd"))]))]);
    assert!(matches!(parse_default_account(no_addr), Err(WalletError::NoComponentAddress)));
    let no_key = obj(vec![("account", obj(vec![("component_address", s("component_acc"))]))]);
    assert!(matches!(parse_default_account(no_key), Err(WalletError::NoOwnerPublicKey)));
}

#[test]
fn transaction_id_field() {
    assert_eq!(parse_transaction_id(obj(vec![("transaction_id", s("tx1"))])).ok(), Some("tx1".to_string()));
    assert!(matches!(parse_transaction_id(JsonValue::Null), Err(WalletError::NoTransactionId)));
}

#[test]
fn submit_and_wait_params() {
    let p = submit_params("let x = 1;", &vars(&[("chunk_0", "00ff")]), 10_000);
    assert_eq!(member(&p, "manifest").as_str(), Some("let x = 1;"));
    assert_eq!(member(member(&p, "variables"), "chunk_0").as_str(), Some("00ff"));
    assert!(matches!(member(&p, "max_fee"), JsonValue::Number(n) if n == "10000"));
    assert!(matches!(member(&p, "dry_run"), JsonValue::Bool(false)));
    let w = wait_params("tx9");
    assert_eq!(member(&w, "transaction_id").as_str(), Some("tx9"));
    assert!(matches!(member(&w, "timeout_secs"), JsonValue::Number(n) if n == "120"));
}

#[test]
fn reads_are_dry_runs() {
    let p = read_params("let _info = bundle.get_manifest();", &vars(&[]), 1000);
    assert_eq!(member(&p, "manifest").as_str(), Some("let _info = bundle.get_manifest();"));
    assert!(matches!(member(&p, "max_fee"), JsonValue::Number(n) if n == "1000"));
    assert!(matches!(member(&p, "dry_run"), JsonValue::Bool(true)));
}
