use adytum::commands::{info_output, info_target, register_request, required, resolved_address, CommandError, InfoTarget, Setting, READ_FEE};
use adytum::deploy::pubkey_to_nft_address;
use adytum::json::JsonValue;

fn obj(pairs: Vec<(&str, JsonValue)>) -> JsonValue {
    JsonValue::Object(pairs.into_iter().map(|(k, v)| (k.to_string(), v)).collect())
}

#[test]
fn nft_address_pads_the_key() {
    let a = pubkey_to_nft_address("abc").ok().unwrap();
    assert_eq!(
        a,
        format!("nft_0000000000000000000000000000000000000000000000000000000000000001_u256_{}abc", "0".repeat(61))
    );
    let full = "f".repeat(64);
    let b = pubkey_to_nft_address(&full).ok().unwrap();
    assert!(b.ends_with(&full));
    assert_eq!(b.len(), "nft_".len() + 64 + "_u256_".len() + 64);
    let long = "1".repeat(70);
    assert!(pubkey_to_nft_address(&long).ok().unwrap().ends_with(&long));
}

#[test]
fn info_target_by_address_or_name() {
    match info_target("component_3af8", None) {
        Ok(InfoTarget::Address { address }) => assert_eq!(address, "component_3af8"),
        _ => panic!("an address is used directly"),
    }
    match info_target("my-dapp", Some("component_reg")) {
        Ok(InfoTarget::Resolve { manifest }) => {
            assert_eq!(manifest, "let registry = global!(\"component_reg\");\nlet _addr = registry.resolve(\"my-dapp\");")
        }
        _ => panic!("a name is resolved"),
    }
    assert!(matches!(
        info_target("my-dapp", None),
        Err(CommandError::Missing { setting: Setting::Registry })
    ));
}

#[test]
fn resolved_name_or_not_found() {
    let found = obj(vec![("json_result", JsonValue::Array(vec![JsonValue::Str("component_x".into())]))]);
    assert_eq!(resolved_address(&found, "n").ok(), Some("component_x".to_string()));
    match resolved_address(&JsonValue::Null, "ghost") {
        Err(CommandError::NameNotFound { name }) => assert_eq!(name, "ghost"),
        _ => panic!("nothing found"),
    }
}

#[test]
fn info_prints_json_result_when_present() {
    let with = obj(vec![("json_result", JsonValue::Bool(true)), ("other", JsonValue::Null)]);
    assert!(matches!(info_output(with), JsonValue::Bool(true)));
    let without = obj(vec![("other", JsonValue::Null)]);
    assert!(matches!(info_output(without), JsonValue::Object(m) if m.len() == 1));
    assert_eq!(READ_FEE, 1000);
}

#[test]
fn required_settings() {
    assert_eq!(required(Some(5), Setting::BundleTemplate).ok(), Some(5));
    assert!(matches!(
        required::<String>(None, Setting::IpfsBackend),
        Err(CommandError::Missing { setting: Setting::IpfsBackend })
    ));
}

#[test]
fn register_request_uses_the_owner_badge() {
    let (m, v) = register_request("component_b", "my-dapp", "component_reg", "ab");
    assert_eq!(
        m,
        "let registry = global!(\"component_reg\");\nregistry.register(\"my-dapp\", global!(\"component_b\"), var!(\"registrant_badge\"));"
    );
    assert_eq!(v.get("registrant_badge"), pubkey_to_nft_address("ab").ok());
}
