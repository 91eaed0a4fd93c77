use adytum::manifest::{
    deploy_encrypted, deploy_public, get_manifest_call, publish, register, resolve, upload_chunk, vars,
};
use adytum::text::escape;

#[test]
fn deploy_public_manifest_text() {
    let m = deploy_public("abc123", "my-dapp", "1.0.0", "text/html");
    assert_eq!(
        m,
        "use template_abc123 as DappBundle;\nlet bundle = DappBundle::new_public(\n    var!(\"owner_pubkey\"),\n    \"my-dapp\",\n    \"1.0.0\",\n    \"text/html\"\n);"
    );
}

#[test]
fn deploy_encrypted_manifest_text() {
    let m = deploy_encrypted("t", "n", "v", "c");
    assert_eq!(
        m,
        "use template_t as DappBundle;\nlet bundle = DappBundle::new_encrypted(\n    var!(\"owner_pubkey\"),\n    \"n\",\n    \"v\",\n    \"c\"\n);"
    );
}

#[test]
fn deploy_manifest_escapes_quotes_and_backslashes() {
    let m = deploy_public("t", "a\"b\\c", "v", "c");
    assert!(m.contains("\"a\\\"b\\\\c\""));
}

#[test]
fn escape_doubles_backslashes_and_escapes_quotes() {
    assert_eq!(escape("plain"), "plain");
    assert_eq!(escape("say \"hi\""), "say \\\"hi\\\"");
    assert_eq!(escape("C:\\dir"), "C:\\\\dir");
    assert_eq!(escape("\\\""), "\\\\\\\"");
    assert_eq!(escape(""), "");
    assert_eq!(escape("ünï\""), "ünï\\\"");
}

#[test]
fn upload_chunk_manifest_and_variable_name() {
    let (m, var) = upload_chunk("component_abc", 7);
    assert_eq!(var, "chunk_7");
    assert_eq!(
        m,
        "let bundle = global!(\"component_abc\");\nbundle.upload_chunk(7u64, var!(\"chunk_7\"));"
    );
    let (m0, var0) = upload_chunk("c", 0);
    assert_eq!(var0, "chunk_0");
    assert!(m0.contains("upload_chunk(0u64, var!(\"chunk_0\"))"));
    let (_, big) = upload_chunk("c", u64::MAX);
    assert_eq!(big, "chunk_18446744073709551615");
    let (_, ten) = upload_chunk("c", 10);
    assert_eq!(ten, "chunk_10");
}

#[test]
fn publish_manifest_text() {
    assert_eq!(
        publish("component_x", true),
        "let bundle = global!(\"component_x\");\nbundle.publish(var!(\"content_hash\"), true);"
    );
    assert_eq!(
        publish("component_x", false),
        "let bundle = global!(\"component_x\");\nbundle.publish(var!(\"content_hash\"), false);"
    );
}

#[test]
fn register_manifest_text() {
    assert_eq!(
        register("component_reg", "my\"dapp", "component_b"),
        "let registry = global!(\"component_reg\");\nregistry.register(\"my\\\"dapp\", global!(\"component_b\"), var!(\"registrant_badge\"));"
    );
}

#[test]
fn get_manifest_call_text() {
    assert_eq!(
        get_manifest_call("component_b"),
        "let bundle = global!(\"component_b\");\nlet _info = bundle.get_manifest();"
    );
}

#[test]
fn resolve_manifest_text() {
    assert_eq!(
        resolve("component_reg", "my-dapp"),
        "let registry = global!(\"component_reg\");\nlet _addr = registry.resolve(\"my-dapp\");"
    );
}

#[test]
fn vars_later_pair_wins() {
    let v = vars(&[("a", "1"), ("b", "2"), ("a", "3")]);
    assert_eq!(v.len(), 2);
    assert_eq!(v.get("a"), Some("3".to_string()));
    assert_eq!(v.get("b"), Some("2".to_string()));
    assert_eq!(v.get("c"), None);
    let pairs = v.to_pairs();
    assert_eq!(pairs, vec![("a".to_string(), "3".to_string()), ("b".to_string(), "2".to_string())]);
}

#[test]
fn vars_single_entry() {
    let v = vars(&[("owner_pubkey", "deadbeef")]);
    assert_eq!(v.len(), 1);
    assert_eq!(v.get("owner_pubkey"), Some("deadbeef".to_string()));
    let empty = vars(&[]);
    assert_eq!(empty.len(), 0);
}

#[test]
fn grant_access_manifest_text() {
    assert_eq!(
        adytum::manifest::grant_access("component_b"),
        "let bundle = global!(\"component_b\");\nbundle.grant_access(var!(\"holder_badge\"), var!(\"encrypted_key\"));"
    );
}
