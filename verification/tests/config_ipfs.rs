use adytum::config::Config;
use adytum::ipfs::{
    bundle_file_name, check_status, ipfs_links, kubo_add_url, kubo_last_line, kubo_reply_cid, pinata_pin_url, pinata_reply_cid,
    resolve_ipfs_mode, IpfsError, IpfsMode,
};
use adytum::text::{last_nonblank_line, lines};

fn cfg(url: Option<&str>) -> Config {
    let mut c = Config::empty();
    c.daemon_url = url.map(|s| s.to_string());
    c
}

#[test]
fn daemon_url_precedence() {
    assert_eq!(cfg(None).daemon_url(None), "http://localhost:5100/json_rpc");
    assert_eq!(cfg(Some("http://saved")).daemon_url(None), "http://saved");
    assert_eq!(cfg(Some("http://saved")).daemon_url(Some("http://flag")), "http://flag");
    assert_eq!(Config::default().daemon_url(None), "http://localhost:5100/json_rpc");
}

#[test]
fn overlay_keeps_saved_values_and_takes_new_ones() {
    let mut saved = Config::empty();
    saved.daemon_url = Some("http://old".to_string());
    saved.registry_address = Some("component_reg".to_string());
    let mut update = Config::empty();
    update.daemon_url = Some("http://new".to_string());
    update.pinata_jwt = Some("jwt".to_string());
    let merged = saved.overlay(&update);
    assert_eq!(merged.daemon_url.as_deref(), Some("http://new"));
    assert_eq!(merged.registry_address.as_deref(), Some("component_reg"));
    assert_eq!(merged.pinata_jwt.as_deref(), Some("jwt"));
    assert_eq!(merged.bundle_template, None);
    assert_eq!(merged.ipfs_api, None);
    assert_eq!(merged.daemon_url(None), "http://new");
}

#[test]
fn ipfs_mode_not_requested() {
    assert!(matches!(resolve_ipfs_mode(Some("a".into()), Some("j".into()), false), Ok(None)));
}

#[test]
fn ipfs_mode_prefers_pinata() {
    match resolve_ipfs_mode(Some("http://127.0.0.1:5001".into()), Some("jwt".into()), true) {
        Ok(Some(IpfsMode::Pinata { jwt })) => assert_eq!(jwt, "jwt"),
        _ => panic!("Pinata must win"),
    }
    match resolve_ipfs_mode(Some("http://127.0.0.1:5001".into()), None, true) {
        Ok(Some(IpfsMode::Local { api_url })) => assert_eq!(api_url, "http://127.0.0.1:5001"),
        _ => panic!("local node expected"),
    }
}

#[test]
fn ipfs_mode_requested_without_backend() {
    assert!(matches!(resolve_ipfs_mode(None, None, true), Err(IpfsError::NoBackend)));
}

#[test]
fn kubo_url_strips_trailing_slashes() {
    assert_eq!(kubo_add_url("http://127.0.0.1:5001"), "http://127.0.0.1:5001/api/v0/add?pin=true&cid-version=1");
    assert_eq!(kubo_add_url("http://127.0.0.1:5001//"), "http://127.0.0.1:5001/api/v0/add?pin=true&cid-version=1");
    assert_eq!(pinata_pin_url(), "https://api.pinata.cloud/pinning/pinFileToIPFS");
}

#[test]
fn pinned_file_name_and_links() {
    assert_eq!(bundle_file_name("my-dapp", "1.0.0"), "my-dapp-1.0.0.zip");
    let (a, b) = ipfs_links("bafy123");
    assert_eq!(a, "ipfs://bafy123");
    assert_eq!(b, "https://ipfs.io/ipfs/bafy123");
}

#[test]
fn http_status_check() {
    assert!(check_status("Kubo", 200, String::new()).is_ok());
    assert!(check_status("Kubo", 299, String::new()).is_ok());
    match check_status("Pinata", 401, "denied".to_string()) {
        Err(IpfsError::Api { service, status, body }) => {
            assert_eq!(service, "Pinata");
            assert_eq!(status, 401);
            assert_eq!(body, "denied");
        }
        _ => panic!("401 is an error"),
    }
    assert!(check_status("Kubo", 300, String::new()).is_err());
    assert!(check_status("Kubo", 199, String::new()).is_err());
}

#[test]
fn lines_match_std_lines() {
    for text in ["a\nb\r\nc", "a\n\nb\n", "", "\n", "x\r", "a\r\nb\r\n", "one"] {
        let expected: Vec<String> = text.lines().map(|l| l.to_string()).collect();
        assert_eq!(lines(text), expected, "text {:?}", text);
    }
}

#[test]
fn kubo_reply_last_line() {
    let text = "{\"Name\":\"a\",\"Hash\":\"h1\"}\n{\"Name\":\"b\",\"Hash\":\"h2\"}\n  \n";
    match kubo_last_line(text) {
        Ok(l) => assert_eq!(l, "{\"Name\":\"b\",\"Hash\":\"h2\"}"),
        Err(_) => panic!("there is a line"),
    }
    assert!(matches!(kubo_last_line(" \n\t\n"), Err(IpfsError::EmptyResponse)));
    assert_eq!(last_nonblank_line("a\n\u{3000}\n"), Some("a".to_string()));
}

#[test]
fn cid_fields() {
    let kubo = "{\"Name\":\"a\",\"Hash\":\"h1\"}\n{\"Name\":\"f\",\"Hash\":\"bafyk\"}\n\n";
    assert_eq!(kubo_reply_cid(kubo).ok(), Some("bafyk".to_string()));
    assert_eq!(pinata_reply_cid("{\"IpfsHash\":\"bafyp\",\"PinSize\":3}").ok(), Some("bafyp".to_string()));
    match kubo_reply_cid("{\"Hash\":1}") {
        Err(IpfsError::MissingField { field }) => assert_eq!(field, "Hash"),
        _ => panic!("a number is not a CID"),
    }
    match kubo_reply_cid("added a.zip bafy\n") {
        Err(IpfsError::InvalidJson { service }) => assert_eq!(service, "Kubo"),
        _ => panic!("a text line is not JSON"),
    }
    assert!(matches!(kubo_reply_cid("\n \n"), Err(IpfsError::EmptyResponse)));
    assert!(matches!(pinata_reply_cid("null"), Err(IpfsError::MissingField { .. })));
    match pinata_reply_cid("<html>") {
        Err(IpfsError::InvalidJson { service }) => assert_eq!(service, "Pinata"),
        _ => panic!("html is not JSON"),
    }
}
