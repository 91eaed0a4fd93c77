use adytum::archive::TreeEntry;
use adytum::deploy::{DeployAction, DeployArgs, DeployError, DeployEvent, DeployRun, Stage, TxPurpose};
use adytum::ipfs::IpfsMode;
use adytum::json::JsonValue;
use chacha20poly1305::aead::Aead;
use chacha20poly1305::{ChaCha20Poly1305, Key, KeyInit, Nonce};
use curve25519_dalek::ristretto::{CompressedRistretto, RistrettoPoint};
use curve25519_dalek::scalar::Scalar;
use sha2::{Digest, Sha256};
use std::path::PathBuf;

fn args(registry: Option<&str>, ipfs: bool, encrypted: bool) -> DeployArgs {
    DeployArgs {
        dist_dir: PathBuf::from("dist"),
        name: "my-dapp".to_string(),
        version: "1.0.0".to_string(),
        content_type: "text/html".to_string(),
        encrypted,
        immutable: true,
        bundle_template: "tmpl".to_string(),
        registry_address: registry.map(|s| s.to_string()),
        max_fee: 10_000,
        ipfs_mode: if ipfs { Some(IpfsMode::Local { api_url: "http://127.0.0.1:5001".to_string() }) } else { None },
    }
}

fn big_tree() -> Vec<TreeEntry> {
    // Stored deflate of pseudo-random bytes stays larger than one chunk.
    let mut x: u32 = 12345;
    let data: Vec<u8> = (0..150_000)
        .map(|_| {
            x = x.wrapping_mul(1103515245).wrapping_add(12345);
            (x >> 16) as u8
        })
        .collect();
    vec![TreeEntry { relative_path: "blob.bin".to_string(), is_dir: false, contents: data }]
}

fn created(addr: &str) -> JsonValue {
    JsonValue::Object(vec![(
        "json_result".to_string(),
        JsonValue::Array(vec![JsonValue::Str(addr.to_string())]),
    )])
}

fn submit(a: &DeployAction) -> (&TxPurpose, &str, &adytum::manifest::Variables, u64) {
    match a {
        DeployAction::Submit { purpose, manifest, variables, max_fee } => (purpose, manifest.as_str(), variables, *max_fee),
        _ => panic!("expected a submission"),
    }
}

#[test]
fn full_deploy_sequence() {
    let (mut run, first) = DeployRun::new(args(Some("component_reg"), true, false));
    assert!(matches!(first, DeployAction::Authenticate));
    assert!(matches!(run.step(DeployEvent::Authenticated), Ok(DeployAction::FetchAccount)));
    let a = run.step(DeployEvent::Account { owner_pubkey: "ab".to_string() });
    assert!(matches!(a, Ok(DeployAction::ReadDist)));
    let a = run.step(DeployEvent::DistRead { entries: big_tree() }).ok().unwrap();
    let (p, m, v, fee) = submit(&a);
    assert!(matches!(p, TxPurpose::Deploy));
    assert!(m.contains("DappBundle::new_public("));
    assert_eq!(v.get("owner_pubkey"), Some("ab".to_string()));
    assert_eq!(fee, 10_000);
    let n = run.bundle().unwrap().chunk_count();
    assert!(n >= 2);
    let hash = run.bundle().unwrap().content_hash_hex();

    let mut a = run.step(DeployEvent::Submitted { result: created("component_new") }).ok().unwrap();
    for i in 0..n {
        let (p, m, v, _) = submit(&a);
        assert!(matches!(p, TxPurpose::UploadChunk { index } if *index == i as u64));
        assert_eq!(m, adytum::manifest::upload_chunk("component_new", i as u64).0);
        let var = format!("chunk_{i}");
        assert_eq!(v.get(&var), Some(run.bundle().unwrap().chunk_hex(i)));
        assert_eq!(v.len(), 1);
        assert!(matches!(run.stage(), Stage::Uploading { index } if *index == i));
        a = run.step(DeployEvent::Submitted { result: JsonValue::Null }).ok().unwrap();
    }
    let (p, m, v, _) = submit(&a);
    assert!(matches!(p, TxPurpose::Publish));
    assert_eq!(m, adytum::manifest::publish("component_new", true));
    assert_eq!(v.get("content_hash"), Some(hash));

    let a = run.step(DeployEvent::Submitted { result: JsonValue::Null }).ok().unwrap();
    let (p, m, v, _) = submit(&a);
    assert!(matches!(p, TxPurpose::Register));
    assert_eq!(m, adytum::manifest::register("component_reg", "my-dapp", "component_new"));
    assert_eq!(v.get("registrant_badge"), adytum::deploy::pubkey_to_nft_address("ab").ok());

    let a = run.step(DeployEvent::Submitted { result: JsonValue::Null }).ok().unwrap();
    match a {
        DeployAction::Pin { file_name, bytes } => {
            assert_eq!(file_name, "my-dapp-1.0.0.zip");
            assert_eq!(bytes, run.bundle().unwrap().bytes);
        }
        _ => panic!("pinning expected"),
    }
    match run.step(DeployEvent::Pinned { cid: "bafy".to_string() }) {
        Ok(DeployAction::Finished { bundle_address }) => assert_eq!(bundle_address, "component_new"),
        _ => panic!("finished expected"),
    }
    assert!(matches!(run.stage(), Stage::Done));
}

fn owner_secret() -> Scalar {
    Scalar::from(7_777u64)
}

fn owner_pubkey_hex() -> String {
    hex::encode(RistrettoPoint::mul_base(&owner_secret()).compress().to_bytes())
}

#[test]
fn private_deploy_uploads_ciphertext_and_grants_the_owner_key() {
    let (mut run, _) = DeployRun::new(args(None, false, true));
    run.step(DeployEvent::Authenticated).ok().unwrap();
    let pk = owner_pubkey_hex();
    run.step(DeployEvent::Account { owner_pubkey: pk.clone() }).ok().unwrap();
    let entries = vec![TreeEntry { relative_path: "index.html".to_string(), is_dir: false, contents: b"hi".to_vec() }];
    let a = run.step(DeployEvent::DistRead { entries }).ok().unwrap();
    let (_, m, _, _) = submit(&a);
    assert!(m.contains("DappBundle::new_encrypted("));
    let plain = run.bundle().unwrap().bytes.clone();
    let sealed = run.payload().clone();
    assert_eq!(sealed.len(), plain.len() + 28);
    assert_eq!(run.payload_chunk_count(), 1);

    let a = run.step(DeployEvent::Submitted { result: created("component_z") }).ok().unwrap();
    let (p, _, v, _) = submit(&a);
    assert!(matches!(p, TxPurpose::UploadChunk { index: 0 }));
    assert_eq!(v.get("chunk_0"), Some(hex::encode(&sealed)));
    assert_ne!(v.get("chunk_0"), Some(hex::encode(&plain)));

    let a = run.step(DeployEvent::Submitted { result: JsonValue::Null }).ok().unwrap();
    let (p, m, v, _) = submit(&a);
    assert!(matches!(p, TxPurpose::GrantAccess));
    assert!(matches!(run.stage(), Stage::Granting));
    assert_eq!(m, adytum::manifest::grant_access("component_z"));
    assert_eq!(v.get("holder_badge"), adytum::deploy::pubkey_to_nft_address(&pk).ok());
    let wrapped = hex::decode(v.get("encrypted_key").unwrap()).unwrap();
    assert_eq!(wrapped.len(), 80);

    // The owner unwraps the key with the secret scalar and opens the sealed archive.
    let eph = CompressedRistretto(wrapped[..32].try_into().unwrap()).decompress().unwrap();
    let shared = (eph * owner_secret()).compress().to_bytes();
    let mut ikm = shared.to_vec();
    ikm.extend_from_slice(&wrapped[..32]);
    let kek = Sha256::digest(&ikm);
    let key = ChaCha20Poly1305::new(Key::from_slice(&kek))
        .decrypt(Nonce::from_slice(&[0u8; 12]), &wrapped[32..])
        .unwrap();
    let opened = ChaCha20Poly1305::new(Key::from_slice(&key))
        .decrypt(Nonce::from_slice(&sealed[..12]), &sealed[12..])
        .unwrap();
    assert_eq!(opened, plain);

    let a = run.step(DeployEvent::Submitted { result: JsonValue::Null }).ok().unwrap();
    let (p, _, v, _) = submit(&a);
    assert!(matches!(p, TxPurpose::Publish));
    assert_eq!(v.get("content_hash"), Some(run.bundle().unwrap().content_hash_hex()));
    match run.step(DeployEvent::Submitted { result: JsonValue::Null }) {
        Ok(DeployAction::Finished { bundle_address }) => assert_eq!(bundle_address, "component_z"),
        _ => panic!("finished expected"),
    }
}

#[test]
fn private_deploy_needs_a_32_byte_owner_key() {
    let (mut run, _) = DeployRun::new(args(None, false, true));
    run.step(DeployEvent::Authenticated).ok().unwrap();
    run.step(DeployEvent::Account { owner_pubkey: "ab".to_string() }).ok().unwrap();
    let entries = vec![TreeEntry { relative_path: "index.html".to_string(), is_dir: false, contents: b"hi".to_vec() }];
    assert!(matches!(run.step(DeployEvent::DistRead { entries }), Err(DeployError::OwnerKey)));
    assert!(matches!(run.stage(), Stage::Failed));
}

#[test]
fn public_deploy_without_registry_or_ipfs_finishes_after_publish() {
    let (mut run, _) = DeployRun::new(args(None, false, false));
    run.step(DeployEvent::Authenticated).ok().unwrap();
    run.step(DeployEvent::Account { owner_pubkey: "ab".to_string() }).ok().unwrap();
    let entries = vec![TreeEntry { relative_path: "index.html".to_string(), is_dir: false, contents: b"hi".to_vec() }];
    run.step(DeployEvent::DistRead { entries }).ok().unwrap();
    assert_eq!(run.payload(), &run.bundle().unwrap().bytes);
    let a = run.step(DeployEvent::Submitted { result: created("component_z") }).ok().unwrap();
    assert!(matches!(submit(&a).0, TxPurpose::UploadChunk { index: 0 }));
    let a = run.step(DeployEvent::Submitted { result: JsonValue::Null }).ok().unwrap();
    assert!(matches!(submit(&a).0, TxPurpose::Publish));
    match run.step(DeployEvent::Submitted { result: JsonValue::Null }) {
        Ok(DeployAction::Finished { bundle_address }) => assert_eq!(bundle_address, "component_z"),
        _ => panic!("finished expected"),
    }
}

#[test]
fn deploy_result_without_component_fails() {
    let (mut run, _) = DeployRun::new(args(None, false, false));
    run.step(DeployEvent::Authenticated).ok().unwrap();
    run.step(DeployEvent::Account { owner_pubkey: "ab".to_string() }).ok().unwrap();
    let entries = vec![TreeEntry { relative_path: "a".to_string(), is_dir: false, contents: b"x".to_vec() }];
    run.step(DeployEvent::DistRead { entries }).ok().unwrap();
    assert!(matches!(
        run.step(DeployEvent::Submitted { result: JsonValue::Str("resource_x".into()) }),
        Err(DeployError::NoComponentAddress { .. })
    ));
    assert!(matches!(run.stage(), Stage::Failed));
}

#[test]
fn unexpected_event_fails_the_run() {
    let (mut run, _) = DeployRun::new(args(None, false, false));
    assert!(matches!(run.step(DeployEvent::Pinned { cid: "x".into() }), Err(DeployError::UnexpectedEvent)));
    assert!(matches!(run.stage(), Stage::Failed));
    assert!(matches!(run.step(DeployEvent::Authenticated), Err(DeployError::UnexpectedEvent)));
}

#[test]
fn unpackable_dist_fails_the_run() {
    let (mut run, _) = DeployRun::new(args(None, false, false));
    run.step(DeployEvent::Authenticated).ok().unwrap();
    run.step(DeployEvent::Account { owner_pubkey: "ab".to_string() }).ok().unwrap();
    let entries = vec![
        TreeEntry { relative_path: "a".to_string(), is_dir: false, contents: b"x".to_vec() },
        TreeEntry { relative_path: "a".to_string(), is_dir: false, contents: b"y".to_vec() },
    ];
    assert!(matches!(run.step(DeployEvent::DistRead { entries }), Err(DeployError::Archive(_))));
    assert!(matches!(run.stage(), Stage::Failed));
}
