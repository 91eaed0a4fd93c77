use adytum::dapp_bundle::{build_access_rules, BundleError, DappBundle, CHUNK_SIZE_BYTES, ENCRYPTION_SCHEME};
use adytum::dapp_registry::{DappRegistry, RegistryError};
use adytum::ootle::{
    AccessRule, ComponentAddress, NonFungibleAddress, NonFungibleId, Proof, RequireRule, ResourceAddress, RestrictedAccessRule,
    RuleRequirement, TemplateAddress,
};

fn badge(n: u64) -> NonFungibleAddress {
    NonFungibleAddress { resource: ResourceAddress { key: [1u8; 32] }, id: NonFungibleId::Uint64(n) }
}

fn bundle(encrypted: bool) -> DappBundle {
    DappBundle::new(
        badge(1),
        "my-dapp".to_string(),
        "1.0.0".to_string(),
        "text/html".to_string(),
        AccessRule::AllowAll,
        if encrypted { Some(ENCRYPTION_SCHEME.to_string()) } else { None },
    )
}

#[test]
fn new_bundle_manifest() {
    let b = bundle(true);
    let m = b.get_manifest();
    assert_eq!(m.name, "my-dapp");
    assert_eq!(m.version, "1.0.0");
    assert_eq!(m.content_type, "text/html");
    assert_eq!(m.chunk_count, 0);
    assert_eq!(m.content_hash, [0u8; 32]);
    assert!(!m.published && !m.immutable && m.encrypted);
    assert!(!bundle(false).get_manifest().encrypted);
    assert_eq!(ENCRYPTION_SCHEME, "chacha20poly1305+ecies-ristretto255");
}

#[test]
fn upload_publish_read_back() {
    let mut b = bundle(false);
    assert!(b.upload_chunk(2, vec![3, 3]).is_ok());
    assert!(b.upload_chunk(0, vec![1]).is_ok());
    assert!(matches!(b.get_chunk(0), Err(BundleError::NotPublished)));
    assert_eq!(b.get_manifest().chunk_count, 3);
    assert!(b.publish([9u8; 32], false).is_ok());
    assert_eq!(b.get_chunk(0).ok(), Some(vec![1]));
    assert_eq!(b.get_chunk(1).ok(), Some(vec![]));
    assert_eq!(b.get_chunk(2).ok(), Some(vec![3, 3]));
    assert!(matches!(b.get_chunk(3), Err(BundleError::ChunkOutOfRange { index: 3, count: 3 })));
    let m = b.get_manifest();
    assert!(m.published && !m.immutable);
    assert_eq!(m.content_hash, [9u8; 32]);
    assert!(matches!(b.upload_chunk(0, vec![5]), Err(BundleError::AlreadyPublished)));
    assert!(matches!(b.publish([1u8; 32], true), Err(BundleError::AlreadyPublished)));
}

#[test]
fn upload_replaces_a_chunk_and_limits_size() {
    let mut b = bundle(false);
    b.upload_chunk(0, vec![1]).ok().unwrap();
    b.upload_chunk(0, vec![2]).ok().unwrap();
    assert!(b.upload_chunk(1, vec![0u8; CHUNK_SIZE_BYTES]).is_ok());
    assert!(matches!(
        b.upload_chunk(4, vec![0u8; CHUNK_SIZE_BYTES + 1]),
        Err(BundleError::ChunkTooLarge { index: 4, size }) if size == CHUNK_SIZE_BYTES + 1
    ));
    assert_eq!(b.get_manifest().chunk_count, 2);
    b.publish([0u8; 32], false).ok().unwrap();
    assert_eq!(b.get_chunk(0).ok(), Some(vec![2]));
}

#[test]
fn publish_needs_chunks() {
    let mut b = bundle(false);
    assert!(matches!(b.publish([0u8; 32], false), Err(BundleError::NoChunks)));
}

#[test]
fn immutable_bundle_refuses_every_change() {
    let mut b = bundle(true);
    b.upload_chunk(0, vec![1]).ok().unwrap();
    b.grant_access(badge(5), vec![7]).ok().unwrap();
    b.publish([4u8; 32], true).ok().unwrap();
    assert!(b.get_manifest().immutable);
    assert!(matches!(b.upload_chunk(0, vec![2]), Err(BundleError::Immutable)));
    assert!(matches!(b.grant_access(badge(6), vec![8]), Err(BundleError::Immutable)));
    assert!(matches!(b.revoke_access(badge(5)), Err(BundleError::Immutable)));
    assert!(matches!(b.publish([0u8; 32], false), Err(BundleError::Immutable)));
    assert!(matches!(b.set_access_rule(AccessRule::DenyAll), Err(BundleError::Immutable)));
    assert!(matches!(b.make_immutable(), Err(BundleError::AlreadyImmutable)));
    assert_eq!(b.get_encrypted_key(badge(5)).ok(), Some(vec![7]));
    assert_eq!(b.get_chunk(0).ok(), Some(vec![1]));
}

#[test]
fn make_immutable_before_publish() {
    let mut b = bundle(false);
    assert!(b.make_immutable().is_ok());
    assert!(b.get_manifest().immutable);
    assert!(matches!(b.upload_chunk(0, vec![1]), Err(BundleError::Immutable)));
}

#[test]
fn keys_grant_replace_revoke() {
    let mut b = bundle(true);
    assert!(matches!(b.get_encrypted_key(badge(2)), Err(BundleError::NoKeyForBadge)));
    b.grant_access(badge(2), vec![1, 2]).ok().unwrap();
    b.grant_access(badge(3), vec![3]).ok().unwrap();
    b.grant_access(badge(2), vec![9]).ok().unwrap();
    assert_eq!(b.get_encrypted_key(badge(2)).ok(), Some(vec![9]));
    assert_eq!(b.get_encrypted_key(badge(3)).ok(), Some(vec![3]));
    b.revoke_access(badge(2)).ok().unwrap();
    assert!(matches!(b.get_encrypted_key(badge(2)), Err(BundleError::NoKeyForBadge)));
    assert_eq!(b.get_encrypted_key(badge(3)).ok(), Some(vec![3]));
    assert!(b.revoke_access(badge(42)).is_ok());
}

fn badge_id(rule: &AccessRule) -> Option<&NonFungibleId> {
    match rule {
        AccessRule::Restricted(RestrictedAccessRule::Require(RequireRule::Require(RuleRequirement::NonFungibleAddress(b)))) => {
            Some(&b.id)
        },
        _ => None,
    }
}

fn rule_of<'a>(rules: &'a adytum::dapp_bundle::AccessRules, method: &str) -> &'a AccessRule {
    rules.method_rules.iter().find(|(m, _)| m == method).map(|(_, r)| r).unwrap_or(&rules.default)
}

#[test]
fn access_rules_table() {
    let gate = AccessRule::non_fungible(badge(9));
    let rules = build_access_rules(&badge(1), &gate);
    for m in ["upload_chunk", "grant_access", "revoke_access", "publish", "make_immutable", "set_access_rule"] {
        assert!(matches!(badge_id(rule_of(&rules, m)), Some(NonFungibleId::Uint64(1))));
    }
    for m in ["get_chunk", "get_encrypted_key"] {
        assert!(matches!(badge_id(rule_of(&rules, m)), Some(NonFungibleId::Uint64(9))));
    }
    assert!(matches!(rule_of(&rules, "get_manifest"), AccessRule::AllowAll));
    assert!(matches!(rule_of(&rules, "anything_else"), AccessRule::DenyAll));
    let mut b = bundle(false);
    assert!(matches!(rule_of(&b.access_rules(), "get_chunk"), AccessRule::AllowAll));
    let new_rules = b.set_access_rule(AccessRule::DenyAll).ok().unwrap();
    assert!(matches!(rule_of(&new_rules, "get_chunk"), AccessRule::DenyAll));
    assert!(matches!(rule_of(&b.access_rules(), "get_chunk"), AccessRule::DenyAll));
}

fn addr(n: u8) -> ComponentAddress {
    ComponentAddress { key: [n; 32] }
}

fn proof_of(b: &NonFungibleAddress) -> Proof {
    Proof { resource: ResourceAddress { key: b.resource.key }, non_fungibles: vec![b.id.copy()] }
}

#[test]
fn registry_register_resolve_list() {
    let mut r = DappRegistry::new();
    assert!(r.register("zeta".to_string(), addr(1), badge(1), 10).is_ok());
    assert!(r.register("alpha".to_string(), addr(2), badge(2), 11).is_ok());
    assert!(r.register("mid".to_string(), addr(3), badge(3), 12).is_ok());
    match r.register("alpha".to_string(), addr(9), badge(9), 13) {
        Err(RegistryError::NameTaken { name }) => assert_eq!(name, "alpha"),
        _ => panic!("names are unique"),
    }
    assert_eq!(r.resolve("alpha".to_string()).map(|a| a.key), Some([2u8; 32]));
    assert!(r.resolve("nope".to_string()).is_none());
    let e = r.get("zeta".to_string()).unwrap();
    assert_eq!(e.registered_at, 10);
    assert_eq!(e.bundle.key, [1u8; 32]);
    let names: Vec<String> = r.list().into_iter().map(|(n, _)| n).collect();
    assert_eq!(names, vec!["alpha".to_string(), "mid".to_string(), "zeta".to_string()]);
}

#[test]
fn registry_sorts_like_strings() {
    let mut r = DappRegistry::new();
    for n in ["b", "a", "ab", "B", "é", "aa", ""] {
        r.register(n.to_string(), addr(1), badge(1), 0).ok().unwrap();
    }
    let names: Vec<String> = r.list().into_iter().map(|(n, _)| n).collect();
    let mut expected: Vec<String> = ["b", "a", "ab", "B", "é", "aa", ""].iter().map(|s| s.to_string()).collect();
    expected.sort();
    assert_eq!(names, expected);
}

#[test]
fn registry_update_and_deregister_need_the_badge() {
    let mut r = DappRegistry::new();
    r.register("app".to_string(), addr(1), badge(1), 5).ok().unwrap();
    let wrong_resource = Proof { resource: ResourceAddress { key: [2u8; 32] }, non_fungibles: vec![NonFungibleId::Uint64(1)] };
    assert!(matches!(r.update("app".to_string(), addr(2), &wrong_resource), Err(RegistryError::WrongProofResource)));
    let wrong_id = proof_of(&badge(7));
    assert!(matches!(r.update("app".to_string(), addr(2), &wrong_id), Err(RegistryError::MissingRegistrantBadge)));
    assert!(matches!(r.deregister("app".to_string(), &wrong_id), Err(RegistryError::MissingRegistrantBadge)));
    assert_eq!(r.resolve("app".to_string()).map(|a| a.key), Some([1u8; 32]));
    let good = proof_of(&badge(1));
    assert!(r.update("app".to_string(), addr(2), &good).is_ok());
    let e = r.get("app".to_string()).unwrap();
    assert_eq!(e.bundle.key, [2u8; 32]);
    assert_eq!(e.registered_at, 5);
    match r.update("missing".to_string(), addr(2), &good) {
        Err(RegistryError::NotRegistered { name }) => assert_eq!(name, "missing"),
        _ => panic!("not registered"),
    }
    assert!(r.deregister("app".to_string(), &good).is_ok());
    assert!(r.resolve("app".to_string()).is_none());
    assert!(matches!(r.deregister("app".to_string(), &good), Err(RegistryError::NotRegistered { .. })));
    assert!(r.list().is_empty());
}

#[test]
fn proof_ids_cover_string_and_u256_badges() {
    let b = NonFungibleAddress { resource: ResourceAddress { key: [3u8; 32] }, id: NonFungibleId::Str("holder".into()) };
    let p = Proof {
        resource: ResourceAddress { key: [3u8; 32] },
        non_fungibles: vec![NonFungibleId::U256([0u8; 32]), NonFungibleId::Str("holder".into())],
    };
    assert!(p.covers(&b.id));
    assert!(!p.covers(&NonFungibleId::Uint32(1)));
    assert!(b.same(&b.copy()));
    assert!(!b.same(&badge(1)));
}

#[test]
fn composite_rules_are_kept_and_summarised() {
    let composite = AccessRule::Restricted(RestrictedAccessRule::AnyOf(vec![
        RestrictedAccessRule::Require(RequireRule::Require(RuleRequirement::NonFungibleAddress(badge(5)))),
        RestrictedAccessRule::AllOf(vec![
            RestrictedAccessRule::Require(RequireRule::AnyOf(vec![
                RuleRequirement::Resource(ResourceAddress { key: [2u8; 32] }),
                RuleRequirement::ScopedToTemplate(TemplateAddress { key: [3u8; 32] }),
            ])),
            RestrictedAccessRule::Require(RequireRule::Require(RuleRequirement::ScopedToComponent(ComponentAddress {
                key: [4u8; 32],
            }))),
        ]),
    ]));
    let mut b = bundle(false);
    assert_eq!(b.get_manifest().access_rule_summary, "public");
    let rules = b.set_access_rule(composite.copy()).ok().unwrap();
    match rule_of(&rules, "get_chunk") {
        AccessRule::Restricted(RestrictedAccessRule::AnyOf(v)) => {
            assert_eq!(v.len(), 2);
            match &v[1] {
                RestrictedAccessRule::AllOf(w) => match &w[0] {
                    RestrictedAccessRule::Require(RequireRule::AnyOf(qs)) => {
                        assert!(matches!(&qs[1], RuleRequirement::ScopedToTemplate(t) if t.key == [3u8; 32]))
                    },
                    _ => panic!("inner any-of expected"),
                },
                _ => panic!("all-of expected"),
            }
        },
        _ => panic!("composite rule expected"),
    }
    assert_eq!(b.get_manifest().access_rule_summary, "badge-gated");
}

#[test]
fn uploaded_chunk_and_granted_key_survive_later_calls() {
    let mut b = bundle(true);
    b.upload_chunk(1, vec![7, 7]).ok().unwrap();
    b.grant_access(badge(4), vec![4]).ok().unwrap();
    b.upload_chunk(0, vec![1]).ok().unwrap();
    b.upload_chunk(3, vec![3]).ok().unwrap();
    b.grant_access(badge(5), vec![5]).ok().unwrap();
    b.revoke_access(badge(5)).ok().unwrap();
    b.set_access_rule(AccessRule::DenyAll).ok().unwrap();
    b.publish([2u8; 32], false).ok().unwrap();
    assert!(b.upload_chunk(1, vec![9]).is_err());
    assert_eq!(b.get_chunk(1).ok(), Some(vec![7, 7]));
    assert_eq!(b.get_encrypted_key(badge(4)).ok(), Some(vec![4]));
}

#[test]
fn registered_name_survives_calls_on_other_names() {
    let mut r = DappRegistry::new();
    r.register("app".to_string(), addr(1), badge(1), 5).ok().unwrap();
    r.register("other".to_string(), addr(2), badge(2), 6).ok().unwrap();
    r.update("other".to_string(), addr(3), &proof_of(&badge(2))).ok().unwrap();
    assert!(r.register("app".to_string(), addr(9), badge(9), 7).is_err());
    assert!(r.update("app".to_string(), addr(9), &proof_of(&badge(9))).is_err());
    r.deregister("other".to_string(), &proof_of(&badge(2))).ok().unwrap();
    assert_eq!(r.resolve("app".to_string()).map(|a| a.key), Some([1u8; 32]));
}

#[test]
fn tree_of_distinct_names_packs() {
    let entries = vec![
        adytum::archive::TreeEntry { relative_path: "a".to_string(), is_dir: true, contents: Vec::new() },
        adytum::archive::TreeEntry { relative_path: "a\\b.txt".to_string(), is_dir: false, contents: b"x".to_vec() },
        adytum::archive::TreeEntry { relative_path: "a.txt".to_string(), is_dir: false, contents: Vec::new() },
    ];
    assert!(adytum::bundle::Bundle::from_dir(&entries).is_ok());
}
