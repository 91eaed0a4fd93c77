//! The DappBundle component: chunked, optionally encrypted frontend storage that is
//! sealed by publishing and can be locked for good.
//!
//! A failed call reverts its transaction: here it returns an error and leaves the
//! component as it was.

use vstd::prelude::*;
use crate::assoc::{assoc_map, keys_distinct, lemma_assoc_last_wins, lemma_assoc_lookup, lemma_assoc_absent,
    lemma_assoc_update, lemma_assoc_push, lemma_assoc_remove};
use crate::ootle::{AccessRule, BadgeView, NonFungibleAddress, RuleView, badge_rule};

verus! {

broadcast use vstd::array::group_array_axioms;

/// Largest chunk the component accepts: 64 KiB.
pub const CHUNK_SIZE_BYTES: usize = 65_536;

/// Encryption scheme identifier for ChaCha20-Poly1305 bundle key + ECIES over
/// Ristretto255 per-holder wrapping.
pub const ENCRYPTION_SCHEME: &'static str = "chacha20poly1305+ecies-ristretto255";

/// Why a bundle call was refused (its transaction reverts).
pub enum BundleError {
    /// The bundle is immutable.
    Immutable,
    /// The bundle is already published.
    AlreadyPublished,
    /// The chunk at `index` exceeds the maximum chunk size.
    ChunkTooLarge { index: u64, size: usize },
    /// No key is stored for the badge.
    NoKeyForBadge,
    /// Publishing needs at least one chunk.
    NoChunks,
    /// The bundle is already immutable.
    AlreadyImmutable,
    /// The bundle is not yet published.
    NotPublished,
    /// The chunk index is out of range.
    ChunkOutOfRange { index: u64, count: usize },
}

/// The component's state, by value.
pub struct BundleState {
    pub owner_badge: BadgeView,
    pub name: Seq<char>,
    pub version: Seq<char>,
    pub chunks: Seq<Seq<u8>>,
    pub content_hash: Seq<u8>,
    pub content_type: Seq<char>,
    pub access_rule: RuleView,
    pub access_keys: Map<BadgeView, Seq<u8>>,
    pub encryption: Option<Seq<char>>,
    pub published: bool,
    pub immutable: bool,
}

/// Always-public metadata returned by `get_manifest`.
pub struct BundleManifest {
    pub name: String,
    pub version: String,
    pub chunk_count: u64,
    /// SHA-256 of the plaintext ZIP bundle (verified by Arachne after decryption).
    pub content_hash: [u8; 32],
    pub content_type: String,
    pub published: bool,
    pub immutable: bool,
    /// True when chunks are ChaCha20-Poly1305 ciphertext; false for public (unencrypted) bundles.
    pub encrypted: bool,
    /// How chunk reads are gated: "public" or "badge-gated".
    pub access_rule_summary: String,
}

/// The summary of a chunk rule: "public" when anyone may read chunks, else
/// "badge-gated" ("fee-gated" belongs to a fee-gated variant of the component, which this
/// one is not).
pub open spec fn rule_summary(rule: RuleView) -> Seq<char> {
    if rule is AllowAll { "public"@ } else { "badge-gated"@ }
}

/// The state of a newly deployed bundle: no chunks, a zero hash, no keys, unpublished.
pub open spec fn new_state(
    owner_badge: BadgeView,
    name: Seq<char>,
    version: Seq<char>,
    content_type: Seq<char>,
    access_rule: RuleView,
    encryption: Option<Seq<char>>,
) -> BundleState {
    BundleState {
        owner_badge,
        name,
        version,
        chunks: Seq::empty(),
        content_hash: Seq::new(32, |i: int| 0u8),
        content_type,
        access_rule,
        access_keys: Map::empty(),
        encryption,
        published: false,
        immutable: false,
    }
}

/// `chunks` grown with empty chunks so that `index` is a valid position.
pub open spec fn grow_to(chunks: Seq<Seq<u8>>, index: nat) -> Seq<Seq<u8>> {
    if index >= chunks.len() {
        chunks + Seq::new((index + 1 - chunks.len()) as nat, |i: int| Seq::<u8>::empty())
    } else {
        chunks
    }
}

/// `upload_chunk(index, data)`: refused on an immutable or published bundle or an
/// oversized chunk; else the chunk at `index` becomes `data`, the list growing with
/// empty chunks as needed.
pub open spec fn upload_chunk_spec(s: BundleState, index: u64, data: Seq<u8>) -> Result<BundleState, BundleError> {
    if s.immutable {
        Err(BundleError::Immutable)
    } else if s.published {
        Err(BundleError::AlreadyPublished)
    } else if data.len() > CHUNK_SIZE_BYTES {
        Err(BundleError::ChunkTooLarge { index, size: data.len() as usize })
    } else {
        Ok(BundleState { chunks: grow_to(s.chunks, index as nat).update(index as int, data), ..s })
    }
}

/// `grant_access(badge, key)`: refused on an immutable bundle; else the badge's key is `key`.
pub open spec fn grant_access_spec(s: BundleState, badge: BadgeView, key: Seq<u8>) -> Result<BundleState, BundleError> {
    if s.immutable {
        Err(BundleError::Immutable)
    } else {
        Ok(BundleState { access_keys: s.access_keys.insert(badge, key), ..s })
    }
}

/// `revoke_access(badge)`: refused on an immutable bundle; else the badge has no key.
pub open spec fn revoke_access_spec(s: BundleState, badge: BadgeView) -> Result<BundleState, BundleError> {
    if s.immutable {
        Err(BundleError::Immutable)
    } else {
        Ok(BundleState { access_keys: s.access_keys.remove(badge), ..s })
    }
}

/// `get_encrypted_key(badge)`: the badge's key, or a refusal when there is none.
pub open spec fn encrypted_key_spec(s: BundleState, badge: BadgeView) -> Result<Seq<u8>, BundleError> {
    if s.access_keys.contains_key(badge) {
        Ok(s.access_keys[badge])
    } else {
        Err(BundleError::NoKeyForBadge)
    }
}

/// `publish(hash, make_immutable)`: refused on an immutable, published or empty bundle;
/// else the hash is stored, the bundle is published, and immutable when asked.
pub open spec fn publish_spec(s: BundleState, content_hash: Seq<u8>, make_immutable: bool) -> Result<BundleState, BundleError> {
    if s.immutable {
        Err(BundleError::Immutable)
    } else if s.published {
        Err(BundleError::AlreadyPublished)
    } else if s.chunks.len() == 0 {
        Err(BundleError::NoChunks)
    } else {
        Ok(BundleState { content_hash, published: true, immutable: make_immutable, ..s })
    }
}

/// `make_immutable()`: refused when already immutable; else the bundle is immutable.
pub open spec fn make_immutable_spec(s: BundleState) -> Result<BundleState, BundleError> {
    if s.immutable {
        Err(BundleError::AlreadyImmutable)
    } else {
        Ok(BundleState { immutable: true, ..s })
    }
}

/// `get_chunk(index)`: refused before publishing or out of range; else chunk `index`.
pub open spec fn get_chunk_spec(s: BundleState, index: u64) -> Result<Seq<u8>, BundleError> {
    if !s.published {
        Err(BundleError::NotPublished)
    } else if index >= s.chunks.len() {
        Err(BundleError::ChunkOutOfRange { index, count: s.chunks.len() as usize })
    } else {
        Ok(s.chunks[index as int])
    }
}

/// `set_access_rule(rule)`: refused on an immutable bundle; else the chunk rule is `rule`.
pub open spec fn set_access_rule_spec(s: BundleState, rule: RuleView) -> Result<BundleState, BundleError> {
    if s.immutable {
        Err(BundleError::Immutable)
    } else {
        Ok(BundleState { access_rule: rule, ..s })
    }
}

/// The state a call leaves: the new one, or the old one when the call is refused.
pub open spec fn after(s: BundleState, r: Result<BundleState, BundleError>) -> BundleState {
    match r {
        Ok(t) => t,
        Err(_) => s,
    }
}

/// The error of a refused call, with the outcome it shares with the specification.
pub open spec fn same_outcome<T, U>(r: Result<T, BundleError>, spec: Result<U, BundleError>) -> bool {
    match spec {
        Ok(_) => r is Ok,
        Err(e) => r == Err::<T, BundleError>(e),
    }
}


/// The stored keys, by value.
pub open spec fn keys_view(v: Seq<(NonFungibleAddress, Vec<u8>)>) -> Seq<(BadgeView, Seq<u8>)> {
    v.map_values(|p: (NonFungibleAddress, Vec<u8>)| (p.0@, p.1@))
}

/// Once a bundle is immutable, every mutating call is refused and leaves it unchanged:
/// no one, not even the owner, can upload, change keys or rules, publish again, or
/// lock it again.
pub proof fn lemma_immutable_is_final(
    s: BundleState,
    index: u64,
    data: Seq<u8>,
    badge: BadgeView,
    key: Seq<u8>,
    hash: Seq<u8>,
    make_immutable: bool,
    rule: RuleView,
)
    requires
        s.immutable,
    ensures
        upload_chunk_spec(s, index, data) == Err::<BundleState, BundleError>(BundleError::Immutable),
        grant_access_spec(s, badge, key) == Err::<BundleState, BundleError>(BundleError::Immutable),
        revoke_access_spec(s, badge) == Err::<BundleState, BundleError>(BundleError::Immutable),
        publish_spec(s, hash, make_immutable) == Err::<BundleState, BundleError>(BundleError::Immutable),
        set_access_rule_spec(s, rule) == Err::<BundleState, BundleError>(BundleError::Immutable),
        make_immutable_spec(s) == Err::<BundleState, BundleError>(BundleError::AlreadyImmutable),
        after(s, upload_chunk_spec(s, index, data)) == s,
        after(s, grant_access_spec(s, badge, key)) == s,
        after(s, revoke_access_spec(s, badge)) == s,
        after(s, publish_spec(s, hash, make_immutable)) == s,
        after(s, set_access_rule_spec(s, rule)) == s,
        after(s, make_immutable_spec(s)) == s,
{
}

/// Locking works from any mutable state, published or not: `make_immutable` succeeds,
/// the bundle becomes immutable with nothing else changed, and from then on every
/// mutating call (upload, key grant and revocation, publish, rule change, locking again)
/// is refused and leaves the bundle as it is.
pub proof fn lemma_make_immutable_locks(
    s: BundleState,
    index: u64,
    data: Seq<u8>,
    badge: BadgeView,
    key: Seq<u8>,
    hash: Seq<u8>,
    make_immutable: bool,
    rule: RuleView,
)
    requires
        !s.immutable,
    ensures
        make_immutable_spec(s) is Ok,
        ({
            let t = make_immutable_spec(s)->Ok_0;
            &&& t.immutable
            &&& t.chunks == s.chunks && t.published == s.published && t.content_hash == s.content_hash
            &&& t.access_rule == s.access_rule && t.access_keys == s.access_keys
            &&& t.name == s.name && t.version == s.version && t.content_type == s.content_type
            &&& t.owner_badge == s.owner_badge && t.encryption == s.encryption
            &&& upload_chunk_spec(t, index, data) == Err::<BundleState, BundleError>(BundleError::Immutable)
            &&& grant_access_spec(t, badge, key) == Err::<BundleState, BundleError>(BundleError::Immutable)
            &&& revoke_access_spec(t, badge) == Err::<BundleState, BundleError>(BundleError::Immutable)
            &&& publish_spec(t, hash, make_immutable) == Err::<BundleState, BundleError>(BundleError::Immutable)
            &&& set_access_rule_spec(t, rule) == Err::<BundleState, BundleError>(BundleError::Immutable)
            &&& make_immutable_spec(t) == Err::<BundleState, BundleError>(BundleError::AlreadyImmutable)
        }),
{
}

/// No call ever clears the immutable or the published flag.
pub proof fn lemma_flags_only_rise(
    s: BundleState,
    index: u64,
    data: Seq<u8>,
    badge: BadgeView,
    key: Seq<u8>,
    hash: Seq<u8>,
    make_immutable: bool,
    rule: RuleView,
)
    ensures
        ({
            let outcomes = seq![
                after(s, upload_chunk_spec(s, index, data)),
                after(s, grant_access_spec(s, badge, key)),
                after(s, revoke_access_spec(s, badge)),
                after(s, publish_spec(s, hash, make_immutable)),
                after(s, set_access_rule_spec(s, rule)),
                after(s, make_immutable_spec(s)),
            ];
            forall|i: int| 0 <= i < outcomes.len() ==>
                (s.immutable ==> (#[trigger] outcomes[i]).immutable) && (s.published ==> outcomes[i].published)
        }),
{
}

/// After publishing, no chunk can be uploaded.
pub proof fn lemma_published_is_sealed(s: BundleState, index: u64, data: Seq<u8>)
    requires
        s.published,
    ensures
        upload_chunk_spec(s, index, data) is Err,
{
}

/// What is uploaded is what is read back: a chunk uploaded to a mutable, unpublished
/// bundle is returned by `get_chunk` once the bundle is published, whatever the
/// publish makes of immutability.
pub proof fn lemma_upload_publish_read(s: BundleState, index: u64, data: Seq<u8>, hash: Seq<u8>, make_immutable: bool)
    requires
        !s.immutable,
        !s.published,
        data.len() <= CHUNK_SIZE_BYTES,
    ensures
        upload_chunk_spec(s, index, data) matches Ok(t)
            && publish_spec(t, hash, make_immutable) matches Ok(u)
            && get_chunk_spec(u, index) == Ok::<Seq<u8>, BundleError>(data)
            && u.content_hash == hash
            && u.immutable == make_immutable,
{
}

/// Uploading chunk `index` leaves every other chunk as it was.
pub proof fn lemma_upload_leaves_others(s: BundleState, index: u64, data: Seq<u8>, j: int)
    requires
        upload_chunk_spec(s, index, data) is Ok,
        0 <= j < s.chunks.len(),
        j != index,
    ensures
        upload_chunk_spec(s, index, data)->Ok_0.chunks[j] == s.chunks[j],
{
}

/// A key granted to a badge is the key handed to that badge; a revoked badge gets none.
pub proof fn lemma_grant_then_read(s: BundleState, badge: BadgeView, key: Seq<u8>, other: BadgeView)
    requires
        !s.immutable,
    ensures
        grant_access_spec(s, badge, key) matches Ok(t)
            && encrypted_key_spec(t, badge) == Ok::<Seq<u8>, BundleError>(key),
        revoke_access_spec(s, badge) matches Ok(t)
            && encrypted_key_spec(t, badge) == Err::<Seq<u8>, BundleError>(BundleError::NoKeyForBadge),
        other != badge ==> (grant_access_spec(s, badge, key) matches Ok(t)
            && encrypted_key_spec(t, other) == encrypted_key_spec(s, other)),
{
}

/// A bundle with no chunks cannot be published.
pub proof fn lemma_publish_needs_chunks(s: BundleState, hash: Seq<u8>, make_immutable: bool)
    requires
        s.chunks.len() == 0,
    ensures
        publish_spec(s, hash, make_immutable) is Err,
{
}

/// A state-changing call on a bundle, by value.
pub enum BundleCall {
    Upload { index: u64, data: Seq<u8> },
    Grant { badge: BadgeView, key: Seq<u8> },
    Revoke { badge: BadgeView },
    Publish { hash: Seq<u8>, make_immutable: bool },
    MakeImmutable,
    SetRule { rule: RuleView },
}

/// The outcome of call `c` on the state `s`.
pub open spec fn call_spec(s: BundleState, c: BundleCall) -> Result<BundleState, BundleError> {
    match c {
        BundleCall::Upload { index, data } => upload_chunk_spec(s, index, data),
        BundleCall::Grant { badge, key } => grant_access_spec(s, badge, key),
        BundleCall::Revoke { badge } => revoke_access_spec(s, badge),
        BundleCall::Publish { hash, make_immutable } => publish_spec(s, hash, make_immutable),
        BundleCall::MakeImmutable => make_immutable_spec(s),
        BundleCall::SetRule { rule } => set_access_rule_spec(s, rule),
    }
}

/// The state after the calls `calls`, made in order from `s` (a refused call changes nothing).
pub open spec fn run_calls(s: BundleState, calls: Seq<BundleCall>) -> BundleState
    decreases calls.len(),
{
    if calls.len() == 0 { s } else { after(run_calls(s, calls.drop_last()), call_spec(run_calls(s, calls.drop_last()), calls.last())) }
}

/// Whether `c` is an upload at `index`.
pub open spec fn is_upload_at(c: BundleCall, index: u64) -> bool {
    match c {
        BundleCall::Upload { index: i, .. } => i == index,
        _ => false,
    }
}

/// Whether `c` grants or revokes the key of `badge`.
pub open spec fn is_rekey_of(c: BundleCall, badge: BadgeView) -> bool {
    match c {
        BundleCall::Grant { badge: b, .. } => b == badge,
        BundleCall::Revoke { badge: b } => b == badge,
        _ => false,
    }
}

/// Among `calls` made from `s`, one that succeeds as an upload at `index`.
pub open spec fn reuploads(s: BundleState, calls: Seq<BundleCall>, index: u64) -> bool {
    exists|k: int| 0 <= k < calls.len() && is_upload_at(#[trigger] calls[k], index)
        && call_spec(run_calls(s, calls.take(k)), calls[k]) is Ok
}

/// Among `calls` made from `s`, one that succeeds as a grant or a revocation for `badge`.
pub open spec fn rekeys(s: BundleState, calls: Seq<BundleCall>, badge: BadgeView) -> bool {
    exists|k: int| 0 <= k < calls.len() && is_rekey_of(#[trigger] calls[k], badge)
        && call_spec(run_calls(s, calls.take(k)), calls[k]) is Ok
}

/// What is uploaded is what is read back, whatever comes between: after chunk `index`
/// is uploaded, as long as no later call succeeds in uploading that index again, the
/// chunk stays as uploaded, and once the bundle is published `get_chunk` returns it.
pub proof fn lemma_chunk_survives_calls(s: BundleState, index: u64, data: Seq<u8>, calls: Seq<BundleCall>)
    requires
        upload_chunk_spec(s, index, data) is Ok,
        !reuploads(upload_chunk_spec(s, index, data)->Ok_0, calls, index),
    ensures
        ({
            let t = run_calls(upload_chunk_spec(s, index, data)->Ok_0, calls);
            &&& index < t.chunks.len()
            &&& t.chunks[index as int] == data
            &&& t.published ==> get_chunk_spec(t, index) == Ok::<Seq<u8>, BundleError>(data)
        }),
    decreases calls.len(),
{
    let t0 = upload_chunk_spec(s, index, data)->Ok_0;
    if calls.len() > 0 {
        let front = calls.drop_last();
        assert forall|k: int| 0 <= k < front.len() implies !(is_upload_at(#[trigger] front[k], index)
            && call_spec(run_calls(t0, front.take(k)), front[k]) is Ok) by {
            assert(front.take(k) =~= calls.take(k));
            assert(front[k] == calls[k]);
        }
        lemma_chunk_survives_calls(s, index, data, front);
        let u = run_calls(t0, front);
        let last = calls.last();
        assert(calls.take(calls.len() - 1) =~= front);
        assert(calls[calls.len() - 1] == last);
        match last {
            BundleCall::Upload { index: j, data: d } => {
                if j != index {
                    if call_spec(u, last) is Ok {
                        let g = grow_to(u.chunks, j as nat);
                        assert(g[index as int] == u.chunks[index as int]);
                    }
                }
            },
            _ => {},
        }
    }
}

/// A key granted to a badge is the key handed to that badge, whatever comes between, as
/// long as no later call succeeds in granting or revoking that badge's key.
pub proof fn lemma_key_survives_calls(s: BundleState, badge: BadgeView, key: Seq<u8>, calls: Seq<BundleCall>)
    requires
        grant_access_spec(s, badge, key) is Ok,
        !rekeys(grant_access_spec(s, badge, key)->Ok_0, calls, badge),
    ensures
        encrypted_key_spec(run_calls(grant_access_spec(s, badge, key)->Ok_0, calls), badge)
            == Ok::<Seq<u8>, BundleError>(key),
    decreases calls.len(),
{
    let t0 = grant_access_spec(s, badge, key)->Ok_0;
    if calls.len() > 0 {
        let front = calls.drop_last();
        assert forall|k: int| 0 <= k < front.len() implies !(is_rekey_of(#[trigger] front[k], badge)
            && call_spec(run_calls(t0, front.take(k)), front[k]) is Ok) by {
            assert(front.take(k) =~= calls.take(k));
            assert(front[k] == calls[k]);
        }
        lemma_key_survives_calls(s, badge, key, front);
        assert(calls.take(calls.len() - 1) =~= front);
        assert(calls[calls.len() - 1] == calls.last());
    }
}

/// Per-method access rules of a component, with the rule for methods not listed.
pub struct AccessRules {
    pub method_rules: Vec<(String, AccessRule)>,
    pub default: AccessRule,
}

/// Access rules by value: per-method rules and the default.
pub struct RulesView {
    pub methods: Seq<(Seq<char>, RuleView)>,
    pub default: RuleView,
}

impl View for AccessRules {
    type V = RulesView;

    open spec fn view(&self) -> RulesView {
        RulesView {
            methods: self.method_rules@.map_values(|p: (String, AccessRule)| (p.0@, p.1@)),
            default: self.default@,
        }
    }
}

/// The rule that applies to `method`: its own when listed, else the default.
pub open spec fn rule_for(rules: RulesView, method: Seq<char>) -> RuleView {
    if assoc_map(rules.methods).contains_key(method) {
        assoc_map(rules.methods)[method]
    } else {
        rules.default
    }
}

/// The rules a bundle component runs under: every owner operation needs the owner's
/// badge, chunk and key reads follow the chunk rule, the manifest is open to all, and
/// anything else is denied.
pub open spec fn bundle_rules_spec(owner: BadgeView, chunk_rule: RuleView) -> RulesView {
    RulesView {
        methods: seq![
            ("upload_chunk"@, badge_rule(owner)),
            ("grant_access"@, badge_rule(owner)),
            ("revoke_access"@, badge_rule(owner)),
            ("publish"@, badge_rule(owner)),
            ("make_immutable"@, badge_rule(owner)),
            ("set_access_rule"@, badge_rule(owner)),
            ("get_chunk"@, chunk_rule),
            ("get_encrypted_key"@, chunk_rule),
            ("get_manifest"@, RuleView::AllowAll),
        ],
        default: RuleView::DenyAll,
    }
}

/// Under the bundle rules, every owner operation requires the owner's badge, chunk and
/// key reads follow the chunk rule, the manifest is readable by anyone, and any other
/// method is denied.
pub proof fn lemma_bundle_rules(owner: BadgeView, chunk_rule: RuleView, other: Seq<char>)
    requires
        other != "upload_chunk"@, other != "grant_access"@, other != "revoke_access"@,
        other != "publish"@, other != "make_immutable"@, other != "set_access_rule"@,
        other != "get_chunk"@, other != "get_encrypted_key"@, other != "get_manifest"@,
    ensures
        rule_for(bundle_rules_spec(owner, chunk_rule), "upload_chunk"@) == badge_rule(owner),
        rule_for(bundle_rules_spec(owner, chunk_rule), "grant_access"@) == badge_rule(owner),
        rule_for(bundle_rules_spec(owner, chunk_rule), "revoke_access"@) == badge_rule(owner),
        rule_for(bundle_rules_spec(owner, chunk_rule), "publish"@) == badge_rule(owner),
        rule_for(bundle_rules_spec(owner, chunk_rule), "make_immutable"@) == badge_rule(owner),
        rule_for(bundle_rules_spec(owner, chunk_rule), "set_access_rule"@) == badge_rule(owner),
        rule_for(bundle_rules_spec(owner, chunk_rule), "get_chunk"@) == chunk_rule,
        rule_for(bundle_rules_spec(owner, chunk_rule), "get_encrypted_key"@) == chunk_rule,
        rule_for(bundle_rules_spec(owner, chunk_rule), "get_manifest"@) == RuleView::AllowAll,
        rule_for(bundle_rules_spec(owner, chunk_rule), other) == RuleView::DenyAll,
{
    reveal_strlit("upload_chunk");
    reveal_strlit("grant_access");
    reveal_strlit("revoke_access");
    reveal_strlit("publish");
    reveal_strlit("make_immutable");
    reveal_strlit("set_access_rule");
    reveal_strlit("get_chunk");
    reveal_strlit("get_encrypted_key");
    reveal_strlit("get_manifest");
    let ms = bundle_rules_spec(owner, chunk_rule).methods;
    assert("upload_chunk"@ != "grant_access"@) by { assert("upload_chunk"@[0] != "grant_access"@[0]); }
    assert("upload_chunk"@ != "revoke_access"@) by { assert("upload_chunk"@.len() != "revoke_access"@.len()); }
    assert("upload_chunk"@ != "publish"@) by { assert("upload_chunk"@.len() != "publish"@.len()); }
    assert("upload_chunk"@ != "make_immutable"@) by { assert("upload_chunk"@.len() != "make_immutable"@.len()); }
    assert("upload_chunk"@ != "set_access_rule"@) by { assert("upload_chunk"@.len() != "set_access_rule"@.len()); }
    assert("upload_chunk"@ != "get_chunk"@) by { assert("upload_chunk"@.len() != "get_chunk"@.len()); }
    assert("upload_chunk"@ != "get_encrypted_key"@) by { assert("upload_chunk"@.len() != "get_encrypted_key"@.len()); }
    assert("upload_chunk"@ != "get_manifest"@) by { assert("upload_chunk"@[0] != "get_manifest"@[0]); }
    assert("grant_access"@ != "revoke_access"@) by { assert("grant_access"@.len() != "revoke_access"@.len()); }
    assert("grant_access"@ != "publish"@) by { assert("grant_access"@.len() != "publish"@.len()); }
    assert("grant_access"@ != "make_immutable"@) by { assert("grant_access"@.len() != "make_immutable"@.len()); }
    assert("grant_access"@ != "set_access_rule"@) by { assert("grant_access"@.len() != "set_access_rule"@.len()); }
    assert("grant_access"@ != "get_chunk"@) by { assert("grant_access"@.len() != "get_chunk"@.len()); }
    assert("grant_access"@ != "get_encrypted_key"@) by { assert("grant_access"@.len() != "get_encrypted_key"@.len()); }
    assert("grant_access"@ != "get_manifest"@) by { assert("grant_access"@[1] != "get_manifest"@[1]); }
    assert("revoke_access"@ != "publish"@) by { assert("revoke_access"@.len() != "publish"@.len()); }
    assert("revoke_access"@ != "make_immutable"@) by { assert("revoke_access"@.len() != "make_immutable"@.len()); }
    assert("revoke_access"@ != "set_access_rule"@) by { assert("revoke_access"@.len() != "set_access_rule"@.len()); }
    assert("revoke_access"@ != "get_chunk"@) by { assert("revoke_access"@.len() != "get_chunk"@.len()); }
    assert("revoke_access"@ != "get_encrypted_key"@) by { assert("revoke_access"@.len() != "get_encrypted_key"@.len()); }
    assert("revoke_access"@ != "get_manifest"@) by { assert("revoke_access"@.len() != "get_manifest"@.len()); }
    assert("publish"@ != "make_immutable"@) by { assert("publish"@.len() != "make_immutable"@.len()); }
    assert("publish"@ != "set_access_rule"@) by { assert("publish"@.len() != "set_access_rule"@.len()); }
    assert("publish"@ != "get_chunk"@) by { assert("publish"@.len() != "get_chunk"@.len()); }
    assert("publish"@ != "get_encrypted_key"@) by { assert("publish"@.len() != "get_encrypted_key"@.len()); }
    assert("publish"@ != "get_manifest"@) by { assert("publish"@.len() != "get_manifest"@.len()); }
    assert("make_immutable"@ != "set_access_rule"@) by { assert("make_immutable"@.len() != "set_access_rule"@.len()); }
    assert("make_immutable"@ != "get_chunk"@) by { assert("make_immutable"@.len() != "get_chunk"@.len()); }
    assert("make_immutable"@ != "get_encrypted_key"@) by { assert("make_immutable"@.len() != "get_encrypted_key"@.len()); }
    assert("make_immutable"@ != "get_manifest"@) by { assert("make_immutable"@.len() != "get_manifest"@.len()); }
    assert("set_access_rule"@ != "get_chunk"@) by { assert("set_access_rule"@.len() != "get_chunk"@.len()); }
    assert("set_access_rule"@ != "get_encrypted_key"@) by { assert("set_access_rule"@.len() != "get_encrypted_key"@.len()); }
    assert("set_access_rule"@ != "get_manifest"@) by { assert("set_access_rule"@.len() != "get_manifest"@.len()); }
    assert("get_chunk"@ != "get_encrypted_key"@) by { assert("get_chunk"@.len() != "get_encrypted_key"@.len()); }
    assert("get_chunk"@ != "get_manifest"@) by { assert("get_chunk"@.len() != "get_manifest"@.len()); }
    assert("get_encrypted_key"@ != "get_manifest"@) by { assert("get_encrypted_key"@.len() != "get_manifest"@.len()); }
    lemma_assoc_last_wins(ms, 0);
    lemma_assoc_last_wins(ms, 1);
    lemma_assoc_last_wins(ms, 2);
    lemma_assoc_last_wins(ms, 3);
    lemma_assoc_last_wins(ms, 4);
    lemma_assoc_last_wins(ms, 5);
    lemma_assoc_last_wins(ms, 6);
    lemma_assoc_last_wins(ms, 7);
    lemma_assoc_last_wins(ms, 8);
    assert forall|i: int| 0 <= i < ms.len() implies ms[i].0 != other by {}
    crate::assoc::lemma_assoc_absent(ms, other);
}

/// The access rules for a bundle owned by `owner_badge` whose chunks are gated by `chunk_rule`.
pub fn build_access_rules(owner_badge: &NonFungibleAddress, chunk_rule: &AccessRule) -> (res: AccessRules)
    ensures
        res@ == bundle_rules_spec(owner_badge@, chunk_rule@),
{
    let mut m: Vec<(String, AccessRule)> = Vec::new();
    m.push(("upload_chunk".to_owned(), AccessRule::non_fungible(owner_badge.copy())));
    m.push(("grant_access".to_owned(), AccessRule::non_fungible(owner_badge.copy())));
    m.push(("revoke_access".to_owned(), AccessRule::non_fungible(owner_badge.copy())));
    m.push(("publish".to_owned(), AccessRule::non_fungible(owner_badge.copy())));
    m.push(("make_immutable".to_owned(), AccessRule::non_fungible(owner_badge.copy())));
    m.push(("set_access_rule".to_owned(), AccessRule::non_fungible(owner_badge.copy())));
    m.push(("get_chunk".to_owned(), chunk_rule.copy()));
    m.push(("get_encrypted_key".to_owned(), chunk_rule.copy()));
    m.push(("get_manifest".to_owned(), AccessRule::AllowAll));
    let res = AccessRules { method_rules: m, default: AccessRule::DenyAll };
    assert(res@.methods =~= bundle_rules_spec(owner_badge@, chunk_rule@).methods);
    res
}

/// Every stored field of a bundle, as the ledger keeps it between calls.
pub struct BundleParts {
    pub owner_badge: NonFungibleAddress,
    pub name: String,
    pub version: String,
    pub chunks: Vec<Vec<u8>>,
    pub content_hash: [u8; 32],
    pub content_type: String,
    pub access_rule: AccessRule,
    pub access_keys: Vec<(NonFungibleAddress, Vec<u8>)>,
    pub encryption: Option<String>,
    pub published: bool,
    pub immutable: bool,
}

/// The state that stored fields describe; a later key for a badge replaces an earlier one.
pub open spec fn parts_state(p: BundleParts) -> BundleState {
    BundleState {
        owner_badge: p.owner_badge@,
        name: p.name@,
        version: p.version@,
        chunks: p.chunks@.map_values(|c: Vec<u8>| c@),
        content_hash: p.content_hash@,
        content_type: p.content_type@,
        access_rule: p.access_rule@,
        access_keys: assoc_map(keys_view(p.access_keys@)),
        encryption: match p.encryption {
            Some(e) => Some(e@),
            None => None,
        },
        published: p.published,
        immutable: p.immutable,
    }
}

pub struct DappBundle {
    /// NFT badge that authorises all owner-only operations.
    owner_badge: NonFungibleAddress,
    name: String,
    version: String,
    /// Raw bytes per chunk (ciphertext for encrypted bundles).
    chunks: Vec<Vec<u8>>,
    /// SHA-256 of the fully reassembled plaintext ZIP.
    content_hash: [u8; 32],
    content_type: String,
    /// Access rule enforced on `get_chunk`.
    access_rule: AccessRule,
    /// Per-holder ECIES-encrypted symmetric bundle key, each badge once. Empty for public bundles.
    ///
    /// The map is a `Vec` under an invariant rather than a std map: vstd specifies the std
    /// maps' operations only for key types that it knows to obey its key model (integers
    /// and `bool`), which `NonFungibleAddress` is not, so no call on such a map could be proved.
    access_keys: Vec<(NonFungibleAddress, Vec<u8>)>,
    /// Some(ENCRYPTION_SCHEME) for encrypted bundles, None for public.
    encryption: Option<String>,
    /// False until `publish()` is called; upload_chunk is disabled after publish.
    published: bool,
    /// One-way flag — once true all mutating methods permanently revert.
    immutable: bool,
}

impl View for DappBundle {
    type V = BundleState;

    closed spec fn view(&self) -> BundleState {
        BundleState {
            owner_badge: self.owner_badge@,
            name: self.name@,
            version: self.version@,
            chunks: self.chunks@.map_values(|c: Vec<u8>| c@),
            content_hash: self.content_hash@,
            content_type: self.content_type@,
            access_rule: self.access_rule@,
            access_keys: assoc_map(keys_view(self.access_keys@)),
            encryption: match self.encryption {
                Some(e) => Some(e@),
                None => None,
            },
            published: self.published,
            immutable: self.immutable,
        }
    }
}

impl DappBundle {
    #[verifier::type_invariant]
    closed spec fn badges_distinct(self) -> bool {
        keys_distinct(keys_view(self.access_keys@))
    }

    /// Deploy an empty bundle. Call `upload_chunk` repeatedly, then `publish`.
    ///
    /// - `access_rule`: `AllowAll` for a public dapp; `NonFungible(badge)` for a
    ///   badge-gated dapp.
    /// - `encryption`: `None` for a public bundle; `Some(ENCRYPTION_SCHEME)` when chunks
    ///   will be ciphertext.
    ///
    /// The component runs under `access_rules()`.
    pub fn new(
        owner_badge: NonFungibleAddress,
        name: String,
        version: String,
        content_type: String,
        access_rule: AccessRule,
        encryption: Option<String>,
    ) -> (res: DappBundle)
        ensures
            res@ == new_state(owner_badge@, name@, version@, content_type@, access_rule@,
                match encryption { Some(e) => Some(e@), None => None }),
    {
        let res = DappBundle {
            owner_badge,
            name,
            version,
            chunks: Vec::new(),
            content_hash: [0u8; 32],
            content_type,
            access_rule,
            access_keys: Vec::new(),
            encryption,
            published: false,
            immutable: false,
        };
        assert(res@.chunks =~= Seq::<Seq<u8>>::empty());
        assert(res@.content_hash =~= Seq::new(32, |i: int| 0u8));
        assert(keys_view(res.access_keys@) =~= Seq::<(BadgeView, Seq<u8>)>::empty());
        assert(res@.access_keys =~= Map::<BadgeView, Seq<u8>>::empty());
        res
    }

    /// The bundle whose stored fields are `parts`.
    pub fn from_parts(parts: BundleParts) -> (res: DappBundle)
        ensures
            res@ == parts_state(parts),
    {
        let ghost pv = keys_view(parts.access_keys@);
        let BundleParts {
            owner_badge, name, version, chunks, content_hash, content_type, access_rule, access_keys,
            encryption, published, immutable,
        } = parts;
        let mut res = DappBundle {
            owner_badge,
            name,
            version,
            chunks,
            content_hash,
            content_type,
            access_rule,
            access_keys: Vec::new(),
            encryption,
            published,
            immutable,
        };
        assert(keys_view(res.access_keys@) =~= Seq::<(BadgeView, Seq<u8>)>::empty());
        assert(pv.take(0) =~= Seq::<(BadgeView, Seq<u8>)>::empty());
        let mut i: usize = 0;
        while i < access_keys.len()
            invariant
                pv == keys_view(access_keys@),
                i <= access_keys.len(),
                res@ == (BundleState { access_keys: assoc_map(pv.take(i as int)), ..parts_state(parts) }),
            decreases access_keys.len() - i,
        {
            let badge = access_keys[i].0.copy();
            let key = vstd::slice::slice_to_vec(access_keys[i].1.as_slice());
            assert(pv[i as int] == (badge@, key@));
            res.put_key(badge, key);
            assert(pv.take(i as int + 1).drop_last() =~= pv.take(i as int));
            i = i + 1;
        }
        assert(pv.take(i as int) =~= pv);
        res
    }

    /// The stored fields of the bundle, each badge's key listed once.
    pub fn into_parts(self) -> (res: BundleParts)
        ensures
            parts_state(res) == self@,
            keys_distinct(keys_view(res.access_keys@)),
    {
        proof { use_type_invariant(&self); }
        let DappBundle {
            owner_badge, name, version, chunks, content_hash, content_type, access_rule, access_keys,
            encryption, published, immutable,
        } = self;
        BundleParts {
            owner_badge, name, version, chunks, content_hash, content_type, access_rule, access_keys,
            encryption, published, immutable,
        }
    }

    /// The access rules the component runs under.
    pub fn access_rules(&self) -> (res: AccessRules)
        ensures
            res@ == bundle_rules_spec(self@.owner_badge, self@.access_rule),
    {
        build_access_rules(&self.owner_badge, &self.access_rule)
    }

    /// Upload (or replace) a single chunk. Chunks may be uploaded in any order before `publish`.
    /// `data` must not exceed CHUNK_SIZE_BYTES.
    pub fn upload_chunk(&mut self, index: u64, data: Vec<u8>) -> (res: Result<(), BundleError>)
        requires
            index < usize::MAX,
        ensures
            final(self)@ == after(old(self)@, upload_chunk_spec(old(self)@, index, data@)),
            same_outcome(res, upload_chunk_spec(old(self)@, index, data@)),
    {
        proof { use_type_invariant(&*self); }
        if self.immutable {
            return Err(BundleError::Immutable);
        }
        if self.published {
            return Err(BundleError::AlreadyPublished);
        }
        if data.len() > CHUNK_SIZE_BYTES {
            return Err(BundleError::ChunkTooLarge { index, size: data.len() });
        }
        let idx = index as usize;
        let ghost old_chunks = self.chunks@.map_values(|c: Vec<u8>| c@);
        let ghost grown = grow_to(old_chunks, index as nat);
        let mut chunks: Vec<Vec<u8>> = Vec::new();
        std::mem::swap(&mut chunks, &mut self.chunks);
        if idx >= chunks.len() {
            let start = chunks.len();
            while chunks.len() < idx + 1
                invariant
                    idx < usize::MAX,
                    start <= chunks.len() <= idx + 1,
                    start == old_chunks.len(),
                    forall|k: int| 0 <= k < start ==> (#[trigger] chunks@[k])@ == old_chunks[k],
                    forall|k: int| start <= k < chunks@.len() ==> (#[trigger] chunks@[k])@ == Seq::<u8>::empty(),
                decreases idx + 1 - chunks.len(),
            {
                chunks.push(Vec::new());
            }
            assert(chunks@.map_values(|c: Vec<u8>| c@) =~= grown);
        } else {
            assert(chunks@.map_values(|c: Vec<u8>| c@) =~= grown);
        }
        let ghost d = data@;
        chunks.set(idx, data);
        assert(chunks@.map_values(|c: Vec<u8>| c@) =~= grown.update(index as int, d));
        self.chunks = chunks;
        assert(self@ =~= after(old(self)@, upload_chunk_spec(old(self)@, index, d)));
        Ok(())
    }

    /// The position of `badge` among the stored keys.
    fn key_position(&self, badge: &NonFungibleAddress) -> (res: Option<usize>)
        ensures
            match res {
                Some(i) => i < self.access_keys@.len() && keys_view(self.access_keys@)[i as int].0 == badge@,
                None => forall|k: int| 0 <= k < self.access_keys@.len() ==> (#[trigger] keys_view(self.access_keys@)[k]).0 != badge@,
            },
    {
        let mut i: usize = 0;
        while i < self.access_keys.len()
            invariant
                i <= self.access_keys.len(),
                forall|k: int| 0 <= k < i ==> (#[trigger] keys_view(self.access_keys@)[k]).0 != badge@,
            decreases self.access_keys.len() - i,
        {
            if self.access_keys[i].0.same(badge) {
                return Some(i);
            }
            i = i + 1;
        }
        None
    }

    /// Set the key of `badge`, replacing any earlier one.
    fn put_key(&mut self, badge: NonFungibleAddress, encrypted_key: Vec<u8>)
        ensures
            final(self)@ == (BundleState { access_keys: old(self)@.access_keys.insert(badge@, encrypted_key@), ..old(self)@ }),
    {
        proof { use_type_invariant(&*self); }
        let ghost kv = keys_view(self.access_keys@);
        let ghost b = badge@;
        let ghost k = encrypted_key@;
        let pos = self.key_position(&badge);
        let mut keys: Vec<(NonFungibleAddress, Vec<u8>)> = Vec::new();
        std::mem::swap(&mut keys, &mut self.access_keys);
        match pos {
            Some(i) => {
                proof { lemma_assoc_update(kv, i as int, k); }
                keys.set(i, (badge, encrypted_key));
                assert(keys_view(keys@) =~= kv.update(i as int, (kv[i as int].0, k)));
            },
            None => {
                proof { lemma_assoc_push(kv, b, k); }
                keys.push((badge, encrypted_key));
                assert(keys_view(keys@) =~= kv.push((b, k)));
            },
        }
        self.access_keys = keys;
        assert(self@ =~= BundleState { access_keys: old(self)@.access_keys.insert(b, k), ..old(self)@ });
    }

    /// Store an ECIES-encrypted bundle key for a badge holder.
    /// `encrypted_key` is `ECIES-Encrypt(holder_ristretto_pubkey, symmetric_key)`.
    pub fn grant_access(&mut self, badge: NonFungibleAddress, encrypted_key: Vec<u8>) -> (res: Result<(), BundleError>)
        ensures
            final(self)@ == after(old(self)@, grant_access_spec(old(self)@, badge@, encrypted_key@)),
            same_outcome(res, grant_access_spec(old(self)@, badge@, encrypted_key@)),
    {
        proof { use_type_invariant(&*self); }
        if self.immutable {
            return Err(BundleError::Immutable);
        }
        let ghost b = badge@;
        let ghost k = encrypted_key@;
        self.put_key(badge, encrypted_key);
        assert(self@ =~= after(old(self)@, grant_access_spec(old(self)@, b, k)));
        Ok(())
    }

    /// Remove a holder's encrypted key entry.
    pub fn revoke_access(&mut self, badge: NonFungibleAddress) -> (res: Result<(), BundleError>)
        ensures
            final(self)@ == after(old(self)@, revoke_access_spec(old(self)@, badge@)),
            same_outcome(res, revoke_access_spec(old(self)@, badge@)),
    {
        proof { use_type_invariant(&*self); }
        if self.immutable {
            return Err(BundleError::Immutable);
        }
        let ghost kv = keys_view(self.access_keys@);
        let pos = self.key_position(&badge);
        match pos {
            Some(i) => {
                let mut keys: Vec<(NonFungibleAddress, Vec<u8>)> = Vec::new();
                std::mem::swap(&mut keys, &mut self.access_keys);
                proof { lemma_assoc_remove(kv, i as int); }
                let _ = keys.remove(i);
                assert(keys_view(keys@) =~= kv.remove(i as int));
                self.access_keys = keys;
            },
            None => {
                proof { lemma_assoc_absent(kv, badge@); }
                assert(self@.access_keys =~= old(self)@.access_keys.remove(badge@));
            },
        }
        assert(self@ =~= after(old(self)@, revoke_access_spec(old(self)@, badge@)));
        Ok(())
    }

    /// Return the ECIES-encrypted key for a specific badge holder (called by the wallet daemon).
    pub fn get_encrypted_key(&self, badge: NonFungibleAddress) -> (res: Result<Vec<u8>, BundleError>)
        ensures
            match encrypted_key_spec(self@, badge@) {
                Ok(k) => res matches Ok(r) && r@ == k,
                Err(e) => res == Err::<Vec<u8>, BundleError>(e),
            },
    {
        proof { use_type_invariant(self); }
        let ghost kv = keys_view(self.access_keys@);
        match self.key_position(&badge) {
            Some(i) => {
                proof { lemma_assoc_lookup(kv, i as int); }
                Ok(vstd::slice::slice_to_vec(self.access_keys[i].1.as_slice()))
            },
            None => {
                proof { lemma_assoc_absent(kv, badge@); }
                Err(BundleError::NoKeyForBadge)
            },
        }
    }

    /// Seal the bundle. After this call, `upload_chunk` is permanently disabled.
    /// `content_hash` must be the SHA-256 of the fully reassembled plaintext ZIP.
    /// Set `make_immutable` to true to also lock access rules and key entries permanently.
    pub fn publish(&mut self, content_hash: [u8; 32], make_immutable: bool) -> (res: Result<(), BundleError>)
        ensures
            final(self)@ == after(old(self)@, publish_spec(old(self)@, content_hash@, make_immutable)),
            same_outcome(res, publish_spec(old(self)@, content_hash@, make_immutable)),
    {
        proof { use_type_invariant(&*self); }
        if self.immutable {
            return Err(BundleError::Immutable);
        }
        if self.published {
            return Err(BundleError::AlreadyPublished);
        }
        if self.chunks.len() == 0 {
            return Err(BundleError::NoChunks);
        }
        self.content_hash = content_hash;
        self.published = true;
        if make_immutable {
            self.immutable = true;
        }
        assert(self@ =~= after(old(self)@, publish_spec(old(self)@, content_hash@, make_immutable)));
        Ok(())
    }

    /// Permanently lock the bundle. Once called, all mutating methods are disabled forever.
    /// A user who verifies `manifest.immutable == true` knows the bundle cannot be censored
    /// by the owner regardless of future intentions.
    pub fn make_immutable(&mut self) -> (res: Result<(), BundleError>)
        ensures
            final(self)@ == after(old(self)@, make_immutable_spec(old(self)@)),
            same_outcome(res, make_immutable_spec(old(self)@)),
            !old(self)@.immutable ==> res is Ok && final(self)@.immutable
                && final(self)@ == (BundleState { immutable: true, ..old(self)@ }),
            old(self)@.immutable ==> res == Err::<(), BundleError>(BundleError::AlreadyImmutable)
                && final(self)@ == old(self)@,
    {
        proof { use_type_invariant(&*self); }
        if self.immutable {
            return Err(BundleError::AlreadyImmutable);
        }
        self.immutable = true;
        assert(self@ =~= after(old(self)@, make_immutable_spec(old(self)@)));
        Ok(())
    }

    /// Return publicly readable bundle metadata. Never gated by access rules.
    pub fn get_manifest(&self) -> (res: BundleManifest)
        ensures
            res.name@ == self@.name,
            res.version@ == self@.version,
            res.chunk_count == self@.chunks.len(),
            res.content_hash@ == self@.content_hash,
            res.content_type@ == self@.content_type,
            res.published == self@.published,
            res.immutable == self@.immutable,
            res.encrypted == self@.encryption is Some,
            res.access_rule_summary@ == rule_summary(self@.access_rule),
    {
        let access_rule_summary = match &self.access_rule {
            AccessRule::AllowAll => "public".to_owned(),
            _ => "badge-gated".to_owned(),
        };
        BundleManifest {
            name: self.name.clone(),
            version: self.version.clone(),
            chunk_count: self.chunks.len() as u64,
            content_hash: self.content_hash,
            content_type: self.content_type.clone(),
            published: self.published,
            immutable: self.immutable,
            encrypted: self.encryption.is_some(),
            access_rule_summary,
        }
    }

    /// Return a single chunk. Gated by the access rule (set at deploy time or via `set_access_rule`).
    /// For encrypted bundles the returned bytes are ciphertext — decryption is the caller's responsibility.
    pub fn get_chunk(&self, index: u64) -> (res: Result<Vec<u8>, BundleError>)
        ensures
            match get_chunk_spec(self@, index) {
                Ok(c) => res matches Ok(r) && r@ == c,
                Err(e) => res == Err::<Vec<u8>, BundleError>(e),
            },
    {
        if !self.published {
            return Err(BundleError::NotPublished);
        }
        if index >= self.chunks.len() as u64 {
            return Err(BundleError::ChunkOutOfRange { index, count: self.chunks.len() });
        }
        let idx = index as usize;
        Ok(vstd::slice::slice_to_vec(self.chunks[idx].as_slice()))
    }

    /// Update the access rule that gates `get_chunk`, and return the component access
    /// rules to enforce from now on.
    pub fn set_access_rule(&mut self, rule: AccessRule) -> (res: Result<AccessRules, BundleError>)
        ensures
            final(self)@ == after(old(self)@, set_access_rule_spec(old(self)@, rule@)),
            same_outcome(res, set_access_rule_spec(old(self)@, rule@)),
            res matches Ok(r) ==> r@ == bundle_rules_spec(old(self)@.owner_badge, rule@),
    {
        proof { use_type_invariant(&*self); }
        if self.immutable {
            return Err(BundleError::Immutable);
        }
        let rules = build_access_rules(&self.owner_badge, &rule);
        self.access_rule = rule;
        assert(self@ =~= after(old(self)@, set_access_rule_spec(old(self)@, rule@)));
        Ok(rules)
    }
}

} // verus!
