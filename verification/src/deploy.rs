//! The deploy procedure as a state machine: each reply from the wallet daemon or the
//! file system is an event, and each step names the next thing to do.

use vstd::prelude::*;
use std::path::PathBuf;
use crate::archive::{ArchiveError, TreeEntry, zip_listing, tree_listing, tree_packs};
use crate::bundle::{Bundle, chunk_at, chunk_count_spec, chunks_spec, chunks_view, hex_spec, sha256_spec,
    split_chunks, hex_encode, hex_decode, ascii_lower, is_hex_text};
use crate::ipfs::{IpfsMode, bundle_file_name};
use crate::json::{JsonValue, first_component, extract_component_address};
use crate::manifest::{self, Variables, chunk_var_text, deploy_text, upload_chunk_text, publish_text, register_text,
    grant_access_text};
use crate::sealing::{SealError, fresh_key, seal_bundle, wrap_key, is_sealed_bundle, is_wrapped_key,
    ristretto_decodes_spec};
use crate::text::{push_padded_zeros, pad_left_zeros_spec};

verus! {

#[verifier::external_type_specification]
#[verifier::external_body]
pub struct ExPathBuf(PathBuf);

/// The NFT address of the public-identity badge for a public key: `nft_`, the hex of
/// the public-identity resource address, `_u256_`, and the key zero-padded to 64 digits.
pub open spec fn nft_address_spec(pubkey_hex: Seq<char>) -> Seq<char> {
    "nft_"@ + "0000000000000000000000000000000000000000000000000000000000000001"@ + "_u256_"@
        + pad_left_zeros_spec(pubkey_hex, 64)
}

/// A 64-digit key appears unchanged at the end of its badge address; a shorter one
/// is zero-filled to 64 digits.
pub proof fn lemma_nft_address_shape(pubkey_hex: Seq<char>)
    ensures
        pubkey_hex.len() >= 64 ==> nft_address_spec(pubkey_hex) == "nft_"@
            + "0000000000000000000000000000000000000000000000000000000000000001"@ + "_u256_"@ + pubkey_hex,
        pad_left_zeros_spec(pubkey_hex, 64).len() >= 64,
        pubkey_hex.len() < 64 ==> pad_left_zeros_spec(pubkey_hex, 64).len() == 64,
        pad_left_zeros_spec(pubkey_hex, 64).subrange(
            pad_left_zeros_spec(pubkey_hex, 64).len() - pubkey_hex.len(), pad_left_zeros_spec(pubkey_hex, 64).len() as int)
            == pubkey_hex,
{
    let p = pad_left_zeros_spec(pubkey_hex, 64);
    assert(p.subrange(p.len() - pubkey_hex.len(), p.len() as int) =~= pubkey_hex);
}

/// Convert a 32-byte hex public key into the canonical NFT address string
/// used by PUBLIC_IDENTITY_RESOURCE.
/// Format: `nft_<PUBLIC_IDENTITY_RESOURCE_HEX>_u256_<pubkey_hex>`, the key left-padded
/// with zeros to 64 characters (32 bytes = U256).
pub fn pubkey_to_nft_address(pubkey_hex: &str) -> (res: Result<String, DeployError>)
    ensures
        res matches Ok(a) && a@ == nft_address_spec(pubkey_hex@),
{
    let mut a = String::new();
    a.append("nft_");
    a.append("0000000000000000000000000000000000000000000000000000000000000001");
    a.append("_u256_");
    push_padded_zeros(&mut a, pubkey_hex, 64);
    assert(a@ =~= nft_address_spec(pubkey_hex@));
    Ok(a)
}

/// Everything a deploy needs to know.
pub struct DeployArgs {
    pub dist_dir: PathBuf,
    pub name: String,
    pub version: String,
    pub content_type: String,
    pub encrypted: bool,
    pub immutable: bool,
    pub bundle_template: String,
    pub registry_address: Option<String>,
    pub max_fee: u64,
    pub ipfs_mode: Option<IpfsMode>,
}

/// Why a deploy stopped.
pub enum DeployError {
    /// The dist directory could not be packed.
    Archive(ArchiveError),
    /// The deploy transaction's result names no new component.
    NoComponentAddress { result: JsonValue },
    /// An event arrived that the current stage does not expect.
    UnexpectedEvent,
    /// The owner public key is not 32 bytes of hex, so no key can be wrapped for it.
    OwnerKey,
    /// Sealing the private bundle or wrapping its key failed.
    Seal(SealError),
}


/// What a submitted transaction is for.
pub enum TxPurpose {
    /// Deploying the bundle component.
    Deploy,
    /// Uploading chunk `index`.
    UploadChunk { index: u64 },
    /// Storing the owner's wrapped bundle key (private bundles).
    GrantAccess,
    /// Publishing (sealing) the bundle.
    Publish,
    /// Registering the bundle's name.
    Register,
}

/// The next thing the driver of a deploy must do.
pub enum DeployAction {
    /// Authenticate with the wallet daemon.
    Authenticate,
    /// Fetch the default account.
    FetchAccount,
    /// Walk the dist directory.
    ReadDist,
    /// Submit a manifest with its variables and wait for its result.
    Submit { purpose: TxPurpose, manifest: String, variables: Variables, max_fee: u64 },
    /// Pin the bundle archive to IPFS under `file_name`.
    Pin { file_name: String, bytes: Vec<u8> },
    /// The deploy is complete.
    Finished { bundle_address: String },
}

/// What the driver reports back after doing an action.
pub enum DeployEvent {
    /// Authentication succeeded.
    Authenticated,
    /// The default account's owner public key (hex).
    Account { owner_pubkey: String },
    /// The walked dist directory.
    DistRead { entries: Vec<TreeEntry> },
    /// The result of the submitted transaction.
    Submitted { result: JsonValue },
    /// The CID under which the archive was pinned.
    Pinned { cid: String },
}

/// Where a deploy stands.
pub enum Stage {
    Authenticating,
    FetchingAccount,
    ReadingDist,
    Deploying,
    Uploading { index: usize },
    Granting,
    Publishing,
    Registering,
    Pinning,
    Done,
    Failed,
}

/// The constructor that a deploy manifest calls.
pub open spec fn deploy_ctor(encrypted: bool) -> Seq<char> {
    if encrypted { "new_encrypted"@ } else { "new_public"@ }
}

/// `a` submits `manifest` with exactly the variables `vars` under `fee`, for `purpose`.
pub open spec fn submits(
    a: DeployAction,
    purpose: TxPurpose,
    manifest: Seq<char>,
    vars: Map<Seq<char>, Seq<char>>,
    fee: u64,
) -> bool {
    &&& a is Submit
    &&& a->purpose == purpose
    &&& a->manifest@ == manifest
    &&& a->variables@ == vars
    &&& a->max_fee == fee
}

proof fn lemma_chunk_len(chunks: Seq<Vec<u8>>, payload: Seq<u8>)
    requires
        chunks_view(chunks) == chunks_spec(payload),
    ensures
        chunks.len() == chunk_count_spec(payload.len()),
        forall|i: int| 0 <= i < chunks.len() ==> (#[trigger] chunks[i])@ == chunk_at(payload, i),
{
    assert(chunks_view(chunks).len() == chunks.len());
    assert forall|i: int| 0 <= i < chunks.len() implies (#[trigger] chunks[i])@ == chunk_at(payload, i) by {
        assert(chunks_view(chunks)[i] == chunks[i]@);
        assert(chunks_spec(payload)[i] == chunk_at(payload, i));
    }
}

/// `holder` is the 32-byte public key that the hex text `pubkey` spells.
pub open spec fn owner_key_bytes(holder: Seq<u8>, pubkey: Seq<char>) -> bool {
    holder.len() == 32 && hex_spec(holder) == ascii_lower(pubkey)
}

/// Whether `pubkey` spells 32 bytes in hexadecimal.
pub open spec fn owner_key_ok(pubkey: Seq<char>) -> bool {
    pubkey.len() == 64 && is_hex_text(pubkey)
}

/// What is uploaded for a bundle of `bytes`: the bytes themselves for a public bundle;
/// for a private one, the bytes sealed under some fresh 32-byte key, beside that key
/// wrapped for the owner's public key, which `pubkey` spells in hex.
pub open spec fn sealed_as_asked(encrypted: bool, bytes: Seq<u8>, payload: Seq<u8>, wrapped: Seq<u8>, pubkey: Seq<char>) -> bool {
    if encrypted {
        exists|k: Seq<u8>, holder: Seq<u8>| k.len() == 32 && owner_key_bytes(holder, pubkey)
            && #[trigger] is_sealed_bundle(payload, k, bytes) && #[trigger] is_wrapped_key(wrapped, k, holder)
    } else {
        payload == bytes && wrapped.len() == 0
    }
}

/// The upload payload and the owner's wrapped key for a bundle of `bytes`: for a private
/// bundle a fresh key seals the bytes and is wrapped for the owner's public key (hex).
/// A public bundle always succeeds; a private one fails on an owner key that is not 32
/// bytes of hex or not a point, and otherwise only when the random source or the cipher
/// fails.
fn pack_payload(encrypted: bool, owner_pubkey: &str, bytes: &Vec<u8>) -> (res: Result<(Vec<u8>, Vec<u8>), DeployError>)
    ensures
        res matches Ok((p, w)) ==> sealed_as_asked(encrypted, bytes@, p@, w@, owner_pubkey@),
        res matches Err(e) ==> encrypted && (e is OwnerKey || e is Seal),
        res matches Err(DeployError::OwnerKey) <==> encrypted && !owner_key_ok(owner_pubkey@),
        res matches Err(DeployError::Seal(SealError::BadPublicKey)) ==> exists|h: Seq<u8>|
            #[trigger] owner_key_bytes(h, owner_pubkey@) && !ristretto_decodes_spec(h),
        encrypted && owner_key_ok(owner_pubkey@)
            && (forall|h: Seq<u8>| #[trigger] owner_key_bytes(h, owner_pubkey@) ==> ristretto_decodes_spec(h))
            ==> (res is Ok || (res matches Err(DeployError::Seal(e)) && (e is Random || e is Cipher))),
{
    if !encrypted {
        return Ok((vstd::slice::slice_to_vec(bytes.as_slice()), Vec::new()));
    }
    let holder = match hex_decode(owner_pubkey) {
        Ok(h) => h,
        Err(_) => { return Err(DeployError::OwnerKey); },
    };
    proof { crate::bundle::lemma_hex_shape(holder@); }
    if holder.len() != 32 {
        return Err(DeployError::OwnerKey);
    }
    assert(owner_key_bytes(holder@, owner_pubkey@));
    let key = match fresh_key() {
        Ok(k) => k,
        Err(e) => { return Err(DeployError::Seal(e)); },
    };
    let sealed = match seal_bundle(&key, bytes.as_slice()) {
        Ok(c) => c,
        Err(e) => { return Err(DeployError::Seal(e)); },
    };
    let wrapped = match wrap_key(&holder, &key) {
        Ok(w) => w,
        Err(e) => { return Err(DeployError::Seal(e)); },
    };
    assert(is_sealed_bundle(sealed@, key@, bytes@));
    assert(is_wrapped_key(wrapped@, key@, holder@));
    Ok((sealed, wrapped))
}

/// A deploy in progress.
pub struct DeployRun {
    args: DeployArgs,
    stage: Stage,
    owner_pubkey: String,
    bundle: Option<Bundle>,
    payload: Vec<u8>,
    payload_chunks: Vec<Vec<u8>>,
    wrapped_key: Vec<u8>,
    bundle_address: String,
}

impl DeployRun {
    #[verifier::type_invariant]
    closed spec fn inv(self) -> bool {
        &&& self.bundle matches Some(b) ==> b.wf()
        &&& self.bundle is Some ==> chunks_view(self.payload_chunks@) == chunks_spec(self.payload@)
        &&& match self.stage {
            Stage::Deploying | Stage::Granting | Stage::Publishing | Stage::Registering | Stage::Pinning
                | Stage::Done => self.bundle is Some,
            Stage::Uploading { index } => self.bundle is Some && index < self.payload_chunks@.len(),
            _ => true,
        }
    }

    /// The arguments the deploy was started with.
    pub closed spec fn args_of(&self) -> DeployArgs {
        self.args
    }

    /// The current stage.
    pub closed spec fn stage_of(&self) -> Stage {
        self.stage
    }

    /// The owner public key, once fetched.
    pub closed spec fn pubkey_of(&self) -> Seq<char> {
        self.owner_pubkey@
    }

    /// The bundle, once packed.
    pub closed spec fn bundle_of(&self) -> Option<Bundle> {
        self.bundle
    }

    /// The new component's address, once deployed.
    pub closed spec fn address_of(&self) -> Seq<char> {
        self.bundle_address@
    }

    /// The bytes that are uploaded, once packed: the archive itself for a public bundle,
    /// the sealed archive for a private one.
    pub closed spec fn payload_of(&self) -> Seq<u8> {
        self.payload@
    }

    /// The owner's wrapped bundle key, once packed (private bundles).
    pub closed spec fn wrapped_of(&self) -> Seq<u8> {
        self.wrapped_key@
    }

    /// The bundle bytes, once packed.
    pub open spec fn bytes_of(&self) -> Seq<u8> {
        self.bundle_of()->0.bytes@
    }

    /// The number of chunks uploaded, once packed.
    pub open spec fn chunks_of(&self) -> nat {
        chunk_count_spec(self.payload_of().len())
    }

    /// Begin a deploy: the first action is to authenticate.
    pub fn new(args: DeployArgs) -> (res: (DeployRun, DeployAction))
        ensures
            res.0.args_of() == args,
            res.0.stage_of() is Authenticating,
            res.1 is Authenticate,
    {
        let run = DeployRun {
            args,
            stage: Stage::Authenticating,
            owner_pubkey: String::new(),
            bundle: None,
            payload: Vec::new(),
            payload_chunks: Vec::new(),
            wrapped_key: Vec::new(),
            bundle_address: String::new(),
        };
        (run, DeployAction::Authenticate)
    }

    /// The arguments the deploy was started with.
    pub fn args(&self) -> (res: &DeployArgs)
        ensures
            *res == self.args_of(),
    {
        &self.args
    }

    /// The current stage.
    pub fn stage(&self) -> (res: &Stage)
        ensures
            *res == self.stage_of(),
    {
        &self.stage
    }

    /// The new component's address (empty until the deploy transaction names it).
    pub fn bundle_address(&self) -> (res: &str)
        ensures
            res@ == self.address_of(),
    {
        self.bundle_address.as_str()
    }

    /// The bytes that are uploaded in chunks: the archive for a public bundle, the
    /// sealed archive for a private one (empty until the dist tree is packed).
    pub fn payload(&self) -> (res: &Vec<u8>)
        ensures
            res@ == self.payload_of(),
    {
        &self.payload
    }

    /// The number of chunks that are uploaded, once the dist tree is packed.
    pub fn payload_chunk_count(&self) -> (n: usize)
        ensures
            self.bundle_of() is Some ==> n == self.chunks_of(),
    {
        proof {
            use_type_invariant(self);
            if self.bundle is Some {
                lemma_chunk_len(self.payload_chunks@, self.payload@);
            }
        }
        self.payload_chunks.len()
    }

    /// The owner's wrapped bundle key (empty for a public bundle).
    pub fn wrapped_key(&self) -> (res: &Vec<u8>)
        ensures
            res@ == self.wrapped_of(),
    {
        &self.wrapped_key
    }

    /// The packed bundle, once there is one.
    pub fn bundle(&self) -> (res: Option<&Bundle>)
        ensures
            match res {
                Some(b) => self.bundle_of() == Some(*b),
                None => self.bundle_of() is None,
            },
    {
        match &self.bundle {
            Some(b) => Some(b),
            None => None,
        }
    }

    /// The action that follows the last on-chain step: pin to IPFS when a backend was
    /// given, else finish.
    fn conclude(&mut self) -> (res: DeployAction)
        requires
            old(self).bundle_of() is Some,
        ensures
            final(self).args_of() == old(self).args_of(),
            final(self).pubkey_of() == old(self).pubkey_of(),
            final(self).bundle_of() == old(self).bundle_of(),
            final(self).address_of() == old(self).address_of(),
            old(self).args_of().ipfs_mode is Some ==> final(self).stage_of() is Pinning
                && (res matches DeployAction::Pin { file_name, bytes }
                && file_name@ == old(self).args_of().name@ + "-"@ + old(self).args_of().version@ + ".zip"@
                && bytes@ == old(self).bytes_of()),
            old(self).args_of().ipfs_mode is None ==> final(self).stage_of() is Done
                && (res matches DeployAction::Finished { bundle_address }
                && bundle_address@ == old(self).address_of()),
    {
        proof { use_type_invariant(&*self); }
        if self.args.ipfs_mode.is_some() {
            let file_name = bundle_file_name(self.args.name.as_str(), self.args.version.as_str());
            let bytes = vstd::slice::slice_to_vec(self.bundle.as_ref().unwrap().bytes.as_slice());
            self.stage = Stage::Pinning;
            DeployAction::Pin { file_name, bytes }
        } else {
            self.stage = Stage::Done;
            DeployAction::Finished { bundle_address: self.bundle_address.clone() }
        }
    }

    fn fail(&mut self) -> (res: DeployError)
        ensures
            final(self).stage_of() is Failed,
            final(self).args_of() == old(self).args_of(),
            res is UnexpectedEvent,
    {
        proof { use_type_invariant(&*self); }
        self.stage = Stage::Failed;
        DeployError::UnexpectedEvent
    }

    fn upload_action(&self, i: usize) -> (res: DeployAction)
        requires
            self.bundle_of() is Some,
            i < self.chunks_of(),
        ensures
            submits(res, TxPurpose::UploadChunk { index: i as u64 },
                upload_chunk_text(self.address_of(), i as nat),
                Map::empty().insert(chunk_var_text(i as nat), hex_spec(chunk_at(self.payload_of(), i as int))),
                self.args_of().max_fee),
    {
        proof {
            use_type_invariant(self);
            lemma_chunk_len(self.payload_chunks@, self.payload@);
        }
        let (m, var_name) = manifest::upload_chunk(self.bundle_address.as_str(), i as u64);
        let mut variables = Variables::new();
        variables.insert(var_name, hex_encode(self.payload_chunks[i].as_slice()));
        DeployAction::Submit {
            purpose: TxPurpose::UploadChunk { index: i as u64 },
            manifest: m,
            variables,
            max_fee: self.args.max_fee,
        }
    }

    fn grant_action(&self) -> (res: Result<DeployAction, DeployError>)
        ensures
            res matches Ok(a) && submits(a, TxPurpose::GrantAccess, grant_access_text(self.address_of()),
                Map::empty().insert("holder_badge"@, nft_address_spec(self.pubkey_of()))
                    .insert("encrypted_key"@, hex_spec(self.wrapped_of())),
                self.args_of().max_fee),
    {
        let badge = match pubkey_to_nft_address(self.owner_pubkey.as_str()) {
            Ok(b) => b,
            Err(e) => { return Err(e); },
        };
        let m = manifest::grant_access(self.bundle_address.as_str());
        let mut variables = Variables::new();
        variables.insert("holder_badge".to_owned(), badge);
        variables.insert("encrypted_key".to_owned(), hex_encode(self.wrapped_key.as_slice()));
        Ok(DeployAction::Submit { purpose: TxPurpose::GrantAccess, manifest: m, variables, max_fee: self.args.max_fee })
    }

    fn publish_action(&self) -> (res: DeployAction)
        requires
            self.bundle_of() is Some,
        ensures
            submits(res, TxPurpose::Publish, publish_text(self.address_of(), self.args_of().immutable),
                Map::empty().insert("content_hash"@, hex_spec(sha256_spec(self.bytes_of()))),
                self.args_of().max_fee),
    {
        proof { use_type_invariant(self); }
        let b = self.bundle.as_ref().unwrap();
        let m = manifest::publish(self.bundle_address.as_str(), self.args.immutable);
        let mut variables = Variables::new();
        variables.insert("content_hash".to_owned(), b.content_hash_hex());
        DeployAction::Submit { purpose: TxPurpose::Publish, manifest: m, variables, max_fee: self.args.max_fee }
    }

    /// The outcome of the last on-chain step as `conclude` produces it.
    pub open spec fn concludes(old_run: DeployRun, new_run: DeployRun, res: Result<DeployAction, DeployError>) -> bool {
        &&& new_run.pubkey_of() == old_run.pubkey_of()
        &&& new_run.bundle_of() == old_run.bundle_of()
        &&& new_run.address_of() == old_run.address_of()
        &&& old_run.args_of().ipfs_mode is Some ==> new_run.stage_of() is Pinning
            && (res matches Ok(DeployAction::Pin { file_name, bytes })
            && file_name@ == old_run.args_of().name@ + "-"@ + old_run.args_of().version@ + ".zip"@
            && bytes@ == old_run.bytes_of())
        &&& old_run.args_of().ipfs_mode is None ==> new_run.stage_of() is Done
            && (res matches Ok(DeployAction::Finished { bundle_address })
            && bundle_address@ == old_run.address_of())
    }

    /// The grant of the owner's wrapped key as the next action.
    pub open spec fn grants(run: DeployRun, res: Result<DeployAction, DeployError>) -> bool {
        &&& run.stage_of() is Granting
        &&& res matches Ok(a) && submits(a, TxPurpose::GrantAccess, grant_access_text(run.address_of()),
            Map::empty().insert("holder_badge"@, nft_address_spec(run.pubkey_of()))
                .insert("encrypted_key"@, hex_spec(run.wrapped_of())),
            run.args_of().max_fee)
    }

    /// The next step after chunk `next` is due: upload it if it exists; else, for a
    /// private bundle, store the owner's wrapped key; else publish.
    pub open spec fn continues_from_chunk(new_run: DeployRun, next: nat, res: Result<DeployAction, DeployError>) -> bool {
        if next < new_run.chunks_of() {
            &&& new_run.stage_of() == Stage::Uploading { index: next as usize }
            &&& res matches Ok(a) && submits(a, TxPurpose::UploadChunk { index: next as u64 },
                upload_chunk_text(new_run.address_of(), next),
                Map::empty().insert(chunk_var_text(next), hex_spec(chunk_at(new_run.payload_of(), next as int))),
                new_run.args_of().max_fee)
        } else if new_run.args_of().encrypted {
            Self::grants(new_run, res)
        } else {
            &&& new_run.stage_of() is Publishing
            &&& res matches Ok(a) && submits(a, TxPurpose::Publish,
                publish_text(new_run.address_of(), new_run.args_of().immutable),
                Map::empty().insert("content_hash"@, hex_spec(sha256_spec(new_run.bytes_of()))),
                new_run.args_of().max_fee)
        }
    }

    /// Advance the deploy by one event and return the next action.
    ///
    /// The order is: authenticate, fetch the account, pack the dist directory (and, for a
    /// private bundle, seal it under a fresh key wrapped for the owner), deploy the
    /// component, upload every chunk of the payload in index order, store the owner's
    /// wrapped key (private bundles), publish with the hash of the plaintext archive,
    /// register the name when a registry is given, pin to IPFS when a backend is given.
    /// An event that the stage does not expect fails the run.
    pub fn step(&mut self, event: DeployEvent) -> (res: Result<DeployAction, DeployError>)
        ensures
            final(self).args_of() == old(self).args_of(),
            // every error leaves the run failed
            res is Err ==> final(self).stage_of() is Failed,
            match (old(self).stage_of(), event) {
                (Stage::Authenticating, DeployEvent::Authenticated) =>
                    res matches Ok(DeployAction::FetchAccount) && final(self).stage_of() is FetchingAccount,
                (Stage::FetchingAccount, DeployEvent::Account { owner_pubkey }) =>
                    res matches Ok(DeployAction::ReadDist) && final(self).stage_of() is ReadingDist
                        && final(self).pubkey_of() == owner_pubkey@,
                (Stage::ReadingDist, DeployEvent::DistRead { entries }) =>
                    final(self).pubkey_of() == old(self).pubkey_of() && match res {
                        Ok(a) => final(self).stage_of() is Deploying
                            && (final(self).bundle_of() matches Some(b) && b.wf()
                                && zip_listing(b.bytes@) == tree_listing(entries@)
                                && sealed_as_asked(old(self).args_of().encrypted, b.bytes@,
                                    final(self).payload_of(), final(self).wrapped_of(), old(self).pubkey_of()))
                            && submits(a, TxPurpose::Deploy,
                                deploy_text(deploy_ctor(old(self).args_of().encrypted),
                                    old(self).args_of().bundle_template@, old(self).args_of().name@,
                                    old(self).args_of().version@, old(self).args_of().content_type@),
                                Map::empty().insert("owner_pubkey"@, old(self).pubkey_of()),
                                old(self).args_of().max_fee),
                        Err(e) => e is Archive
                            || (old(self).args_of().encrypted && (e is OwnerKey || e is Seal)),
                    }
                    && (res matches Err(DeployError::Archive(_)) ==> !tree_packs(entries@))
                    && (tree_packs(entries@) && !old(self).args_of().encrypted ==> res is Ok)
                    && (tree_packs(entries@) && old(self).args_of().encrypted && !owner_key_ok(old(self).pubkey_of())
                        ==> res matches Err(DeployError::OwnerKey))
                    && (tree_packs(entries@) && old(self).args_of().encrypted && owner_key_ok(old(self).pubkey_of())
                        && (forall|h: Seq<u8>| #[trigger] owner_key_bytes(h, old(self).pubkey_of()) ==> ristretto_decodes_spec(h))
                        ==> (res is Ok || (res matches Err(DeployError::Seal(e)) && (e is Random || e is Cipher)))),
                (Stage::Deploying, DeployEvent::Submitted { result }) =>
                    match first_component(result) {
                        Some(addr) => final(self).address_of() == addr
                            && final(self).pubkey_of() == old(self).pubkey_of()
                            && final(self).bundle_of() == old(self).bundle_of()
                            && final(self).payload_of() == old(self).payload_of()
                            && final(self).wrapped_of() == old(self).wrapped_of()
                            && Self::continues_from_chunk(*final(self), 0, res),
                        None => res matches Err(DeployError::NoComponentAddress { result: r }) && r == result,
                    },
                (Stage::Uploading { index }, DeployEvent::Submitted { .. }) =>
                    final(self).address_of() == old(self).address_of()
                        && final(self).pubkey_of() == old(self).pubkey_of()
                        && final(self).bundle_of() == old(self).bundle_of()
                        && final(self).payload_of() == old(self).payload_of()
                        && final(self).wrapped_of() == old(self).wrapped_of()
                        && Self::continues_from_chunk(*final(self), index as nat + 1, res),
                (Stage::Granting, DeployEvent::Submitted { .. }) =>
                    final(self).stage_of() is Publishing
                        && final(self).address_of() == old(self).address_of()
                        && final(self).pubkey_of() == old(self).pubkey_of()
                        && final(self).bundle_of() == old(self).bundle_of()
                        && (res matches Ok(a) && submits(a, TxPurpose::Publish,
                            publish_text(old(self).address_of(), old(self).args_of().immutable),
                            Map::empty().insert("content_hash"@, hex_spec(sha256_spec(old(self).bytes_of()))),
                            old(self).args_of().max_fee)),
                (Stage::Publishing, DeployEvent::Submitted { .. }) =>
                    match old(self).args_of().registry_address {
                        Some(registry) => final(self).stage_of() is Registering
                            && final(self).pubkey_of() == old(self).pubkey_of()
                            && final(self).bundle_of() == old(self).bundle_of()
                            && final(self).address_of() == old(self).address_of()
                            && (res matches Ok(a) && submits(a, TxPurpose::Register,
                                register_text(registry@, old(self).args_of().name@, old(self).address_of()),
                                Map::empty().insert("registrant_badge"@, nft_address_spec(old(self).pubkey_of())),
                                old(self).args_of().max_fee)),
                        None => Self::concludes(*old(self), *final(self), res),
                    },
                (Stage::Registering, DeployEvent::Submitted { .. }) =>
                    Self::concludes(*old(self), *final(self), res),
                (Stage::Pinning, DeployEvent::Pinned { .. }) =>
                    final(self).stage_of() is Done
                        && (res matches Ok(DeployAction::Finished { bundle_address })
                        && bundle_address@ == old(self).address_of()),
                _ => res matches Err(DeployError::UnexpectedEvent) && final(self).stage_of() is Failed,
            },
    {
        proof { use_type_invariant(&*self); }
        match event {
            DeployEvent::Authenticated => {
                if let Stage::Authenticating = self.stage {
                    self.stage = Stage::FetchingAccount;
                    Ok(DeployAction::FetchAccount)
                } else {
                    Err(self.fail())
                }
            },
            DeployEvent::Account { owner_pubkey } => {
                if let Stage::FetchingAccount = self.stage {
                    self.owner_pubkey = owner_pubkey;
                    self.stage = Stage::ReadingDist;
                    Ok(DeployAction::ReadDist)
                } else {
                    Err(self.fail())
                }
            },
            DeployEvent::DistRead { entries } => {
                if let Stage::ReadingDist = self.stage {
                    match Bundle::from_dir(&entries) {
                        Ok(b) => {
                            let (payload, wrapped) = match pack_payload(self.args.encrypted, self.owner_pubkey.as_str(), &b.bytes) {
                                Ok(pw) => pw,
                                Err(e) => {
                                    self.stage = Stage::Failed;
                                    return Err(e);
                                },
                            };
                            let m = if self.args.encrypted {
                                manifest::deploy_encrypted(self.args.bundle_template.as_str(), self.args.name.as_str(),
                                    self.args.version.as_str(), self.args.content_type.as_str())
                            } else {
                                manifest::deploy_public(self.args.bundle_template.as_str(), self.args.name.as_str(),
                                    self.args.version.as_str(), self.args.content_type.as_str())
                            };
                            let mut variables = Variables::new();
                            variables.insert("owner_pubkey".to_owned(), self.owner_pubkey.clone());
                            self.bundle = None;
                            self.payload_chunks = split_chunks(payload.as_slice());
                            self.payload = payload;
                            self.wrapped_key = wrapped;
                            self.bundle = Some(b);
                            self.stage = Stage::Deploying;
                            Ok(DeployAction::Submit { purpose: TxPurpose::Deploy, manifest: m, variables, max_fee: self.args.max_fee })
                        },
                        Err(e) => {
                            self.stage = Stage::Failed;
                            Err(DeployError::Archive(e))
                        },
                    }
                } else {
                    Err(self.fail())
                }
            },
            DeployEvent::Submitted { result } => {
                match self.stage {
                    Stage::Deploying => {
                        match extract_component_address(&result) {
                            Some(addr) => {
                                self.bundle_address = addr;
                                self.next_chunk_or_publish(0)
                            },
                            None => {
                                self.stage = Stage::Failed;
                                Err(DeployError::NoComponentAddress { result })
                            },
                        }
                    },
                    Stage::Uploading { index } => {
                        proof { use_type_invariant(&*self); lemma_chunk_len(self.payload_chunks@, self.payload@); }
                        let n = self.payload_chunks.len();
                        if index < n {
                            self.next_chunk_or_publish(index + 1)
                        } else {
                            Err(self.fail())
                        }
                    },
                    Stage::Publishing => {
                        match &self.args.registry_address {
                            Some(registry) => {
                                let badge = match pubkey_to_nft_address(self.owner_pubkey.as_str()) {
                                    Ok(b) => b,
                                    Err(e) => { self.stage = Stage::Failed; return Err(e); },
                                };
                                let m = manifest::register(registry.as_str(), self.args.name.as_str(), self.bundle_address.as_str());
                                let mut variables = Variables::new();
                                variables.insert("registrant_badge".to_owned(), badge);
                                self.stage = Stage::Registering;
                                Ok(DeployAction::Submit { purpose: TxPurpose::Register, manifest: m, variables, max_fee: self.args.max_fee })
                            },
                            None => Ok(self.conclude()),
                        }
                    },
                    Stage::Registering => Ok(self.conclude()),
                    Stage::Granting => {
                        self.stage = Stage::Publishing;
                        Ok(self.publish_action())
                    },
                    _ => Err(self.fail()),
                }
            },
            DeployEvent::Pinned { cid } => {
                if let Stage::Pinning = self.stage {
                    self.stage = Stage::Done;
                    Ok(DeployAction::Finished { bundle_address: self.bundle_address.clone() })
                } else {
                    Err(self.fail())
                }
            },
        }
    }

    fn next_chunk_or_publish(&mut self, next: usize) -> (res: Result<DeployAction, DeployError>)
        requires
            old(self).bundle_of() is Some,
        ensures
            final(self).args_of() == old(self).args_of(),
            final(self).pubkey_of() == old(self).pubkey_of(),
            final(self).bundle_of() == old(self).bundle_of(),
            final(self).address_of() == old(self).address_of(),
            final(self).payload_of() == old(self).payload_of(),
            final(self).wrapped_of() == old(self).wrapped_of(),
            Self::continues_from_chunk(*final(self), next as nat, res),
    {
        proof { use_type_invariant(&*self); lemma_chunk_len(self.payload_chunks@, self.payload@); }
        let n = self.payload_chunks.len();
        if next < n {
            self.stage = Stage::Uploading { index: next };
            Ok(self.upload_action(next))
        } else if self.args.encrypted {
            match self.grant_action() {
                Ok(a) => {
                    self.stage = Stage::Granting;
                    Ok(a)
                },
                Err(e) => {
                    self.stage = Stage::Failed;
                    Err(e)
                },
            }
        } else {
            self.stage = Stage::Publishing;
            Ok(self.publish_action())
        }
    }
}

} // verus!
