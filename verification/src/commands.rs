//! The decisions of the `register`, `resolve` and `info` commands.

use vstd::prelude::*;
use crate::json::{JsonValue, first_component, extract_component_address, member};
use crate::manifest::{self, Variables, register_text, resolve_text};
use crate::deploy::{pubkey_to_nft_address, nft_address_spec};
use crate::text::{starts_with, has_prefix};

verus! {

/// The fee limit of the dry-run reads that `resolve` and `info` simulate.
pub const READ_FEE: u64 = 1000;

/// A setting that a command cannot run without.
pub enum Setting {
    /// The DappBundle template address.
    BundleTemplate,
    /// The DappRegistry component address.
    Registry,
    /// An IPFS backend (Kubo API URL or Pinata JWT).
    IpfsBackend,
}

/// Why a command could not proceed.
pub enum CommandError {
    /// A required setting is missing.
    Missing { setting: Setting },
    /// The registry has no entry for the name.
    NameNotFound { name: String },
}

/// The value of a required setting, or the error that names it.
pub fn required<T>(value: Option<T>, setting: Setting) -> (res: Result<T, CommandError>)
    ensures
        match value {
            Some(v) => res == Ok::<T, CommandError>(v),
            None => res matches Err(CommandError::Missing { setting: s }) && s == setting,
        },
{
    match value {
        Some(v) => Ok(v),
        None => Err(CommandError::Missing { setting }),
    }
}

/// The address that a resolve transaction's result names for `name`.
pub fn resolved_address(result: &JsonValue, name: &str) -> (res: Result<String, CommandError>)
    ensures
        match first_component(*result) {
            Some(a) => res matches Ok(r) && r@ == a,
            None => res matches Err(CommandError::NameNotFound { name: n }) && n@ == name@,
        },
{
    match extract_component_address(result) {
        Some(a) => Ok(a),
        None => Err(CommandError::NameNotFound { name: name.to_owned() }),
    }
}

/// How `info` finds the bundle it describes.
pub enum InfoTarget {
    /// The argument is a component address already.
    Address { address: String },
    /// The argument is a name: resolve it first with this manifest.
    Resolve { manifest: String },
}

/// The first step of `info`: an argument that starts with `component_` is an address;
/// any other argument is a name to resolve in the registry, which must then be given.
pub fn info_target(bundle_or_name: &str, registry_address: Option<&str>) -> (res: Result<InfoTarget, CommandError>)
    ensures
        has_prefix(bundle_or_name@, "component_"@) ==>
            (res matches Ok(InfoTarget::Address { address }) && address@ == bundle_or_name@),
        !has_prefix(bundle_or_name@, "component_"@) ==> match registry_address {
            Some(r) => res matches Ok(InfoTarget::Resolve { manifest }) && manifest@ == resolve_text(r@, bundle_or_name@),
            None => res matches Err(CommandError::Missing { setting: Setting::Registry }),
        },
{
    if starts_with(bundle_or_name, "component_") {
        Ok(InfoTarget::Address { address: bundle_or_name.to_owned() })
    } else {
        match registry_address {
            Some(r) => Ok(InfoTarget::Resolve { manifest: manifest::resolve(r, bundle_or_name) }),
            None => Err(CommandError::Missing { setting: Setting::Registry }),
        }
    }
}

/// What `info` prints of a `get_manifest` result: its `json_result` member when it has
/// one, else the whole result.
pub fn info_output(result: JsonValue) -> (res: JsonValue)
    ensures
        match member(result, "json_result"@) {
            Some(j) => res == j,
            None => res == result,
        },
{
    if result.get("json_result").is_some() {
        result.into_member("json_result")
    } else {
        result
    }
}

/// The manifest and variables with which `register` binds `name` to `bundle_address`
/// in the registry at `registry_address`, the badge being the owner's identity NFT.
pub fn register_request(bundle_address: &str, name: &str, registry_address: &str, owner_pubkey_hex: &str)
    -> (res: (String, Variables))
    ensures
        res.0@ == register_text(registry_address@, name@, bundle_address@),
        res.1@ == Map::<Seq<char>, Seq<char>>::empty().insert("registrant_badge"@, nft_address_spec(owner_pubkey_hex@)),
{
    let m = manifest::register(registry_address, name, bundle_address);
    let mut variables = Variables::new();
    match pubkey_to_nft_address(owner_pubkey_hex) {
        Ok(badge) => variables.insert("registrant_badge".to_owned(), badge),
        Err(_) => {},
    }
    (m, variables)
}

} // verus!
