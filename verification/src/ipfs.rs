//! Choosing an IPFS pinning backend, the requests made to it, and reading the content
//! identifier out of its reply.

use vstd::prelude::*;
use crate::text::{chars_of, push_char, last_nonblank_line, last_nonblank_spec, lines_spec};

verus! {

/// Where bundles are pinned.
pub enum IpfsMode {
    /// A local Kubo node, reached at its HTTP API URL.
    Local { api_url: String },
    /// The Pinata pinning service, authenticated by a JWT.
    Pinata { jwt: String },
}

/// Why publishing to IPFS could not proceed or failed.
pub enum IpfsError {
    /// IPFS publishing was requested but neither a Kubo API URL nor a Pinata JWT is set.
    NoBackend,
    /// The service answered with a non-success HTTP status.
    Api { service: String, status: u16, body: String },
    /// The Kubo reply has no non-blank line.
    EmptyResponse,
    /// The reply is not JSON.
    InvalidJson { service: String },
    /// The reply lacks the named string field.
    MissingField { field: String },
}

/// Returns the backend when IPFS is requested: Pinata when a JWT is given, else the
/// local node when an API URL is given; nothing when IPFS is not requested; and an
/// error when it is requested but no backend is configured.
pub fn resolve_ipfs_mode(
    ipfs_api: Option<String>,
    pinata_jwt: Option<String>,
    requested: bool,
) -> (res: Result<Option<IpfsMode>, IpfsError>)
    ensures
        !requested ==> res matches Ok(None),
        requested ==> match (pinata_jwt, ipfs_api) {
            (Some(j), _) => res matches Ok(Some(IpfsMode::Pinata { jwt })) && jwt == j,
            (None, Some(a)) => res matches Ok(Some(IpfsMode::Local { api_url })) && api_url == a,
            (None, None) => res matches Err(IpfsError::NoBackend),
        },
{
    if !requested {
        return Ok(None);
    }
    if let Some(jwt) = pinata_jwt {
        return Ok(Some(IpfsMode::Pinata { jwt }));
    }
    if let Some(api_url) = ipfs_api {
        return Ok(Some(IpfsMode::Local { api_url }));
    }
    Err(IpfsError::NoBackend)
}

/// `s` without its trailing run of `c`.
pub open spec fn trim_end_spec(s: Seq<char>, c: char) -> Seq<char>
    decreases s.len(),
{
    if s.len() > 0 && s.last() == c { trim_end_spec(s.drop_last(), c) } else { s }
}

/// The Kubo endpoint that adds and pins a file, under the node's API URL.
pub open spec fn kubo_add_url_spec(api_url: Seq<char>) -> Seq<char> {
    trim_end_spec(api_url, '/') + "/api/v0/add?pin=true&cid-version=1"@
}

/// Trailing slashes on the API URL do not change the endpoint.
pub proof fn lemma_kubo_url_ignores_trailing_slash(api_url: Seq<char>)
    ensures
        kubo_add_url_spec(api_url.push('/')) == kubo_add_url_spec(api_url),
{
    assert(api_url.push('/').drop_last() =~= api_url);
}

/// The Pinata endpoint that pins a file.
pub open spec fn pinata_pin_url_spec() -> Seq<char> {
    "https://api.pinata.cloud/pinning/pinFileToIPFS"@
}

/// Appends `s` without its trailing slashes to `out`.
fn push_trimmed_slashes(out: &mut String, s: &str)
    ensures
        final(out)@ == old(out)@ + trim_end_spec(s@, '/'),
{
    let cs = chars_of(s);
    let mut end = cs.len();
    assert(cs@.take(end as int) =~= s@);
    while end > 0 && cs[end - 1] == '/'
        invariant
            cs@ == s@,
            end <= cs.len(),
            trim_end_spec(s@, '/') == trim_end_spec(cs@.take(end as int), '/'),
        decreases end,
    {
        assert(cs@.take(end as int).drop_last() =~= cs@.take(end as int - 1));
        end = end - 1;
    }
    let ghost start = out@;
    let mut i: usize = 0;
    while i < end
        invariant
            cs@ == s@,
            i <= end <= cs.len(),
            out@ == start + cs@.take(i as int),
        decreases end - i,
    {
        push_char(out, cs[i]);
        i = i + 1;
        assert(out@ =~= start + cs@.take(i as int));
    }
    assert(trim_end_spec(cs@.take(end as int), '/') == cs@.take(end as int));
}

/// The Kubo add-and-pin URL for the node at `api_url`.
pub fn kubo_add_url(api_url: &str) -> (res: String)
    ensures
        res@ == kubo_add_url_spec(api_url@),
{
    let mut res = String::new();
    push_trimmed_slashes(&mut res, api_url);
    res.append("/api/v0/add?pin=true&cid-version=1");
    assert(res@ =~= kubo_add_url_spec(api_url@));
    res
}

/// The Pinata pin-file URL.
pub fn pinata_pin_url() -> (res: String)
    ensures
        res@ == pinata_pin_url_spec(),
{
    let mut res = String::new();
    res.append("https://api.pinata.cloud");
    res.append("/pinning/pinFileToIPFS");
    proof {
        reveal_strlit("https://api.pinata.cloud");
        reveal_strlit("/pinning/pinFileToIPFS");
        reveal_strlit("https://api.pinata.cloud/pinning/pinFileToIPFS");
    }
    assert(res@ =~= pinata_pin_url_spec());
    res
}

/// The file name under which a bundle is pinned: `<name>-<version>.zip`.
pub fn bundle_file_name(name: &str, version: &str) -> (res: String)
    ensures
        res@ == name@ + "-"@ + version@ + ".zip"@,
{
    let mut res = String::new();
    res.append(name);
    res.append("-");
    res.append(version);
    res.append(".zip");
    assert(res@ =~= name@ + "-"@ + version@ + ".zip"@);
    res
}

/// Whether an HTTP status code reports success (200 to 299).
pub open spec fn is_success_status(status: u16) -> bool {
    200 <= status <= 299
}

/// Accept a reply from `service` with a success status, else report the status and body.
pub fn check_status(service: &str, status: u16, body: String) -> (res: Result<(), IpfsError>)
    ensures
        is_success_status(status) ==> res is Ok,
        !is_success_status(status) ==> (res matches Err(IpfsError::Api { service: s, status: st, body: b })
            && s@ == service@ && st == status && b == body),
{
    if 200 <= status && status <= 299 {
        Ok(())
    } else {
        Err(IpfsError::Api { service: service.to_owned(), status, body })
    }
}

/// The line of a Kubo add reply that describes the last added file: Kubo streams one
/// JSON object per added file.
pub fn kubo_last_line(text: &str) -> (res: Result<String, IpfsError>)
    ensures
        match last_nonblank_spec(lines_spec(text@)) {
            Some(l) => res matches Ok(r) && r@ == l,
            None => res matches Err(IpfsError::EmptyResponse),
        },
{
    match last_nonblank_line(text) {
        Some(l) => Ok(l),
        None => Err(IpfsError::EmptyResponse),
    }
}

/// What parsing `text` as JSON gives, read at the string member `key`: `None` when
/// `text` is not JSON; `Some(None)` when it is, but is not an object with a string member
/// `key`; `Some(Some(s))` when that member is the string `s`.
pub uninterp spec fn json_str_member_spec(text: Seq<char>, key: Seq<char>) -> Option<Option<Seq<char>>>;

/// Parses `text` as JSON and reads its string member `key`.
///
/// Calls `serde_json::from_str` into a `serde_json::Value` and `Value::get` with `key`,
/// keeping the member only when it is a JSON string. The result is a function of the
/// text and the key alone.
#[verifier::external_body]
fn json_str_member(text: &str, key: &str) -> (res: Option<Option<String>>)
    ensures
        match json_str_member_spec(text@, key@) {
            None => res is None,
            Some(None) => res matches Some(o) && o is None,
            Some(Some(c)) => res matches Some(Some(r)) && r@ == c,
        },
{
    match serde_json::from_str::<serde_json::Value>(text) {
        Ok(v) => match v.get(key) {
            Some(serde_json::Value::String(c)) => Some(Some(c.clone())),
            _ => Some(None),
        },
        Err(_) => None,
    }
}

/// The content identifier in the string member `field` of the JSON text `text`, a reply
/// from `service`.
fn reply_cid(text: &str, service: &str, field: &str) -> (res: Result<String, IpfsError>)
    ensures
        match json_str_member_spec(text@, field@) {
            None => res matches Err(IpfsError::InvalidJson { service: s }) && s@ == service@,
            Some(None) => res matches Err(IpfsError::MissingField { field: f }) && f@ == field@,
            Some(Some(c)) => res matches Ok(r) && r@ == c,
        },
{
    match json_str_member(text, field) {
        None => Err(IpfsError::InvalidJson { service: service.to_owned() }),
        Some(None) => Err(IpfsError::MissingField { field: field.to_owned() }),
        Some(Some(c)) => Ok(c),
    }
}

/// The CID in a Kubo add reply: Kubo streams one JSON object per added file, and the
/// last non-blank line describes the last file; its `Hash` member is the CID.
pub fn kubo_reply_cid(text: &str) -> (res: Result<String, IpfsError>)
    ensures
        match last_nonblank_spec(lines_spec(text@)) {
            None => res matches Err(IpfsError::EmptyResponse),
            Some(l) => match json_str_member_spec(l, "Hash"@) {
                None => res matches Err(IpfsError::InvalidJson { service: s }) && s@ == "Kubo"@,
                Some(None) => res matches Err(IpfsError::MissingField { field: f }) && f@ == "Hash"@,
                Some(Some(c)) => res matches Ok(r) && r@ == c,
            },
        },
{
    match kubo_last_line(text) {
        Ok(l) => reply_cid(l.as_str(), "Kubo", "Hash"),
        Err(e) => Err(e),
    }
}

/// The CID in a Pinata pin reply: its `IpfsHash` member.
pub fn pinata_reply_cid(text: &str) -> (res: Result<String, IpfsError>)
    ensures
        match json_str_member_spec(text@, "IpfsHash"@) {
            None => res matches Err(IpfsError::InvalidJson { service: s }) && s@ == "Pinata"@,
            Some(None) => res matches Err(IpfsError::MissingField { field: f }) && f@ == "IpfsHash"@,
            Some(Some(c)) => res matches Ok(r) && r@ == c,
        },
{
    reply_cid(text, "Pinata", "IpfsHash")
}

/// The two addresses under which a pinned bundle can be fetched: `ipfs://<cid>` and the
/// public gateway URL.
pub fn ipfs_links(cid: &str) -> (res: (String, String))
    ensures
        res.0@ == "ipfs://"@ + cid@,
        res.1@ == "https://ipfs.io/ipfs/"@ + cid@,
{
    let mut a = String::new();
    a.append("ipfs://");
    a.append(cid);
    let mut b = String::new();
    b.append("https://ipfs.io/ipfs/");
    b.append(cid);
    (a, b)
}

} // verus!
