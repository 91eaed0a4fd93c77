//! JSON-RPC requests to the wallet daemon and the decoding of its replies.

use vstd::prelude::*;
use crate::json::{JsonValue, member, member_from, index, str_of, lemma_member_at};
use crate::manifest::{Variables, pairs_map, distinct_names};
use crate::text::{push_decimal, decimal_spec};

verus! {

/// Why a wallet daemon reply could not be used.
pub enum WalletError {
    /// `auth.request` returned no token.
    NoToken,
    /// The account reply has no `component_address`.
    NoComponentAddress,
    /// The account reply has no `owner_public_key`.
    NoOwnerPublicKey,
    /// The submit reply has no `transaction_id`.
    NoTransactionId,
    /// The daemon answered `method` with this error value.
    Rpc { method: String, error: JsonValue },
}

/// The names of the members of the object `v`, in order; empty when `v` is not an object.
pub open spec fn member_names(v: JsonValue) -> Seq<Seq<char>> {
    match v {
        JsonValue::Object(m) => m@.map_values(|p: (String, JsonValue)| p.0@),
        _ => Seq::empty(),
    }
}

/// The decimal text of `v` when it is a JSON number.
pub open spec fn number_of(v: JsonValue) -> Option<Seq<char>> {
    match v {
        JsonValue::Number(n) => Some(n@),
        _ => None,
    }
}

/// The members of the object `v` as name/text pairs, when every member is a string.
pub open spec fn string_members(v: JsonValue) -> Option<Seq<(Seq<char>, Seq<char>)>> {
    match v {
        JsonValue::Object(m) =>
            if forall|i: int| 0 <= i < m@.len() ==> (#[trigger] m@[i]).1 is Str {
                Some(m@.map_values(|p: (String, JsonValue)| (p.0@, str_of(p.1)->0)))
            } else {
                None
            },
        _ => None,
    }
}

/// A JSON string holding a copy of `s`.
fn json_str(s: &str) -> (res: JsonValue)
    ensures
        str_of(res) == Some(s@),
{
    JsonValue::Str(s.to_owned())
}

/// A JSON number holding the decimal text of `n`.
fn json_u64(n: u64) -> (res: JsonValue)
    ensures
        number_of(res) == Some(decimal_spec(n as nat)),
{
    let mut t = String::new();
    push_decimal(&mut t, n);
    JsonValue::Number(t)
}

/// The request envelope of a JSON-RPC 2.0 call.
pub open spec fn is_rpc_request(req: JsonValue, id: u64, method: Seq<char>, params: JsonValue) -> bool {
    &&& member_names(req) == seq!["jsonrpc"@, "id"@, "method"@, "params"@]
    &&& str_of(index(req, "jsonrpc"@)) == Some("2.0"@)
    &&& number_of(index(req, "id"@)) == Some(decimal_spec(id as nat))
    &&& str_of(index(req, "method"@)) == Some(method)
    &&& index(req, "params"@) == params
}

/// Two texts that differ in length or in their first character.
spec fn differ(a: Seq<char>, b: Seq<char>) -> bool {
    a.len() != b.len() || a[0] != b[0]
}

/// In a four-member object whose names differ pairwise, each name finds its own member.
proof fn lemma_object4(m: Seq<(String, JsonValue)>, k0: Seq<char>, k1: Seq<char>, k2: Seq<char>, k3: Seq<char>)
    requires
        m.len() == 4,
        m[0].0@ == k0, m[1].0@ == k1, m[2].0@ == k2, m[3].0@ == k3,
        differ(k0, k1), differ(k0, k2), differ(k0, k3), differ(k1, k2), differ(k1, k3), differ(k2, k3),
    ensures
        m.map_values(|p: (String, JsonValue)| p.0@) == seq![k0, k1, k2, k3],
        member_from(m, k0, 0) == Some(m[0].1),
        member_from(m, k1, 0) == Some(m[1].1),
        member_from(m, k2, 0) == Some(m[2].1),
        member_from(m, k3, 0) == Some(m[3].1),
{
    lemma_member_at(m, k0, 0, 0);
    lemma_member_at(m, k1, 0, 1);
    lemma_member_at(m, k2, 0, 2);
    lemma_member_at(m, k3, 0, 3);
    assert(m.map_values(|p: (String, JsonValue)| p.0@) =~= seq![k0, k1, k2, k3]);
}

/// The client side of a wallet daemon connection: the id of the last request and the
/// token obtained by authenticating.
pub struct WalletSession {
    pub req_id: u64,
    pub token: Option<String>,
}

impl WalletSession {
    /// A session that has sent nothing and holds no token.
    pub fn new() -> (res: WalletSession)
        ensures
            res.req_id == 1,
            res.token is None,
    {
        WalletSession { req_id: 1, token: None }
    }

    /// The next JSON-RPC request, for `method` with `params`, under a fresh id.
    pub fn next_request(&mut self, method: &str, params: JsonValue) -> (req: JsonValue)
        requires
            old(self).req_id < u64::MAX,
        ensures
            final(self).req_id == old(self).req_id + 1,
            final(self).token == old(self).token,
            is_rpc_request(req, final(self).req_id, method@, params),
    {
        self.req_id = self.req_id + 1;
        let ghost p = params;
        let mut m: Vec<(String, JsonValue)> = Vec::new();
        m.push(("jsonrpc".to_owned(), json_str("2.0")));
        m.push(("id".to_owned(), json_u64(self.req_id)));
        m.push(("method".to_owned(), json_str(method)));
        m.push(("params".to_owned(), params));
        proof {
            reveal_strlit("jsonrpc");
            reveal_strlit("id");
            reveal_strlit("method");
            reveal_strlit("params");
            lemma_object4(m@, "jsonrpc"@, "id"@, "method"@, "params"@);
        }
        let req = JsonValue::Object(m);
        assert(member_names(req) =~= seq!["jsonrpc"@, "id"@, "method"@, "params"@]);
        req
    }

    /// Take the token out of an `auth.request` reply (`result.token`) and keep it.
    pub fn accept_auth_reply(&mut self, reply: JsonValue) -> (res: Result<(), WalletError>)
        ensures
            final(self).req_id == old(self).req_id,
            match str_of(index(index(reply, "result"@), "token"@)) {
                Some(t) => res is Ok && (final(self).token matches Some(k) && k@ == t),
                None => res matches Err(WalletError::NoToken) && final(self).token == old(self).token,
            },
    {
        let token = reply.into_member("result").into_member("token");
        match token {
            JsonValue::Str(t) => {
                self.token = Some(t);
                Ok(())
            },
            _ => Err(WalletError::NoToken),
        }
    }
}

/// The result of a JSON-RPC reply to `method`: its `result` member, or the daemon's
/// `error` member as an error when the reply has one.
pub fn rpc_result(method: &str, raw: JsonValue) -> (res: Result<JsonValue, WalletError>)
    ensures
        match member(raw, "error"@) {
            Some(e) => res matches Err(WalletError::Rpc { method: m, error }) && m@ == method@ && error == e,
            None => res == Ok::<JsonValue, WalletError>(index(raw, "result"@)),
        },
{
    match raw.get("error") {
        Some(_) => {
            let e = raw.into_member("error");
            Err(WalletError::Rpc { method: method.to_owned(), error: e })
        },
        None => Ok(raw.into_member("result")),
    }
}

/// The default account's component address and owner public key, from the result of
/// `accounts.get_default` (`account.component_address`, `account.owner_public_key`).
pub fn parse_default_account(result: JsonValue) -> (res: Result<(String, String), WalletError>)
    ensures
        match (str_of(index(index(result, "account"@), "component_address"@)),
               str_of(index(index(result, "account"@), "owner_public_key"@))) {
            (Some(a), Some(k)) => res matches Ok((ra, rk)) && ra@ == a && rk@ == k,
            (None, _) => res matches Err(WalletError::NoComponentAddress),
            (Some(_), None) => res matches Err(WalletError::NoOwnerPublicKey),
        },
{
    let account = result.into_member("account");
    let addr = match account.get("component_address") {
        Some(JsonValue::Str(a)) => a.clone(),
        _ => return Err(WalletError::NoComponentAddress),
    };
    let key = match account.get("owner_public_key") {
        Some(JsonValue::Str(k)) => k.clone(),
        _ => return Err(WalletError::NoOwnerPublicKey),
    };
    Ok((addr, key))
}

/// The transaction id in the result of `transactions.submit_manifest`.
pub fn parse_transaction_id(result: JsonValue) -> (res: Result<String, WalletError>)
    ensures
        match str_of(index(result, "transaction_id"@)) {
            Some(t) => res matches Ok(r) && r@ == t,
            None => res matches Err(WalletError::NoTransactionId),
        },
{
    match result.into_member("transaction_id") {
        JsonValue::Str(t) => Ok(t),
        _ => Err(WalletError::NoTransactionId),
    }
}

/// Parameters of `auth.request`: `{"credentials": "None"}`.
pub fn auth_params() -> (res: JsonValue)
    ensures
        member_names(res) == seq!["credentials"@],
        str_of(index(res, "credentials"@)) == Some("None"@),
{
    let mut m: Vec<(String, JsonValue)> = Vec::new();
    m.push(("credentials".to_owned(), json_str("None")));
    let res = JsonValue::Object(m);
    assert(member_names(res) =~= seq!["credentials"@]);
    res
}

/// Parameters of `accounts.get_default`: `{}`.
pub fn no_params() -> (res: JsonValue)
    ensures
        res is Object,
        member_names(res) == Seq::<Seq<char>>::empty(),
{
    let res = JsonValue::Object(Vec::new());
    assert(member_names(res) =~= Seq::<Seq<char>>::empty());
    res
}

/// `variables` as a JSON object of strings.
pub fn variables_object(variables: &Variables) -> (res: JsonValue)
    ensures
        string_members(res) matches Some(ms) && distinct_names(ms) && pairs_map(ms) == variables@,
{
    let pairs = variables.to_pairs();
    let ghost pv = crate::manifest::pairs_view(pairs@);
    let mut m: Vec<(String, JsonValue)> = Vec::new();
    let mut i: usize = 0;
    while i < pairs.len()
        invariant
            pv == crate::manifest::pairs_view(pairs@),
            i <= pairs.len(),
            m@.len() == i,
            forall|k: int| 0 <= k < i ==> (#[trigger] m@[k]).1 is Str,
            forall|k: int| 0 <= k < i ==> (#[trigger] m@[k]).0@ == pv[k].0 && str_of(m@[k].1)->0 == pv[k].1,
        decreases pairs.len() - i,
    {
        let k = pairs[i].0.clone();
        let v = json_str(pairs[i].1.as_str());
        m.push((k, v));
        i = i + 1;
    }
    let res = JsonValue::Object(m);
    assert(string_members(res)->0 =~= pv);
    res
}

/// Parameters of `transactions.submit_manifest`: the manifest, its variables, the fee
/// limit, and whether the transaction is only simulated (`dry_run`).
fn manifest_params(manifest: &str, variables: &Variables, max_fee: u64, dry_run: bool) -> (res: JsonValue)
    ensures
        member_names(res) == seq!["manifest"@, "variables"@, "max_fee"@, "dry_run"@],
        str_of(index(res, "manifest"@)) == Some(manifest@),
        string_members(index(res, "variables"@)) matches Some(ms) && distinct_names(ms) && pairs_map(ms) == variables@,
        number_of(index(res, "max_fee"@)) == Some(decimal_spec(max_fee as nat)),
        index(res, "dry_run"@) == JsonValue::Bool(dry_run),
{
    let mut m: Vec<(String, JsonValue)> = Vec::new();
    m.push(("manifest".to_owned(), json_str(manifest)));
    m.push(("variables".to_owned(), variables_object(variables)));
    m.push(("max_fee".to_owned(), json_u64(max_fee)));
    m.push(("dry_run".to_owned(), JsonValue::Bool(dry_run)));
    proof {
        reveal_strlit("manifest");
        reveal_strlit("variables");
        reveal_strlit("max_fee");
        reveal_strlit("dry_run");
        lemma_object4(m@, "manifest"@, "variables"@, "max_fee"@, "dry_run"@);
    }
    JsonValue::Object(m)
}

/// Parameters of a committed `transactions.submit_manifest`: the manifest, its
/// variables, the fee limit, and `dry_run: false`.
pub fn submit_params(manifest: &str, variables: &Variables, max_fee: u64) -> (res: JsonValue)
    ensures
        member_names(res) == seq!["manifest"@, "variables"@, "max_fee"@, "dry_run"@],
        str_of(index(res, "manifest"@)) == Some(manifest@),
        string_members(index(res, "variables"@)) matches Some(ms) && distinct_names(ms) && pairs_map(ms) == variables@,
        number_of(index(res, "max_fee"@)) == Some(decimal_spec(max_fee as nat)),
        index(res, "dry_run"@) == JsonValue::Bool(false),
{
    manifest_params(manifest, variables, max_fee, false)
}

/// Parameters of a read through `transactions.submit_manifest`: the same members as a
/// committed submission, with `dry_run: true`, so that the manifest is only simulated
/// and nothing is committed or paid.
pub fn read_params(manifest: &str, variables: &Variables, max_fee: u64) -> (res: JsonValue)
    ensures
        member_names(res) == seq!["manifest"@, "variables"@, "max_fee"@, "dry_run"@],
        str_of(index(res, "manifest"@)) == Some(manifest@),
        string_members(index(res, "variables"@)) matches Some(ms) && distinct_names(ms) && pairs_map(ms) == variables@,
        number_of(index(res, "max_fee"@)) == Some(decimal_spec(max_fee as nat)),
        index(res, "dry_run"@) == JsonValue::Bool(true),
{
    manifest_params(manifest, variables, max_fee, true)
}

/// Parameters of `transactions.wait_result`: the transaction id and a 120 s timeout.
pub fn wait_params(tx_id: &str) -> (res: JsonValue)
    ensures
        member_names(res) == seq!["transaction_id"@, "timeout_secs"@],
        str_of(index(res, "transaction_id"@)) == Some(tx_id@),
        number_of(index(res, "timeout_secs"@)) == Some(decimal_spec(120)),
{
    let mut m: Vec<(String, JsonValue)> = Vec::new();
    m.push(("transaction_id".to_owned(), json_str(tx_id)));
    m.push(("timeout_secs".to_owned(), json_u64(120)));
    proof {
        reveal_strlit("transaction_id");
        reveal_strlit("timeout_secs");
        assert(m@[0].0@ == "transaction_id"@);
        assert(m@[1].0@ == "timeout_secs"@);
        assert("transaction_id"@ != "timeout_secs"@) by { assert("transaction_id"@.len() != "timeout_secs"@.len() || "transaction_id"@[0] != "timeout_secs"@[0]); }
        lemma_member_at(m@, "transaction_id"@, 0, 0);
        lemma_member_at(m@, "timeout_secs"@, 0, 1);
    }
    let res = JsonValue::Object(m);
    assert(member_names(res) =~= seq!["transaction_id"@, "timeout_secs"@]);
    res
}

} // verus!
