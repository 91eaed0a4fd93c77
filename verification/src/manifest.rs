//! Transaction-manifest text for every on-chain action the tool takes, and the
//! variable maps submitted beside them.

use vstd::prelude::*;
use crate::text::{escape, escape_spec, push_decimal, decimal_spec};

verus! {

/// The manifest that deploys a new bundle component through constructor `ctor`.
pub open spec fn deploy_text(
    ctor: Seq<char>,
    template: Seq<char>,
    name: Seq<char>,
    version: Seq<char>,
    content_type: Seq<char>,
) -> Seq<char> {
    "use template_"@ + template + " as DappBundle;\nlet bundle = DappBundle::"@ + ctor
        + "(\n    var!(\"owner_pubkey\"),\n    \""@ + escape_spec(name) + "\",\n    \""@
        + escape_spec(version) + "\",\n    \""@ + escape_spec(content_type) + "\"\n);"@
}

/// The name of the manifest variable that carries chunk `index`.
pub open spec fn chunk_var_text(index: nat) -> Seq<char> {
    "chunk_"@ + decimal_spec(index)
}

/// The manifest that uploads chunk `index` to the bundle at `bundle`.
pub open spec fn upload_chunk_text(bundle: Seq<char>, index: nat) -> Seq<char> {
    "let bundle = global!(\""@ + bundle + "\");\nbundle.upload_chunk("@ + decimal_spec(index)
        + "u64, var!(\""@ + chunk_var_text(index) + "\"));"@
}

/// The manifest that seals the bundle at `bundle`.
pub open spec fn publish_text(bundle: Seq<char>, immutable: bool) -> Seq<char> {
    "let bundle = global!(\""@ + bundle + "\");\nbundle.publish(var!(\"content_hash\"), "@
        + (if immutable { "true"@ } else { "false"@ }) + ");"@
}

/// The manifest that stores a wrapped bundle key for a badge holder in the bundle at
/// `bundle`.
pub open spec fn grant_access_text(bundle: Seq<char>) -> Seq<char> {
    "let bundle = global!(\""@ + bundle
        + "\");\nbundle.grant_access(var!(\"holder_badge\"), var!(\"encrypted_key\"));"@
}

/// The manifest that registers `name` for `bundle` in the registry at `registry`.
pub open spec fn register_text(registry: Seq<char>, name: Seq<char>, bundle: Seq<char>) -> Seq<char> {
    "let registry = global!(\""@ + registry + "\");\nregistry.register(\""@ + escape_spec(name)
        + "\", global!(\""@ + bundle + "\"), var!(\"registrant_badge\"));"@
}

/// The manifest that reads the public metadata of the bundle at `bundle`.
pub open spec fn get_manifest_text(bundle: Seq<char>) -> Seq<char> {
    "let bundle = global!(\""@ + bundle + "\");\nlet _info = bundle.get_manifest();"@
}

/// The manifest that looks `name` up in the registry at `registry`.
pub open spec fn resolve_text(registry: Seq<char>, name: Seq<char>) -> Seq<char> {
    "let registry = global!(\""@ + registry + "\");\nlet _addr = registry.resolve(\""@
        + escape_spec(name) + "\");"@
}

/// The text of a deploy manifest before the constructor's name.
pub open spec fn deploy_head(template: Seq<char>) -> Seq<char> {
    "use template_"@ + template + " as DappBundle;\nlet bundle = DappBundle::"@
}

/// The text of a deploy manifest after the constructor's name: the owner key variable
/// and the escaped name, version and content type as string literals.
pub open spec fn deploy_tail(name: Seq<char>, version: Seq<char>, content_type: Seq<char>) -> Seq<char> {
    "(\n    var!(\"owner_pubkey\"),\n    \""@ + escape_spec(name) + "\",\n    \""@
        + escape_spec(version) + "\",\n    \""@ + escape_spec(content_type) + "\"\n);"@
}

/// The public and the encrypted deploy manifests differ only in the constructor they
/// call: both are the same head, the constructor's name, and the same tail.
pub proof fn lemma_deploy_manifests_differ_only_in_ctor(
    template: Seq<char>,
    name: Seq<char>,
    version: Seq<char>,
    content_type: Seq<char>,
)
    ensures
        deploy_text("new_public"@, template, name, version, content_type)
            == deploy_head(template) + "new_public"@ + deploy_tail(name, version, content_type),
        deploy_text("new_encrypted"@, template, name, version, content_type)
            == deploy_head(template) + "new_encrypted"@ + deploy_tail(name, version, content_type),
{
    assert(deploy_text("new_public"@, template, name, version, content_type)
        =~= deploy_head(template) + "new_public"@ + deploy_tail(name, version, content_type));
    assert(deploy_text("new_encrypted"@, template, name, version, content_type)
        =~= deploy_head(template) + "new_encrypted"@ + deploy_tail(name, version, content_type));
}

fn deploy_with(ctor: &str, template_address: &str, name: &str, version: &str, content_type: &str) -> (res: String)
    ensures
        res@ == deploy_text(ctor@, template_address@, name@, version@, content_type@),
{
    let mut s = String::new();
    s.append("use template_");
    s.append(template_address);
    s.append(" as DappBundle;\nlet bundle = DappBundle::");
    s.append(ctor);
    s.append("(\n    var!(\"owner_pubkey\"),\n    \"");
    let e = escape(name);
    s.append(e.as_str());
    s.append("\",\n    \"");
    let e = escape(version);
    s.append(e.as_str());
    s.append("\",\n    \"");
    let e = escape(content_type);
    s.append(e.as_str());
    s.append("\"\n);");
    assert(s@ =~= deploy_text(ctor@, template_address@, name@, version@, content_type@));
    s
}

/// Manifest to deploy a new public DappBundle component.
/// Variables required: `owner_pubkey` (32-byte hex).
pub fn deploy_public(template_address: &str, name: &str, version: &str, content_type: &str) -> (res: String)
    ensures
        res@ == deploy_text("new_public"@, template_address@, name@, version@, content_type@),
{
    deploy_with("new_public", template_address, name, version, content_type)
}

/// Manifest to deploy a new encrypted DappBundle component.
/// Variables required: `owner_pubkey` (32-byte hex).
pub fn deploy_encrypted(template_address: &str, name: &str, version: &str, content_type: &str) -> (res: String)
    ensures
        res@ == deploy_text("new_encrypted"@, template_address@, name@, version@, content_type@),
{
    deploy_with("new_encrypted", template_address, name, version, content_type)
}

/// Manifest to upload one chunk, with the name of the variable that must carry it.
/// Variables required: `chunk_N` (hex bytes).
pub fn upload_chunk(bundle_address: &str, index: u64) -> (res: (String, String))
    ensures
        res.0@ == upload_chunk_text(bundle_address@, index as nat),
        res.1@ == chunk_var_text(index as nat),
{
    let mut var_name = String::new();
    var_name.append("chunk_");
    push_decimal(&mut var_name, index);
    let mut m = String::new();
    m.append("let bundle = global!(\"");
    m.append(bundle_address);
    m.append("\");\nbundle.upload_chunk(");
    push_decimal(&mut m, index);
    m.append("u64, var!(\"");
    m.append(var_name.as_str());
    m.append("\"));");
    assert(var_name@ =~= chunk_var_text(index as nat));
    assert(m@ =~= upload_chunk_text(bundle_address@, index as nat));
    (m, var_name)
}

/// Manifest to publish (seal) the bundle.
/// Variables required: `content_hash` (32-byte hex).
pub fn publish(bundle_address: &str, immutable: bool) -> (res: String)
    ensures
        res@ == publish_text(bundle_address@, immutable),
{
    let mut m = String::new();
    m.append("let bundle = global!(\"");
    m.append(bundle_address);
    m.append("\");\nbundle.publish(var!(\"content_hash\"), ");
    if immutable {
        m.append("true");
    } else {
        m.append("false");
    }
    m.append(");");
    assert(m@ =~= publish_text(bundle_address@, immutable));
    m
}

/// Manifest to store a badge holder's wrapped bundle key.
/// Variables required: `holder_badge` (nft address string), `encrypted_key` (hex bytes).
pub fn grant_access(bundle_address: &str) -> (res: String)
    ensures
        res@ == grant_access_text(bundle_address@),
{
    let mut m = String::new();
    m.append("let bundle = global!(\"");
    m.append(bundle_address);
    m.append("\");\nbundle.grant_access(var!(\"holder_badge\"), var!(\"encrypted_key\"));");
    assert(m@ =~= grant_access_text(bundle_address@));
    m
}

/// Manifest to register the bundle in a DappRegistry.
/// Variables required: `registrant_badge` (nft address string).
pub fn register(registry_address: &str, name: &str, bundle_address: &str) -> (res: String)
    ensures
        res@ == register_text(registry_address@, name@, bundle_address@),
{
    let mut m = String::new();
    m.append("let registry = global!(\"");
    m.append(registry_address);
    m.append("\");\nregistry.register(\"");
    let e = escape(name);
    m.append(e.as_str());
    m.append("\", global!(\"");
    m.append(bundle_address);
    m.append("\"), var!(\"registrant_badge\"));");
    assert(m@ =~= register_text(registry_address@, name@, bundle_address@));
    m
}

/// Manifest to call get_manifest on a bundle (dry-run read).
pub fn get_manifest_call(bundle_address: &str) -> (res: String)
    ensures
        res@ == get_manifest_text(bundle_address@),
{
    let mut m = String::new();
    m.append("let bundle = global!(\"");
    m.append(bundle_address);
    m.append("\");\nlet _info = bundle.get_manifest();");
    assert(m@ =~= get_manifest_text(bundle_address@));
    m
}

/// Manifest to resolve a name in the registry.
pub fn resolve(registry_address: &str, name: &str) -> (res: String)
    ensures
        res@ == resolve_text(registry_address@, name@),
{
    let mut m = String::new();
    m.append("let registry = global!(\"");
    m.append(registry_address);
    m.append("\");\nlet _addr = registry.resolve(\"");
    let e = escape(name);
    m.append(e.as_str());
    m.append("\");");
    assert(m@ =~= resolve_text(registry_address@, name@));
    m
}


/// The map that inserting the pairs of `s` in order into an empty map yields: a
/// later pair for the same name replaces an earlier one.
pub open spec fn pairs_map(s: Seq<(Seq<char>, Seq<char>)>) -> Map<Seq<char>, Seq<char>>
    decreases s.len(),
{
    if s.len() == 0 {
        Map::empty()
    } else {
        pairs_map(s.drop_last()).insert(s.last().0, s.last().1)
    }
}

/// The pairs of `s`, each string taken by its characters.
pub open spec fn pairs_view(s: Seq<(String, String)>) -> Seq<(Seq<char>, Seq<char>)> {
    s.map_values(|p: (String, String)| (p.0@, p.1@))
}

/// The pairs of `s`, each string slice taken by its characters.
pub open spec fn str_pairs_view(s: Seq<(&str, &str)>) -> Seq<(Seq<char>, Seq<char>)> {
    s.map_values(|p: (&str, &str)| (p.0@, p.1@))
}

/// No name occurs twice among the pairs of `s`.
pub open spec fn distinct_names(s: Seq<(Seq<char>, Seq<char>)>) -> bool {
    forall|i: int, j: int| 0 <= i < s.len() && 0 <= j < s.len() && i != j ==> s[i].0 != s[j].0
}

/// Where names are distinct, a name is mapped exactly when some pair carries it, to
/// that pair's value.
pub proof fn lemma_pairs_map_lookup(s: Seq<(Seq<char>, Seq<char>)>, i: int)
    requires
        distinct_names(s),
        0 <= i < s.len(),
    ensures
        pairs_map(s).contains_key(s[i].0),
        pairs_map(s)[s[i].0] == s[i].1,
    decreases s.len(),
{
    if i < s.len() - 1 {
        lemma_pairs_map_lookup(s.drop_last(), i);
    }
}

/// A name that no pair carries is not mapped.
pub proof fn lemma_pairs_map_absent(s: Seq<(Seq<char>, Seq<char>)>, k: Seq<char>)
    requires
        forall|i: int| 0 <= i < s.len() ==> s[i].0 != k,
    ensures
        !pairs_map(s).contains_key(k),
    decreases s.len(),
{
    if s.len() > 0 {
        lemma_pairs_map_absent(s.drop_last(), k);
    }
}

/// Replacing the value of the pair that carries a name is inserting that name.
pub proof fn lemma_pairs_map_update(s: Seq<(Seq<char>, Seq<char>)>, j: int, v: Seq<char>)
    requires
        distinct_names(s),
        0 <= j < s.len(),
    ensures
        pairs_map(s.update(j, (s[j].0, v))) == pairs_map(s).insert(s[j].0, v),
    decreases s.len(),
{
    let k = s[j].0;
    let t = s.update(j, (k, v));
    if j == s.len() - 1 {
        assert(t.drop_last() =~= s.drop_last());
        assert(pairs_map(t) =~= pairs_map(s).insert(k, v));
    } else {
        assert(t.drop_last() =~= s.drop_last().update(j, (k, v)));
        lemma_pairs_map_update(s.drop_last(), j, v);
        assert(s.last().0 != k);
        assert(pairs_map(t) =~= pairs_map(s).insert(k, v));
    }
}

/// Named string values submitted beside a manifest; no name occurs twice.
///
/// The map is a `Vec` under an invariant rather than a std map: vstd specifies the std
/// maps' operations only for key types that it knows to obey its key model (integers
/// and `bool`), which `String` is not, so no call on such a map could be proved.
pub struct Variables {
    entries: Vec<(String, String)>,
}

impl View for Variables {
    type V = Map<Seq<char>, Seq<char>>;

    closed spec fn view(&self) -> Map<Seq<char>, Seq<char>> {
        pairs_map(pairs_view(self.entries@))
    }
}

impl Variables {
    #[verifier::type_invariant]
    closed spec fn names_distinct(self) -> bool {
        distinct_names(pairs_view(self.entries@))
    }

    /// A map with no variables.
    pub fn new() -> (res: Variables)
        ensures
            res@ == Map::<Seq<char>, Seq<char>>::empty(),
    {
        let res = Variables { entries: Vec::new() };
        assert(pairs_view(res.entries@) =~= Seq::empty());
        res
    }

    /// The number of variables.
    pub fn len(&self) -> (n: usize)
        ensures
            n == self@.len(),
    {
        proof {
            use_type_invariant(self);
            self.lemma_dom_len();
        }
        self.entries.len()
    }

    proof fn lemma_dom_len(&self)
        requires
            distinct_names(pairs_view(self.entries@)),
        ensures
            self@.len() == self.entries@.len(),
            self@.dom().finite(),
    {
        let pv = pairs_view(self.entries@);
        lemma_pairs_map_len(pv);
    }

    /// Sets `name` to `value`, replacing any earlier value of `name`.
    pub fn insert(&mut self, name: String, value: String)
        ensures
            final(self)@ == old(self)@.insert(name@, value@),
    {
        proof { use_type_invariant(&*self); }
        let ghost pv = pairs_view(self.entries@);
        let mut i: usize = 0;
        while i < self.entries.len()
            invariant
                pv == pairs_view(self.entries@),
                pv == pairs_view(old(self).entries@),
                distinct_names(pv),
                i <= self.entries.len(),
                forall|k: int| 0 <= k < i ==> pv[k].0 != name@,
            decreases self.entries.len() - i,
        {
            if self.entries[i].0 == name {
                let mut entries: Vec<(String, String)> = Vec::new();
                std::mem::swap(&mut entries, &mut self.entries);
                proof {
                    lemma_pairs_map_update(pv, i as int, value@);
                }
                entries.set(i, (name, value));
                assert(pairs_view(entries@) =~= pv.update(i as int, (pv[i as int].0, value@)));
                self.entries = entries;
                assert(pv[i as int].0 == name@);
                assert(self@ == pairs_map(pv).insert(name@, value@));
                assert(pairs_map(pv) == old(self)@);
                return;
            }
            i = i + 1;
        }
        let mut entries: Vec<(String, String)> = Vec::new();
        std::mem::swap(&mut entries, &mut self.entries);
        let ghost name_v = name@;
        let ghost value_v = value@;
        entries.push((name, value));
        proof {
            assert(pairs_view(entries@) =~= pv.push((name_v, value_v)));
            assert(pairs_view(entries@).drop_last() =~= pv);
        }
        self.entries = entries;
        assert(self@ == pairs_map(pv).insert(name_v, value_v));
        assert(pairs_map(pv) == old(self)@);
    }

    /// The value of `name`, if it is set.
    pub fn get(&self, name: &str) -> (res: Option<String>)
        ensures
            match res {
                Some(v) => self@.contains_key(name@) && self@[name@] == v@,
                None => !self@.contains_key(name@),
            },
    {
        proof { use_type_invariant(self); }
        let ghost pv = pairs_view(self.entries@);
        let key = name.to_owned();
        let mut i: usize = 0;
        while i < self.entries.len()
            invariant
                pv == pairs_view(self.entries@),
                distinct_names(pv),
                key@ == name@,
                i <= self.entries.len(),
                forall|k: int| 0 <= k < i ==> pv[k].0 != name@,
            decreases self.entries.len() - i,
        {
            if self.entries[i].0 == key {
                proof { lemma_pairs_map_lookup(pv, i as int); }
                return Some(self.entries[i].1.clone());
            }
            i = i + 1;
        }
        proof { lemma_pairs_map_absent(pv, name@); }
        None
    }

    /// The variables as name/value pairs, each name once, in the order they were first set.
    pub fn to_pairs(&self) -> (res: Vec<(String, String)>)
        ensures
            distinct_names(pairs_view(res@)),
            pairs_map(pairs_view(res@)) == self@,
    {
        proof { use_type_invariant(self); }
        let ghost pv = pairs_view(self.entries@);
        let mut res: Vec<(String, String)> = Vec::new();
        let mut i: usize = 0;
        while i < self.entries.len()
            invariant
                pv == pairs_view(self.entries@),
                i <= self.entries.len(),
                pairs_view(res@) == pv.take(i as int),
                res@.len() == i,
            decreases self.entries.len() - i,
        {
            let k = self.entries[i].0.clone();
            let v = self.entries[i].1.clone();
            assert(pv[i as int] == (k@, v@));
            let ghost before = res@;
            res.push((k, v));
            assert forall|j: int| 0 <= j < i implies pairs_view(res@)[j] == pv[j] by {
                assert(res@[j] == before[j]);
                assert(pairs_view(before)[j] == pv.take(i as int)[j]);
            }
            assert(pairs_view(res@) =~= pv.take(i as int + 1));
            i = i + 1;
        }
        assert(pv.take(i as int) =~= pv);
        res
    }
}

/// The map size is the number of pairs when names are distinct.
pub proof fn lemma_pairs_map_len(s: Seq<(Seq<char>, Seq<char>)>)
    requires
        distinct_names(s),
    ensures
        pairs_map(s).dom().finite(),
        pairs_map(s).len() == s.len(),
    decreases s.len(),
{
    if s.len() > 0 {
        let p = s.drop_last();
        assert(distinct_names(p));
        lemma_pairs_map_len(p);
        lemma_pairs_map_absent(p, s.last().0);
    }
}

/// Build a variables map from name/value pairs; a later pair for the same name wins.
pub fn vars(pairs: &[(&str, &str)]) -> (res: Variables)
    ensures
        res@ == pairs_map(str_pairs_view(pairs@)),
{
    let mut res = Variables::new();
    let mut i: usize = 0;
    while i < pairs.len()
        invariant
            i <= pairs.len(),
            res@ == pairs_map(str_pairs_view(pairs@.take(i as int))),
        decreases pairs.len() - i,
    {
        let (k, v) = pairs[i];
        res.insert(k.to_owned(), v.to_owned());
        proof {
            let t = str_pairs_view(pairs@.take(i as int + 1));
            assert(t.drop_last() =~= str_pairs_view(pairs@.take(i as int)));
        }
        i = i + 1;
    }
    assert(pairs@.take(pairs.len() as int) =~= pairs@);
    res
}

} // verus!
