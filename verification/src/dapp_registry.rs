//! The DappRegistry component: a name registry mapping human-readable names to
//! DappBundle component addresses (DNS for `ootle://` URLs).
//!
//! **The registry is a convenience layer only.** A DappBundle is always reachable via
//! its direct component address, bypassing this registry entirely. A failed call
//! reverts its transaction: here it returns an error and leaves the registry as it was.

use vstd::prelude::*;
use crate::assoc::{assoc_map, keys_distinct, lemma_assoc_lookup, lemma_assoc_absent,
    lemma_assoc_update, lemma_assoc_insert_at, lemma_assoc_remove};
use crate::ootle::{BadgeView, ComponentAddress, IdView, NonFungibleAddress, Proof, proves};
use crate::text::{text_lt, text_less, lemma_text_lt_irreflexive, lemma_text_lt_total,
    lemma_text_lt_transitive};

verus! {

/// A single registry entry mapping a name to a bundle component address.
pub struct RegistryEntry {
    /// The DappBundle component address.
    pub bundle: ComponentAddress,
    /// The badge whose holder may update or deregister this entry.
    pub registrant_badge: NonFungibleAddress,
    /// Ootle epoch at registration time.
    pub registered_at: u64,
}

/// A registry entry by value.
pub struct EntryView {
    pub bundle: Seq<u8>,
    pub registrant_badge: BadgeView,
    pub registered_at: u64,
}

impl View for RegistryEntry {
    type V = EntryView;

    open spec fn view(&self) -> EntryView {
        EntryView { bundle: self.bundle@, registrant_badge: self.registrant_badge@, registered_at: self.registered_at }
    }
}

impl RegistryEntry {
    pub fn copy(&self) -> (res: RegistryEntry)
        ensures
            res@ == self@,
    {
        RegistryEntry {
            bundle: self.bundle.copy(),
            registrant_badge: self.registrant_badge.copy(),
            registered_at: self.registered_at,
        }
    }
}

/// Why a registry call was refused (its transaction reverts).
pub enum RegistryError {
    /// The name is already registered.
    NameTaken { name: String },
    /// The name is not registered.
    NotRegistered { name: String },
    /// The proof is for the wrong resource.
    WrongProofResource,
    /// The proof does not contain the registrant badge.
    MissingRegistrantBadge,
}

/// The registry's contents by value: name to entry.
pub type Entries = Map<Seq<char>, EntryView>;

/// `register(name, bundle, badge)` at `epoch`: refused when the name is taken; else the
/// name maps to the bundle, the badge and the epoch.
pub open spec fn register_spec(m: Entries, name: Seq<char>, bundle: Seq<u8>, badge: BadgeView, epoch: u64)
    -> Result<Entries, RegistryError> {
    if m.contains_key(name) {
        Err(RegistryError::NameTaken { name: arbitrary() })
    } else {
        Ok(m.insert(name, EntryView { bundle, registrant_badge: badge, registered_at: epoch }))
    }
}

/// Whether a proof is accepted for `entry`: first its resource, then its ids.
pub open spec fn registrant_check(entry: EntryView, resource: Seq<u8>, ids: Seq<IdView>) -> Result<(), RegistryError> {
    if resource != entry.registrant_badge.resource {
        Err(RegistryError::WrongProofResource)
    } else if !ids.contains(entry.registrant_badge.id) {
        Err(RegistryError::MissingRegistrantBadge)
    } else {
        Ok(())
    }
}

/// `update(name, new_bundle, proof)`: refused when the name is not registered or the
/// proof does not show the registrant badge; else the name points at `new_bundle`.
pub open spec fn update_spec(m: Entries, name: Seq<char>, new_bundle: Seq<u8>, resource: Seq<u8>, ids: Seq<IdView>)
    -> Result<Entries, RegistryError> {
    if !m.contains_key(name) {
        Err(RegistryError::NotRegistered { name: arbitrary() })
    } else {
        match registrant_check(m[name], resource, ids) {
            Err(e) => Err(e),
            Ok(_) => Ok(m.insert(name, EntryView { bundle: new_bundle, ..m[name] })),
        }
    }
}

/// `deregister(name, proof)`: refused as `update` is; else the name is removed.
pub open spec fn deregister_spec(m: Entries, name: Seq<char>, resource: Seq<u8>, ids: Seq<IdView>)
    -> Result<Entries, RegistryError> {
    if !m.contains_key(name) {
        Err(RegistryError::NotRegistered { name: arbitrary() })
    } else {
        match registrant_check(m[name], resource, ids) {
            Err(e) => Err(e),
            Ok(_) => Ok(m.remove(name)),
        }
    }
}

/// The contents a call leaves: the new ones, or the old ones when the call is refused.
pub open spec fn after(m: Entries, r: Result<Entries, RegistryError>) -> Entries {
    match r {
        Ok(t) => t,
        Err(_) => m,
    }
}

/// `r` succeeds when the specification does, and fails with the same kind of error
/// (a name-carrying error carrying `name`) when it does not.
pub open spec fn same_outcome(r: Result<(), RegistryError>, spec: Result<Entries, RegistryError>, name: Seq<char>) -> bool {
    match spec {
        Ok(_) => r is Ok,
        Err(RegistryError::NameTaken { .. }) => r matches Err(RegistryError::NameTaken { name: n }) && n@ == name,
        Err(RegistryError::NotRegistered { .. }) => r matches Err(RegistryError::NotRegistered { name: n }) && n@ == name,
        Err(RegistryError::WrongProofResource) => r matches Err(RegistryError::WrongProofResource),
        Err(RegistryError::MissingRegistrantBadge) => r matches Err(RegistryError::MissingRegistrantBadge),
    }
}

/// A name registered to a bundle resolves to that bundle, carries the registrant badge
/// and the epoch, and registering a name again is refused without change.
pub proof fn lemma_register_then_resolve(m: Entries, name: Seq<char>, bundle: Seq<u8>, badge: BadgeView, epoch: u64,
    bundle2: Seq<u8>, badge2: BadgeView, epoch2: u64)
    requires
        !m.contains_key(name),
    ensures
        register_spec(m, name, bundle, badge, epoch) matches Ok(t)
            && t.contains_key(name)
            && t[name] == (EntryView { bundle, registrant_badge: badge, registered_at: epoch })
            && register_spec(t, name, bundle2, badge2, epoch2) is Err
            && after(t, register_spec(t, name, bundle2, badge2, epoch2)) == t,
{
}

/// Calls on one name leave every other name as it was.
pub proof fn lemma_other_names_untouched(m: Entries, name: Seq<char>, other: Seq<char>, bundle: Seq<u8>,
    badge: BadgeView, epoch: u64, resource: Seq<u8>, ids: Seq<IdView>)
    requires
        other != name,
    ensures
        after(m, register_spec(m, name, bundle, badge, epoch)).contains_key(other) == m.contains_key(other),
        after(m, update_spec(m, name, bundle, resource, ids)).contains_key(other) == m.contains_key(other),
        after(m, deregister_spec(m, name, resource, ids)).contains_key(other) == m.contains_key(other),
        m.contains_key(other) ==> after(m, register_spec(m, name, bundle, badge, epoch))[other] == m[other],
        m.contains_key(other) ==> after(m, update_spec(m, name, bundle, resource, ids))[other] == m[other],
        m.contains_key(other) ==> after(m, deregister_spec(m, name, resource, ids))[other] == m[other],
{
}

/// Only a proof of the registrant badge changes an entry: with any other proof,
/// `update` and `deregister` are refused and the registry is unchanged.
pub proof fn lemma_only_registrant_changes(m: Entries, name: Seq<char>, bundle: Seq<u8>, resource: Seq<u8>, ids: Seq<IdView>)
    requires
        m.contains_key(name),
        !proves(resource, ids, m[name].registrant_badge),
    ensures
        update_spec(m, name, bundle, resource, ids) is Err,
        deregister_spec(m, name, resource, ids) is Err,
        after(m, update_spec(m, name, bundle, resource, ids)) == m,
        after(m, deregister_spec(m, name, resource, ids)) == m,
{
}

/// With a proof of the registrant badge, `update` repoints the name and keeps its
/// registrant and epoch, and `deregister` removes it.
pub proof fn lemma_registrant_updates_and_removes(m: Entries, name: Seq<char>, bundle: Seq<u8>, resource: Seq<u8>, ids: Seq<IdView>)
    requires
        m.contains_key(name),
        proves(resource, ids, m[name].registrant_badge),
    ensures
        update_spec(m, name, bundle, resource, ids) matches Ok(t)
            && t[name].bundle == bundle
            && t[name].registrant_badge == m[name].registrant_badge
            && t[name].registered_at == m[name].registered_at,
        deregister_spec(m, name, resource, ids) matches Ok(t) && !t.contains_key(name),
{
}

/// A state-changing call on the registry, by value.
pub enum RegistryCall {
    Register { name: Seq<char>, bundle: Seq<u8>, badge: BadgeView, epoch: u64 },
    Update { name: Seq<char>, bundle: Seq<u8>, resource: Seq<u8>, ids: Seq<IdView> },
    Deregister { name: Seq<char>, resource: Seq<u8>, ids: Seq<IdView> },
}

/// The outcome of call `c` on the contents `m`.
pub open spec fn registry_call_spec(m: Entries, c: RegistryCall) -> Result<Entries, RegistryError> {
    match c {
        RegistryCall::Register { name, bundle, badge, epoch } => register_spec(m, name, bundle, badge, epoch),
        RegistryCall::Update { name, bundle, resource, ids } => update_spec(m, name, bundle, resource, ids),
        RegistryCall::Deregister { name, resource, ids } => deregister_spec(m, name, resource, ids),
    }
}

/// The contents after the calls `calls`, made in order from `m` (a refused call changes
/// nothing).
pub open spec fn run_registry(m: Entries, calls: Seq<RegistryCall>) -> Entries
    decreases calls.len(),
{
    if calls.len() == 0 {
        m
    } else {
        after(run_registry(m, calls.drop_last()), registry_call_spec(run_registry(m, calls.drop_last()), calls.last()))
    }
}

/// Whether `c` updates or deregisters `name`.
pub open spec fn is_change_of(c: RegistryCall, name: Seq<char>) -> bool {
    match c {
        RegistryCall::Update { name: n, .. } => n == name,
        RegistryCall::Deregister { name: n, .. } => n == name,
        _ => false,
    }
}

/// Among `calls` made from `m`, one that succeeds in updating or deregistering `name`.
pub open spec fn changes_name(m: Entries, calls: Seq<RegistryCall>, name: Seq<char>) -> bool {
    exists|k: int| 0 <= k < calls.len() && is_change_of(#[trigger] calls[k], name)
        && registry_call_spec(run_registry(m, calls.take(k)), calls[k]) is Ok
}

/// A registered name resolves to its bundle, whatever comes between, as long as no later
/// call succeeds in updating or deregistering it: registering it again is refused, and
/// calls on other names leave it alone.
pub proof fn lemma_name_survives_calls(m: Entries, name: Seq<char>, bundle: Seq<u8>, badge: BadgeView, epoch: u64,
    calls: Seq<RegistryCall>)
    requires
        register_spec(m, name, bundle, badge, epoch) is Ok,
        !changes_name(register_spec(m, name, bundle, badge, epoch)->Ok_0, calls, name),
    ensures
        run_registry(register_spec(m, name, bundle, badge, epoch)->Ok_0, calls).contains_key(name),
        run_registry(register_spec(m, name, bundle, badge, epoch)->Ok_0, calls)[name]
            == (EntryView { bundle, registrant_badge: badge, registered_at: epoch }),
    decreases calls.len(),
{
    let t0 = register_spec(m, name, bundle, badge, epoch)->Ok_0;
    if calls.len() > 0 {
        let front = calls.drop_last();
        assert forall|k: int| 0 <= k < front.len() implies !(is_change_of(#[trigger] front[k], name)
            && registry_call_spec(run_registry(t0, front.take(k)), front[k]) is Ok) by {
            assert(front.take(k) =~= calls.take(k));
            assert(front[k] == calls[k]);
        }
        lemma_name_survives_calls(m, name, bundle, badge, epoch, front);
        assert(calls.take(calls.len() - 1) =~= front);
        assert(calls[calls.len() - 1] == calls.last());
    }
}

/// Entries by value, in stored order.
pub open spec fn entries_view(v: Seq<(String, RegistryEntry)>) -> Seq<(Seq<char>, EntryView)> {
    v.map_values(|p: (String, RegistryEntry)| (p.0@, p.1@))
}

/// The names of `s` strictly increase.
pub open spec fn names_sorted(s: Seq<(Seq<char>, EntryView)>) -> bool {
    forall|i: int, j: int| 0 <= i < j < s.len() ==> text_lt(s[i].0, s[j].0)
}

proof fn lemma_sorted_distinct(s: Seq<(Seq<char>, EntryView)>)
    requires
        names_sorted(s),
    ensures
        keys_distinct(s),
{
    assert forall|i: int, j: int| 0 <= i < s.len() && 0 <= j < s.len() && i != j implies s[i].0 != s[j].0 by {
        if i < j {
            lemma_text_lt_irreflexive(s[i].0);
        } else {
            lemma_text_lt_irreflexive(s[j].0);
        }
    }
}

/// Global name registry mapping human-readable names to DappBundle component addresses.
pub struct DappRegistry {
    /// Entries kept in increasing name order, each name once.
    ///
    /// The map is a `Vec` under an invariant rather than a std map: vstd specifies the std
    /// maps' operations only for key types that it knows to obey its key model (integers
    /// and `bool`), which `String` is not, so no call on such a map could be proved.
    entries: Vec<(String, RegistryEntry)>,
}

impl View for DappRegistry {
    type V = Entries;

    closed spec fn view(&self) -> Entries {
        assoc_map(entries_view(self.entries@))
    }
}

impl DappRegistry {
    #[verifier::type_invariant]
    closed spec fn sorted(self) -> bool {
        names_sorted(entries_view(self.entries@))
    }

    /// Deploy a new empty registry. Anyone may call any of its methods.
    pub fn new() -> (res: DappRegistry)
        ensures
            res@ == Map::<Seq<char>, EntryView>::empty(),
    {
        let res = DappRegistry { entries: Vec::new() };
        assert(entries_view(res.entries@) =~= Seq::<(Seq<char>, EntryView)>::empty());
        res
    }

    /// The first position whose name does not precede `name`: where `name` is, or
    /// where it belongs.
    fn position(&self, name: &String) -> (res: (usize, bool))
        ensures
            res.0 <= self.entries@.len(),
            forall|k: int| 0 <= k < res.0 ==> text_lt(#[trigger] entries_view(self.entries@)[k].0, name@),
            res.1 <==> (res.0 < self.entries@.len() && entries_view(self.entries@)[res.0 as int].0 == name@),
            !res.1 ==> forall|k: int| res.0 <= k < self.entries@.len()
                ==> text_lt(name@, #[trigger] entries_view(self.entries@)[k].0),
    {
        proof { use_type_invariant(self); }
        let ghost ev = entries_view(self.entries@);
        let mut i: usize = 0;
        while i < self.entries.len()
            invariant
                ev == entries_view(self.entries@),
                names_sorted(ev),
                i <= self.entries.len(),
                forall|k: int| 0 <= k < i ==> text_lt(#[trigger] ev[k].0, name@),
            decreases self.entries.len() - i,
        {
            if !text_less(self.entries[i].0.as_str(), name.as_str()) {
                let found = self.entries[i].0.eq(name);
                proof {
                    if !found {
                        lemma_text_lt_total(ev[i as int].0, name@);
                        assert forall|k: int| i <= k < ev.len() implies text_lt(name@, #[trigger] ev[k].0) by {
                            if k > i {
                                lemma_text_lt_transitive(name@, ev[i as int].0, ev[k].0);
                            }
                        }
                    }
                }
                return (i, found);
            }
            i = i + 1;
        }
        (i, false)
    }

    /// Register a human-readable name pointing at a DappBundle component.
    /// The name must not already be taken. `registrant_badge` is the NFT address whose
    /// holder will be allowed to update or remove this entry; `current_epoch` is the
    /// consensus epoch at which the call runs.
    pub fn register(
        &mut self,
        name: String,
        bundle: ComponentAddress,
        registrant_badge: NonFungibleAddress,
        current_epoch: u64,
    ) -> (res: Result<(), RegistryError>)
        ensures
            final(self)@ == after(old(self)@, register_spec(old(self)@, name@, bundle@, registrant_badge@, current_epoch)),
            same_outcome(res, register_spec(old(self)@, name@, bundle@, registrant_badge@, current_epoch), name@),
    {
        proof { use_type_invariant(&*self); }
        let ghost ev = entries_view(self.entries@);
        let (p, found) = self.position(&name);
        if found {
            proof { lemma_sorted_distinct(ev); lemma_assoc_lookup(ev, p as int); }
            return Err(RegistryError::NameTaken { name });
        }
        let ghost nv = name@;
        let entry = RegistryEntry { bundle, registrant_badge, registered_at: current_epoch };
        let ghost e = entry@;
        proof {
            lemma_sorted_distinct(ev);
            assert forall|k: int| 0 <= k < ev.len() implies ev[k].0 != nv by {
                if k < p {
                    assert(text_lt(ev[k].0, nv));
                    lemma_text_lt_irreflexive(nv);
                } else {
                    assert(text_lt(nv, ev[k].0));
                    lemma_text_lt_irreflexive(nv);
                }
            }
            lemma_assoc_insert_at(ev, p as int, nv, e);
            lemma_assoc_absent(ev, nv);
        }
        let mut entries: Vec<(String, RegistryEntry)> = Vec::new();
        std::mem::swap(&mut entries, &mut self.entries);
        entries.insert(p, (name, entry));
        assert(entries_view(entries@) =~= ev.insert(p as int, (nv, e)));
        proof {
            let t = ev.insert(p as int, (nv, e));
            assert forall|i: int, j: int| 0 <= i < j < t.len() implies text_lt(t[i].0, t[j].0) by {
                if j < p {
                } else if j == p {
                } else if i < p {
                    lemma_text_lt_transitive(t[i].0, nv, t[j].0);
                } else if i == p {
                } else {
                }
            }
        }
        self.entries = entries;
        Ok(())
    }

    /// Check that `proof` shows the registrant badge of `entry`.
    fn check_registrant(proof: &Proof, entry: &RegistryEntry) -> (res: Result<(), RegistryError>)
        ensures
            res == registrant_check(entry@, proof.resource@, proof.ids()),
    {
        if !proof.resource.same(&entry.registrant_badge.resource) {
            return Err(RegistryError::WrongProofResource);
        }
        if !proof.covers(&entry.registrant_badge.id) {
            return Err(RegistryError::MissingRegistrantBadge);
        }
        Ok(())
    }

    /// Point an existing name at a new bundle. Requires a proof of the registrant badge.
    pub fn update(&mut self, name: String, new_bundle: ComponentAddress, proof: &Proof) -> (res: Result<(), RegistryError>)
        ensures
            final(self)@ == after(old(self)@, update_spec(old(self)@, name@, new_bundle@, proof.resource@, proof.ids())),
            same_outcome(res, update_spec(old(self)@, name@, new_bundle@, proof.resource@, proof.ids()), name@),
    {
        proof { use_type_invariant(&*self); }
        let ghost ev = entries_view(self.entries@);
        let (p, found) = self.position(&name);
        proof { lemma_sorted_distinct(ev); }
        if !found {
            proof {
                assert forall|k: int| 0 <= k < ev.len() implies ev[k].0 != name@ by {
                    lemma_text_lt_irreflexive(name@);
                }
                lemma_assoc_absent(ev, name@);
            }
            return Err(RegistryError::NotRegistered { name });
        }
        proof { lemma_assoc_lookup(ev, p as int); }
        match Self::check_registrant(proof, &self.entries[p].1) {
            Err(e) => return Err(e),
            Ok(()) => {},
        }
        let old_entry = self.entries[p].1.copy();
        let entry = RegistryEntry {
            bundle: new_bundle,
            registrant_badge: old_entry.registrant_badge,
            registered_at: old_entry.registered_at,
        };
        let ghost e = entry@;
        proof { lemma_assoc_update(ev, p as int, e); }
        let mut entries: Vec<(String, RegistryEntry)> = Vec::new();
        std::mem::swap(&mut entries, &mut self.entries);
        let key = entries[p].0.clone();
        entries.set(p, (key, entry));
        assert(entries_view(entries@) =~= ev.update(p as int, (ev[p as int].0, e)));
        self.entries = entries;
        Ok(())
    }

    /// Remove a name from the registry. Requires a proof of the registrant badge.
    /// Note: the underlying DappBundle component is unaffected and still accessible
    /// via its direct component address.
    pub fn deregister(&mut self, name: String, proof: &Proof) -> (res: Result<(), RegistryError>)
        ensures
            final(self)@ == after(old(self)@, deregister_spec(old(self)@, name@, proof.resource@, proof.ids())),
            same_outcome(res, deregister_spec(old(self)@, name@, proof.resource@, proof.ids()), name@),
    {
        proof { use_type_invariant(&*self); }
        let ghost ev = entries_view(self.entries@);
        let (p, found) = self.position(&name);
        proof { lemma_sorted_distinct(ev); }
        if !found {
            proof {
                assert forall|k: int| 0 <= k < ev.len() implies ev[k].0 != name@ by {
                    lemma_text_lt_irreflexive(name@);
                }
                lemma_assoc_absent(ev, name@);
            }
            return Err(RegistryError::NotRegistered { name });
        }
        proof { lemma_assoc_lookup(ev, p as int); }
        match Self::check_registrant(proof, &self.entries[p].1) {
            Err(e) => return Err(e),
            Ok(()) => {},
        }
        proof { lemma_assoc_remove(ev, p as int); }
        let mut entries: Vec<(String, RegistryEntry)> = Vec::new();
        std::mem::swap(&mut entries, &mut self.entries);
        let _ = entries.remove(p);
        assert(entries_view(entries@) =~= ev.remove(p as int));
        self.entries = entries;
        Ok(())
    }

    /// Look up the bundle component address for a name.
    pub fn resolve(&self, name: String) -> (res: Option<ComponentAddress>)
        ensures
            match res {
                Some(a) => self@.contains_key(name@) && a@ == self@[name@].bundle,
                None => !self@.contains_key(name@),
            },
    {
        match self.get(name) {
            Some(e) => Some(e.bundle),
            None => None,
        }
    }

    /// Return a full registry entry by name.
    pub fn get(&self, name: String) -> (res: Option<RegistryEntry>)
        ensures
            match res {
                Some(e) => self@.contains_key(name@) && e@ == self@[name@],
                None => !self@.contains_key(name@),
            },
    {
        proof { use_type_invariant(self); }
        let ghost ev = entries_view(self.entries@);
        let (p, found) = self.position(&name);
        proof { lemma_sorted_distinct(ev); }
        if found {
            proof { lemma_assoc_lookup(ev, p as int); }
            Some(self.entries[p].1.copy())
        } else {
            proof {
                assert forall|k: int| 0 <= k < ev.len() implies ev[k].0 != name@ by {
                    lemma_text_lt_irreflexive(name@);
                }
                lemma_assoc_absent(ev, name@);
            }
            None
        }
    }

    /// Enumerate all registered names and their entries, in increasing name order.
    pub fn list(&self) -> (res: Vec<(String, RegistryEntry)>)
        ensures
            names_sorted(entries_view(res@)),
            assoc_map(entries_view(res@)) == self@,
    {
        proof { use_type_invariant(self); }
        let ghost ev = entries_view(self.entries@);
        let mut out: Vec<(String, RegistryEntry)> = Vec::new();
        let mut i: usize = 0;
        while i < self.entries.len()
            invariant
                ev == entries_view(self.entries@),
                i <= self.entries.len(),
                out@.len() == i,
                entries_view(out@) == ev.take(i as int),
            decreases self.entries.len() - i,
        {
            let k = self.entries[i].0.clone();
            let e = self.entries[i].1.copy();
            let ghost before = out@;
            assert(ev[i as int] == (k@, e@));
            out.push((k, e));
            assert forall|j: int| 0 <= j < i implies entries_view(out@)[j] == ev[j] by {
                assert(out@[j] == before[j]);
                assert(entries_view(before)[j] == ev.take(i as int)[j]);
            }
            assert(entries_view(out@) =~= ev.take(i as int + 1));
            i = i + 1;
        }
        assert(ev.take(i as int) =~= ev);
        out
    }
}

} // verus!
