//! Ledger values that the bundle and registry components store and compare: addresses,
//! non-fungible ids, badges, access rules and ownership proofs.

use vstd::prelude::*;

verus! {

broadcast use vstd::array::group_array_axioms;

/// Whether two 32-byte keys hold the same bytes.
pub fn same_key(a: &[u8; 32], b: &[u8; 32]) -> (r: bool)
    ensures
        r == (a@ == b@),
{
    let mut i: usize = 0;
    while i < 32
        invariant
            i <= 32,
            a@.len() == 32,
            b@.len() == 32,
            forall|k: int| 0 <= k < i ==> a@[k] == b@[k],
        decreases 32 - i,
    {
        if a[i] != b[i] {
            return false;
        }
        i = i + 1;
    }
    assert(a@ =~= b@);
    true
}

/// Whether two strings hold the same characters.
pub fn same_text(a: &String, b: &String) -> (r: bool)
    ensures
        r == (a@ == b@),
{
    a.eq(b)
}

/// The address of a resource.
pub struct ResourceAddress {
    pub key: [u8; 32],
}

/// The address of a component.
pub struct ComponentAddress {
    pub key: [u8; 32],
}

impl View for ResourceAddress {
    type V = Seq<u8>;

    open spec fn view(&self) -> Seq<u8> {
        self.key@
    }
}

impl View for ComponentAddress {
    type V = Seq<u8>;

    open spec fn view(&self) -> Seq<u8> {
        self.key@
    }
}

impl ResourceAddress {
    pub fn same(&self, other: &ResourceAddress) -> (r: bool)
        ensures
            r == (self@ == other@),
    {
        same_key(&self.key, &other.key)
    }

    pub fn copy(&self) -> (res: ResourceAddress)
        ensures
            res@ == self@,
    {
        ResourceAddress { key: self.key }
    }
}

impl ComponentAddress {
    pub fn same(&self, other: &ComponentAddress) -> (r: bool)
        ensures
            r == (self@ == other@),
    {
        same_key(&self.key, &other.key)
    }

    pub fn copy(&self) -> (res: ComponentAddress)
        ensures
            res@ == self@,
    {
        ComponentAddress { key: self.key }
    }
}

/// The id of a non-fungible token within its resource.
pub enum NonFungibleId {
    U256([u8; 32]),
    Str(String),
    Uint32(u32),
    Uint64(u64),
}

/// A non-fungible id by its value.
pub enum IdView {
    U256(Seq<u8>),
    Str(Seq<char>),
    Uint32(u32),
    Uint64(u64),
}

impl View for NonFungibleId {
    type V = IdView;

    open spec fn view(&self) -> IdView {
        match self {
            NonFungibleId::U256(k) => IdView::U256(k@),
            NonFungibleId::Str(s) => IdView::Str(s@),
            NonFungibleId::Uint32(n) => IdView::Uint32(*n),
            NonFungibleId::Uint64(n) => IdView::Uint64(*n),
        }
    }
}

impl NonFungibleId {
    pub fn same(&self, other: &NonFungibleId) -> (r: bool)
        ensures
            r == (self@ == other@),
    {
        match (self, other) {
            (NonFungibleId::U256(a), NonFungibleId::U256(b)) => same_key(a, b),
            (NonFungibleId::Str(a), NonFungibleId::Str(b)) => same_text(a, b),
            (NonFungibleId::Uint32(a), NonFungibleId::Uint32(b)) => *a == *b,
            (NonFungibleId::Uint64(a), NonFungibleId::Uint64(b)) => *a == *b,
            _ => false,
        }
    }

    pub fn copy(&self) -> (res: NonFungibleId)
        ensures
            res@ == self@,
    {
        match self {
            NonFungibleId::U256(k) => NonFungibleId::U256(*k),
            NonFungibleId::Str(s) => NonFungibleId::Str(s.clone()),
            NonFungibleId::Uint32(n) => NonFungibleId::Uint32(*n),
            NonFungibleId::Uint64(n) => NonFungibleId::Uint64(*n),
        }
    }
}

/// A badge: one non-fungible token of one resource.
pub struct NonFungibleAddress {
    pub resource: ResourceAddress,
    pub id: NonFungibleId,
}

/// A badge by its value.
pub struct BadgeView {
    pub resource: Seq<u8>,
    pub id: IdView,
}

impl View for NonFungibleAddress {
    type V = BadgeView;

    open spec fn view(&self) -> BadgeView {
        BadgeView { resource: self.resource@, id: self.id@ }
    }
}

impl NonFungibleAddress {
    pub fn same(&self, other: &NonFungibleAddress) -> (r: bool)
        ensures
            r == (self@ == other@),
    {
        self.resource.same(&other.resource) && self.id.same(&other.id)
    }

    pub fn copy(&self) -> (res: NonFungibleAddress)
        ensures
            res@ == self@,
    {
        NonFungibleAddress { resource: self.resource.copy(), id: self.id.copy() }
    }
}

/// The address of a published template.
pub struct TemplateAddress {
    pub key: [u8; 32],
}

impl View for TemplateAddress {
    type V = Seq<u8>;

    open spec fn view(&self) -> Seq<u8> {
        self.key@
    }
}

/// One thing a rule can require.
pub enum RuleRequirement {
    /// A proof of any token of this resource.
    Resource(ResourceAddress),
    /// A proof of this badge.
    NonFungibleAddress(NonFungibleAddress),
    /// That the call comes from within this component.
    ScopedToComponent(ComponentAddress),
    /// That the call comes from within a component of this template.
    ScopedToTemplate(TemplateAddress),
    /// The badge naming this component as the caller.
    CallerComponent(ComponentAddress),
    /// The badge naming this template as the immediate caller's.
    DirectCallerTemplate(TemplateAddress),
}

/// A requirement by its value.
pub enum RequirementView {
    Resource(Seq<u8>),
    NonFungibleAddress(BadgeView),
    ScopedToComponent(Seq<u8>),
    ScopedToTemplate(Seq<u8>),
    CallerComponent(Seq<u8>),
    DirectCallerTemplate(Seq<u8>),
}

impl View for RuleRequirement {
    type V = RequirementView;

    open spec fn view(&self) -> RequirementView {
        match self {
            RuleRequirement::Resource(r) => RequirementView::Resource(r@),
            RuleRequirement::NonFungibleAddress(b) => RequirementView::NonFungibleAddress(b@),
            RuleRequirement::ScopedToComponent(c) => RequirementView::ScopedToComponent(c@),
            RuleRequirement::ScopedToTemplate(t) => RequirementView::ScopedToTemplate(t@),
            RuleRequirement::CallerComponent(c) => RequirementView::CallerComponent(c@),
            RuleRequirement::DirectCallerTemplate(t) => RequirementView::DirectCallerTemplate(t@),
        }
    }
}

/// Requirements by value.
pub open spec fn requirements_view(v: Seq<RuleRequirement>) -> Seq<RequirementView> {
    v.map_values(|q: RuleRequirement| q@)
}

/// A requirement, or any, all or at least some of a list of requirements.
pub enum RequireRule {
    Require(RuleRequirement),
    AnyOf(Vec<RuleRequirement>),
    AllOf(Vec<RuleRequirement>),
    /// At least `m` of the requirements.
    MOfN(u16, Vec<RuleRequirement>),
}

/// A require rule by its value.
pub enum RequireView {
    Require(RequirementView),
    AnyOf(Seq<RequirementView>),
    AllOf(Seq<RequirementView>),
    MOfN(u16, Seq<RequirementView>),
}

impl View for RequireRule {
    type V = RequireView;

    open spec fn view(&self) -> RequireView {
        match self {
            RequireRule::Require(q) => RequireView::Require(q@),
            RequireRule::AnyOf(v) => RequireView::AnyOf(requirements_view(v@)),
            RequireRule::AllOf(v) => RequireView::AllOf(requirements_view(v@)),
            RequireRule::MOfN(m, v) => RequireView::MOfN(*m, requirements_view(v@)),
        }
    }
}

/// A require rule, or any or all of a list of restricted rules.
pub enum RestrictedAccessRule {
    Require(RequireRule),
    AnyOf(Vec<RestrictedAccessRule>),
    AllOf(Vec<RestrictedAccessRule>),
}

/// A restricted rule by its value.
pub enum RestrictedView {
    Require(RequireView),
    AnyOf(Seq<RestrictedView>),
    AllOf(Seq<RestrictedView>),
}

/// A restricted rule by its value.
pub open spec fn restricted_view(r: RestrictedAccessRule) -> RestrictedView
    decreases r,
{
    match r {
        RestrictedAccessRule::Require(q) => RestrictedView::Require(q@),
        RestrictedAccessRule::AnyOf(v) => RestrictedView::AnyOf(restricted_list_view(v@)),
        RestrictedAccessRule::AllOf(v) => RestrictedView::AllOf(restricted_list_view(v@)),
    }
}

/// A list of restricted rules by value.
pub open spec fn restricted_list_view(s: Seq<RestrictedAccessRule>) -> Seq<RestrictedView>
    decreases s,
{
    if s.len() == 0 {
        Seq::empty()
    } else {
        restricted_list_view(s.drop_last()).push(restricted_view(s.last()))
    }
}

/// Who may call a method.
pub enum AccessRule {
    /// Anyone.
    AllowAll,
    /// No one but the owner.
    DenyAll,
    /// Whoever meets the restriction.
    Restricted(RestrictedAccessRule),
}

/// An access rule by its value.
pub enum RuleView {
    AllowAll,
    DenyAll,
    Restricted(RestrictedView),
}

impl View for AccessRule {
    type V = RuleView;

    open spec fn view(&self) -> RuleView {
        match self {
            AccessRule::AllowAll => RuleView::AllowAll,
            AccessRule::DenyAll => RuleView::DenyAll,
            AccessRule::Restricted(r) => RuleView::Restricted(restricted_view(*r)),
        }
    }
}

/// The rule that requires a proof of `badge`.
pub open spec fn badge_rule(badge: BadgeView) -> RuleView {
    RuleView::Restricted(RestrictedView::Require(RequireView::Require(RequirementView::NonFungibleAddress(badge))))
}

/// The rule that requires a proof of any token of `resource`.
pub open spec fn resource_rule(resource: Seq<u8>) -> RuleView {
    RuleView::Restricted(RestrictedView::Require(RequireView::Require(RequirementView::Resource(resource))))
}

impl TemplateAddress {
    pub fn copy(&self) -> (res: TemplateAddress)
        ensures
            res@ == self@,
    {
        TemplateAddress { key: self.key }
    }
}

impl RuleRequirement {
    pub fn copy(&self) -> (res: RuleRequirement)
        ensures
            res@ == self@,
    {
        match self {
            RuleRequirement::Resource(r) => RuleRequirement::Resource(r.copy()),
            RuleRequirement::NonFungibleAddress(b) => RuleRequirement::NonFungibleAddress(b.copy()),
            RuleRequirement::ScopedToComponent(c) => RuleRequirement::ScopedToComponent(c.copy()),
            RuleRequirement::ScopedToTemplate(t) => RuleRequirement::ScopedToTemplate(t.copy()),
            RuleRequirement::CallerComponent(c) => RuleRequirement::CallerComponent(c.copy()),
            RuleRequirement::DirectCallerTemplate(t) => RuleRequirement::DirectCallerTemplate(t.copy()),
        }
    }
}

fn copy_requirements(v: &Vec<RuleRequirement>) -> (res: Vec<RuleRequirement>)
    ensures
        requirements_view(res@) == requirements_view(v@),
{
    let mut out: Vec<RuleRequirement> = Vec::new();
    let mut i: usize = 0;
    while i < v.len()
        invariant
            i <= v.len(),
            requirements_view(out@) == requirements_view(v@.take(i as int)),
        decreases v.len() - i,
    {
        let c = v[i].copy();
        let ghost before = out@;
        out.push(c);
        assert(requirements_view(out@) =~= requirements_view(before).push(c@));
        assert(requirements_view(v@.take(i as int + 1))
            =~= requirements_view(v@.take(i as int)).push(v@[i as int]@));
        i = i + 1;
    }
    assert(v@.take(v@.len() as int) =~= v@);
    out
}

impl RequireRule {
    pub fn copy(&self) -> (res: RequireRule)
        ensures
            res@ == self@,
    {
        match self {
            RequireRule::Require(q) => RequireRule::Require(q.copy()),
            RequireRule::AnyOf(v) => RequireRule::AnyOf(copy_requirements(v)),
            RequireRule::AllOf(v) => RequireRule::AllOf(copy_requirements(v)),
            RequireRule::MOfN(m, v) => RequireRule::MOfN(*m, copy_requirements(v)),
        }
    }
}

impl RestrictedAccessRule {
    pub fn copy(&self) -> (res: RestrictedAccessRule)
        ensures
            restricted_view(res) == restricted_view(*self),
        decreases self,
    {
        match self {
            RestrictedAccessRule::Require(q) => RestrictedAccessRule::Require(q.copy()),
            RestrictedAccessRule::AnyOf(v) => RestrictedAccessRule::AnyOf(Self::copy_list(v)),
            RestrictedAccessRule::AllOf(v) => RestrictedAccessRule::AllOf(Self::copy_list(v)),
        }
    }

    fn copy_list(v: &Vec<RestrictedAccessRule>) -> (res: Vec<RestrictedAccessRule>)
        ensures
            restricted_list_view(res@) == restricted_list_view(v@),
        decreases v,
    {
        let mut out: Vec<RestrictedAccessRule> = Vec::new();
        let mut i: usize = 0;
        while i < v.len()
            invariant
                i <= v.len(),
                restricted_list_view(out@) == restricted_list_view(v@.take(i as int)),
            decreases v.len() - i,
        {
            proof { assert(decreases_to!(v => v@[i as int])); }
            let c = v[i].copy();
            let ghost before = out@;
            out.push(c);
            assert(out@.drop_last() =~= before);
            assert(v@.take(i as int + 1).drop_last() =~= v@.take(i as int));
            i = i + 1;
        }
        assert(v@.take(v@.len() as int) =~= v@);
        out
    }
}

impl AccessRule {
    /// The rule that requires a proof of `badge`.
    pub fn non_fungible(badge: NonFungibleAddress) -> (res: AccessRule)
        ensures
            res@ == badge_rule(badge@),
    {
        AccessRule::Restricted(RestrictedAccessRule::Require(RequireRule::Require(RuleRequirement::NonFungibleAddress(badge))))
    }

    /// The rule that requires a proof of any token of `resource`.
    pub fn resource(resource: ResourceAddress) -> (res: AccessRule)
        ensures
            res@ == resource_rule(resource@),
    {
        AccessRule::Restricted(RestrictedAccessRule::Require(RequireRule::Require(RuleRequirement::Resource(resource))))
    }

    pub fn copy(&self) -> (res: AccessRule)
        ensures
            res@ == self@,
    {
        match self {
            AccessRule::AllowAll => AccessRule::AllowAll,
            AccessRule::DenyAll => AccessRule::DenyAll,
            AccessRule::Restricted(r) => AccessRule::Restricted(r.copy()),
        }
    }
}

/// A proof of ownership: the resource it is for and the non-fungible ids it covers.
pub struct Proof {
    pub resource: ResourceAddress,
    pub non_fungibles: Vec<NonFungibleId>,
}

/// Whether `proof` shows ownership of `badge`: it is for the badge's resource and
/// covers the badge's id.
pub open spec fn proves(resource: Seq<u8>, ids: Seq<IdView>, badge: BadgeView) -> bool {
    resource == badge.resource && ids.contains(badge.id)
}

impl Proof {
    /// The ids the proof covers, by value.
    pub open spec fn ids(&self) -> Seq<IdView> {
        self.non_fungibles@.map_values(|i: NonFungibleId| i@)
    }

    /// Whether the proof covers `id`.
    pub fn covers(&self, id: &NonFungibleId) -> (r: bool)
        ensures
            r == self.ids().contains(id@),
    {
        let mut i: usize = 0;
        while i < self.non_fungibles.len()
            invariant
                i <= self.non_fungibles.len(),
                forall|k: int| 0 <= k < i ==> self.ids()[k] != id@,
            decreases self.non_fungibles.len() - i,
        {
            if self.non_fungibles[i].same(id) {
                assert(self.ids()[i as int] == id@);
                return true;
            }
            i = i + 1;
        }
        false
    }
}

} // verus!
