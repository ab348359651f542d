use vstd::prelude::*;
use crate::allowed_result::{AllowedOutcome, AllowedResult, aggregate, allowed, policy_answers, reported_outcome, settled_partials};
use crate::json::{Json, same_text, entry};
use crate::policy::CompletePolicy;
use crate::policy_set::{PolicySet, PolicySetTrait, policy_ids, without_id};

verus! {

/// The id that the inline policy of an identity takes.
pub open spec fn identity_inline_id(id: Seq<char>) -> Seq<char> {
    "__embedded_policy_identity_"@ + id + "__"@
}

/// The id that the inline policy of a group takes.
pub open spec fn group_inline_id(name: Seq<char>) -> Seq<char> {
    "__embedded_policy_group_"@ + name + "__"@
}

/// Whether `p` is the policy `q` under the id `id`.
pub open spec fn inline_from(p: CompletePolicy, q: CompletePolicy, id: Seq<char>) -> bool {
    &&& p.spec_id() == id
    &&& p.spec_version() == q.spec_version()
    &&& p.spec_effect() == q.spec_effect()
    &&& p.spec_actions() == q.spec_actions()
    &&& p.spec_resources() == q.spec_resources()
    &&& p.spec_conditions() == q.spec_conditions()
    &&& p.spec_compiled() == q.spec_compiled()
}

/// Something that names an identity: an identity or its id.
pub trait ToIdentityId {
    spec fn spec_identity_id(&self) -> Seq<char>;

    fn to_identity_id(&self) -> (r: &String)
        ensures
            r@ == self.spec_identity_id();
}

impl ToIdentityId for String {
    open spec fn spec_identity_id(&self) -> Seq<char> {
        self@
    }

    fn to_identity_id(&self) -> (r: &String) {
        self
    }
}

/// A subject: an id, an optional inline policy and linked policies.
#[derive(Debug)]
pub struct Identity {
    id: String,
    inline_policy: Option<CompletePolicy>,
    linked_policies: PolicySet,
}

/// The policies a subject is judged by, in order: the inline policy first, if any,
/// then the linked ones.
pub open spec fn subject_policies(inline: Option<CompletePolicy>, linked: Seq<CompletePolicy>) -> Seq<CompletePolicy> {
    match inline {
        Some(p) => seq![p] + linked,
        None => linked,
    }
}

/// The policies that a list of references points to.
pub open spec fn derefs(v: Seq<&CompletePolicy>) -> Seq<CompletePolicy> {
    Seq::new(v.len(), |i: int| *v[i])
}

fn gather<'a>(inline: &'a Option<CompletePolicy>, linked: &'a PolicySet) -> (r: Vec<&'a CompletePolicy>)
    requires
        linked.wf(),
        inline matches Some(p) ==> p.wf(),
    ensures
        derefs(r@) == subject_policies(*inline, linked.spec_policies()),
        forall|i: int| 0 <= i < r.len() ==> (#[trigger] r[i]).wf(),
{
    proof {
        linked.lemma_wf();
    }
    let mut out: Vec<&CompletePolicy> = Vec::new();
    if let Some(p) = inline {
        out.push(p);
    }
    let ghost start = derefs(out@);
    proof {
        assert(start =~= match *inline { Some(p) => seq![p], None => Seq::<CompletePolicy>::empty() });
    }
    let ps = linked.policies();
    proof {
        assert(derefs(out@) =~= start + ps@.subrange(0, 0));
    }
    let mut i: usize = 0;
    while i < ps.len()
        invariant
            ps@ == linked.spec_policies(),
            forall|k: int| 0 <= k < ps.len() ==> (#[trigger] ps[k]).wf(),
            inline matches Some(p) ==> p.wf(),
            start == match *inline { Some(p) => seq![p], None => Seq::<CompletePolicy>::empty() },
            i <= ps.len(),
            derefs(out@) == start + ps@.subrange(0, i as int),
            forall|k: int| 0 <= k < out.len() ==> (#[trigger] out[k]).wf(),
        decreases ps.len() - i,
    {
        let ghost before = out@;
        out.push(&ps[i]);
        i = i + 1;
        proof {
            assert(derefs(before) == start + ps@.subrange(0, i - 1));
            assert forall|k: int| 0 <= k < out.len() implies #[trigger] derefs(out@)[k] == (start + ps@.subrange(0, i as int))[k] by {
                if k < before.len() {
                    assert(derefs(out@)[k] == derefs(before)[k]);
                }
            }
            assert(derefs(out@) =~= start + ps@.subrange(0, i as int));
        }
    }
    proof {
        assert(ps@.subrange(0, ps@.len() as int) =~= ps@);
        assert(start + ps@ =~= subject_policies(*inline, linked.spec_policies()));
    }
    out
}

/// What a subject's policies decide on a request: the aggregate over the inline policy
/// and then the linked policies.
pub open spec fn subject_decision(policies: Seq<CompletePolicy>, action: Option<Seq<char>>, resource: Option<Seq<char>>, params: Json, scripts: Seq<(String, bool)>) -> (AllowedOutcome, Seq<crate::policy::PartialView>) {
    let agg = aggregate(policy_answers(policies.map_values(|p: CompletePolicy| &p), action, resource, params, scripts));
    (agg.0, settled_partials(agg.0, agg.1))
}

pub open spec fn opt_view(s: Option<&str>) -> Option<Seq<char>> {
    match s {
        Some(x) => Some(x@),
        None => None,
    }
}

proof fn lemma_refs_answers(refs: Seq<&CompletePolicy>, ps: Seq<CompletePolicy>, action: Option<Seq<char>>, resource: Option<Seq<char>>, params: Json, scripts: Seq<(String, bool)>)
    requires
        derefs(refs) == ps,
    ensures
        policy_answers(refs, action, resource, params, scripts) == policy_answers(ps.map_values(|p: CompletePolicy| &p), action, resource, params, scripts),
{
    assert(refs.len() == ps.len());
    assert forall|i: int| 0 <= i < refs.len() implies #[trigger] refs[i] == ps[i] by {
        assert(derefs(refs)[i] == *refs[i]);
    }
    assert(refs =~= ps.map_values(|p: CompletePolicy| &p));
    assert(policy_answers(refs, action, resource, params, scripts) =~= policy_answers(ps.map_values(|p: CompletePolicy| &p), action, resource, params, scripts));
}

fn decide_subject(inline: &Option<CompletePolicy>, linked: &PolicySet, action: Option<&str>, resource: Option<&str>, params: &Json, scripts: &Vec<(String, bool)>) -> (r: AllowedResult)
    requires
        linked.wf(),
        inline matches Some(p) ==> p.wf(),
    ensures
        (r.spec_outcome(), r.spec_partials()) == subject_decision(subject_policies(*inline, linked.spec_policies()), opt_view(action), opt_view(resource), *params, scripts@),
{
    let policies = gather(inline, linked);
    let r = allowed(&policies, action, resource, params, scripts);
    proof {
        lemma_refs_answers(policies@, subject_policies(*inline, linked.spec_policies()), opt_view(action), opt_view(resource), *params, scripts@);
    }
    r
}

impl Identity {
    pub closed spec fn spec_id(&self) -> Seq<char> {
        self.id@
    }

    pub closed spec fn spec_inline(&self) -> Option<CompletePolicy> {
        self.inline_policy
    }

    pub closed spec fn spec_linked(&self) -> Seq<CompletePolicy> {
        self.linked_policies.spec_policies()
    }

    pub closed spec fn wf(&self) -> bool {
        &&& self.linked_policies.wf()
        &&& self.inline_policy matches Some(p) ==> p.wf()
    }

    /// An identity with no linked policies. The inline policy, if any, takes the id
    /// `__embedded_policy_identity_<id>__`.
    pub fn new(id: &str, policy: Option<CompletePolicy>) -> (r: Identity)
        requires
            policy matches Some(p) ==> p.wf(),
        ensures
            r.wf(),
            r.spec_id() == id@,
            r.spec_inline() is Some == policy is Some,
            policy matches Some(q) ==> inline_from(r.spec_inline()->Some_0, q, identity_inline_id(id@)),
            r.spec_linked() == Seq::<CompletePolicy>::empty(),
    {
        let empty = Identity { id: String::from_str(id), inline_policy: None, linked_policies: PolicySet::new() };
        match policy {
            Some(p) => empty.set_inline_policy(p),
            None => empty,
        }
    }

    pub fn get_id(&self) -> (r: &String)
        ensures
            r@ == self.spec_id(),
    {
        &self.id
    }

    pub fn get_inline_policy(&self) -> (r: Option<&CompletePolicy>)
        ensures
            r == match self.spec_inline() { Some(p) => Some(&p), None => None::<&CompletePolicy> },
    {
        self.inline_policy.as_ref()
    }

    pub fn linked_policies(&self) -> (r: &PolicySet)
        ensures
            r.spec_policies() == self.spec_linked(),
    {
        &self.linked_policies
    }

    pub fn clear_inline_policy(self) -> (r: Identity)
        requires
            self.wf(),
        ensures
            r.wf(),
            r.spec_id() == self.spec_id(),
            r.spec_inline() is None,
            r.spec_linked() == self.spec_linked(),
    {
        let mut s = self;
        s.inline_policy = None;
        s
    }

    /// Sets the inline policy, which takes the id `__embedded_policy_identity_<id>__`.
    pub fn set_inline_policy(self, policy: CompletePolicy) -> (r: Identity)
        requires
            self.wf(),
            policy.wf(),
        ensures
            r.wf(),
            r.spec_id() == self.spec_id(),
            r.spec_linked() == self.spec_linked(),
            r.spec_inline() is Some,
            inline_from(r.spec_inline()->Some_0, policy, identity_inline_id(self.spec_id())),
    {
        let mut s = self;
        let mut policy = policy;
        let mut new_id = String::from_str("__embedded_policy_identity_");
        new_id.append(s.id.as_str());
        new_id.append("__");
        policy.set_id(new_id);
        s.inline_policy = Some(policy);
        s
    }

    /// Decides a request on the identity's own policies: the inline one, then the linked ones.
    pub fn allowed(&self, action: Option<&str>, resource: Option<&str>, params: &Json, scripts: &Vec<(String, bool)>) -> (r: AllowedResult)
        requires
            self.wf(),
        ensures
            (r.spec_outcome(), r.spec_partials()) == subject_decision(subject_policies(self.spec_inline(), self.spec_linked()), opt_view(action), opt_view(resource), *params, scripts@),
    {
        decide_subject(&self.inline_policy, &self.linked_policies, action, resource, params, scripts)
    }
}

impl ToIdentityId for Identity {
    open spec fn spec_identity_id(&self) -> Seq<char> {
        self.spec_id()
    }

    fn to_identity_id(&self) -> (r: &String) {
        &self.id
    }
}

impl PolicySetTrait for Identity {
    open spec fn spec_policy_ids(&self) -> Seq<Seq<char>> {
        policy_ids(self.spec_linked())
    }

    open spec fn set_wf(&self) -> bool {
        self.wf()
    }

    fn add_policy(self, policy: CompletePolicy) -> (r: Self) {
        let Identity { id, inline_policy, linked_policies } = self;
        Identity { id, inline_policy, linked_policies: linked_policies.add_policy(policy) }
    }

    fn remove_policy(self, id: &str) -> (r: Self) {
        let Identity { id: own_id, inline_policy, linked_policies } = self;
        Identity { id: own_id, inline_policy, linked_policies: linked_policies.remove_policy(id) }
    }
}

/// The ids of a list of identities, in order.
pub open spec fn identity_ids(v: Seq<Identity>) -> Seq<Seq<char>> {
    v.map_values(|i: Identity| i.spec_id())
}

/// A set of identities, unique by id.
#[derive(Debug)]
pub struct IdentitySet {
    identities: Vec<Identity>,
}

impl IdentitySet {
    pub closed spec fn spec_ids(&self) -> Seq<Seq<char>> {
        identity_ids(self.identities@)
    }

    pub closed spec fn wf(&self) -> bool {
        &&& identity_ids(self.identities@).no_duplicates()
        &&& forall|i: int| 0 <= i < self.identities.len() ==> (#[trigger] self.identities[i]).wf()
    }

    pub fn new() -> (r: IdentitySet)
        ensures
            r.wf(),
            r.spec_ids() == Seq::<Seq<char>>::empty(),
    {
        let r = IdentitySet { identities: Vec::new() };
        proof {
            assert(identity_ids(r.identities@) =~= seq![]);
        }
        r
    }

    pub fn len(&self) -> (r: usize)
        ensures
            r == self.spec_ids().len(),
    {
        self.identities.len()
    }

    pub fn is_empty(&self) -> (r: bool)
        ensures
            r == (self.spec_ids().len() == 0),
    {
        self.identities.len() == 0
    }

    /// The identities of the set.
    pub fn identities(&self) -> (r: &Vec<Identity>)
        ensures
            identity_ids(r@) == self.spec_ids(),
    {
        &self.identities
    }

    /// Adds an identity unless one with the same id is there.
    pub fn insert(self, identity: Identity) -> (r: IdentitySet)
        requires
            self.wf(),
            identity.wf(),
        ensures
            r.wf(),
            r.spec_ids() == if self.spec_ids().contains(identity.spec_id()) { self.spec_ids() } else { self.spec_ids().push(identity.spec_id()) },
    {
        let mut v = self.identities;
        let mut i: usize = 0;
        while i < v.len()
            invariant
                v@ == self.identities@,
                self.wf(),
                i <= v.len(),
                forall|k: int| 0 <= k < i ==> #[trigger] v[k].spec_id() != identity.spec_id(),
            decreases v.len() - i,
        {
            if same_text(v[i].get_id().as_str(), identity.get_id().as_str()) {
                proof {
                    assert(identity_ids(v@)[i as int] == identity.spec_id());
                }
                return IdentitySet { identities: v };
            }
            i = i + 1;
        }
        let ghost before = v@;
        proof {
            if identity_ids(before).contains(identity.spec_id()) {
                let k = choose|k: int| 0 <= k < identity_ids(before).len() && identity_ids(before)[k] == identity.spec_id();
                assert(before[k].spec_id() == identity.spec_id());
            }
        }
        v.push(identity);
        proof {
            assert(identity_ids(v@) =~= identity_ids(before).push(identity.spec_id()));
            assert forall|k: int| 0 <= k < v.len() implies (#[trigger] v[k]).wf() by {
                if k < before.len() {
                    assert(v[k] == before[k]);
                }
            }
        }
        IdentitySet { identities: v }
    }

    /// Removes the identity with the id that `identity` names, if there is one.
    pub fn remove<T: ToIdentityId>(self, identity: T) -> (r: IdentitySet)
        requires
            self.wf(),
        ensures
            r.wf(),
            r.spec_ids() == without_id(self.spec_ids(), identity.spec_identity_id()),
    {
        let id = identity.to_identity_id();
        let ghost all = self.identities@;
        let mut remaining = self.identities;
        let n = remaining.len();
        let mut kept: Vec<Identity> = Vec::new();
        let mut index: usize = 0;
        proof {
            assert(remaining@ =~= all.subrange(0, n as int));
            assert(identity_ids(all).subrange(0, 0) =~= seq![]);
            assert(identity_ids(kept@) =~= without_id(identity_ids(all).subrange(0, 0), id@));
        }
        while index < n
            invariant
                n == all.len(),
                index <= n,
                remaining@ == all.subrange(index as int, n as int),
                forall|k: int| 0 <= k < all.len() ==> (#[trigger] all[k]).wf(),
                forall|k: int| 0 <= k < kept.len() ==> (#[trigger] kept@[k]).wf(),
                identity_ids(kept@) == without_id(identity_ids(all).subrange(0, index as int), id@),
            decreases n - index,
        {
            let p = remaining.remove(0);
            proof {
                assert(p == all[index as int]);
                assert(remaining@ =~= all.subrange(index + 1, n as int));
                let ids = identity_ids(all).subrange(0, index + 1);
                assert(ids.drop_last() =~= identity_ids(all).subrange(0, index as int));
                assert(ids.last() == p.spec_id());
            }
            if !same_text(p.get_id().as_str(), id.as_str()) {
                let ghost before = kept@;
                kept.push(p);
                proof {
                    assert(identity_ids(kept@) =~= identity_ids(before).push(p.spec_id()));
                    assert forall|k: int| 0 <= k < kept.len() implies (#[trigger] kept@[k]).wf() by {
                        if k < before.len() {
                            assert(kept@[k] == before[k]);
                        }
                    }
                }
            }
            index = index + 1;
        }
        proof {
            assert(identity_ids(all).subrange(0, n as int) =~= identity_ids(all));
            crate::policy_set::lemma_without_unique(identity_ids(all), id@);
        }
        IdentitySet { identities: kept }
    }
}

/// A group: a unique name, the identities it holds, an optional inline policy and
/// linked policies.
#[derive(Debug)]
pub struct Group {
    name: String,
    identities: IdentitySet,
    inline_policy: Option<CompletePolicy>,
    linked_policies: PolicySet,
}

impl Group {
    pub closed spec fn spec_name(&self) -> Seq<char> {
        self.name@
    }

    pub closed spec fn spec_identity_ids(&self) -> Seq<Seq<char>> {
        self.identities.spec_ids()
    }

    pub closed spec fn spec_inline(&self) -> Option<CompletePolicy> {
        self.inline_policy
    }

    pub closed spec fn spec_linked(&self) -> Seq<CompletePolicy> {
        self.linked_policies.spec_policies()
    }

    pub closed spec fn wf(&self) -> bool {
        &&& self.identities.wf()
        &&& self.linked_policies.wf()
        &&& self.inline_policy matches Some(p) ==> p.wf()
    }

    /// A group with no identities and no linked policies. The inline policy, if any,
    /// takes the id `__embedded_policy_group_<name>__`.
    pub fn new(name: &str, policy: Option<CompletePolicy>) -> (r: Group)
        requires
            policy matches Some(p) ==> p.wf(),
        ensures
            r.wf(),
            r.spec_name() == name@,
            r.spec_identity_ids() == Seq::<Seq<char>>::empty(),
            r.spec_inline() is Some == policy is Some,
            policy matches Some(q) ==> inline_from(r.spec_inline()->Some_0, q, group_inline_id(name@)),
            r.spec_linked() == Seq::<CompletePolicy>::empty(),
    {
        let empty = Group { name: String::from_str(name), identities: IdentitySet::new(), inline_policy: None, linked_policies: PolicySet::new() };
        match policy {
            Some(p) => empty.set_inline_policy(p),
            None => empty,
        }
    }

    pub fn get_name(&self) -> (r: &String)
        ensures
            r@ == self.spec_name(),
    {
        &self.name
    }

    pub fn get_inline_policy(&self) -> (r: Option<&CompletePolicy>)
        ensures
            r == match self.spec_inline() { Some(p) => Some(&p), None => None::<&CompletePolicy> },
    {
        self.inline_policy.as_ref()
    }

    pub fn linked_policies(&self) -> (r: &PolicySet)
        ensures
            r.spec_policies() == self.spec_linked(),
    {
        &self.linked_policies
    }

    /// The identities of the group.
    pub fn get_identities(&self) -> (r: &IdentitySet)
        ensures
            r.spec_ids() == self.spec_identity_ids(),
    {
        &self.identities
    }

    pub fn clear_inline_policy(self) -> (r: Group)
        requires
            self.wf(),
        ensures
            r.wf(),
            r.spec_name() == self.spec_name(),
            r.spec_identity_ids() == self.spec_identity_ids(),
            r.spec_inline() is None,
            r.spec_linked() == self.spec_linked(),
    {
        let Group { name, identities, inline_policy: _, linked_policies } = self;
        Group { name, identities, inline_policy: None, linked_policies }
    }

    /// Sets the inline policy, which takes the id `__embedded_policy_group_<name>__`.
    pub fn set_inline_policy(self, policy: CompletePolicy) -> (r: Group)
        requires
            self.wf(),
            policy.wf(),
        ensures
            r.wf(),
            r.spec_name() == self.spec_name(),
            r.spec_identity_ids() == self.spec_identity_ids(),
            r.spec_linked() == self.spec_linked(),
            r.spec_inline() is Some,
            inline_from(r.spec_inline()->Some_0, policy, group_inline_id(self.spec_name())),
    {
        let Group { name, identities, inline_policy: _, linked_policies } = self;
        let mut policy = policy;
        let mut new_id = String::from_str("__embedded_policy_group_");
        new_id.append(name.as_str());
        new_id.append("__");
        policy.set_id(new_id);
        Group { name, identities, inline_policy: Some(policy), linked_policies }
    }

    /// Adds an identity to the group, unless one with the same id is in it.
    pub fn add_identity(self, identity: Identity) -> (r: Group)
        requires
            self.wf(),
            identity.wf(),
        ensures
            r.wf(),
            r.spec_name() == self.spec_name(),
            r.spec_identity_ids() == if self.spec_identity_ids().contains(identity.spec_id()) {
                self.spec_identity_ids()
            } else {
                self.spec_identity_ids().push(identity.spec_id())
            },
    {
        let Group { name, identities, inline_policy, linked_policies } = self;
        Group { name, identities: identities.insert(identity), inline_policy, linked_policies }
    }

    /// Removes the identity that `identity` names from the group.
    pub fn remove_identity<T: ToIdentityId>(self, identity: T) -> (r: Group)
        requires
            self.wf(),
        ensures
            r.wf(),
            r.spec_name() == self.spec_name(),
            r.spec_identity_ids() == without_id(self.spec_identity_ids(), identity.spec_identity_id()),
    {
        let Group { name, identities, inline_policy, linked_policies } = self;
        Group { name, identities: identities.remove(identity), inline_policy, linked_policies }
    }

    /// Decides a request on the group's own policies: the inline one, then the linked ones.
    pub fn allowed(&self, action: Option<&str>, resource: Option<&str>, params: &Json, scripts: &Vec<(String, bool)>) -> (r: AllowedResult)
        requires
            self.wf(),
        ensures
            (r.spec_outcome(), r.spec_partials()) == subject_decision(subject_policies(self.spec_inline(), self.spec_linked()), opt_view(action), opt_view(resource), *params, scripts@),
    {
        decide_subject(&self.inline_policy, &self.linked_policies, action, resource, params, scripts)
    }
}

impl PolicySetTrait for Group {
    open spec fn spec_policy_ids(&self) -> Seq<Seq<char>> {
        policy_ids(self.spec_linked())
    }

    open spec fn set_wf(&self) -> bool {
        self.wf()
    }

    fn add_policy(self, policy: CompletePolicy) -> (r: Self) {
        let Group { name, identities, inline_policy, linked_policies } = self;
        Group { name, identities, inline_policy, linked_policies: linked_policies.add_policy(policy) }
    }

    fn remove_policy(self, id: &str) -> (r: Self) {
        let Group { name, identities, inline_policy, linked_policies } = self;
        Group { name, identities, inline_policy, linked_policies: linked_policies.remove_policy(id) }
    }
}

/// Anything that holds linked policies and answers requests on them: identities and groups.
pub trait Role {
    /// The policies the role is judged by, in order.
    spec fn spec_role_policies(&self) -> Seq<CompletePolicy>;

    spec fn role_wf(&self) -> bool;

    fn linked_policies(&self) -> (r: &PolicySet);

    /// Decides a request on the role's own policies.
    fn allowed(&self, action: Option<&str>, resource: Option<&str>, params: &Json, scripts: &Vec<(String, bool)>) -> (r: AllowedResult)
        requires
            self.role_wf(),
        ensures
            (r.spec_outcome(), r.spec_partials()) == subject_decision(self.spec_role_policies(), opt_view(action), opt_view(resource), *params, scripts@);
}

/// A role with an optional inline policy.
pub trait Subject: Role {
    fn get_inline_policy(&self) -> Option<&CompletePolicy>;
}

impl Role for Identity {
    open spec fn spec_role_policies(&self) -> Seq<CompletePolicy> {
        subject_policies(self.spec_inline(), self.spec_linked())
    }

    open spec fn role_wf(&self) -> bool {
        self.wf()
    }

    fn linked_policies(&self) -> (r: &PolicySet) {
        &self.linked_policies
    }

    fn allowed(&self, action: Option<&str>, resource: Option<&str>, params: &Json, scripts: &Vec<(String, bool)>) -> (r: AllowedResult) {
        decide_subject(&self.inline_policy, &self.linked_policies, action, resource, params, scripts)
    }
}

impl Subject for Identity {
    fn get_inline_policy(&self) -> Option<&CompletePolicy> {
        self.inline_policy.as_ref()
    }
}

impl Role for Group {
    open spec fn spec_role_policies(&self) -> Seq<CompletePolicy> {
        subject_policies(self.spec_inline(), self.spec_linked())
    }

    open spec fn role_wf(&self) -> bool {
        self.wf()
    }

    fn linked_policies(&self) -> (r: &PolicySet) {
        &self.linked_policies
    }

    fn allowed(&self, action: Option<&str>, resource: Option<&str>, params: &Json, scripts: &Vec<(String, bool)>) -> (r: AllowedResult) {
        decide_subject(&self.inline_policy, &self.linked_policies, action, resource, params, scripts)
    }
}

impl Subject for Group {
    fn get_inline_policy(&self) -> Option<&CompletePolicy> {
        self.inline_policy.as_ref()
    }
}

/// Whether `j` is the JSON form of a subject: its id, its inline policy (or `null`)
/// and the ids of its linked policies.
pub open spec fn is_subject_json(j: Json, id: Seq<char>, inline: Option<CompletePolicy>, linked: Seq<CompletePolicy>) -> bool {
    j is Object && {
        let e = j->Object_0@;
        &&& e.len() == 3
        &&& e[0].0@ == "id"@ && e[0].1 is Str && e[0].1->Str_0@ == id
        &&& e[1].0@ == "inline_policy"@ && match inline {
            Some(p) => crate::policy::is_policy_json(e[1].1, p),
            None => e[1].1 is Null,
        }
        &&& e[2].0@ == "linked_policies"@ && crate::json::is_str_array(e[2].1, policy_ids(linked))
    }
}

fn subject_json(id: &String, inline: &Option<CompletePolicy>, linked: &PolicySet) -> (r: Json)
    ensures
        is_subject_json(r, id@, *inline, linked.spec_policies()),
{
    let mut e: Vec<(String, Json)> = Vec::new();
    e.push(entry("id", Json::Str(id.clone())));
    let inline_json = match inline {
        Some(p) => p.to_json(),
        None => Json::Null,
    };
    e.push(entry("inline_policy", inline_json));
    let ps = linked.policies();
    let mut ids: Vec<Json> = Vec::new();
    let mut i: usize = 0;
    while i < ps.len()
        invariant
            i <= ps.len(),
            ids.len() == i,
            forall|k: int| 0 <= k < i ==> (#[trigger] ids@[k]) is Str && ids@[k]->Str_0@ == ps@[k].spec_id(),
        decreases ps.len() - i,
    {
        ids.push(Json::Str(ps[i].id().clone()));
        i = i + 1;
    }
    e.push(entry("linked_policies", Json::Array(ids)));
    Json::Object(e)
}

impl Identity {
    /// The JSON form `{id, inline_policy, linked_policies}`, linked policies by id.
    pub fn to_json(&self) -> (r: Json)
        ensures
            is_subject_json(r, self.spec_id(), self.spec_inline(), self.spec_linked()),
    {
        subject_json(&self.id, &self.inline_policy, &self.linked_policies)
    }
}

impl Group {
    /// The JSON form `{id, inline_policy, linked_policies}`: the id is the group's name.
    pub fn to_json(&self) -> (r: Json)
        ensures
            is_subject_json(r, self.spec_name(), self.spec_inline(), self.spec_linked()),
    {
        subject_json(&self.name, &self.inline_policy, &self.linked_policies)
    }
}

/// `merge` of one result (outcome and partial policies) into another.
pub open spec fn merged(acc: (AllowedOutcome, Seq<crate::policy::PartialView>), other: (AllowedOutcome, Seq<crate::policy::PartialView>)) -> (AllowedOutcome, Seq<crate::policy::PartialView>) {
    if acc.0 == AllowedOutcome::Denied || other.0 == AllowedOutcome::Denied {
        (AllowedOutcome::Denied, seq![])
    } else {
        let o = if other.0 == AllowedOutcome::Allowed { AllowedOutcome::Allowed } else { acc.0 };
        (o, settled_partials(o, acc.1 + other.1))
    }
}

/// What a group's own policies decide on a request.
pub open spec fn group_decision(g: Group, action: Option<Seq<char>>, resource: Option<Seq<char>>, params: Json, scripts: Seq<(String, bool)>) -> (AllowedOutcome, Seq<crate::policy::PartialView>) {
    subject_decision(subject_policies(g.spec_inline(), g.spec_linked()), action, resource, params, scripts)
}

/// The result of merging the decisions of the groups, in order, into `acc`.
pub open spec fn merge_groups(acc: (AllowedOutcome, Seq<crate::policy::PartialView>), groups: Seq<Group>, action: Option<Seq<char>>, resource: Option<Seq<char>>, params: Json, scripts: Seq<(String, bool)>) -> (AllowedOutcome, Seq<crate::policy::PartialView>)
    decreases groups.len(),
{
    if groups.len() == 0 {
        acc
    } else {
        merged(merge_groups(acc, groups.drop_last(), action, resource, params, scripts), group_decision(groups.last(), action, resource, params, scripts))
    }
}

/// The decision on a request made by a subject: an unknown subject is denied; else
/// the identity's own policies decide, and unless that is reported as a denial, the
/// result of each of its groups is merged in, in order.
pub fn decide_for_subject(
    identity: Option<&Identity>,
    groups: &Vec<Group>,
    action: Option<&str>,
    resource: Option<&str>,
    params: &Json,
    scripts: &Vec<(String, bool)>,
) -> (r: AllowedResult)
    requires
        identity matches Some(i) ==> i.wf(),
        forall|k: int| 0 <= k < groups.len() ==> (#[trigger] groups[k]).wf(),
    ensures
        identity is None ==> r.spec_outcome() == AllowedOutcome::Denied && r.spec_partials().len() == 0,
        identity matches Some(i) ==> ({
            let own = subject_decision(subject_policies(i.spec_inline(), i.spec_linked()), opt_view(action), opt_view(resource), *params, scripts@);
            (r.spec_outcome(), r.spec_partials()) == if reported_outcome(own.0, own.1) == AllowedOutcome::Denied {
                own
            } else {
                merge_groups(own, groups@, opt_view(action), opt_view(resource), *params, scripts@)
            }
        }),
{
    match identity {
        None => AllowedResult::denied(),
        Some(i) => {
            let mut result = i.allowed(action, resource, params, scripts);
            let ghost own = (result.spec_outcome(), result.spec_partials());
            if result.outcome() == AllowedOutcome::Denied {
                return result;
            }
            let mut k: usize = 0;
            proof {
                assert(groups@.subrange(0, 0) =~= Seq::<Group>::empty());
            }
            while k < groups.len()
                invariant
                    forall|j: int| 0 <= j < groups.len() ==> (#[trigger] groups[j]).wf(),
                    k <= groups.len(),
                    (result.spec_outcome(), result.spec_partials()) == merge_groups(own, groups@.subrange(0, k as int), opt_view(action), opt_view(resource), *params, scripts@),
                decreases groups.len() - k,
            {
                let g = groups[k].allowed(action, resource, params, scripts);
                result.merge(g);
                proof {
                    let gs = groups@.subrange(0, k + 1);
                    assert(gs.drop_last() =~= groups@.subrange(0, k as int));
                    assert(gs.last() == groups@[k as int]);
                }
                k = k + 1;
            }
            proof {
                assert(groups@.subrange(0, groups@.len() as int) =~= groups@);
            }
            result
        },
    }
}

/// A group that denies makes the subject's decision a denial, wherever it stands
/// among the groups.
pub proof fn lemma_group_denial_dominates(acc: (AllowedOutcome, Seq<crate::policy::PartialView>), groups: Seq<Group>, action: Option<Seq<char>>, resource: Option<Seq<char>>, params: Json, scripts: Seq<(String, bool)>, k: int)
    requires
        0 <= k < groups.len(),
        group_decision(groups[k], action, resource, params, scripts).0 == AllowedOutcome::Denied,
    ensures
        merge_groups(acc, groups, action, resource, params, scripts).0 == AllowedOutcome::Denied,
    decreases groups.len(),
{
    if k < groups.len() - 1 {
        assert(groups.drop_last()[k] == groups[k]);
        lemma_group_denial_dominates(acc, groups.drop_last(), action, resource, params, scripts, k);
    }
}

} // verus!
