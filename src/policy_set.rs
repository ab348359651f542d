use vstd::prelude::*;
use crate::json::same_text;
use crate::policy::CompletePolicy;

verus! {

/// The ids of a list of policies, in order.
pub open spec fn policy_ids(v: Seq<CompletePolicy>) -> Seq<Seq<char>> {
    v.map_values(|p: CompletePolicy| p.spec_id())
}

/// The ids that stay when `id` is taken out, in order.
pub open spec fn without_id(ids: Seq<Seq<char>>, id: Seq<char>) -> Seq<Seq<char>>
    decreases ids.len(),
{
    if ids.len() == 0 {
        seq![]
    } else if ids.last() == id {
        without_id(ids.drop_last(), id)
    } else {
        without_id(ids.drop_last(), id).push(ids.last())
    }
}

proof fn lemma_without_within(ids: Seq<Seq<char>>, id: Seq<char>, x: Seq<char>)
    requires
        without_id(ids, id).contains(x),
    ensures
        ids.contains(x),
        x != id,
    decreases ids.len(),
{
    if ids.len() > 0 {
        let rest = without_id(ids.drop_last(), id);
        if rest.contains(x) {
            lemma_without_within(ids.drop_last(), id, x);
            let k = choose|k: int| 0 <= k < ids.drop_last().len() && ids.drop_last()[k] == x;
            assert(ids[k] == x);
        } else {
            assert(ids.last() == x);
        }
    }
}

/// A set of policies, unique by id. Its order is that of insertion, which callers
/// must not rely on.
#[derive(Debug)]
pub struct PolicySet {
    policies: Vec<CompletePolicy>,
}

/// Operations shared by everything that holds linked policies.
pub trait PolicySetTrait: Sized {
    /// The ids of the policies held.
    spec fn spec_policy_ids(&self) -> Seq<Seq<char>>;

    spec fn set_wf(&self) -> bool;

    /// Adds a policy, unless one with the same id is there already.
    fn add_policy(self, policy: CompletePolicy) -> (r: Self)
        requires
            self.set_wf(),
            policy.wf(),
        ensures
            r.set_wf(),
            r.spec_policy_ids() == if self.spec_policy_ids().contains(policy.spec_id()) {
                self.spec_policy_ids()
            } else {
                self.spec_policy_ids().push(policy.spec_id())
            };

    /// Removes the policy with the given id, if there is one.
    fn remove_policy(self, id: &str) -> (r: Self)
        requires
            self.set_wf(),
        ensures
            r.set_wf(),
            r.spec_policy_ids() == without_id(self.spec_policy_ids(), id@);
}

impl PolicySet {
    pub closed spec fn spec_policies(&self) -> Seq<CompletePolicy> {
        self.policies@
    }

    /// Every policy is well formed and ids are unique.
    pub closed spec fn wf(&self) -> bool {
        &&& forall|i: int| 0 <= i < self.policies.len() ==> (#[trigger] self.policies[i]).wf()
        &&& policy_ids(self.policies@).no_duplicates()
    }

    pub fn new() -> (r: PolicySet)
        ensures
            r.wf(),
            r.spec_policies() == Seq::<CompletePolicy>::empty(),
    {
        let r = PolicySet { policies: Vec::new() };
        proof {
            assert(policy_ids(r.policies@) =~= seq![]);
        }
        r
    }

    pub fn len(&self) -> (r: usize)
        ensures
            r == self.spec_policies().len(),
    {
        self.policies.len()
    }

    pub fn is_empty(&self) -> (r: bool)
        ensures
            r == (self.spec_policies().len() == 0),
    {
        self.policies.len() == 0
    }

    /// The policies of the set.
    pub fn policies(&self) -> (r: &Vec<CompletePolicy>)
        ensures
            r@ == self.spec_policies(),
    {
        &self.policies
    }

    pub proof fn lemma_wf(&self)
        requires
            self.wf(),
        ensures
            forall|i: int| 0 <= i < self.spec_policies().len() ==> (#[trigger] self.spec_policies()[i]).wf(),
            policy_ids(self.spec_policies()).no_duplicates(),
    {
    }

    /// Whether a policy with this id is in the set.
    fn position(&self, id: &str) -> (r: Option<usize>)
        ensures
            r matches Some(i) ==> i < self.policies.len() && self.policies[i as int].spec_id() == id@,
            r is None ==> !policy_ids(self.policies@).contains(id@),
    {
        let mut i: usize = 0;
        while i < self.policies.len()
            invariant
                i <= self.policies.len(),
                forall|k: int| 0 <= k < i ==> #[trigger] self.policies[k].spec_id() != id@,
            decreases self.policies.len() - i,
        {
            if same_text(self.policies[i].id().as_str(), id) {
                return Some(i);
            }
            i = i + 1;
        }
        proof {
            if policy_ids(self.policies@).contains(id@) {
                let k = choose|k: int| 0 <= k < policy_ids(self.policies@).len() && policy_ids(self.policies@)[k] == id@;
                assert(self.policies[k].spec_id() == id@);
            }
        }
        None
    }

    /// Adds a policy if no policy with its id is in the set.
    pub fn insert_if_missing(&mut self, policy: CompletePolicy)
        requires
            old(self).wf(),
            policy.wf(),
        ensures
            final(self).wf(),
            policy_ids(final(self).spec_policies()) == if policy_ids(old(self).spec_policies()).contains(policy.spec_id()) {
                policy_ids(old(self).spec_policies())
            } else {
                policy_ids(old(self).spec_policies()).push(policy.spec_id())
            },
    {
        match self.position(policy.id().as_str()) {
            Some(_) => {
                proof {
                    let i = choose|i: int| 0 <= i < self.policies.len() && self.policies[i].spec_id() == policy.spec_id();
                    assert(policy_ids(self.policies@)[i] == policy.spec_id());
                }
            },
            None => {
                let ghost before = self.policies@;
                self.policies.push(policy);
                proof {
                    assert(policy_ids(self.policies@) =~= policy_ids(before).push(policy.spec_id()));
                    assert forall|i: int| 0 <= i < self.policies.len() implies (#[trigger] self.policies[i]).wf() by {
                        if i < before.len() {
                            assert(self.policies[i] == before[i]);
                        }
                    }
                }
            },
        }
    }
}

pub proof fn lemma_without_unique(ids: Seq<Seq<char>>, id: Seq<char>)
    requires
        ids.no_duplicates(),
    ensures
        without_id(ids, id).no_duplicates(),
    decreases ids.len(),
{
    if ids.len() > 0 {
        lemma_without_unique(ids.drop_last(), id);
        let rest = without_id(ids.drop_last(), id);
        if ids.last() != id {
            assert forall|k: int| 0 <= k < rest.len() implies rest[k] != ids.last() by {
                assert(rest.contains(rest[k]));
                lemma_without_within(ids.drop_last(), id, rest[k]);
                let j = choose|j: int| 0 <= j < ids.drop_last().len() && ids.drop_last()[j] == rest[k];
                assert(ids[j] == rest[k]);
            }
        }
    }
}

impl PolicySetTrait for PolicySet {
    open spec fn spec_policy_ids(&self) -> Seq<Seq<char>> {
        policy_ids(self.spec_policies())
    }

    open spec fn set_wf(&self) -> bool {
        self.wf()
    }

    fn add_policy(self, policy: CompletePolicy) -> (r: Self) {
        let mut s = self;
        s.insert_if_missing(policy);
        s
    }

    fn remove_policy(self, id: &str) -> (r: Self) {
        let ghost all = self.policies@;
        let mut kept: Vec<CompletePolicy> = Vec::new();
        let mut remaining = self.policies;
        let n = remaining.len();
        proof {
            assert(policy_ids(all).subrange(0, 0) =~= seq![]);
            assert(policy_ids(kept@) =~= without_id(policy_ids(all).subrange(0, 0), id@));
        }
        let mut index: usize = 0;
        proof {
            assert(remaining@ =~= all.subrange(0, n as int));
        }
        while index < n
            invariant
                n == all.len(),
                index <= n,
                remaining@ == all.subrange(index as int, n as int),
                forall|k: int| 0 <= k < all.len() ==> (#[trigger] all[k]).wf(),
                forall|k: int| 0 <= k < kept.len() ==> (#[trigger] kept@[k]).wf(),
                policy_ids(kept@) == without_id(policy_ids(all).subrange(0, index as int), id@),
            decreases n - index,
        {
            let p = remaining.remove(0);
            proof {
                assert(p == all[index as int]);
                assert(remaining@ =~= all.subrange(index + 1, n as int));
                let ids = policy_ids(all).subrange(0, index + 1);
                assert(ids.drop_last() =~= policy_ids(all).subrange(0, index as int));
                assert(ids.last() == p.spec_id());
            }
            if !same_text(p.id().as_str(), id) {
                let ghost before = kept@;
                kept.push(p);
                proof {
                    assert(policy_ids(kept@) =~= policy_ids(before).push(p.spec_id()));
                    assert forall|k: int| 0 <= k < kept.len() implies (#[trigger] kept@[k]).wf() by {
                        if k < before.len() {
                            assert(kept@[k] == before[k]);
                        }
                    }
                }
            }
            index = index + 1;
        }
        proof {
            assert(policy_ids(all).subrange(0, n as int) =~= policy_ids(all));
            lemma_without_unique(policy_ids(all), id@);
        }
        PolicySet { policies: kept }
    }
}

} // verus!
