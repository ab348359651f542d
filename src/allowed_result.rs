use vstd::prelude::*;
use crate::json::{Json, entry};
use crate::match_result::MatchView;
use crate::policy::{CompletePolicy, PartialPolicy, PartialView, PolicyEffect};

verus! {

/// The decision on a request.
#[derive(Clone, Copy, Debug, PartialEq, Eq, Structural)]
pub enum AllowedOutcome {
    Denied,
    Abstain,
    Allowed,
}

/// The views of a list of partial policies.
pub open spec fn partial_views(v: Seq<PartialPolicy>) -> Seq<PartialView> {
    v.map_values(|p: PartialPolicy| p@)
}

/// The partial policies that deny, in order.
pub open spec fn deny_only(ps: Seq<PartialView>) -> Seq<PartialView>
    decreases ps.len(),
{
    if ps.len() == 0 {
        seq![]
    } else if ps.last().effect == PolicyEffect::Deny {
        deny_only(ps.drop_last()).push(ps.last())
    } else {
        deny_only(ps.drop_last())
    }
}

/// The partial policies kept with an outcome: none on a denial, the denying ones on
/// an allow (they could still overturn it), all of them on an abstention.
pub open spec fn settled_partials(outcome: AllowedOutcome, ps: Seq<PartialView>) -> Seq<PartialView> {
    match outcome {
        AllowedOutcome::Denied => seq![],
        AllowedOutcome::Allowed => deny_only(ps),
        AllowedOutcome::Abstain => ps,
    }
}

/// The outcome reported to a caller: an abstention that leaves no partial policy is a denial.
pub open spec fn reported_outcome(outcome: AllowedOutcome, ps: Seq<PartialView>) -> AllowedOutcome {
    if outcome == AllowedOutcome::Abstain && ps.len() == 0 { AllowedOutcome::Denied } else { outcome }
}

/// The aggregated decision over several policies, with their partial policies.
pub struct AllowedResult {
    outcome: AllowedOutcome,
    partials: Vec<PartialPolicy>,
}

fn keep_denying(partials: &Vec<PartialPolicy>) -> (r: Vec<PartialPolicy>)
    ensures
        partial_views(r@) == deny_only(partial_views(partials@)),
{
    let ghost all = partial_views(partials@);
    let mut out: Vec<PartialPolicy> = Vec::new();
    let mut i: usize = 0;
    proof {
        assert(partial_views(out@) =~= deny_only(all.subrange(0, 0)));
    }
    while i < partials.len()
        invariant
            all == partial_views(partials@),
            i <= partials.len(),
            partial_views(out@) == deny_only(all.subrange(0, i as int)),
        decreases partials.len() - i,
    {
        proof {
            assert(all.subrange(0, i + 1).drop_last() =~= all.subrange(0, i as int));
            assert(all.subrange(0, i + 1).last() == partials@[i as int]@);
        }
        if partials[i].effect == PolicyEffect::Deny {
            let p = partials[i].clone();
            out.push(p);
            proof {
                assert(partial_views(out@) =~= partial_views(out@.drop_last()).push(p@));
            }
        }
        i = i + 1;
    }
    proof {
        assert(all.subrange(0, partials@.len() as int) =~= all);
    }
    out
}

impl AllowedResult {
    pub closed spec fn spec_outcome(&self) -> AllowedOutcome {
        self.outcome
    }

    pub closed spec fn spec_partials(&self) -> Seq<PartialView> {
        partial_views(self.partials@)
    }

    /// The partial policies themselves.
    pub closed spec fn spec_partial_values(&self) -> Seq<PartialPolicy> {
        self.partials@
    }

    /// A result with the given outcome, keeping the partial policies that outcome keeps.
    pub fn new(outcome: AllowedOutcome, partials: Vec<PartialPolicy>) -> (r: AllowedResult)
        ensures
            r.spec_outcome() == outcome,
            r.spec_partials() == settled_partials(outcome, partial_views(partials@)),
    {
        let kept = match outcome {
            AllowedOutcome::Denied => {
                let none: Vec<PartialPolicy> = Vec::new();
                proof {
                    assert(partial_views(none@) =~= seq![]);
                }
                none
            },
            AllowedOutcome::Allowed => keep_denying(&partials),
            AllowedOutcome::Abstain => partials,
        };
        AllowedResult { outcome, partials: kept }
    }

    /// A denial.
    pub fn denied() -> (r: AllowedResult)
        ensures
            r.spec_outcome() == AllowedOutcome::Denied,
            r.spec_partials() == Seq::<PartialView>::empty(),
    {
        let none: Vec<PartialPolicy> = Vec::new();
        proof {
            assert(partial_views(none@) =~= seq![]);
        }
        AllowedResult { outcome: AllowedOutcome::Denied, partials: none }
    }

    pub fn get_partials(&self) -> (r: &Vec<PartialPolicy>)
        ensures
            partial_views(r@) == self.spec_partials(),
    {
        &self.partials
    }

    /// The outcome as reported: an abstention with no partial policy left is a denial.
    /// The stored outcome is kept, so that a later merge can still allow.
    pub fn outcome(&self) -> (r: AllowedOutcome)
        ensures
            r == reported_outcome(self.spec_outcome(), self.spec_partials()),
    {
        if self.outcome == AllowedOutcome::Abstain && self.partials.len() == 0 {
            AllowedOutcome::Denied
        } else {
            self.outcome
        }
    }

    /// Merges the result of other policies into this one: a denial on either side
    /// denies, an allow on the other side allows, and the partial policies add up,
    /// kept as the new outcome keeps them.
    pub fn merge(&mut self, other: AllowedResult)
        ensures
            ({
                let (o1, o2) = (old(self).spec_outcome(), other.spec_outcome());
                if o1 == AllowedOutcome::Denied || o2 == AllowedOutcome::Denied {
                    &&& final(self).spec_outcome() == AllowedOutcome::Denied
                    &&& final(self).spec_partials() == Seq::<PartialView>::empty()
                } else {
                    let o = if o2 == AllowedOutcome::Allowed { AllowedOutcome::Allowed } else { o1 };
                    &&& final(self).spec_outcome() == o
                    &&& final(self).spec_partials() == settled_partials(o, old(self).spec_partials() + other.spec_partials())
                }
            }),
    {
        if other.outcome == AllowedOutcome::Denied || self.outcome == AllowedOutcome::Denied {
            let none: Vec<PartialPolicy> = Vec::new();
            proof {
                assert(partial_views(none@) =~= seq![]);
            }
            self.outcome = AllowedOutcome::Denied;
            self.partials = none;
            return;
        }
        if other.outcome == AllowedOutcome::Allowed {
            self.outcome = AllowedOutcome::Allowed;
        }
        let mut incoming = other.partials;
        let ghost before = self.partials@;
        let ghost added = incoming@;
        self.partials.append(&mut incoming);
        proof {
            assert(partial_views(self.partials@) =~= partial_views(before) + partial_views(added));
        }
        if self.outcome == AllowedOutcome::Allowed {
            self.partials = keep_denying(&self.partials);
        }
    }
}

/// How each policy of a list answers a request, with its effect.
pub open spec fn policy_answers(policies: Seq<&CompletePolicy>, action: Option<Seq<char>>, resource: Option<Seq<char>>, params: Json, scripts: Seq<(String, bool)>) -> Seq<(PolicyEffect, MatchView)> {
    policies.map_values(|p: &CompletePolicy| (p.spec_effect(), p.spec_matching(action, resource, params, scripts)))
}

/// The outcome and partial policies gathered over the answers, in order: a policy
/// that fully matches and denies settles the matter; one that fully matches and
/// allows makes the outcome an allow; one that matches in part adds its partial policy.
pub open spec fn aggregate(answers: Seq<(PolicyEffect, MatchView)>) -> (AllowedOutcome, Seq<PartialView>)
    decreases answers.len(),
{
    if answers.len() == 0 {
        (AllowedOutcome::Abstain, seq![])
    } else {
        let prev = aggregate(answers.drop_last());
        let (effect, m) = answers.last();
        if prev.0 == AllowedOutcome::Denied {
            prev
        } else if !m.matched {
            prev
        } else if m.full && effect == PolicyEffect::Deny {
            (AllowedOutcome::Denied, seq![])
        } else if m.full {
            (AllowedOutcome::Allowed, prev.1)
        } else {
            (prev.0, prev.1.push(m.partial))
        }
    }
}

/// Whether an answer is a full match of a denying policy.
pub open spec fn full_deny(a: (PolicyEffect, MatchView)) -> bool {
    a.1.matched && a.1.full && a.0 == PolicyEffect::Deny
}

proof fn lemma_denied_empty(answers: Seq<(PolicyEffect, MatchView)>)
    ensures
        aggregate(answers).0 == AllowedOutcome::Denied ==> aggregate(answers).1 == Seq::<PartialView>::empty(),
    decreases answers.len(),
{
    if answers.len() > 0 {
        lemma_denied_empty(answers.drop_last());
    }
}

/// Aggregation is deny-dominant: wherever in the list a policy fully matches and
/// denies, the aggregated outcome is a denial with no partial policies.
pub proof fn lemma_deny_dominant(answers: Seq<(PolicyEffect, MatchView)>, i: int)
    requires
        0 <= i < answers.len(),
        full_deny(answers[i]),
    ensures
        aggregate(answers).0 == AllowedOutcome::Denied,
        aggregate(answers).1 == Seq::<PartialView>::empty(),
    decreases answers.len(),
{
    lemma_denied_empty(answers);
    if i < answers.len() - 1 {
        assert(answers.drop_last()[i] == answers[i]);
        lemma_deny_dominant(answers.drop_last(), i);
    }
}

/// Matches every policy against the request, in order, and aggregates the answers.
pub fn allowed(
    policies: &Vec<&CompletePolicy>,
    action: Option<&str>,
    resource: Option<&str>,
    params: &Json,
    scripts: &Vec<(String, bool)>,
) -> (r: AllowedResult)
    requires
        forall|i: int| 0 <= i < policies.len() ==> (#[trigger] policies[i]).wf(),
    ensures
        ({
            let agg = aggregate(policy_answers(
                policies@,
                match action { Some(a) => Some(a@), None => None },
                match resource { Some(s) => Some(s@), None => None },
                *params,
                scripts@,
            ));
            &&& r.spec_outcome() == agg.0
            &&& r.spec_partials() == settled_partials(agg.0, agg.1)
        }),
{
    let ghost act = match action { Some(a) => Some(a@), None => None };
    let ghost res = match resource { Some(s) => Some(s@), None => None };
    let ghost answers = policy_answers(policies@, act, res, *params, scripts@);
    let mut outcome = AllowedOutcome::Abstain;
    let mut partials: Vec<PartialPolicy> = Vec::new();
    let mut i: usize = 0;
    proof {
        assert(answers.subrange(0, 0) =~= seq![]);
        assert(partial_views(partials@) =~= seq![]);
    }
    while i < policies.len()
        invariant
            forall|k: int| 0 <= k < policies.len() ==> (#[trigger] policies[k]).wf(),
            answers == policy_answers(policies@, act, res, *params, scripts@),
            act == match action { Some(a) => Some(a@), None => None },
            res == match resource { Some(s) => Some(s@), None => None },
            i <= policies.len(),
            aggregate(answers.subrange(0, i as int)) == (outcome, partial_views(partials@)),
            outcome != AllowedOutcome::Denied,
        decreases policies.len() - i,
    {
        let p = policies[i];
        let result = p.matching(action, resource, params, scripts);
        proof {
            assert(answers.subrange(0, i + 1).drop_last() =~= answers.subrange(0, i as int));
            assert(answers.subrange(0, i + 1).last() == answers[i as int]);
        }
        if result.is_match() {
            if result.is_full() {
                if p.get_effect() == PolicyEffect::Deny {
                    proof {
                        assert(full_deny(answers[i as int]));
                        lemma_deny_dominant(answers, i as int);
                    }
                    return AllowedResult::new(AllowedOutcome::Denied, Vec::new());
                }
                outcome = AllowedOutcome::Allowed;
            } else {
                let ghost pv = result.spec_partial();
                let partial = result.get_partial();
                partials.push(partial);
                proof {
                    assert(partial_views(partials@) =~= partial_views(partials@.drop_last()).push(pv));
                }
            }
        }
        i = i + 1;
    }
    proof {
        assert(answers.subrange(0, policies@.len() as int) =~= answers);
    }
    AllowedResult::new(outcome, partials)
}

/// The name an outcome is written as.
pub open spec fn outcome_name(o: AllowedOutcome) -> Seq<char> {
    match o {
        AllowedOutcome::Denied => "DENIED"@,
        AllowedOutcome::Abstain => "ABSTAIN"@,
        AllowedOutcome::Allowed => "ALLOWED"@,
    }
}

impl AllowedOutcome {
    pub fn name(&self) -> (r: String)
        ensures
            r@ == outcome_name(*self),
    {
        match self {
            AllowedOutcome::Denied => String::from_str("DENIED"),
            AllowedOutcome::Abstain => String::from_str("ABSTAIN"),
            AllowedOutcome::Allowed => String::from_str("ALLOWED"),
        }
    }
}

impl AllowedResult {
    /// The JSON form `{outcome, partials}`, with the outcome as reported.
    pub fn to_json(&self) -> (r: Json)
        ensures
            r is Object,
            r->Object_0.len() == 2,
            r->Object_0@[0].0@ == "outcome"@,
            r->Object_0@[0].1 is Str,
            r->Object_0@[0].1->Str_0@ == outcome_name(reported_outcome(self.spec_outcome(), self.spec_partials())),
            r->Object_0@[1].0@ == "partials"@,
            r->Object_0@[1].1 is Array,
            r->Object_0@[1].1->Array_0.len() == self.spec_partials().len(),
            forall|i: int| 0 <= i < self.spec_partials().len() ==> crate::policy::is_partial_json(
                #[trigger] r->Object_0@[1].1->Array_0@[i], self.spec_partials()[i], self.spec_partial_values()[i].conditions),
    {
        let mut items: Vec<Json> = Vec::new();
        let mut i: usize = 0;
        while i < self.partials.len()
            invariant
                i <= self.partials.len(),
                items.len() == i,
                forall|k: int| 0 <= k < i ==> crate::policy::is_partial_json(#[trigger] items@[k], self.partials@[k]@, self.partials@[k].conditions),
            decreases self.partials.len() - i,
        {
            items.push(self.partials[i].to_json());
            i = i + 1;
        }
        let mut e: Vec<(String, Json)> = Vec::new();
        e.push(entry("outcome", Json::Str(self.outcome().name())));
        e.push(entry("partials", Json::Array(items)));
        Json::Object(e)
    }
}

/// An abstention that leaves no partial policy is reported as a denial; in every other
/// case the reported outcome is the stored one.
pub proof fn lemma_abstain_downgrade(outcome: AllowedOutcome, ps: Seq<PartialView>)
    ensures
        outcome == AllowedOutcome::Abstain && ps.len() == 0 ==> reported_outcome(outcome, ps) == AllowedOutcome::Denied,
        !(outcome == AllowedOutcome::Abstain && ps.len() == 0) ==> reported_outcome(outcome, ps) == outcome,
{
}

/// An allow keeps exactly the denying partial policies, in order; an abstention keeps
/// them all; a denial keeps none.
pub proof fn lemma_settled_partials(ps: Seq<PartialView>)
    ensures
        forall|k: int| 0 <= k < settled_partials(AllowedOutcome::Allowed, ps).len()
            ==> (#[trigger] settled_partials(AllowedOutcome::Allowed, ps)[k]).effect == PolicyEffect::Deny,
        forall|k: int| 0 <= k < ps.len() && (#[trigger] ps[k]).effect == PolicyEffect::Deny
            ==> settled_partials(AllowedOutcome::Allowed, ps).contains(ps[k]),
        forall|x: PartialView| settled_partials(AllowedOutcome::Allowed, ps).contains(x) ==> #[trigger] ps.contains(x),
        settled_partials(AllowedOutcome::Abstain, ps) == ps,
        settled_partials(AllowedOutcome::Denied, ps).len() == 0,
    decreases ps.len(),
{
    if ps.len() > 0 {
        lemma_settled_partials(ps.drop_last());
        let rest = deny_only(ps.drop_last());
        assert forall|k: int| 0 <= k < ps.len() && (#[trigger] ps[k]).effect == PolicyEffect::Deny
            implies deny_only(ps).contains(ps[k]) by {
            if k < ps.len() - 1 {
                assert(ps.drop_last()[k] == ps[k]);
                let j = choose|j: int| 0 <= j < rest.len() && rest[j] == ps[k];
                if ps.last().effect == PolicyEffect::Deny {
                    assert(deny_only(ps)[j] == ps[k]);
                }
            } else {
                assert(deny_only(ps)[rest.len() as int] == ps[k]);
            }
        }
        assert forall|x: PartialView| deny_only(ps).contains(x) implies #[trigger] ps.contains(x) by {
            if rest.contains(x) {
                assert(ps.drop_last().contains(x));
                let j = choose|j: int| 0 <= j < ps.drop_last().len() && ps.drop_last()[j] == x;
                assert(ps[j] == x);
            } else {
                assert(ps[ps.len() - 1] == x);
            }
        }
    }
}

} // verus!
