use vstd::prelude::*;
use crate::compiler::any_glob_matches;
use crate::json::Json;
use crate::policy::{CompletePolicy, PartialPolicy, PartialView, PolicyEffect, PolicyVersion, clone_strings, cleared_partial, strs};

verus! {

/// Whether a match result decides the request (`Full`) or leaves part of it open.
#[derive(Clone, Copy, Debug, PartialEq, Eq, Structural)]
pub enum ResultType {
    Partial,
    Full,
}

#[derive(Clone, Copy, Debug, PartialEq, Eq, Structural)]
pub enum ResultOutcome {
    Match,
    NotMatch,
}

/// The outcome of matching one policy against a request, axis by axis.
pub struct MatchResult {
    result_type: ResultType,
    outcome: ResultOutcome,
    partial: PartialPolicy,
    action_matches: Option<bool>,
    resource_matches: Option<bool>,
    conditions_match: Option<bool>,
}

/// The partial policy that records what was not decided: the policy's actions where
/// the action was not probed, its resources where the resource was not.
pub open spec fn open_partial(effect: PolicyEffect, actions: Seq<Seq<char>>, resources: Seq<Seq<char>>, action: Option<bool>, resource: Option<bool>) -> PartialView {
    PartialView {
        version: PolicyVersion::Version1,
        effect,
        actions: if action is Some { None } else { Some(actions) },
        resources: if resource is Some { None } else { Some(resources) },
        conditions_null: true,
    }
}

/// Whether one of the probed axes said no.
pub open spec fn some_axis_fails(action: Option<bool>, resource: Option<bool>, conditions: Option<bool>) -> bool {
    action == Some(false) || resource == Some(false) || conditions == Some(false)
}

impl MatchResult {
    pub closed spec fn spec_type(&self) -> ResultType {
        self.result_type
    }

    pub closed spec fn spec_outcome(&self) -> ResultOutcome {
        self.outcome
    }

    pub closed spec fn spec_partial(&self) -> PartialView {
        self.partial@
    }

    pub closed spec fn spec_action(&self) -> Option<bool> {
        self.action_matches
    }

    pub closed spec fn spec_resource(&self) -> Option<bool> {
        self.resource_matches
    }

    pub closed spec fn spec_conditions(&self) -> Option<bool> {
        self.conditions_match
    }

    /// A result on which nothing was probed yet: partial, not matching.
    pub fn new() -> (r: MatchResult)
        ensures
            r.spec_type() == ResultType::Partial,
            r.spec_outcome() == ResultOutcome::NotMatch,
            r.spec_partial() == cleared_partial(PolicyEffect::Allow),
            r.spec_action() is None,
            r.spec_resource() is None,
            r.spec_conditions() is None,
    {
        MatchResult {
            result_type: ResultType::Partial,
            outcome: ResultOutcome::NotMatch,
            partial: PartialPolicy::default(),
            action_matches: None,
            resource_matches: None,
            conditions_match: None,
        }
    }

    /// Records whether the action matched.
    pub fn update_action(&mut self, result: bool)
        ensures
            final(self).spec_action() == Some(result),
            final(self).spec_resource() == old(self).spec_resource(),
            final(self).spec_conditions() == old(self).spec_conditions(),
            final(self).spec_type() == old(self).spec_type(),
            final(self).spec_outcome() == old(self).spec_outcome(),
            final(self).spec_partial() == old(self).spec_partial(),
    {
        self.action_matches = Some(result);
    }

    /// Records whether the resource matched.
    pub fn update_resource(&mut self, result: bool)
        ensures
            final(self).spec_resource() == Some(result),
            final(self).spec_action() == old(self).spec_action(),
            final(self).spec_conditions() == old(self).spec_conditions(),
            final(self).spec_type() == old(self).spec_type(),
            final(self).spec_outcome() == old(self).spec_outcome(),
            final(self).spec_partial() == old(self).spec_partial(),
    {
        self.resource_matches = Some(result);
    }

    /// Records whether the conditions held.
    pub fn update_conditions(&mut self, result: bool)
        ensures
            final(self).spec_conditions() == Some(result),
            final(self).spec_action() == old(self).spec_action(),
            final(self).spec_resource() == old(self).spec_resource(),
            final(self).spec_type() == old(self).spec_type(),
            final(self).spec_outcome() == old(self).spec_outcome(),
            final(self).spec_partial() == old(self).spec_partial(),
    {
        self.conditions_match = Some(result);
    }

    /// The partial policy: what is left to decide, where the result is partial and matching.
    pub fn get_partial(self) -> (r: PartialPolicy)
        ensures
            r@ == self.spec_partial(),
    {
        self.partial
    }

    pub fn is_match(&self) -> (r: bool)
        ensures
            r == (self.spec_outcome() == ResultOutcome::Match),
    {
        self.outcome == ResultOutcome::Match
    }

    pub fn is_full(&self) -> (r: bool)
        ensures
            r == (self.spec_type() == ResultType::Full),
    {
        self.result_type == ResultType::Full
    }

    /// Decides the result from the probed axes. An axis that said no makes a full
    /// non-match. Otherwise an axis that said yes makes a match; the result is full
    /// where both the action and the resource were probed, and partial otherwise,
    /// with the undecided lists of `policy` in the partial policy.
    pub fn _update(&mut self, policy: &CompletePolicy)
        ensures
            final(self).spec_action() == old(self).spec_action(),
            final(self).spec_resource() == old(self).spec_resource(),
            final(self).spec_conditions() == old(self).spec_conditions(),
            ({
                let a = old(self).spec_action();
                let res = old(self).spec_resource();
                let c = old(self).spec_conditions();
                if some_axis_fails(a, res, c) {
                    &&& final(self).spec_type() == ResultType::Full
                    &&& final(self).spec_outcome() == ResultOutcome::NotMatch
                    &&& final(self).spec_partial() == cleared_partial(policy.spec_effect())
                } else {
                    &&& final(self).spec_outcome() == (if a == Some(true) || res == Some(true) { ResultOutcome::Match } else { old(self).spec_outcome() })
                    &&& if a is Some && res is Some {
                        &&& final(self).spec_type() == ResultType::Full
                        &&& final(self).spec_partial() == cleared_partial(policy.spec_effect())
                    } else {
                        &&& final(self).spec_type() == old(self).spec_type()
                        &&& final(self).spec_partial() == open_partial(policy.spec_effect(), policy.spec_actions(), policy.spec_resources(), a, res)
                    }
                }
            }),
    {
        self.partial.reset();
        self.partial.effect = policy.get_effect();

        if self.action_matches == Some(false) || self.resource_matches == Some(false) || self.conditions_match == Some(false) {
            self.result_type = ResultType::Full;
            self.outcome = ResultOutcome::NotMatch;
            return;
        }

        if self.action_matches == Some(true) || self.resource_matches == Some(true) {
            self.outcome = ResultOutcome::Match;
        }

        if self.action_matches.is_some() && self.resource_matches.is_some() {
            self.result_type = ResultType::Full;
        } else {
            self.partial = PartialPolicy {
                version: PolicyVersion::Version1,
                effect: self.partial.effect,
                actions: if self.action_matches.is_some() { None } else { Some(clone_strings(policy.get_actions())) },
                resources: if self.resource_matches.is_some() { None } else { Some(clone_strings(policy.get_resources())) },
                conditions: Json::Null,
            };
        }
    }
}

/// How a well-formed policy answers a request: whether it matches and fully decides,
/// and the partial policy it leaves.
pub struct MatchView {
    pub full: bool,
    pub matched: bool,
    pub partial: PartialView,
}

/// The result of matching a policy, given what each axis said: the action (where one
/// is given), the resource (where one is given or every resource matches) and the
/// conditions.
pub open spec fn decide(effect: PolicyEffect, actions: Seq<Seq<char>>, resources: Seq<Seq<char>>, a: Option<bool>, res: Option<bool>, c: bool) -> MatchView {
    if some_axis_fails(a, res, Some(c)) {
        MatchView { full: true, matched: false, partial: cleared_partial(effect) }
    } else if a is Some && res is Some {
        MatchView { full: true, matched: a == Some(true) || res == Some(true), partial: cleared_partial(effect) }
    } else {
        MatchView { full: false, matched: a == Some(true) || res == Some(true), partial: open_partial(effect, actions, resources, a, res) }
    }
}

impl MatchResult {
    pub open spec fn spec_view(&self) -> MatchView {
        MatchView {
            full: self.spec_type() == ResultType::Full,
            matched: self.spec_outcome() == ResultOutcome::Match,
            partial: self.spec_partial(),
        }
    }
}

impl CompletePolicy {
    /// What the action axis says: whether some action glob matches, where an action is given.
    pub open spec fn action_answer(&self, action: Option<Seq<char>>) -> Option<bool> {
        match action {
            Some(a) => Some(any_glob_matches(self.spec_compiled().action_globs(), a)),
            None => None,
        }
    }

    /// How this policy answers a request.
    pub open spec fn spec_matching(&self, action: Option<Seq<char>>, resource: Option<Seq<char>>, params: Json, scripts: Seq<(String, bool)>) -> MatchView {
        decide(
            self.spec_effect(),
            self.spec_actions(),
            self.spec_resources(),
            self.action_answer(action),
            self.spec_compiled().spec_match_resource(resource),
            self.spec_compiled().spec_match_conditions(params, scripts),
        )
    }

    /// Matches a request against this policy: the action (if given) against the
    /// action globs, the resource (if given, or if every resource matches) against the
    /// resource globs, and the conditions against the context.
    pub fn matching(&self, action: Option<&str>, resource: Option<&str>, params: &Json, scripts: &Vec<(String, bool)>) -> (r: MatchResult)
        requires
            self.wf(),
        ensures
            r.spec_view() == self.spec_matching(
                match action { Some(a) => Some(a@), None => None },
                match resource { Some(s) => Some(s@), None => None },
                *params,
                scripts@,
            ),
    {
        proof {
            self.lemma_wf();
        }
        let mut result = MatchResult::new();
        let compiled = self.compiled();
        if let Some(a) = action {
            result.update_action(compiled.match_action(a));
        }
        if compiled.all_resources() {
            result.update_resource(true);
        } else if resource.is_some() {
            if let Some(is_match) = compiled.match_resource(resource) {
                result.update_resource(is_match);
            }
        }
        if compiled.no_conditions() {
            result.update_conditions(true);
        } else {
            let is_match = compiled.match_conditions(params, scripts);
            result.update_conditions(is_match);
        }
        result._update(self);
        result
    }
}

} // verus!
