use libzephir::allowed_result::{allowed, AllowedOutcome, AllowedResult};
use libzephir::compiler::Compiler;
use libzephir::json::Json;
use libzephir::match_result::MatchResult;
use libzephir::policy::{policy_new, CompletePolicy, PartialPolicy, PolicyEffect, PolicyVersion};
use libzephir::policy_set::{PolicySet, PolicySetTrait};

fn strings(v: &[&str]) -> Vec<String> {
    v.iter().map(|s| s.to_string()).collect()
}

fn make(compiler: &mut Compiler, id: &str, effect: PolicyEffect, actions: &[&str], resources: &[&str]) -> CompletePolicy {
    policy_new(id.to_string(), PolicyVersion::Version1, effect, strings(actions), strings(resources), Json::Null, compiler).unwrap()
}

fn result_json(outcome: &str, partials: Vec<Json>) -> Json {
    Json::Object(vec![
        ("outcome".to_string(), Json::Str(outcome.to_string())),
        ("partials".to_string(), Json::Array(partials)),
    ])
}

#[test]
fn new_with_denied_should_reset_partials() {
    let ar = AllowedResult::new(AllowedOutcome::Denied, vec![PartialPolicy::default()]);
    assert_eq!(ar.outcome(), AllowedOutcome::Denied);
    assert_eq!(ar.get_partials().len(), 0);
}

#[test]
fn new_with_allowed_should_retain_only_deny_partials() {
    let p1 = PartialPolicy::default();
    let mut p2 = PartialPolicy::default();
    p2.effect = PolicyEffect::Deny;
    let ar = AllowedResult::new(AllowedOutcome::Allowed, vec![p1, p2]);
    assert_eq!(ar.outcome(), AllowedOutcome::Allowed);
    assert_eq!(ar.get_partials().len(), 1);
    assert_eq!(ar.get_partials()[0].effect, PolicyEffect::Deny);
}

#[test]
fn outcome_should_be_denied_if_abstain_with_no_partials() {
    let ar = AllowedResult::new(AllowedOutcome::Abstain, vec![]);
    assert_eq!(ar.outcome(), AllowedOutcome::Denied);
    assert_eq!(ar.to_json(), result_json("DENIED", vec![]));
}

#[test]
fn outcome_abstain_should_be_returned() {
    let ar = AllowedResult::new(AllowedOutcome::Abstain, vec![PartialPolicy::default()]);
    assert_eq!(ar.outcome(), AllowedOutcome::Abstain);
    assert_eq!(ar.to_json(), result_json("ABSTAIN", vec![PartialPolicy::default().to_json()]));
}

#[test]
fn merge_with_denied_result_should_reset_partials() {
    let mut ar = AllowedResult::new(AllowedOutcome::Abstain, vec![PartialPolicy::default()]);
    ar.merge(AllowedResult::new(AllowedOutcome::Denied, vec![]));
    assert_eq!(ar.outcome(), AllowedOutcome::Denied);
    assert_eq!(ar.to_json(), result_json("DENIED", vec![]));
}

#[test]
fn merge_with_abstain_should_copy_partials() {
    let mut ar = AllowedResult::new(AllowedOutcome::Abstain, vec![]);
    ar.merge(AllowedResult::new(AllowedOutcome::Abstain, vec![PartialPolicy::default()]));
    assert_eq!(ar.outcome(), AllowedOutcome::Abstain);
    assert_eq!(ar.to_json(), result_json("ABSTAIN", vec![PartialPolicy::default().to_json()]));
}

#[test]
fn merge_with_allow_should_copy_deny_partials() {
    let mut ar = AllowedResult::new(AllowedOutcome::Abstain, vec![]);
    let mut partial = PartialPolicy::default();
    partial.effect = PolicyEffect::Deny;
    ar.merge(AllowedResult::new(AllowedOutcome::Allowed, vec![partial.clone()]));
    assert_eq!(ar.outcome(), AllowedOutcome::Allowed);
    assert_eq!(ar.to_json(), result_json("ALLOWED", vec![partial.to_json()]));
}

#[test]
fn merge_allow_into_abstain_drops_allow_partials() {
    let mut ar = AllowedResult::new(AllowedOutcome::Abstain, vec![PartialPolicy::default()]);
    ar.merge(AllowedResult::new(AllowedOutcome::Allowed, vec![]));
    assert_eq!(ar.outcome(), AllowedOutcome::Allowed);
    assert_eq!(ar.get_partials().len(), 0);
}

#[test]
fn allowed_should_return_denied_on_no_policy() {
    let res = allowed(&vec![], None, None, &Json::Null, &vec![]);
    assert_eq!(res.outcome(), AllowedOutcome::Denied);
}

#[test]
fn allowed_should_check_matching_on_all_passed_policies() {
    let mut c = Compiler::new();
    let p1 = make(&mut c, "p1", PolicyEffect::Allow, &["get_first"], &[]);
    let p2 = make(&mut c, "p2", PolicyEffect::Allow, &["get_second"], &[]);
    let res = allowed(&vec![&p1, &p2], Some("get_first"), None, &Json::Null, &vec![]);
    assert_eq!(res.outcome(), AllowedOutcome::Allowed);
}

#[test]
fn allowed_should_check_matching_with_resources() {
    let mut c = Compiler::new();
    let p1 = make(&mut c, "p12", PolicyEffect::Allow, &["get_first"], &["resource_one"]);
    let p2 = make(&mut c, "p22", PolicyEffect::Allow, &["get_second"], &["resource_one"]);
    let res = allowed(&vec![&p1, &p2], Some("get_first"), None, &Json::Null, &vec![]);
    assert_eq!(res.outcome(), AllowedOutcome::Abstain);

    let mut partial = PartialPolicy::default();
    partial.effect = PolicyEffect::Allow;
    partial.resources = Some(vec![String::from("resource_one")]);
    assert_eq!(res.to_json(), result_json("ABSTAIN", vec![partial.to_json()]));
}

#[test]
fn should_return_full_deny() {
    let mut c = Compiler::new();
    let p1 = make(&mut c, "p13", PolicyEffect::Deny, &["get_first"], &["resource_one"]);
    let p2 = make(&mut c, "p23", PolicyEffect::Allow, &["get_second"], &["resource_one"]);
    let res = allowed(&vec![&p1, &p2], Some("get_first"), Some("resource_onw"), &Json::Null, &vec![]);
    assert_eq!(res.outcome(), AllowedOutcome::Denied);
    assert_eq!(res.to_json(), result_json("DENIED", vec![]));
}

#[test]
fn allowed_should_work_correctly() {
    let mut c = Compiler::new();
    let ps = PolicySet::new()
        .add_policy(make(&mut c, "RoleTestPolicy", PolicyEffect::Allow, &["TestAction"], &[]))
        .add_policy(make(&mut c, "RoleTestPolicy2", PolicyEffect::Deny, &["TestAction"], &["urn:resource:test-class-deny:*"]))
        .add_policy(make(&mut c, "RoleTestPolicy3", PolicyEffect::Allow, &["FooAction"], &["urn:resource:test-class:*"]));
    let policies: Vec<&CompletePolicy> = ps.policies().iter().collect();

    let result = allowed(&policies, Some("TestAction"), Some("urn:resource:test-class-allow:test-id"), &Json::Null, &vec![]);
    assert_eq!(result.outcome(), AllowedOutcome::Allowed);
    assert_eq!(result.get_partials().len(), 0);

    let result = allowed(&policies, Some("TestAction"), Some("urn:resource:test-class-deny:test-id"), &Json::Null, &vec![]);
    assert_eq!(result.outcome(), AllowedOutcome::Denied);
    assert_eq!(result.get_partials().len(), 0);

    let result = allowed(&policies, Some("FooAction"), Some("urn:resource:test-class-deny:test-id"), &Json::Null, &vec![]);
    assert_eq!(result.outcome(), AllowedOutcome::Denied);
    assert_eq!(result.get_partials().len(), 0);

    let result = allowed(&policies, Some("FooAction"), None, &Json::Null, &vec![]);
    assert_eq!(result.outcome(), AllowedOutcome::Abstain);
    assert_eq!(result.get_partials().len(), 1);

    let result = allowed(&policies, Some("TestAction"), None, &Json::Null, &vec![]);
    assert_eq!(result.outcome(), AllowedOutcome::Allowed);
    assert_eq!(result.get_partials().len(), 1);
}

#[test]
fn deny_wins_whatever_the_order() {
    let mut c = Compiler::new();
    let allow = make(&mut c, "A", PolicyEffect::Allow, &["x"], &[]);
    let deny = make(&mut c, "D", PolicyEffect::Deny, &["x"], &[]);
    let partial = make(&mut c, "P", PolicyEffect::Allow, &["x"], &["r"]);
    for order in [vec![&allow, &deny, &partial], vec![&deny, &allow, &partial], vec![&partial, &allow, &deny]] {
        let res = allowed(&order, Some("x"), None, &Json::Null, &vec![]);
        assert_eq!(res.outcome(), AllowedOutcome::Denied);
        assert_eq!(res.get_partials().len(), 0);
    }
}

#[test]
fn missing_resource_yields_a_partial() {
    let mut c = Compiler::new();
    let p = make(&mut c, "p700", PolicyEffect::Allow, &["TestAction"], &["urn:resource:test"]);
    let res = allowed(&vec![&p], Some("TestAction"), None, &Json::Null, &vec![]);
    assert_eq!(res.outcome(), AllowedOutcome::Abstain);
    assert_eq!(res.get_partials().len(), 1);
    assert_eq!(res.get_partials()[0].resources, Some(vec!["urn:resource:test".to_string()]));
    assert_eq!(res.get_partials()[0].actions, None);
    assert_eq!(res.get_partials()[0].effect, PolicyEffect::Allow);
}

#[test]
fn match_result_could_be_created() {
    let mr = MatchResult::new();
    assert_eq!(mr.is_match(), false);
    assert_eq!(mr.is_full(), false);
}

#[test]
fn match_result_is_full_if_something_does_not_match() {
    let mut c = Compiler::new();
    let policy = make(&mut c, "TestPolicy", PolicyEffect::Allow, &["get_action"], &[]);

    let mut mr = MatchResult::new();
    mr.update_action(false);
    mr._update(&policy);
    assert_eq!(mr.is_full(), true);
    assert_eq!(mr.is_match(), false);

    let mut mr = MatchResult::new();
    mr.update_resource(false);
    mr._update(&policy);
    assert_eq!(mr.is_full(), true);
    assert_eq!(mr.is_match(), false);

    let mut mr = MatchResult::new();
    mr.update_conditions(false);
    mr._update(&policy);
    assert_eq!(mr.is_full(), true);
    assert_eq!(mr.is_match(), false);
}

#[test]
fn actions_should_be_included_in_partial_if_resource_match() {
    let mut c = Compiler::new();
    let policy = make(&mut c, "TestPolicy", PolicyEffect::Allow, &["get_action"], &[]);

    let mut mr = MatchResult::new();
    mr.update_resource(true);
    mr._update(&policy);
    assert_eq!(mr.is_full(), false);
    assert_eq!(mr.is_match(), true);

    let partial = mr.get_partial();
    assert_eq!(partial.effect, PolicyEffect::Allow);
    assert_eq!(partial.actions, Some(vec!["get_action".to_string()]));
    assert_eq!(partial.resources, None);
}

#[test]
fn resources_should_be_included_in_partial_if_resource_match() {
    let mut c = Compiler::new();
    let policy = make(&mut c, "TestPolicy", PolicyEffect::Allow, &["get_action"], &["resource1", "resource2"]);

    let mut mr = MatchResult::new();
    mr.update_action(true);
    mr._update(&policy);
    assert_eq!(mr.is_full(), false);
    assert_eq!(mr.is_match(), true);

    let partial = mr.get_partial();
    assert_eq!(partial.effect, PolicyEffect::Allow);
    assert_eq!(partial.resources, Some(vec!["resource1".to_string(), "resource2".to_string()]));
    assert_eq!(partial.actions, None);
}
