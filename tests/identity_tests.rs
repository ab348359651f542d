use libzephir::allowed_result::AllowedOutcome;
use libzephir::compiler::Compiler;
use libzephir::identity::{decide_for_subject, Group, Identity};
use libzephir::json::Json;
use libzephir::policy::{policy_new, CompletePolicy, PolicyEffect, PolicyVersion};
use libzephir::policy_set::{PolicySet, PolicySetTrait};
use libzephir::request::{is_valid_id, AllowedInfo, RequestError};

fn strings(v: &[&str]) -> Vec<String> {
    v.iter().map(|s| s.to_string()).collect()
}

fn make(compiler: &mut Compiler, id: &str, effect: PolicyEffect, actions: &[&str], resources: &[&str]) -> CompletePolicy {
    policy_new(id.to_string(), PolicyVersion::Version1, effect, strings(actions), strings(resources), Json::Null, compiler).unwrap()
}

fn s(text: &str) -> Json {
    Json::Str(text.to_string())
}

#[test]
fn can_be_created() {
    let i = Identity::new("Identity", None);
    assert_eq!(i.linked_policies().len(), 0);

    let mut c = Compiler::new();
    let i = Identity::new("IdentityTest2", Some(make(&mut c, "TestPolicyGroup", PolicyEffect::Allow, &["Action"], &[])));
    assert_eq!(i.linked_policies().len(), 0);
}

#[test]
fn allow_should_check_inline_policy() {
    let mut c = Compiler::new();
    let i = Identity::new(
        "IdentityTestAllowShouldCheckInlinePolicy",
        Some(make(&mut c, "TestInlinePolicyOnIdentity", PolicyEffect::Allow, &["*"], &["urn:test-resource:id"])),
    );

    let result = i.allowed(Some("test:identity"), Some("urn:test-resource:id"), &Json::Null, &vec![]);
    assert_eq!(result.outcome(), AllowedOutcome::Allowed);
    assert_eq!(result.get_partials().len(), 0);

    let result = i.allowed(Some("test:identity"), None, &Json::Null, &vec![]);
    assert_eq!(result.outcome(), AllowedOutcome::Abstain);
    assert_eq!(result.get_partials().len(), 1);
}

#[test]
fn should_check_inline_and_linked_policies() {
    let mut c = Compiler::new();
    let i = Identity::new(
        "IdentityTestShouldCheckInlineAndLinkedPolicies",
        Some(make(&mut c, "TestInlinePolicyOnIdentity", PolicyEffect::Allow, &["test:not-identity"], &["urn:test-resource:id"])),
    );
    let i = i.add_policy(make(&mut c, "TestLinkedPolicyOnIdentity", PolicyEffect::Allow, &["test:identity"], &["*"]));

    let result = i.allowed(Some("test:identity"), Some("urn:test:zephir:identity"), &Json::Null, &vec![]);
    assert_eq!(result.outcome(), AllowedOutcome::Allowed);
}

#[test]
fn should_check_all_policies() {
    let mut c = Compiler::new();
    for _ in 0..2 {
        let i = Identity::new("IdentityTestShouldCheckAllPolicies", None);
        let i = i.add_policy(make(&mut c, "TestLinkedPolicyAllOnIdentity", PolicyEffect::Allow, &["test:identity", "test:identity-access"], &["*"]));
        let i = i.add_policy(make(&mut c, "TestLinkedPolicyAllOnIdentity2", PolicyEffect::Allow, &["core:identity", "core:identity-access"], &["*"]));
        let i = i.add_policy(make(&mut c, "TestLinkedPolicyAllOnIdentity3", PolicyEffect::Allow, &["core-x:identity", "core-x:identity-access"], &["*"]));
        assert_eq!(
            i.allowed(Some("test:identity"), Some("urn:test:zephir:identity"), &Json::Null, &vec![]).outcome(),
            AllowedOutcome::Allowed
        );
    }
}

#[test]
fn group_could_be_created() {
    let g = Group::new("Group", None);
    assert_eq!(g.get_identities().len(), 0);

    let mut c = Compiler::new();
    let g = Group::new("Group2", Some(make(&mut c, "TestPolicyGroup", PolicyEffect::Allow, &["Action"], &[])));
    assert_eq!(g.get_identities().len(), 0);
}

#[test]
fn identities_can_be_added_to_a_group() {
    let mut g = Group::new("Group", None);
    assert_eq!(g.get_identities().len(), 0);

    g = g.add_identity(Identity::new("TestIdentity", None));
    g = g.add_identity(Identity::new("TestIdentity", None));
    assert_eq!(g.get_identities().len(), 1);
}

#[test]
fn identities_can_be_removed_from_a_group() {
    let mut g = Group::new("Group", None);
    assert_eq!(g.get_identities().len(), 0);

    g = g.add_identity(Identity::new("TestIdentity", None));
    g = g.add_identity(Identity::new("TestIdentity2", None));
    assert_eq!(g.get_identities().len(), 2);

    g = g.remove_identity(Identity::new("TestIdentity", None));
    assert_eq!(g.get_identities().len(), 1);

    g = g.remove_identity(String::from("TestIdentity"));
    assert_eq!(g.get_identities().len(), 1);

    let i2 = Identity::new("TestIdentity2", None);
    g = g.remove_identity(i2.get_id().clone());
    assert_eq!(g.get_identities().len(), 0);
}

#[test]
fn should_be_created_empty() {
    let ps = PolicySet::new();
    assert_eq!(ps.len(), 0);
    assert_eq!(ps.is_empty(), true);
}

#[test]
fn policies_can_be_added() {
    let mut c = Compiler::new();
    let mut ps = PolicySet::new();
    ps = ps.add_policy(make(&mut c, "p1", PolicyEffect::Allow, &["action"], &[]));
    let policies: Vec<&CompletePolicy> = ps.policies().iter().collect();
    assert_eq!(ps.len(), 1);
    assert_eq!(policies.len(), 1);
    ps = ps.add_policy(make(&mut c, "p1", PolicyEffect::Deny, &["other"], &[]));
    assert_eq!(ps.len(), 1);
    assert_eq!(ps.policies()[0].get_effect(), PolicyEffect::Allow);
}

#[test]
fn policies_can_be_removed_by_id() {
    let mut c = Compiler::new();
    let mut ps = PolicySet::new();
    ps = ps.add_policy(make(&mut c, "p1", PolicyEffect::Allow, &["action"], &[]));
    ps = ps.add_policy(make(&mut c, "p2", PolicyEffect::Allow, &["action"], &[]));
    ps = ps.add_policy(make(&mut c, "p3", PolicyEffect::Allow, &["action"], &[]));
    ps = ps.remove_policy("p2");

    let mut policies: Vec<&str> = ps.policies().iter().map(|p| p.id().as_str()).collect();
    policies.sort();
    assert_eq!(policies.len(), 2);
    assert_eq!(policies, vec!["p1", "p3"]);
}

#[test]
fn inline_policy_takes_the_owner_id() {
    let mut c = Compiler::new();
    let i = Identity::new("alice", None).set_inline_policy(make(&mut c, "whatever", PolicyEffect::Allow, &["a"], &[]));
    assert_eq!(i.get_inline_policy().unwrap().id(), "__embedded_policy_identity_alice__");
    let g = Group::new("admins", None).set_inline_policy(make(&mut c, "whatever2", PolicyEffect::Allow, &["a"], &[]));
    assert_eq!(g.get_inline_policy().unwrap().id(), "__embedded_policy_group_admins__");
    let g = g.clear_inline_policy();
    assert_eq!(g.get_inline_policy().is_none(), true);
}

#[test]
fn subject_decision_merges_groups() {
    let mut c = Compiler::new();
    let identity = Identity::new("bob", None).add_policy(make(&mut c, "own", PolicyEffect::Allow, &["read"], &["doc:*"]));
    let deny_group = Group::new("blocked", None).add_policy(make(&mut c, "block", PolicyEffect::Deny, &["read"], &[]));
    let allow_group = Group::new("readers", None).add_policy(make(&mut c, "reader", PolicyEffect::Allow, &["read"], &[]));

    let r = decide_for_subject(Some(&identity), &vec![], Some("read"), None, &Json::Null, &vec![]);
    assert_eq!(r.outcome(), AllowedOutcome::Abstain);
    assert_eq!(r.get_partials().len(), 1);

    let r = decide_for_subject(Some(&identity), &vec![allow_group], Some("read"), None, &Json::Null, &vec![]);
    assert_eq!(r.outcome(), AllowedOutcome::Allowed);
    assert_eq!(r.get_partials().len(), 0);

    let r = decide_for_subject(Some(&identity), &vec![], Some("write"), None, &Json::Null, &vec![]);
    assert_eq!(r.outcome(), AllowedOutcome::Denied);

    let r = decide_for_subject(Some(&identity), &vec![deny_group], Some("read"), Some("doc:1"), &Json::Null, &vec![]);
    assert_eq!(r.outcome(), AllowedOutcome::Denied);

    let r = decide_for_subject(None, &vec![], Some("read"), None, &Json::Null, &vec![]);
    assert_eq!(r.outcome(), AllowedOutcome::Denied);
}

#[test]
fn request_body_is_read() {
    let body = Json::Object(vec![
        ("subject".to_string(), s("bob")),
        ("action".to_string(), s("read")),
        ("resource".to_string(), s("")),
    ]);
    let info = AllowedInfo::try_from(&body).unwrap();
    assert_eq!(info.subject, "bob");
    assert_eq!(info.action, "read");
    assert_eq!(info.resource, None);

    let body = Json::Object(vec![("subject".to_string(), s("bob")), ("action".to_string(), s("read")), ("resource".to_string(), s("doc"))]);
    assert_eq!(AllowedInfo::try_from(&body).unwrap().resource, Some("doc".to_string()));

    let body = Json::Object(vec![("subject".to_string(), s("bob")), ("resource".to_string(), Json::Int(3))]);
    assert_eq!(AllowedInfo::try_from(&body).unwrap_err(), RequestError::InvalidRequestError);
    assert_eq!(AllowedInfo::try_from(&Json::Null).unwrap_err(), RequestError::InvalidRequestError);
}

#[test]
fn ids_must_start_with_a_letter() {
    assert_eq!(is_valid_id("Policy-1.a_b"), true);
    assert_eq!(is_valid_id("1policy"), false);
    assert_eq!(is_valid_id(""), false);
    assert_eq!(is_valid_id("bad id"), false);
}

#[test]
fn subjects_have_a_json_form() {
    let mut c = Compiler::new();
    let i = Identity::new("carol", None).add_policy(make(&mut c, "linked1", PolicyEffect::Allow, &["a"], &[]));
    let j = i.to_json();
    match &j {
        Json::Object(entries) => {
            assert_eq!(entries.len(), 3);
            assert_eq!(entries[0], ("id".to_string(), s("carol")));
            assert_eq!(entries[1], ("inline_policy".to_string(), Json::Null));
            assert_eq!(entries[2], ("linked_policies".to_string(), Json::Array(vec![s("linked1")])));
        }
        _ => panic!("expected an object"),
    }
    let g = Group::new("ops", Some(make(&mut c, "inline", PolicyEffect::Deny, &["b"], &[])));
    match g.to_json() {
        Json::Object(entries) => {
            assert_eq!(entries[0], ("id".to_string(), s("ops")));
            assert_eq!(entries[1].0, "inline_policy");
            assert_eq!(entries[2], ("linked_policies".to_string(), Json::Array(vec![])));
        }
        _ => panic!("expected an object"),
    }
}

#[test]
fn a_denying_group_denies_whatever_its_place() {
    let mut c = Compiler::new();
    let identity = Identity::new("dave", None).add_policy(make(&mut c, "dave-read", PolicyEffect::Allow, &["read"], &[]));
    let allow = Group::new("g1", None).add_policy(make(&mut c, "g1-read", PolicyEffect::Allow, &["read"], &[]));
    let deny = Group::new("g2", None).add_policy(make(&mut c, "g2-read", PolicyEffect::Deny, &["read"], &[]));
    let r = decide_for_subject(Some(&identity), &vec![deny, allow], Some("read"), None, &Json::Null, &vec![]);
    assert_eq!(r.outcome(), AllowedOutcome::Denied);
}

#[test]
fn constructors_give_the_inline_policy_a_synthetic_id() {
    let mut c = Compiler::new();
    let i = Identity::new("erin", Some(make(&mut c, "given-id", PolicyEffect::Allow, &["a"], &[])));
    assert_eq!(i.get_inline_policy().unwrap().id(), "__embedded_policy_identity_erin__");
    let g = Group::new("team", Some(make(&mut c, "given-id-2", PolicyEffect::Allow, &["a"], &[])));
    assert_eq!(g.get_inline_policy().unwrap().id(), "__embedded_policy_group_team__");
}
