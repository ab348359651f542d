use libzephir::compiler::Compiler;
use libzephir::err::ErrorKind;
use libzephir::json::Json;
use libzephir::policy::{policy_new, CompletePolicy, PolicyEffect, PolicyVersion};
use std::convert::TryFrom;

fn to_value(j: &Json) -> serde_json::Value {
    match j {
        Json::Null => serde_json::Value::Null,
        Json::Bool(b) => serde_json::Value::Bool(*b),
        Json::Int(n) => serde_json::Value::from(*n),
        Json::Number(s) => s.parse::<serde_json::Value>().unwrap(),
        Json::Str(s) => serde_json::Value::String(s.clone()),
        Json::Array(items) => serde_json::Value::Array(items.iter().map(to_value).collect()),
        Json::Object(entries) => {
            let mut map = serde_json::Map::new();
            for (k, v) in entries {
                map.insert(k.clone(), to_value(v));
            }
            serde_json::Value::Object(map)
        }
    }
}

fn strings(v: &[&str]) -> Vec<String> {
    v.iter().map(|s| s.to_string()).collect()
}

fn make(compiler: &mut Compiler, id: &str, effect: PolicyEffect, actions: &[&str], resources: &[&str], conditions: Json) -> CompletePolicy {
    policy_new(id.to_string(), PolicyVersion::Version1, effect, strings(actions), strings(resources), conditions, compiler).unwrap()
}

fn obj(entries: Vec<(&str, Json)>) -> Json {
    Json::Object(entries.into_iter().map(|(k, v)| (k.to_string(), v)).collect())
}

fn s(text: &str) -> Json {
    Json::Str(text.to_string())
}

#[test]
fn policy_version_could_be_converted_to_json() {
    assert_eq!(PolicyVersion::Version1.to_i32(), 1);
    let mut c = Compiler::new();
    let p = make(&mut c, "VersionJson", PolicyEffect::Allow, &["a"], &[], Json::Null);
    assert_eq!(to_value(&p.to_json())["version"], serde_json::Value::from(1));
}

#[test]
fn number_can_be_converted_to_policy_version() {
    assert_eq!(PolicyVersion::try_from(1).unwrap(), PolicyVersion::Version1);
}

#[test]
fn number_should_raise_error_if_version_number_is_unknown() {
    assert_eq!(PolicyVersion::try_from(-1).unwrap_err().to_string(), "Unknown policy version");
}

#[test]
fn policy_version_should_be_equatable() {
    assert_eq!(PolicyVersion::Version1 == 1, true);
}

#[test]
fn policy_effect_should_be_equatable() {
    assert_eq!(PolicyEffect::Deny == 0, true);
    assert_eq!(PolicyEffect::Allow == 1, true);

    assert_eq!(PolicyEffect::Deny == 1, false);
    assert_eq!(PolicyEffect::Allow == 0, false);

    assert_eq!(PolicyEffect::Allow != 0, true);
    assert_eq!(PolicyEffect::Deny != 1, true);
}

#[test]
fn complete_policy_could_be_created() {
    let mut c = Compiler::new();
    let p = make(&mut c, "TestPolicy400", PolicyEffect::Deny, &["core:GetVersion", "test:GetResource"], &[], Json::Null);

    assert_eq!(p.complete(), true);
    assert_eq!(p.get_resources(), &vec!["*".to_string()]);
    assert_eq!(p.get_actions(), &vec!["core:GetVersion".to_string(), "test:GetResource".to_string()]);
    assert_eq!(
        serde_json::to_string(&to_value(&p.to_json())).unwrap(),
        "{\"id\":\"TestPolicy400\",\"version\":1,\"effect\":\"DENY\",\"actions\":[\"core:GetVersion\",\"test:GetResource\"],\"resources\":[\"*\"],\"conditions\":null}"
    );
}

#[test]
fn policy_creation_should_return_err_if_actions_are_empty() {
    let mut c = Compiler::new();
    let result = policy_new("TestPolicy300".to_string(), PolicyVersion::Version1, PolicyEffect::Allow, vec![], vec![], Json::Null, &mut c)
        .err()
        .unwrap();

    assert_eq!(result.to_string(), "Actions set cannot be empty");
    assert_eq!(result.kind(), ErrorKind::ActionsCannotBeEmptyError);
}

#[test]
fn policy_matching_should_work_if_policy_contains_all_actions() {
    let mut c = Compiler::new();
    let policy = make(&mut c, "TestPolicy200", PolicyEffect::Allow, &["*"], &[], Json::Null);

    let result = policy.matching(Some("TestAction"), Some("urn::resource:test"), &Json::Null, &vec![]);
    assert_eq!(result.is_match(), true);
    assert_eq!(result.is_full(), true);

    let result = policy.matching(Some("FooAction"), Some("urn::resource:test"), &Json::Null, &vec![]);
    assert_eq!(result.is_match(), true);
    assert_eq!(result.is_full(), true);
}

#[test]
fn policy_matching_should_work_with_actions_star_glob() {
    let mut c = Compiler::new();
    let policy = make(&mut c, "TestPolicy100", PolicyEffect::Allow, &["*Action"], &[], Json::Null);

    let result = policy.matching(Some("FooAction"), Some("urn::resource:test"), &Json::Null, &vec![]);
    assert_eq!(result.is_match(), true);
    assert_eq!(result.is_full(), true);

    let result = policy.matching(Some("FooBar"), Some("urn::resource:test"), &Json::Null, &vec![]);
    assert_eq!(result.is_match(), false);
    assert_eq!(result.is_full(), true);
}

#[test]
fn policy_matching_should_work_with_actions_question_mark_glob() {
    let mut c = Compiler::new();
    let policy = make(&mut c, "TestPolicy500", PolicyEffect::Allow, &["Foo?ar"], &[], Json::Null);

    let result = policy.matching(Some("FooAction"), Some("urn::resource:test"), &Json::Null, &vec![]);
    assert_eq!(result.is_match(), false);
    assert_eq!(result.is_full(), true);

    let result = policy.matching(Some("FooBar"), Some("urn::resource:test"), &Json::Null, &vec![]);
    assert_eq!(result.is_match(), true);
    assert_eq!(result.is_full(), true);

    let result = policy.matching(Some("FooDar"), Some("urn::resource:test"), &Json::Null, &vec![]);
    assert_eq!(result.is_match(), true);
    assert_eq!(result.is_full(), true);

    let result = policy.matching(Some("FooFar"), Some("urn::resource:test"), &Json::Null, &vec![]);
    assert_eq!(result.is_match(), true);
    assert_eq!(result.is_full(), true);
}

#[test]
fn matching_should_return_a_partial_policy() {
    let mut c = Compiler::new();
    let policy = make(&mut c, "TestPolicy600", PolicyEffect::Allow, &["*"], &[], Json::Null);
    let m = policy.matching(Some("TestAction"), None, &Json::Null, &vec![]);
    assert_eq!(m.is_full(), true);

    let policy = make(&mut c, "TestPolicy700", PolicyEffect::Allow, &["TestAction"], &["urn:resource:test"], Json::Null);
    let m = policy.matching(Some("NoAction"), None, &Json::Null, &vec![]);
    assert_eq!(m.is_full(), true);

    let m = policy.matching(Some("TestAction"), None, &Json::Null, &vec![]);
    assert_eq!(m.is_full(), false);

    let partial = m.get_partial();
    assert_eq!(partial.complete(), false);
    assert_eq!(partial.effect, PolicyEffect::Allow);
    assert_eq!(partial.version, PolicyVersion::Version1);

    let resources = partial.resources.as_ref();
    assert_eq!(resources.is_some(), true);
    assert_eq!(*resources.unwrap(), vec!["urn:resource:test".to_string()]);
    assert_eq!(
        serde_json::to_string(&to_value(&partial.to_json())).unwrap(),
        "{\"version\":1,\"effect\":\"ALLOW\",\"resources\":[\"urn:resource:test\"],\"conditions\":null}"
    );

    let m = policy.matching(None, Some("urn:resource:test"), &Json::Null, &vec![]);
    let partial = m.get_partial();
    assert_eq!(
        serde_json::to_string(&to_value(&partial.to_json())).unwrap(),
        "{\"version\":1,\"effect\":\"ALLOW\",\"actions\":[\"TestAction\"],\"conditions\":null}"
    );
}

#[test]
fn policy_matching_should_check_policy_conditions() {
    let conditions = obj(vec![("StringEquals", obj(vec![("TargetResource", s("ThisIsTheString"))]))]);
    let mut c = Compiler::new();
    let policy = make(&mut c, "TestPolicy101", PolicyEffect::Allow, &["*Action"], &["*"], conditions);

    let params = obj(vec![
        ("action", s("FooAction")),
        ("resource", s("urn::resource:test")),
        ("TargetResource", s("ThisIsTheString")),
    ]);
    let result = policy.matching(Some("FooAction"), Some("urn::resource:test"), &params, &vec![]);
    assert_eq!(result.is_match(), true);
    assert_eq!(result.is_full(), true);

    let params = obj(vec![
        ("action", s("FooAction")),
        ("resource", s("urn::resource:test")),
        ("TargetResource", s("ThisIsAnotherString")),
    ]);
    let result = policy.matching(Some("FooAction"), Some("urn::resource:test"), &params, &vec![]);
    assert_eq!(result.is_match(), false);
    assert_eq!(result.is_full(), true);
}

#[test]
fn string_equals_is_case_sensitive_and_ignore_case_is_not() {
    let mut c = Compiler::new();
    let exact = make(&mut c, "CaseExact", PolicyEffect::Allow, &["a"], &["*"],
        obj(vec![("StringEquals", obj(vec![("k", s("Value"))]))]));
    let loose = make(&mut c, "CaseLoose", PolicyEffect::Allow, &["a"], &["*"],
        obj(vec![("StringEqualsIgnoreCase", obj(vec![("k", s("VaLuE"))]))]));
    let upper = obj(vec![("k", s("VALUE"))]);
    assert_eq!(exact.matching(Some("a"), None, &upper, &vec![]).is_match(), false);
    assert_eq!(loose.matching(Some("a"), None, &upper, &vec![]).is_match(), true);
    let same = obj(vec![("k", s("Value"))]);
    assert_eq!(exact.matching(Some("a"), None, &same, &vec![]).is_match(), true);
}

#[test]
fn empty_resources_are_stored_as_star_and_match_everything() {
    let mut c = Compiler::new();
    let p = make(&mut c, "NoResources", PolicyEffect::Allow, &["a"], &[], Json::Null);
    assert_eq!(p.get_resources(), &vec!["*".to_string()]);
    assert_eq!(p.compiled().match_resource(Some("anything:at:all")), Some(true));
    assert_eq!(p.compiled().match_resource(None), Some(true));
    let q = make(&mut c, "StarAmong", PolicyEffect::Allow, &["a"], &["x", "*"], Json::Null);
    assert_eq!(q.compiled().match_resource(None), Some(true));
    assert_eq!(q.compiled().match_resource(Some("y")), Some(true));
}

#[test]
fn action_matching_any_glob_is_accepted() {
    let mut c = Compiler::new();
    let p = make(&mut c, "ManyGlobs", PolicyEffect::Allow, &["core:*", "test:{get,put}"], &[], Json::Null);
    assert_eq!(p.compiled().match_action("core:GetVersion"), true);
    assert_eq!(p.compiled().match_action("test:put"), true);
    assert_eq!(p.compiled().match_action("test:delete"), false);
    assert_eq!(p.compiled().match_action("core:a:b"), false);
}

#[test]
fn matching_is_anchored_at_both_ends() {
    let mut c = Compiler::new();
    let p = make(&mut c, "Anchored", PolicyEffect::Allow, &["*Action"], &[], Json::Null);
    assert_eq!(p.compiled().match_action("FooActionBar"), false);
    assert_eq!(p.compiled().match_action("xFooAction"), true);
}

#[test]
fn invalid_effect_name_is_refused() {
    assert_eq!(PolicyEffect::try_from(&"allow".to_string()).unwrap(), PolicyEffect::Allow);
    assert_eq!(PolicyEffect::try_from(&"Deny".to_string()).unwrap(), PolicyEffect::Deny);
    assert_eq!(PolicyEffect::try_from(&"maybe".to_string()).unwrap_err().kind(), ErrorKind::UnknownError);
}

#[test]
fn unbalanced_glob_is_a_build_error() {
    let mut c = Compiler::new();
    let r = policy_new("Broken".to_string(), PolicyVersion::Version1, PolicyEffect::Allow, strings(&["{a"]), vec![], Json::Null, &mut c);
    assert_eq!(r.unwrap_err().kind(), ErrorKind::UnknownError);
}

#[test]
fn malformed_conditions_are_refused() {
    let mut c = Compiler::new();
    let not_object = policy_new("C1".to_string(), PolicyVersion::Version1, PolicyEffect::Allow, strings(&["a"]), vec![], s("x"), &mut c);
    assert_eq!(not_object.unwrap_err().kind(), ErrorKind::UnwrapNoneValueError);
    let unknown = policy_new("C2".to_string(), PolicyVersion::Version1, PolicyEffect::Allow, strings(&["a"]),
        vec![], obj(vec![("StringLike", obj(vec![]))]), &mut c);
    assert_eq!(unknown.unwrap_err().to_string(), "Unknown condition key");
}

#[test]
fn cache_is_flushed_by_id() {
    let mut c = Compiler::new();
    let _p = make(&mut c, "Cached", PolicyEffect::Allow, &["a"], &[], Json::Null);
    assert_eq!(c.contains("Cached"), true);
    libzephir::compiler::flush_policy(&mut c, "Cached");
    assert_eq!(c.contains("Cached"), false);
    let _q = make(&mut c, "", PolicyEffect::Allow, &["a"], &[], Json::Null);
    assert_eq!(c.contains(""), false);
}

#[test]
fn cached_compilation_is_not_reused_for_other_globs() {
    let mut c = Compiler::new();
    let _p = make(&mut c, "Same", PolicyEffect::Allow, &["a"], &[], Json::Null);
    let q = make(&mut c, "Same", PolicyEffect::Allow, &["b"], &[], Json::Null);
    assert_eq!(q.compiled().match_action("b"), true);
    assert_eq!(q.compiled().match_action("a"), false);
}

#[test]
fn policy_json_round_trip_keeps_fields() {
    let mut c = Compiler::new();
    let conditions = obj(vec![("NumericLessThan", obj(vec![("n", Json::Int(3))]))]);
    let p = make(&mut c, "Round", PolicyEffect::Deny, &["a:*"], &["r1", "r2"], conditions);
    let text = serde_json::to_string(&to_value(&p.to_json())).unwrap();
    assert_eq!(
        text,
        "{\"id\":\"Round\",\"version\":1,\"effect\":\"DENY\",\"actions\":[\"a:*\"],\"resources\":[\"r1\",\"r2\"],\"conditions\":{\"NumericLessThan\":{\"n\":3}}}"
    );
    let q = CompletePolicy::from_json(p.into_json(), &mut c).unwrap();
    assert_eq!(q.id(), "Round");
    assert_eq!(q.get_version(), PolicyVersion::Version1);
    assert_eq!(q.get_effect(), PolicyEffect::Deny);
    assert_eq!(q.get_actions(), &vec!["a:*".to_string()]);
    assert_eq!(q.get_resources(), &vec!["r1".to_string(), "r2".to_string()]);
    assert_eq!(q.get_conditions(), &obj(vec![("NumericLessThan", obj(vec![("n", Json::Int(3))]))]));
    assert_eq!(q.compiled().match_action("a:b"), true);
}

#[test]
fn policy_json_with_wrong_parts_is_refused() {
    let mut c = Compiler::new();
    let no_actions = obj(vec![("id", s("x")), ("version", Json::Int(1)), ("effect", s("ALLOW")), ("resources", Json::Array(vec![]))]);
    assert_eq!(CompletePolicy::from_json(no_actions, &mut c).unwrap_err().kind(), ErrorKind::UnwrapNoneValueError);
    let bad_version = obj(vec![("id", s("x")), ("version", Json::Int(2)), ("effect", s("ALLOW")),
        ("actions", Json::Array(vec![s("a")])), ("resources", Json::Array(vec![]))]);
    assert_eq!(CompletePolicy::from_json(bad_version, &mut c).unwrap_err().kind(), ErrorKind::UnknownPolicyVersionError);
    let empty_actions = obj(vec![("id", s("x")), ("version", Json::Int(1)), ("effect", s("deny")),
        ("actions", Json::Array(vec![])), ("resources", Json::Array(vec![]))]);
    assert_eq!(CompletePolicy::from_json(empty_actions, &mut c).unwrap_err().kind(), ErrorKind::ActionsCannotBeEmptyError);
}

#[test]
fn cached_compilation_is_reused_and_still_matches() {
    let mut c = Compiler::new();
    let p = make(&mut c, "Reused", PolicyEffect::Allow, &["svc:*"], &["urn:x"], Json::Null);
    let q = make(&mut c, "Reused", PolicyEffect::Allow, &["svc:*"], &["urn:x"], Json::Null);
    assert_eq!(q.compiled().match_action("svc:read"), true);
    assert_eq!(q.compiled().match_resource(Some("urn:x")), Some(true));
    assert_eq!(q.compiled().match_resource(Some("urn:y")), Some(false));
    assert_eq!(p.compiled().match_action("other:read"), false);
}
