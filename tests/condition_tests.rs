use libzephir::condition::{CompareFn, Condition, ConditionKind, Flags, Timestamp};
use libzephir::err::ErrorKind;
use libzephir::json::Json;

const NONE: Flags = Flags { for_all_values: false, for_any_value: false, if_exists: false };

fn obj(entries: Vec<(&str, Json)>) -> Json {
    Json::Object(entries.into_iter().map(|(k, v)| (k.to_string(), v)).collect())
}

fn s(text: &str) -> Json {
    Json::Str(text.to_string())
}

#[test]
fn should_build_binary_condition() {
    let obj1 = obj(vec![("FieldOne", s("SGVsbG8gd29ybGQh"))]);
    let mut condition = libzephir::condition::make_fields(ConditionKind::Binary, NONE, &obj1).unwrap();
    assert_eq!(condition.len(), 1);
    let cond = condition.pop().unwrap();
    assert_eq!(cond.matching(&obj(vec![("FieldOne", s("SGVsbG8gd29ybGQh")), ("FieldTwo", s("SGVsbG8gd29ybGQ="))]), &vec![]), true);
}

#[test]
fn binary_compare_should_raise_err_if_malformed_object() {
    let v = s("SGVsbG8gd29ybGQh");
    libzephir::condition::make_fields(ConditionKind::Binary, NONE, &v).expect_err("Should raise error");
    let v = obj(vec![("FieldOne", Json::Array(vec![s("SGVsbG8gd29ybGQh")]))]);
    libzephir::condition::make_fields(ConditionKind::Binary, NONE, &v).expect_err("Should raise error");
}

#[test]
fn should_correctly_evaluate_binary_comparison() {
    let bytes_one: Vec<u8> = vec![72, 101, 108, 108, 111, 32, 119, 111, 114, 108, 100, 33];
    let bytes_two: Vec<u8> = vec![72, 101, 108, 108, 111, 32, 119, 111, 114, 108, 100];
    let bytes_three: Vec<u8> = vec![72, 101, 108, 108, 111, 32, 119, 111, 114, 108, 100, 32];
    let c = |b: &Vec<u8>, key: &str| Condition::BinaryEquals(key.to_string(), b.clone(), NONE);
    assert_eq!(c(&bytes_one, "k").value_matches(&s("SGVsbG8gd29ybGQh")), true);
    assert_eq!(c(&bytes_two, "k").value_matches(&s("SGVsbG8gd29ybGQh")), false);
    assert_eq!(c(&bytes_three, "k").value_matches(&s("SGVsbG8gd29ybGQh")), false);
    let map = obj(vec![("FieldOne", s("SGVsbG8gd29ybGQh")), ("FieldTwo", s("SGVsbG8gd29ybGQ="))]);
    assert_eq!(c(&bytes_one, "FieldOne").matching(&map, &vec![]), true);
    assert_eq!(c(&bytes_two, "FieldOne").matching(&map, &vec![]), false);
    assert_eq!(c(&bytes_three, "FieldOne").matching(&map, &vec![]), false);
    assert_eq!(c(&bytes_one, "FieldTwo").matching(&map, &vec![]), false);
    assert_eq!(c(&bytes_two, "FieldTwo").matching(&map, &vec![]), true);
    assert_eq!(c(&bytes_three, "FieldTwo").matching(&map, &vec![]), false);
}

#[test]
fn should_return_false_if_value_is_not_a_string() {
    let bytes: Vec<u8> = vec![72, 101, 108, 108, 111, 32, 119, 111, 114, 108, 100, 33];
    let map = obj(vec![("FieldOne", Json::Array(vec![s("AnArray")]))]);
    assert_eq!(Condition::BinaryEquals("FieldOne".to_string(), bytes, NONE).matching(&map, &vec![]), false);
}

#[test]
fn should_build_boolean_condition() {
    let o = obj(vec![("FieldOne", Json::Bool(true))]);
    let mut condition = libzephir::condition::make_fields(ConditionKind::Bool, NONE, &o).unwrap();
    assert_eq!(condition.len(), 1);
    let cond = condition.pop().unwrap();
    assert_eq!(cond.matching(&obj(vec![("FieldOne", Json::Bool(true)), ("FieldTwo", Json::Bool(false))]), &vec![]), true);
}

#[test]
fn bool_compare_should_raise_err_if_malformed_object() {
    let v = s("");
    libzephir::condition::make_fields(ConditionKind::Bool, NONE, &v).expect_err("Should raise error");
    let v = obj(vec![("FieldOne", Json::Array(vec![s("")]))]);
    libzephir::condition::make_fields(ConditionKind::Bool, NONE, &v).expect_err("Should raise error");
}

#[test]
fn should_correctly_evaluate_boolean_comparison() {
    let c = |b: bool| Condition::BoolEquals("k".to_string(), b, NONE);
    assert_eq!(c(true).value_matches(&Json::Bool(true)), true);
    assert_eq!(c(false).value_matches(&Json::Bool(true)), false);
    assert_eq!(c(false).value_matches(&Json::Bool(false)), true);
    assert_eq!(c(true).value_matches(&Json::Bool(false)), false);
}

#[test]
fn should_return_false_if_value_is_not_a_boolean() {
    let map = obj(vec![("FieldOne", Json::Array(vec![s("AnArray")]))]);
    assert_eq!(Condition::BoolEquals("FieldOne".to_string(), true, NONE).matching(&map, &vec![]), false);
}

#[test]
fn modifiers_are_read_from_the_key() {
    let (name, flags) = libzephir::condition::split_key("ForAnyValueStringEqualsIfExists");
    assert_eq!(name, "StringEquals");
    assert_eq!(flags, Flags { for_all_values: false, for_any_value: true, if_exists: true });
    let (name, flags) = libzephir::condition::split_key("ForAllValuesNumericLessThan");
    assert_eq!(name, "NumericLessThan");
    assert_eq!(flags, Flags { for_all_values: true, for_any_value: false, if_exists: false });
}

#[test]
fn for_any_and_for_all_values_read_arrays() {
    let doc = obj(vec![
        ("ForAnyValueStringEquals", obj(vec![("tags", s("b"))])),
        ("ForAllValuesNumericGreaterThan", obj(vec![("n", Json::Int(0))])),
    ]);
    let conds = Condition::from_value(&doc).unwrap();
    assert_eq!(conds.len(), 2);
    let ctx = obj(vec![
        ("tags", Json::Array(vec![s("a"), s("b")])),
        ("n", Json::Array(vec![Json::Int(1), Json::Int(2)])),
    ]);
    assert_eq!(conds[0].matching(&ctx, &vec![]), true);
    assert_eq!(conds[1].matching(&ctx, &vec![]), true);
    let ctx2 = obj(vec![("tags", s("b")), ("n", Json::Array(vec![Json::Int(1), Json::Int(0)]))]);
    assert_eq!(conds[0].matching(&ctx2, &vec![]), false);
    assert_eq!(conds[1].matching(&ctx2, &vec![]), false);
}

#[test]
fn if_exists_passes_on_a_missing_key() {
    let doc = obj(vec![("NumericEqualsIfExists", obj(vec![("n", Json::Int(5))]))]);
    let conds = Condition::from_value(&doc).unwrap();
    assert_eq!(conds[0].matching(&obj(vec![]), &vec![]), true);
    assert_eq!(conds[0].matching(&Json::Null, &vec![]), true);
    assert_eq!(conds[0].matching(&obj(vec![("n", Json::Int(4))]), &vec![]), false);
    let plain = Condition::NumericCompare("n".to_string(), 5, CompareFn::Eq, NONE);
    assert_eq!(plain.matching(&obj(vec![]), &vec![]), false);
}

#[test]
fn numeric_comparisons() {
    let c = |op: CompareFn| Condition::NumericCompare("n".to_string(), 10, op, NONE);
    let v = Json::Int(7);
    assert_eq!(c(CompareFn::Lt).value_matches(&v), true);
    assert_eq!(c(CompareFn::Lte).value_matches(&v), true);
    assert_eq!(c(CompareFn::Gt).value_matches(&v), false);
    assert_eq!(c(CompareFn::Gte).value_matches(&Json::Int(10)), true);
    assert_eq!(c(CompareFn::Eq).value_matches(&Json::Int(10)), true);
    assert_eq!(c(CompareFn::NEq).value_matches(&Json::Int(10)), false);
    assert_eq!(c(CompareFn::Eq).value_matches(&s("10")), false);
}

#[test]
fn date_conditions_compare_instants_in_utc() {
    let doc = obj(vec![("DateLessThan", obj(vec![("at", s("2020-01-01T00:00:00Z"))]))]);
    let conds = Condition::from_value(&doc).unwrap();
    match &conds[0] {
        Condition::DateCompare(_, t, op, _) => {
            assert_eq!(*t, Timestamp { seconds: 1577836800, nanos: 0 });
            assert_eq!(*op, CompareFn::Lt);
        }
        _ => panic!("expected a date condition"),
    }
    assert_eq!(conds[0].matching(&obj(vec![("at", s("2020-01-01T00:30:00+01:00"))]), &vec![]), true);
    assert_eq!(conds[0].matching(&obj(vec![("at", s("2020-01-01T00:00:00Z"))]), &vec![]), false);
    assert_eq!(conds[0].matching(&obj(vec![("at", s("not a date"))]), &vec![]), false);
    let bad = obj(vec![("DateEquals", obj(vec![("at", s("yesterday"))]))]);
    assert_eq!(Condition::from_value(&bad).unwrap_err().kind(), ErrorKind::UnwrapNoneValueError);
}

#[test]
fn ip_conditions_test_membership() {
    let doc = obj(vec![
        ("IpAddress", obj(vec![("ip", s("10.0.0.0/8"))])),
        ("NotIpAddress", obj(vec![("ip", s("10.1.0.0/16"))])),
    ]);
    let conds = Condition::from_value(&doc).unwrap();
    let inside = obj(vec![("ip", s("10.2.3.4"))]);
    assert_eq!(conds[0].matching(&inside, &vec![]), true);
    assert_eq!(conds[1].matching(&inside, &vec![]), true);
    let excluded = obj(vec![("ip", s("10.1.3.4"))]);
    assert_eq!(conds[1].matching(&excluded, &vec![]), false);
    let outside = obj(vec![("ip", s("192.168.0.1"))]);
    assert_eq!(conds[0].matching(&outside, &vec![]), false);
    assert_eq!(conds[0].matching(&obj(vec![("ip", s("garbage"))]), &vec![]), false);
    let bad = obj(vec![("IpAddress", obj(vec![("ip", s("10.0.0.0/99"))]))]);
    assert_eq!(Condition::from_value(&bad).unwrap_err().kind(), ErrorKind::UnknownError);
}

#[test]
fn invalid_base64_comparand_is_refused() {
    let bad = obj(vec![("Binary", obj(vec![("b", s("!!!"))]))]);
    assert_eq!(Condition::from_value(&bad).unwrap_err().kind(), ErrorKind::UnknownError);
}

#[test]
fn script_conditions_take_the_given_verdict() {
    let doc = obj(vec![("Script", s("return true;"))]);
    let conds = Condition::from_value(&doc).unwrap();
    assert_eq!(conds.len(), 1);
    assert_eq!(conds[0].matching(&Json::Null, &vec![("return true;".to_string(), true)]), true);
    assert_eq!(conds[0].matching(&Json::Null, &vec![("other".to_string(), true)]), false);
    assert_eq!(conds[0].matching(&Json::Null, &vec![]), false);
    let bad = obj(vec![("Script", Json::Int(1))]);
    assert_eq!(Condition::from_value(&bad).unwrap_err().kind(), ErrorKind::UnwrapNoneValueError);
}

#[test]
fn null_conditions_give_none_and_non_objects_fail() {
    assert_eq!(Condition::from_value(&Json::Null).unwrap().len(), 0);
    let e = Condition::from_value(&Json::Array(vec![])).unwrap_err();
    assert_eq!(e.kind(), ErrorKind::UnwrapNoneValueError);
    assert_eq!(e.to_string(), "Conditions is not an object");
}

#[test]
fn ignore_case_comparand_is_lowercased() {
    let doc = obj(vec![("StringNotEqualsIgnoreCase", obj(vec![("k", s("ABC"))]))]);
    let conds = Condition::from_value(&doc).unwrap();
    match &conds[0] {
        Condition::StringNotEquals(_, o, cs, _) => {
            assert_eq!(o, "abc");
            assert_eq!(*cs, false);
        }
        _ => panic!("expected a string condition"),
    }
    assert_eq!(conds[0].matching(&obj(vec![("k", s("aBc"))]), &vec![]), false);
    assert_eq!(conds[0].matching(&obj(vec![("k", s("abd"))]), &vec![]), true);
}

#[test]
fn binary_comparands_need_no_padding() {
    let doc = obj(vec![("Binary", obj(vec![("b", s("SGVsbG8gd29ybGQ"))]))]);
    let conds = Condition::from_value(&doc).unwrap();
    match &conds[0] {
        Condition::BinaryEquals(_, bytes, _) => assert_eq!(bytes, &b"Hello world".to_vec()),
        _ => panic!("expected a binary condition"),
    }
    assert_eq!(conds[0].matching(&obj(vec![("b", s("SGVsbG8gd29ybGQ="))]), &vec![]), true);
}
