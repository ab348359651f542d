use libzephir::glob_to_regex::{from_str, from_string, glob_to_pattern};

#[test]
fn from_string_should_return_match_all_regex() {
    assert_eq!(from_string("*".to_string()).unwrap().as_str(), ".+");
}

#[test]
fn from_string_should_work_correctly() {
    assert_eq!(from_string("foo_{bar,foo}.*".to_string()).unwrap().as_str(), "foo_(bar|foo)\\.[^:]*");
    assert_eq!(from_string("foo_ba?.\\*".to_string()).unwrap().as_str(), "foo_ba[^:]\\.\\*");
}

#[test]
fn from_str_should_work_correctly() {
    assert_eq!(from_str("foo_{bar,foo}.*").unwrap().as_str(), "foo_(bar|foo)\\.[^:]*");
}

#[test]
fn colon_double_star_crosses_segments() {
    assert_eq!(glob_to_pattern("a:**"), "a.*");
    let g = from_str("urn:**").unwrap();
    assert_eq!(g.is_match("urn:x:y:z"), true);
    let single = from_str("urn:*").unwrap();
    assert_eq!(single.is_match("urn:x:y"), false);
    assert_eq!(single.is_match("urn:x"), true);
}

#[test]
fn escapes_and_operators_are_literal() {
    assert_eq!(glob_to_pattern("a+b^c$d|e(f)"), "a\\+b\\^c\\$d\\|e\\(f\\)");
    assert_eq!(glob_to_pattern("\\?\\{x\\}"), "\\?\\{x}");
    assert_eq!(glob_to_pattern("\\\\"), "\\\\");
    assert_eq!(glob_to_pattern("{a,b}"), "(a|b)");
    assert_eq!(glob_to_pattern("a,b}"), "a,b}");
}

#[test]
fn star_alone_rejects_empty_string() {
    let g = from_str("*").unwrap();
    assert_eq!(g.is_match(""), false);
    assert_eq!(g.is_match("anything:with:colons"), true);
}

#[test]
fn compiling_twice_matches_the_same_strings() {
    let a = from_str("svc:{read,write}:?x*").unwrap();
    let b = from_str("svc:{read,write}:?x*").unwrap();
    assert_eq!(a.as_str(), b.as_str());
    for s in ["svc:read:axe", "svc:write:bx", "svc:list:ax", "svc:read:x", "svc:read:ax:y"] {
        assert_eq!(a.is_match(s), b.is_match(s));
    }
    assert_eq!(a.is_match("svc:read:axe"), true);
    assert_eq!(a.is_match("svc:read:x"), false);
}

#[test]
fn question_mark_matches_one_character_of_a_segment() {
    let g = from_str("Foo?ar").unwrap();
    assert_eq!(g.is_match("FooBar"), true);
    assert_eq!(g.is_match("Foo:ar"), false);
    assert_eq!(g.is_match("FooBBar"), false);
}
