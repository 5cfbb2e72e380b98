use spoof::error::ConfigError;
use spoof::json::JsonValue;
use spoof::matchers::Match;
use spoof::mock::Mock;
use spoof::matchers::any;
use spoof::model::matcher::{GenericMatcherStub, GenericMatcherValueStruct};
use spoof::model::path::HttpPathStub;
use spoof::model::query::{resolve_query_entry, HttpQueryParamsStub};
use spoof::model::MockRegistrable;
use spoof::request::{QueryParam, Request};

fn num(s: &str) -> JsonValue {
    JsonValue::Number(String::from(s))
}

fn text(s: &str) -> JsonValue {
    JsonValue::Text(String::from(s))
}

fn obj(fields: Vec<(&str, JsonValue)>) -> JsonValue {
    JsonValue::Object(fields.into_iter().map(|(k, v)| (String::from(k), v)).collect())
}

fn entry(key: &str, fields: Vec<(&str, JsonValue)>) -> GenericMatcherStub {
    GenericMatcherStub::from_entry(key, &obj(fields))
}

fn request_with_query(pairs: Vec<(&str, &str)>) -> Request {
    Request {
        method: String::from("GET"),
        path: String::from("/"),
        query: pairs
            .into_iter()
            .map(|(k, v)| QueryParam { key: String::from(k), value: String::from(v) })
            .collect(),
        headers: vec![],
        body: vec![],
    }
}

#[test]
fn absence_takes_precedence_over_everything() {
    let e = entry("q", vec![
        ("absent", JsonValue::Bool(true)),
        ("equalTo", text("v")),
    ]);
    let m = resolve_query_entry(&e).unwrap().unwrap();
    assert!(m.matches(&request_with_query(vec![])));
    assert!(!m.matches(&request_with_query(vec![("q", "v")])));
}

#[test]
fn absent_false_demands_presence() {
    let e = entry("q", vec![("absent", JsonValue::Bool(false))]);
    let m = resolve_query_entry(&e).unwrap().unwrap();
    assert!(m.matches(&request_with_query(vec![("q", "anything")])));
    assert!(!m.matches(&request_with_query(vec![])));
}

#[test]
fn exact_equality_coerces_scalars_to_strings() {
    let e = entry("n", vec![("equalTo", num("42"))]);
    let m = resolve_query_entry(&e).unwrap().unwrap();
    assert!(m.matches(&request_with_query(vec![("n", "42")])));
    assert!(!m.matches(&request_with_query(vec![("n", "43")])));

    let b = entry("f", vec![("equalTo", JsonValue::Bool(true))]);
    let mb = resolve_query_entry(&b).unwrap().unwrap();
    assert!(mb.matches(&request_with_query(vec![("f", "true")])));
}

#[test]
fn uncoercible_exact_values_contribute_nothing() {
    let e = entry("n", vec![("equalTo", obj(vec![]))]);
    assert!(resolve_query_entry(&e).unwrap().is_none());
    let big = entry("n", vec![("equalTo", num("99999999999999999999"))]);
    assert!(resolve_query_entry(&big).unwrap().is_none());
    let fractional = entry("n", vec![("equalTo", num("1.5"))]);
    assert!(resolve_query_entry(&fractional).unwrap().is_none());
}

#[test]
fn case_insensitive_needs_the_exact_value() {
    let e = entry("q", vec![
        ("equalTo", text("Hello")),
        ("caseInsensitive", JsonValue::Bool(true)),
    ]);
    let m = resolve_query_entry(&e).unwrap().unwrap();
    assert!(m.matches(&request_with_query(vec![("q", "HELLO")])));
    assert!(!m.matches(&request_with_query(vec![("q", "other")])));
}

#[test]
fn contains_applies_without_an_exact_value() {
    let e = entry("q", vec![("contains", text("ell"))]);
    let m = resolve_query_entry(&e).unwrap().unwrap();
    assert!(m.matches(&request_with_query(vec![("q", "hello")])));
    assert!(!m.matches(&request_with_query(vec![("q", "other")])));
    let empty = entry("q", vec![("contains", text(""))]);
    assert!(resolve_query_entry(&empty).unwrap().is_none());
}

#[test]
fn regex_applies_last_and_bad_sources_are_configuration_errors() {
    let e = entry("q", vec![("matches", text("^[0-9]+$"))]);
    let m = resolve_query_entry(&e).unwrap().unwrap();
    assert!(m.matches(&request_with_query(vec![("q", "123")])));
    assert!(!m.matches(&request_with_query(vec![("q", "12a")])));

    let bad = entry("q", vec![("matches", text("["))]);
    assert_eq!(resolve_query_entry(&bad).unwrap_err(), ConfigError::InvalidRegex);

    let not_text = entry("q", vec![("matches", num("1"))]);
    assert!(resolve_query_entry(&not_text).unwrap().is_none());

    let shadowed = entry("q", vec![
        ("matches", text("^[0-9]+$")),
        ("contains", text("2")),
    ]);
    let mc = resolve_query_entry(&shadowed).unwrap().unwrap();
    assert!(mc.matches(&request_with_query(vec![("q", "x2x")])));
}

#[test]
fn entries_with_no_rule_are_silently_dropped() {
    let e = entry("q", vec![]);
    assert!(resolve_query_entry(&e).unwrap().is_none());
    let wrong_shape = GenericMatcherStub::from_entry("q", &text("not an object"));
    assert!(wrong_shape.value.is_none());
    assert!(resolve_query_entry(&wrong_shape).unwrap().is_none());
}

#[test]
fn predicate_precedence_flags() {
    let e = entry("q", vec![
        ("equalTo", text("v")),
        ("caseInsensitive", JsonValue::Bool(true)),
    ]);
    assert!(e.is_equal_to());
    assert!(e.is_case_insensitive());
    assert!(!e.is_exact_match());
    assert!(!e.is_by_regex());

    let c = entry("q", vec![("contains", text("x")), ("equalTo", text("v"))]);
    assert!(!c.is_contains());
    assert!(c.is_exact_match());
}

#[test]
fn coercion_of_the_exact_value() {
    let s = entry("q", vec![("equalTo", text("abc"))]);
    assert_eq!(s.get_equal_to_as_string().unwrap(), "abc");
    let b = entry("q", vec![("equalTo", JsonValue::Bool(false))]);
    assert_eq!(b.get_equal_to_as_string().unwrap(), "false");
    let n = entry("q", vec![("equalTo", num("-9223372036854775808"))]);
    assert_eq!(n.get_equal_to_as_string().unwrap(), "-9223372036854775808");
    let over = entry("q", vec![("equalTo", num("9223372036854775808"))]);
    assert!(over.get_equal_to_as_string().is_none());
    let max = entry("q", vec![("equalTo", num("9223372036854775807"))]);
    assert_eq!(max.get_equal_to_as_string().unwrap(), "9223372036854775807");
}

#[test]
fn value_specification_shape_is_checked() {
    let ok = GenericMatcherValueStruct::from_json(&obj(vec![
        ("caseInsensitive", JsonValue::Bool(true)),
        ("ignored", text("whatever")),
    ]));
    assert!(ok.is_some());
    let bad = GenericMatcherValueStruct::from_json(&obj(vec![
        ("caseInsensitive", text("not a bool")),
    ]));
    assert!(bad.is_none());
    let null_is_absent = GenericMatcherValueStruct::from_json(&obj(vec![
        ("contains", JsonValue::Null),
    ]));
    let parsed = null_is_absent.unwrap();
    assert!(parsed.contains.is_none());
}

#[test]
fn query_params_fragment_registers_each_entry() {
    let stub = HttpQueryParamsStub {
        query_params: Some(vec![
            (String::from("a"), obj(vec![("equalTo", text("1"))])),
            (String::from("b"), obj(vec![("absent", JsonValue::Bool(true))])),
        ]),
    };
    let builder = Mock::stub_for(any());
    let done = stub.register(builder).unwrap().respond(
        spoof::response::MockResponseBuilder::new(),
    );
    assert!(done.matches(&request_with_query(vec![("a", "1")])));
    assert!(!done.matches(&request_with_query(vec![("a", "1"), ("b", "x")])));
    assert!(!done.matches(&request_with_query(vec![("a", "2")])));
}

#[test]
fn path_fragment_prefers_the_exact_path() {
    let stub = HttpPathStub {
        path_equals: Some(String::from("/users")),
        path_regex: Some(String::from("^/ignored$")),
    };
    let done = stub
        .register(Mock::stub_for(any()))
        .unwrap()
        .respond(spoof::response::MockResponseBuilder::new());
    let req = |p: &str| Request {
        method: String::from("GET"),
        path: String::from(p),
        query: vec![],
        headers: vec![],
        body: vec![],
    };
    assert!(done.matches(&req("/users")));
    assert!(!done.matches(&req("/ignored")));

    let bad = HttpPathStub {
        path_equals: Some(String::from("/x?y=1")),
        path_regex: None,
    };
    assert!(bad.register(Mock::stub_for(any())).is_err());

    let rx = HttpPathStub {
        path_equals: None,
        path_regex: Some(String::from("^/users/[0-9]+$")),
    };
    let done_rx = rx
        .register(Mock::stub_for(any()))
        .unwrap()
        .respond(spoof::response::MockResponseBuilder::new());
    assert!(done_rx.matches(&req("/users/7")));
    assert!(!done_rx.matches(&req("/users/x")));
}
