use spoof::json::{json_eq, parse_json, relaxed_equals, JsonValue, RelaxedJson};

fn num(s: &str) -> JsonValue {
    JsonValue::Number(String::from(s))
}

fn text(s: &str) -> JsonValue {
    JsonValue::Text(String::from(s))
}

fn obj(fields: Vec<(&str, JsonValue)>) -> JsonValue {
    JsonValue::Object(fields.into_iter().map(|(k, v)| (String::from(k), v)).collect())
}

fn arr(items: Vec<JsonValue>) -> JsonValue {
    JsonValue::Array(items)
}

fn is_equal(a: &JsonValue, b: &JsonValue) -> bool {
    RelaxedJson(a).equals(&RelaxedJson(b))
}

#[test]
fn extra_field_on_rhs_is_allowed() {
    let obj_a = obj(vec![("a", num("1"))]);
    let obj_b = obj(vec![("a", num("1")), ("b", num("2"))]);
    assert!(is_equal(&obj_a, &obj_b));
}

#[test]
fn missing_field_on_rhs_is_rejected() {
    let obj_a = obj(vec![("a", num("1")), ("b", num("2"))]);
    let obj_b = obj(vec![("a", num("1"))]);
    assert!(!is_equal(&obj_a, &obj_b));
}

#[test]
fn arrays_ignore_order() {
    let a = arr(vec![num("1"), num("2")]);
    let b = arr(vec![num("2"), num("1")]);
    assert!(is_equal(&a, &b));
}

#[test]
fn array_lengths_must_match() {
    let a = arr(vec![num("1"), num("1")]);
    let b = arr(vec![num("1")]);
    assert!(!is_equal(&a, &b));
}

#[test]
fn duplicate_pattern_elements_may_share_a_counterpart() {
    let a = arr(vec![num("1"), num("2"), num("2")]);
    let b = arr(vec![num("1"), num("2")]);
    assert!(!is_equal(&a, &b));
    let c = arr(vec![num("1"), num("2"), num("3")]);
    let d = arr(vec![num("2"), num("2"), num("2")]);
    assert!(!is_equal(&c, &d));
    let e = arr(vec![num("2"), num("2"), num("2")]);
    let f = arr(vec![num("2"), num("3"), num("4")]);
    assert!(is_equal(&e, &f));
}

#[test]
fn scalars_fall_back_to_exact_equality() {
    assert!(is_equal(&num("1"), &num("1")));
    assert!(!is_equal(&num("1"), &num("2")));
    assert!(!is_equal(&num("1"), &text("1")));
    assert!(is_equal(&JsonValue::Null, &JsonValue::Null));
    assert!(!is_equal(&JsonValue::Bool(true), &JsonValue::Bool(false)));
    assert!(!is_equal(&obj(vec![]), &arr(vec![])));
}

#[test]
fn object_comparison_is_positional() {
    let a = obj(vec![("a", num("1")), ("b", num("2"))]);
    let b = obj(vec![("b", num("2")), ("a", num("1"))]);
    assert!(!is_equal(&a, &b));
}

#[test]
fn nested_relaxation() {
    let a = obj(vec![("list", arr(vec![num("1"), num("2")]))]);
    let b = obj(vec![("list", arr(vec![num("2"), num("1")])), ("extra", text("x"))]);
    assert!(is_equal(&a, &b));
}

#[test]
fn strict_equality_allows_no_relaxation() {
    let a = obj(vec![("a", num("1"))]);
    let b = obj(vec![("a", num("1")), ("b", num("2"))]);
    assert!(!json_eq(&a, &b));
    assert!(json_eq(&a, &obj(vec![("a", num("1"))])));
    let c = arr(vec![num("1"), num("2")]);
    let d = arr(vec![num("2"), num("1")]);
    assert!(!json_eq(&c, &d));
}

#[test]
fn parsing_builds_the_expected_document() {
    let parsed = parse_json(b"{\"a\": 1, \"b\": [true, null, \"x\"]}").unwrap();
    let expected = obj(vec![
        ("a", num("1")),
        ("b", arr(vec![JsonValue::Bool(true), JsonValue::Null, text("x")])),
    ]);
    assert!(json_eq(&parsed, &expected));
    assert!(parse_json(b"{nonsense").is_none());
    assert!(parse_json(b"").is_none());
}

#[test]
fn parsing_orders_object_keys_canonically() {
    let parsed = parse_json(b"{\"b\": 2, \"a\": 1}").unwrap();
    let expected = obj(vec![("a", num("1")), ("b", num("2"))]);
    assert!(json_eq(&parsed, &expected));
}
