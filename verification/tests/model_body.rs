use spoof::json::JsonValue;
use spoof::model::body::{HttpBodyPatternStub, HttpJsonPathExpressionStub};

fn num(s: &str) -> JsonValue {
    JsonValue::Number(String::from(s))
}

fn pattern(json: Option<JsonValue>, extra: Option<bool>, order: Option<bool>) -> HttpBodyPatternStub {
    HttpBodyPatternStub {
        equal_to_json: json,
        matches_json_path: None,
        json_path: None,
        ignore_extra_elements: extra,
        ignore_array_order: order,
    }
}

#[test]
fn body_patterns_compare_structurally() {
    let a = pattern(Some(num("1")), Some(true), None);
    let b = pattern(Some(num("1")), Some(true), None);
    assert!(a == b);
    let c = pattern(Some(num("2")), Some(true), None);
    assert!(a != c);
    let d = pattern(Some(num("1")), None, None);
    assert!(a != d);
}

#[test]
fn json_path_expressions_compare_fieldwise() {
    let x = HttpJsonPathExpressionStub {
        expression: Some(String::from("$.a")),
        contains: None,
        equal_to: Some(num("1")),
        matches_value: None,
    };
    let y = HttpJsonPathExpressionStub {
        expression: Some(String::from("$.a")),
        contains: None,
        equal_to: Some(num("1")),
        matches_value: None,
    };
    assert!(x == y);
    let z = HttpJsonPathExpressionStub {
        expression: Some(String::from("$.b")),
        contains: None,
        equal_to: Some(num("1")),
        matches_value: None,
    };
    assert!(x != z);
    let p = pattern(None, None, None);
    let q = HttpBodyPatternStub {
        equal_to_json: None,
        matches_json_path: None,
        json_path: Some(x),
        ignore_extra_elements: None,
        ignore_array_order: None,
    };
    assert!(p != q);
}
