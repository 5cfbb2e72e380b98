use spoof::error::ConfigError;
use spoof::matchers::body::{BodyContainsMatcher, BodyExactMatcher, BodyPartialJsonMatcher};
use spoof::matchers::{
    body_bytes, body_json_string, body_partial_json_string, body_string, body_string_contains,
    Match,
};
use spoof::request::Request;

fn request_with_body(body: &[u8]) -> Request {
    Request {
        method: String::from("POST"),
        path: String::from("/"),
        query: vec![],
        headers: vec![],
        body: body.to_vec(),
    }
}

#[test]
fn exact_string_body() {
    let m = body_string("hello");
    assert!(m.matches(&request_with_body(b"hello")));
    assert!(!m.matches(&request_with_body(b"hello there")));
    assert!(BodyExactMatcher::string("x").matches(&request_with_body(b"x")));
}

#[test]
fn exact_byte_body() {
    let m = body_bytes(vec![0u8, 159, 255]);
    assert!(m.matches(&request_with_body(&[0u8, 159, 255])));
    assert!(!m.matches(&request_with_body(&[0u8, 159])));
}

#[test]
fn exact_json_body_ignores_whitespace_but_not_content() {
    let m = body_json_string("{\"a\": 1, \"b\": 2}").unwrap();
    assert!(m.matches(&request_with_body(b"{\"b\":2,\"a\":1}")));
    assert!(!m.matches(&request_with_body(b"{\"a\":1}")));
    assert!(!m.matches(&request_with_body(b"not json")));
    assert_eq!(body_json_string("{oops").unwrap_err(), ConfigError::InvalidJson);
    assert!(BodyExactMatcher::json_string("[1,2]").unwrap().matches(&request_with_body(b"[1, 2]")));
}

#[test]
fn string_containment_fails_closed_on_invalid_utf8() {
    let m = body_string_contains("needle");
    assert!(m.matches(&request_with_body(b"hay needle hay")));
    assert!(!m.matches(&request_with_body(b"no such thing")));
    assert!(!m.matches(&request_with_body(&[0xff, 0xfe, 0x6e])));
    assert!(BodyContainsMatcher::string("").matches(&request_with_body(b"anything")));
}

#[test]
fn partial_json_applies_the_relaxed_comparison() {
    let m = body_partial_json_string("{\"a\": 1}").unwrap();
    assert!(m.matches(&request_with_body(b"{\"a\": 1, \"b\": 2}")));
    assert!(!m.matches(&request_with_body(b"{\"b\": 2}")));
    assert!(!m.matches(&request_with_body(b"broken{")));
    let arr = BodyPartialJsonMatcher::json_string("[1, 2]").unwrap();
    assert!(arr.matches(&request_with_body(b"[2, 1]")));
    assert!(!arr.matches(&request_with_body(b"[1]")));
    assert_eq!(
        BodyPartialJsonMatcher::json_string("{nope").unwrap_err(),
        ConfigError::InvalidJson
    );
}
