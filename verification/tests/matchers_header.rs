use spoof::matchers::header::{
    BasicAuthMatcher, BearerTokenMatcher, HeaderExactMatcher, HeaderExistsMatcher,
    HeaderValueContainsMatcher, HeaderValueRegexMatcher,
};
use spoof::error::ConfigError;
use spoof::matchers::{
    basic_auth, bearer_token, header, header_contains, header_exists, header_regex, headers, Match,
};
use spoof::request::{HeaderField, Request};

fn request_with_headers(pairs: Vec<(&str, &[u8])>) -> Request {
    Request {
        method: String::from("GET"),
        path: String::from("/"),
        query: vec![],
        headers: pairs
            .into_iter()
            .map(|(k, v)| HeaderField { name: String::from(k), value: v.to_vec() })
            .collect(),
        body: vec![],
    }
}

#[test]
fn comma_separated_values_split_into_atoms() {
    let req = request_with_headers(vec![("x", b"a, b")]);
    let m = headers("X", vec![String::from("a"), String::from("b")]).unwrap();
    assert!(m.matches(&req));
    let wrong_order = headers("X", vec![String::from("b"), String::from("a")]).unwrap();
    assert!(!wrong_order.matches(&req));
}

#[test]
fn repeated_headers_contribute_atoms_in_order() {
    let req = request_with_headers(vec![("x", b"a"), ("x", b" b ,c")]);
    let m = headers("x", vec![String::from("a"), String::from("b"), String::from("c")]).unwrap();
    assert!(m.matches(&req));
}

#[test]
fn header_names_compare_case_insensitively() {
    let req = request_with_headers(vec![("Content-Type", b"text/plain")]);
    assert!(header("content-type", "text/plain").unwrap().matches(&req));
    assert!(HeaderExactMatcher::new("CONTENT-TYPE", vec![String::from("text/plain")])
        .unwrap()
        .matches(&req));
}

#[test]
fn header_construction_validates_name_and_value() {
    assert_eq!(header("bad name", "v").unwrap_err(), ConfigError::InvalidHeaderName);
    assert_eq!(header("", "v").unwrap_err(), ConfigError::InvalidHeaderName);
    assert_eq!(header("ok", "bad\nvalue").unwrap_err(), ConfigError::InvalidHeaderValue);
    assert_eq!(
        ConfigError::InvalidHeaderValue.describe(),
        "not a legal header value"
    );
}

#[test]
fn exists_asks_only_for_presence() {
    let req = request_with_headers(vec![("x-flag", b"whatever")]);
    assert!(header_exists("X-Flag").unwrap().matches(&req));
    assert!(!header_exists("x-other").unwrap().matches(&req));
    assert!(HeaderExistsMatcher::new("x-flag").unwrap().matches(&req));
}

#[test]
fn regex_must_match_every_occurrence_of_the_header() {
    let req = request_with_headers(vec![("x", b"abc1"), ("x", b"abc2")]);
    assert!(header_regex("x", "^abc[0-9]$").unwrap().matches(&req));
    let partial = request_with_headers(vec![("x", b"abc1"), ("x", b"nope")]);
    assert!(!header_regex("x", "^abc[0-9]$").unwrap().matches(&partial));
    let absent = request_with_headers(vec![]);
    assert!(!header_regex("x", ".*").unwrap().matches(&absent));
    assert!(HeaderValueRegexMatcher::new("x", "[").is_err());
}

#[test]
fn contains_treats_expected_values_as_a_set() {
    let req = request_with_headers(vec![("accept", b"gzip, br")]);
    let m = header_contains("accept", vec![String::from("br"), String::from("gzip")]).unwrap();
    assert!(m.matches(&req));
    let narrow = HeaderValueContainsMatcher::new("accept", vec![String::from("gzip")]).unwrap();
    assert!(!narrow.matches(&req));
}

#[test]
fn basic_auth_expects_the_encoded_credentials() {
    let m = basic_auth("user", "pass").unwrap();
    let good = request_with_headers(vec![("authorization", b"Basic dXNlcjpwYXNz")]);
    assert!(m.matches(&good));
    let bad = request_with_headers(vec![("authorization", b"Basic dXNlcjpvdGhlcg==")]);
    assert!(!m.matches(&bad));
    assert!(BasicAuthMatcher::from_token("dXNlcjpwYXNz").unwrap().matches(&good));
}

#[test]
fn bearer_token_expects_the_raw_token() {
    let m = bearer_token("abc123").unwrap();
    let good = request_with_headers(vec![("authorization", b"Bearer abc123")]);
    assert!(m.matches(&good));
    let bad = request_with_headers(vec![("authorization", b"Bearer other")]);
    assert!(!m.matches(&bad));
    assert!(BearerTokenMatcher::from_token("x").unwrap().matches(&request_with_headers(vec![(
        "authorization",
        b"Bearer x",
    )])));
}
