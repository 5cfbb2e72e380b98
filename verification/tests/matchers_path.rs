use spoof::error::ConfigError;
use spoof::matchers::path::{PathExactMatcher, PathRegexMatcher};
use spoof::matchers::{method, path, path_regex, Match};
use spoof::request::Request;

fn request_to(method: &str, path: &str) -> Request {
    Request {
        method: String::from(method),
        path: String::from(path),
        query: vec![],
        headers: vec![],
        body: vec![],
    }
}

#[test]
fn path_with_query_string_is_a_configuration_error() {
    assert_eq!(path("/foo?bar=1").unwrap_err(), ConfigError::PathWithQuery);
    assert!(PathExactMatcher::new("/foo?bar=1").is_err());
}

#[test]
fn path_with_host_is_a_configuration_error() {
    assert_eq!(path("http://host/foo").unwrap_err(), ConfigError::PathWithHost);
    assert!(PathExactMatcher::new("https://example.org/x").is_err());
}

#[test]
fn exact_path_matches_the_decoded_path_only() {
    let m = path("/users").unwrap();
    assert!(m.matches(&request_to("GET", "/users")));
    assert!(!m.matches(&request_to("GET", "/users/42")));
}

#[test]
fn missing_leading_slash_is_supplied() {
    let m = path("users").unwrap();
    assert!(m.matches(&request_to("GET", "/users")));
}

#[test]
fn path_regex_searches_the_path() {
    let m = path_regex("^/users/[0-9]+$").unwrap();
    assert!(m.matches(&request_to("GET", "/users/42")));
    assert!(!m.matches(&request_to("GET", "/users/42/posts")));
    assert!(PathRegexMatcher::new("(unclosed").is_err());
    assert!(PathRegexMatcher::new("users").unwrap().matches(&request_to("GET", "/users/1")));
}

#[test]
fn method_matcher_compares_exactly() {
    let m = method("GET").unwrap();
    assert!(m.matches(&request_to("GET", "/")));
    assert!(!m.matches(&request_to("POST", "/")));
    assert!(!m.matches(&request_to("get", "/")));
    assert_eq!(method("GET SPACES").unwrap_err(), ConfigError::InvalidMethod);
    assert_eq!(method("").unwrap_err(), ConfigError::InvalidMethod);
}
