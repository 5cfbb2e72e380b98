use spoof::matchers::query::{
    QueryParamCaseInsensitiveMatcher, QueryParamContainsMatcher, QueryParamExactMatcher,
    QueryParamExistsMatcher, QueryParamMissingMatcher, QueryParamRegexMatcher,
};
use spoof::matchers::{
    query_param, query_param_case_insensitive, query_param_contains, query_param_exists,
    query_param_is_missing, query_param_regex, Match,
};
use spoof::request::{QueryParam, Request};

fn request_with_query(pairs: Vec<(&str, &str)>) -> Request {
    Request {
        method: String::from("GET"),
        path: String::from("/"),
        query: pairs
            .into_iter()
            .map(|(k, v)| QueryParam { key: String::from(k), value: String::from(v) })
            .collect(),
        headers: vec![],
        body: vec![],
    }
}

#[test]
fn exact_matches_first_occurrence() {
    let req = request_with_query(vec![("a", "1"), ("b", "2"), ("a", "3")]);
    assert!(query_param("a", "1").matches(&req));
    assert!(!query_param("a", "3").matches(&req));
    assert!(query_param("b", "2").matches(&req));
    assert!(!query_param("c", "1").matches(&req));
}

#[test]
fn absent_matcher_is_satisfied_without_the_parameter() {
    let req = request_with_query(vec![("other", "1")]);
    assert!(query_param_is_missing("q").matches(&req));
    assert!(!query_param_exists("q").matches(&req));
}

#[test]
fn exists_matcher_is_satisfied_with_the_parameter() {
    let req = request_with_query(vec![("q", "anything")]);
    assert!(query_param_exists("q").matches(&req));
    assert!(!query_param_is_missing("q").matches(&req));
    assert!(QueryParamExistsMatcher::does_exist("q").matches(&req));
    assert!(!QueryParamExistsMatcher::does_not_exist("q").matches(&req));
    assert!(QueryParamMissingMatcher::new("absent").matches(&req));
}

#[test]
fn contains_looks_inside_the_value() {
    let req = request_with_query(vec![("q", "hello world")]);
    assert!(query_param_contains("q", "lo wo").matches(&req));
    assert!(!query_param_contains("q", "xyz").matches(&req));
    assert!(QueryParamContainsMatcher::new("q", "hello").matches(&req));
}

#[test]
fn case_insensitive_folds_ascii_only() {
    let req = request_with_query(vec![("q", "HeLLo")]);
    assert!(query_param_case_insensitive("q", "hello").matches(&req));
    assert!(QueryParamCaseInsensitiveMatcher::new("q", "HELLO").matches(&req));
    assert!(!query_param_case_insensitive("q", "hellx").matches(&req));
    assert!(!QueryParamExactMatcher::new("q", "hello").matches(&req));
}

#[test]
fn regex_matcher_searches_the_value() {
    let req = request_with_query(vec![("id", "user-1234")]);
    let m = query_param_regex("id", "^user-[0-9]+$").unwrap();
    assert!(m.matches(&req));
    let no = query_param_regex("id", "^[0-9]+$").unwrap();
    assert!(!no.matches(&req));
    assert!(QueryParamRegexMatcher::new("id", "[0-9]{4}").unwrap().matches(&req));
    assert!(QueryParamRegexMatcher::new("id", "[").is_err());
}
