//! Request predicates ("matchers"): each decides whether a request
//! snapshot satisfies one condition, and a stub combines several by
//! logical AND. Construction validates its parameters and fails with a
//! [`ConfigError`] rather than producing an invalid matcher.

use vstd::prelude::*;
use vstd::utf8::encode_utf8;
use crate::error::ConfigError;
use crate::json;
use crate::pattern;
use crate::request::{Request, RequestModel};

pub mod body;
pub mod header;
pub mod method;
pub mod path;
pub mod query;

use body::{BodyContainsMatcher, BodyExactMatcher, BodyPartialJsonMatcher};
use header::{
    BasicAuthMatcher, BearerTokenMatcher, HeaderExactMatcher, HeaderExistsMatcher,
    HeaderValueContainsMatcher, HeaderValueRegexMatcher,
};
use method::MethodMatcher;
use path::{PathExactMatcher, PathRegexMatcher};
use query::{
    QueryParamCaseInsensitiveMatcher, QueryParamContainsMatcher, QueryParamExactMatcher,
    QueryParamExistsMatcher, QueryParamMissingMatcher, QueryParamRegexMatcher,
};

verus! {

/// The capability "does this request satisfy a predicate?". The
/// predicate's meaning is the spec function; `matches` decides it, and
/// `into_matcher` packs the value for storage in a stub.
pub trait Match: Sized {
    /// The predicate over the request model.
    spec fn spec_matches(&self, r: RequestModel) -> bool;

    /// Decides the predicate on a request snapshot.
    fn matches(&self, request: &Request) -> (b: bool)
        ensures
            b == self.spec_matches(request@),
    ;
}

/// A predicate that can be packed into a stored [`Matcher`] without
/// changing its meaning.
pub trait IntoMatcher: Match {
    /// Packs the matcher for storage in a stub.
    fn into_matcher(self) -> (m: Matcher)
        ensures
            forall|r: RequestModel| #[trigger] m.spec_matches(r) == self.spec_matches(r),
    ;
}

/// Matches every request.
#[derive(Debug)]
pub struct AnyMatcher;

impl Match for AnyMatcher {
    open spec fn spec_matches(&self, r: RequestModel) -> bool {
        true
    }

    fn matches(&self, request: &Request) -> (b: bool) {
        true
    }
}

impl IntoMatcher for AnyMatcher {
    fn into_matcher(self) -> (m: Matcher) {
        Matcher::Any(self)
    }
}

/// One stored matcher: the closed set of predicate variants a stub can
/// hold.
#[derive(Debug)]
pub enum Matcher {
    Any(AnyMatcher),
    Method(MethodMatcher),
    PathExact(PathExactMatcher),
    PathRegex(PathRegexMatcher),
    HeaderExact(HeaderExactMatcher),
    HeaderExists(HeaderExistsMatcher),
    HeaderRegex(HeaderValueRegexMatcher),
    HeaderContains(HeaderValueContainsMatcher),
    QueryExact(QueryParamExactMatcher),
    QueryCase(QueryParamCaseInsensitiveMatcher),
    QueryContains(QueryParamContainsMatcher),
    QueryRegex(QueryParamRegexMatcher),
    QueryExists(QueryParamExistsMatcher),
    QueryMissing(QueryParamMissingMatcher),
    BodyExact(BodyExactMatcher),
    BodyContains(BodyContainsMatcher),
    BodyPartialJson(BodyPartialJsonMatcher),
    BasicAuth(BasicAuthMatcher),
    BearerToken(BearerTokenMatcher),
}

impl Match for Matcher {
    open spec fn spec_matches(&self, r: RequestModel) -> bool {
        match self {
            Matcher::Any(m) => m.spec_matches(r),
            Matcher::Method(m) => m.spec_matches(r),
            Matcher::PathExact(m) => m.spec_matches(r),
            Matcher::PathRegex(m) => m.spec_matches(r),
            Matcher::HeaderExact(m) => m.spec_matches(r),
            Matcher::HeaderExists(m) => m.spec_matches(r),
            Matcher::HeaderRegex(m) => m.spec_matches(r),
            Matcher::HeaderContains(m) => m.spec_matches(r),
            Matcher::QueryExact(m) => m.spec_matches(r),
            Matcher::QueryCase(m) => m.spec_matches(r),
            Matcher::QueryContains(m) => m.spec_matches(r),
            Matcher::QueryRegex(m) => m.spec_matches(r),
            Matcher::QueryExists(m) => m.spec_matches(r),
            Matcher::QueryMissing(m) => m.spec_matches(r),
            Matcher::BodyExact(m) => m.spec_matches(r),
            Matcher::BodyContains(m) => m.spec_matches(r),
            Matcher::BodyPartialJson(m) => m.spec_matches(r),
            Matcher::BasicAuth(m) => m.spec_matches(r),
            Matcher::BearerToken(m) => m.spec_matches(r),
        }
    }

    fn matches(&self, request: &Request) -> (b: bool) {
        match self {
            Matcher::Any(m) => m.matches(request),
            Matcher::Method(m) => m.matches(request),
            Matcher::PathExact(m) => m.matches(request),
            Matcher::PathRegex(m) => m.matches(request),
            Matcher::HeaderExact(m) => m.matches(request),
            Matcher::HeaderExists(m) => m.matches(request),
            Matcher::HeaderRegex(m) => m.matches(request),
            Matcher::HeaderContains(m) => m.matches(request),
            Matcher::QueryExact(m) => m.matches(request),
            Matcher::QueryCase(m) => m.matches(request),
            Matcher::QueryContains(m) => m.matches(request),
            Matcher::QueryRegex(m) => m.matches(request),
            Matcher::QueryExists(m) => m.matches(request),
            Matcher::QueryMissing(m) => m.matches(request),
            Matcher::BodyExact(m) => m.matches(request),
            Matcher::BodyContains(m) => m.matches(request),
            Matcher::BodyPartialJson(m) => m.matches(request),
            Matcher::BasicAuth(m) => m.matches(request),
            Matcher::BearerToken(m) => m.matches(request),
        }
    }
}

impl IntoMatcher for Matcher {
    fn into_matcher(self) -> (m: Matcher) {
        self
    }
}

/// A matcher for the given HTTP method token.
pub fn method(m: &str) -> (r: Result<MethodMatcher, ConfigError>)
    ensures
        r is Ok <==> method::is_token_seq(encode_utf8(m@)),
        r matches Ok(mm) ==> mm.spec_method() == m@,
        r is Err ==> r == Err::<MethodMatcher, ConfigError>(ConfigError::InvalidMethod),
{
    MethodMatcher::new(m)
}

/// A matcher that accepts every request.
pub fn any() -> AnyMatcher {
    AnyMatcher
}

/// An exact matcher for the decoded path component.
pub fn path(p: &str) -> (r: Result<PathExactMatcher, ConfigError>)
    ensures
        encode_utf8(p@).contains(63) ==> r == Err::<PathExactMatcher, ConfigError>(
            ConfigError::PathWithQuery,
        ),
        !encode_utf8(p@).contains(63) && path::url_host_of(p@) is Some ==> r == Err::<
            PathExactMatcher,
            ConfigError,
        >(ConfigError::PathWithHost),
        !encode_utf8(p@).contains(63) && path::url_host_of(p@) is None ==> (r matches Ok(m)
            && m.spec_path() == path::normalized_path(p@)),
{
    PathExactMatcher::new(p)
}

/// A regex matcher over the decoded path component.
pub fn path_regex(p: &str) -> (r: Result<PathRegexMatcher, ConfigError>)
    ensures
        r is Ok <==> pattern::regex_compiles(p@),
        r is Err ==> r == Err::<PathRegexMatcher, ConfigError>(ConfigError::InvalidRegex),
        r matches Ok(m) ==> m.spec_pattern() == p@,
{
    PathRegexMatcher::new(p)
}

/// An exact matcher for a single header value.
pub fn header(key: &str, value: &str) -> (r: Result<HeaderExactMatcher, ConfigError>)
    ensures
        r is Ok <==> method::is_token_seq(encode_utf8(key@)) && header::is_value_seq(
            encode_utf8(value@),
        ),
        r matches Ok(m) ==> m.spec_name() == key@ && m.spec_values() == seq![
            encode_utf8(value@),
        ],
{
    let vs = vec![String::from_str(value)];
    let ghost gvs = vs@;
    let r = HeaderExactMatcher::new(key, vs);
    proof {
        assert(gvs[0]@ == value@);
        if r is Ok {
            assert((r->Ok_0).spec_values() =~= seq![encode_utf8(value@)]);
        }
        assert((forall|k: int| 0 <= k < gvs.len() ==> header::is_value_seq(
            encode_utf8(#[trigger] gvs[k]@),
        )) == header::is_value_seq(encode_utf8(value@)));
    }
    r
}

/// An exact matcher for a sequence of header values.
pub fn headers(key: &str, values: Vec<String>) -> (r: Result<HeaderExactMatcher, ConfigError>)
    ensures
        r is Ok <==> method::is_token_seq(encode_utf8(key@)) && (forall|k: int|
            0 <= k < values@.len() ==> header::is_value_seq(encode_utf8(#[trigger] values@[k]@))),
        r matches Ok(m) ==> m.spec_name() == key@ && m.spec_values() == Seq::new(
            values@.len(),
            |k: int| encode_utf8(values@[k]@),
        ),
{
    HeaderExactMatcher::new(key, values)
}

/// A matcher for the presence of a header.
pub fn header_exists(key: &str) -> (r: Result<HeaderExistsMatcher, ConfigError>)
    ensures
        r is Ok <==> method::is_token_seq(encode_utf8(key@)),
        r is Err ==> r == Err::<HeaderExistsMatcher, ConfigError>(ConfigError::InvalidHeaderName),
        r matches Ok(m) ==> m.spec_name() == key@,
{
    HeaderExistsMatcher::new(key)
}

/// A matcher demanding that every value under a header matches a regex.
pub fn header_regex(key: &str, value: &str) -> (r: Result<HeaderValueRegexMatcher, ConfigError>)
    ensures
        r is Ok <==> method::is_token_seq(encode_utf8(key@)) && pattern::regex_compiles(value@),
        r matches Ok(m) ==> m.spec_name() == key@ && m.spec_pattern() == value@,
{
    HeaderValueRegexMatcher::new(key, value)
}

/// A matcher demanding that every atom under a header is one of the
/// given values.
pub fn header_contains(key: &str, values: Vec<String>) -> (r: Result<
    HeaderValueContainsMatcher,
    ConfigError,
>)
    ensures
        r is Ok <==> method::is_token_seq(encode_utf8(key@)) && (forall|k: int|
            0 <= k < values@.len() ==> header::is_value_seq(encode_utf8(#[trigger] values@[k]@))),
        r matches Ok(m) ==> m.spec_name() == key@ && m.spec_values() == Seq::new(
            values@.len(),
            |k: int| encode_utf8(values@[k]@),
        ),
{
    HeaderValueContainsMatcher::new(key, values)
}

/// A matcher for a body equal to the given text.
pub fn body_string(body: &str) -> (r: BodyExactMatcher)
    ensures
        r.spec_bytes() == Some(encode_utf8(body@)),
        r.spec_json() is None,
{
    BodyExactMatcher::string(body)
}

/// A matcher for a body equal to the given bytes.
pub fn body_bytes(body: Vec<u8>) -> (r: BodyExactMatcher)
    ensures
        r.spec_bytes() == Some(body@),
        r.spec_json() is None,
{
    BodyExactMatcher::bytes(body)
}

/// A matcher for a body parsing to exactly the JSON document the given
/// string parses to.
pub fn body_json_string(body: &str) -> (r: Result<BodyExactMatcher, ConfigError>)
    ensures
        r is Ok <==> json::json_parses(encode_utf8(body@)),
        r is Err ==> r == Err::<BodyExactMatcher, ConfigError>(ConfigError::InvalidJson),
        r matches Ok(m) ==> m.spec_json() == Some(json::json_tree_of(encode_utf8(body@)))
            && m.spec_bytes() is None,
{
    BodyExactMatcher::json_string(body)
}

/// A matcher for a UTF-8 body containing the given text.
pub fn body_string_contains(body: &str) -> (r: BodyContainsMatcher)
    ensures
        r.spec_pattern() == encode_utf8(body@),
{
    BodyContainsMatcher::string(body)
}

/// A matcher for a body that includes, under the relaxed comparison, the
/// JSON document the given string parses to.
pub fn body_partial_json_string(body: &str) -> (r: Result<BodyPartialJsonMatcher, ConfigError>)
    ensures
        r is Ok <==> json::json_parses(encode_utf8(body@)),
        r is Err ==> r == Err::<BodyPartialJsonMatcher, ConfigError>(ConfigError::InvalidJson),
        r matches Ok(m) ==> m.spec_expected() == json::json_tree_of(encode_utf8(body@)),
{
    BodyPartialJsonMatcher::json_string(body)
}

/// An exact matcher for the first query parameter with the key.
pub fn query_param(key: &str, value: &str) -> (r: QueryParamExactMatcher)
    ensures
        r.spec_key() == key@,
        r.spec_value() == value@,
{
    QueryParamExactMatcher::new(key, value)
}

/// An ASCII case-insensitive matcher for the first query parameter with
/// the key.
pub fn query_param_case_insensitive(key: &str, value: &str) -> (r:
    QueryParamCaseInsensitiveMatcher)
    ensures
        r.spec_key() == key@,
        r.spec_value() == value@,
{
    QueryParamCaseInsensitiveMatcher::new(key, value)
}

/// A regex matcher for the first query parameter with the key.
pub fn query_param_regex(key: &str, value: &str) -> (r: Result<
    QueryParamRegexMatcher,
    ConfigError,
>)
    ensures
        r is Ok <==> pattern::regex_compiles(value@),
        r is Err ==> r == Err::<QueryParamRegexMatcher, ConfigError>(ConfigError::InvalidRegex),
        r matches Ok(m) ==> m.spec_key() == key@ && m.spec_pattern() == value@,
{
    QueryParamRegexMatcher::new(key, value)
}

/// A containment matcher for the first query parameter with the key.
pub fn query_param_contains(key: &str, value: &str) -> (r: QueryParamContainsMatcher)
    ensures
        r.spec_key() == key@,
        r.spec_value() == value@,
{
    QueryParamContainsMatcher::new(key, value)
}

/// A matcher satisfied when the query parameter is absent.
pub fn query_param_is_missing(key: &str) -> (r: QueryParamMissingMatcher)
    ensures
        r.spec_key() == key@,
{
    QueryParamMissingMatcher::new(key)
}

/// A matcher satisfied when the query parameter is present.
pub fn query_param_exists(key: &str) -> (r: QueryParamExistsMatcher)
    ensures
        r.spec_key() == key@,
        r.spec_expected() == true,
{
    QueryParamExistsMatcher::does_exist(key)
}

/// A matcher for Basic authorization with the given credentials.
pub fn basic_auth(username: &str, password: &str) -> (r: Result<BasicAuthMatcher, ConfigError>)
    ensures
        r is Ok,
        r matches Ok(m) ==> m.spec_name() == "Authorization"@ && m.spec_values() == seq![
            encode_utf8(
                "Basic "@ + header::base64_of(encode_utf8(username@ + ":"@ + password@)),
            ),
        ],
{
    BasicAuthMatcher::from_credentials(username, password)
}

/// A matcher for Bearer authorization with the given token.
pub fn bearer_token(token: &str) -> (r: Result<BearerTokenMatcher, ConfigError>)
    ensures
        r is Ok <==> method::is_token_seq(encode_utf8("Authorization"@)) && header::is_value_seq(
            encode_utf8("Bearer "@ + token@),
        ),
        r matches Ok(m) ==> m.spec_name() == "Authorization"@ && m.spec_values() == seq![
            encode_utf8("Bearer "@ + token@),
        ],
{
    BearerTokenMatcher::from_token(token)
}

} // verus!
