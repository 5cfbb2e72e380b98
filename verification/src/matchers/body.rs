//! Body matchers: exact byte or JSON equality, UTF-8 substring
//! containment, and partial JSON matching through the relaxed comparator.
//! A body the matcher cannot interpret fails closed: it does not match.

use vstd::prelude::*;
use vstd::utf8::{encode_utf8, valid_utf8};
use crate::error::ConfigError;
use crate::json::{
    json_eq, json_parses, json_tree_of, parse_json, relaxed_eq, relaxed_equals, JsonTree,
    JsonValue,
};
use crate::matchers::{IntoMatcher, Match, Matcher};
use crate::request::{Request, RequestModel};
use crate::text::{bytes_contains, bytes_equal, contains_seq};

verus! {

/// Relies on std's str::from_utf8: it accepts exactly the UTF-8 byte
/// sequences.
#[verifier::external_body]
fn utf8_check(bytes: &[u8]) -> (r: bool)
    ensures
        r == valid_utf8(bytes@),
{
    core::str::from_utf8(bytes).is_ok()
}

/// What an exact body matcher compares against: raw bytes, or a JSON
/// document.
#[derive(Debug)]
enum Body {
    Bytes(Vec<u8>),
    Json(JsonValue),
}

/// Matches when the request body equals the expected bytes, or parses to
/// exactly the expected JSON document.
#[derive(Debug)]
pub struct BodyExactMatcher {
    body: Body,
}

impl BodyExactMatcher {
    /// The expected bytes, when comparing bytes.
    pub closed spec fn spec_bytes(&self) -> Option<Seq<u8>> {
        match self.body {
            Body::Bytes(b) => Some(b@),
            Body::Json(_) => None,
        }
    }

    /// The expected document, when comparing JSON.
    pub closed spec fn spec_json(&self) -> Option<JsonTree> {
        match self.body {
            Body::Bytes(_) => None,
            Body::Json(j) => Some(j@),
        }
    }

    /// Expects the body to equal the string's bytes.
    pub fn string(body: &str) -> (r: Self)
        ensures
            r.spec_bytes() == Some(encode_utf8(body@)),
            r.spec_json() is None,
    {
        BodyExactMatcher { body: Body::Bytes(body.as_bytes_vec()) }
    }

    /// Expects the body to equal the given bytes.
    pub fn bytes(body: Vec<u8>) -> (r: Self)
        ensures
            r.spec_bytes() == Some(body@),
            r.spec_json() is None,
    {
        BodyExactMatcher { body: Body::Bytes(body) }
    }

    /// Expects the body to parse to exactly the given document.
    pub fn json_value(body: JsonValue) -> (r: Self)
        ensures
            r.spec_json() == Some(body@),
            r.spec_bytes() is None,
    {
        BodyExactMatcher { body: Body::Json(body) }
    }

    /// Expects the body to parse to exactly the document the given
    /// string parses to; a string that is not JSON is a configuration
    /// error.
    pub fn json_string(body: &str) -> (r: Result<Self, ConfigError>)
        ensures
            r is Ok <==> json_parses(encode_utf8(body@)),
            r is Err ==> r == Err::<Self, ConfigError>(ConfigError::InvalidJson),
            r matches Ok(m) ==> m.spec_json() == Some(json_tree_of(encode_utf8(body@)))
                && m.spec_bytes() is None,
    {
        match parse_json(body.as_bytes()) {
            Some(v) => Ok(BodyExactMatcher { body: Body::Json(v) }),
            None => Err(ConfigError::InvalidJson),
        }
    }
}

impl Match for BodyExactMatcher {
    open spec fn spec_matches(&self, r: RequestModel) -> bool {
        match self.spec_bytes() {
            Some(b) => r.body == b,
            None => json_parses(r.body) && self.spec_json() == Some(json_tree_of(r.body)),
        }
    }

    fn matches(&self, request: &Request) -> (b: bool) {
        match &self.body {
            Body::Bytes(expected) => bytes_equal(request.body.as_slice(), expected.as_slice()),
            Body::Json(expected) => match parse_json(request.body.as_slice()) {
                Some(v) => json_eq(&v, expected),
                None => false,
            },
        }
    }
}

impl IntoMatcher for BodyExactMatcher {
    fn into_matcher(self) -> (m: Matcher) {
        Matcher::BodyExact(self)
    }
}

/// Matches when the body is UTF-8 and contains the expected text.
#[derive(Debug)]
pub struct BodyContainsMatcher {
    pattern: String,
}

impl BodyContainsMatcher {
    /// The text the body must contain, as its bytes.
    pub closed spec fn spec_pattern(&self) -> Seq<u8> {
        encode_utf8(self.pattern@)
    }

    /// Expects the body to contain the given text.
    pub fn string(body: &str) -> (r: Self)
        ensures
            r.spec_pattern() == encode_utf8(body@),
    {
        BodyContainsMatcher { pattern: String::from_str(body) }
    }
}

impl Match for BodyContainsMatcher {
    open spec fn spec_matches(&self, r: RequestModel) -> bool {
        valid_utf8(r.body) && contains_seq(r.body, self.spec_pattern())
    }

    fn matches(&self, request: &Request) -> (b: bool) {
        utf8_check(request.body.as_slice()) && bytes_contains(
            request.body.as_slice(),
            self.pattern.as_str().as_bytes(),
        )
    }
}

impl IntoMatcher for BodyContainsMatcher {
    fn into_matcher(self) -> (m: Matcher) {
        Matcher::BodyContains(self)
    }
}

/// Matches when the body parses to a JSON document the expected document
/// is relaxed-equal to: the expected document is the pattern side.
#[derive(Debug)]
pub struct BodyPartialJsonMatcher {
    expected: JsonValue,
}

impl BodyPartialJsonMatcher {
    /// The pattern document.
    pub closed spec fn spec_expected(&self) -> JsonTree {
        self.expected@
    }

    /// Expects the body to include the given document.
    pub fn json_value(body: JsonValue) -> (r: Self)
        ensures
            r.spec_expected() == body@,
    {
        BodyPartialJsonMatcher { expected: body }
    }

    /// Expects the body to include the document the given string parses
    /// to; a string that is not JSON is a configuration error.
    pub fn json_string(body: &str) -> (r: Result<Self, ConfigError>)
        ensures
            r is Ok <==> json_parses(encode_utf8(body@)),
            r is Err ==> r == Err::<Self, ConfigError>(ConfigError::InvalidJson),
            r matches Ok(m) ==> m.spec_expected() == json_tree_of(encode_utf8(body@)),
    {
        match parse_json(body.as_bytes()) {
            Some(v) => Ok(BodyPartialJsonMatcher { expected: v }),
            None => Err(ConfigError::InvalidJson),
        }
    }
}

impl Match for BodyPartialJsonMatcher {
    open spec fn spec_matches(&self, r: RequestModel) -> bool {
        json_parses(r.body) && relaxed_eq(self.spec_expected(), json_tree_of(r.body))
    }

    fn matches(&self, request: &Request) -> (b: bool) {
        match parse_json(request.body.as_slice()) {
            Some(v) => relaxed_equals(&self.expected, &v),
            None => false,
        }
    }
}

impl IntoMatcher for BodyPartialJsonMatcher {
    fn into_matcher(self) -> (m: Matcher) {
        Matcher::BodyPartialJson(self)
    }
}

} // verus!
