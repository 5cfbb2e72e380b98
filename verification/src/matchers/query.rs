//! Query-parameter matchers, each keyed by parameter name. The first
//! query pair carrying the name decides the outcome for the value-based
//! matchers; the existence matchers only ask whether the name occurs.

use vstd::prelude::*;
use vstd::utf8::{encode_utf8, valid_utf8};
use crate::error::ConfigError;
use crate::matchers::{IntoMatcher, Match, Matcher};
use crate::pattern::{regex_accepts, regex_compiles, regex_match_bytes, regex_new, regex_pattern};
use crate::request::{Request, RequestModel};
use crate::text::{bytes_contains, bytes_equal, bytes_iequal, contains_seq, lower_seq};

verus! {

/// The value of the first query pair with the given key, if any.
pub open spec fn first_query_value(q: Seq<(Seq<u8>, Seq<u8>)>, key: Seq<u8>) -> Option<Seq<u8>>
    decreases q.len(),
{
    if q.len() == 0 {
        None
    } else if q[0].0 == key {
        Some(q[0].1)
    } else {
        first_query_value(q.subrange(1, q.len() as int), key)
    }
}

/// Finds the value of the first query pair with the given key.
#[verifier::loop_isolation(false)]
fn find_query_value<'a>(request: &'a Request, key: &str) -> (r: Option<&'a String>)
    ensures
        r is Some <==> first_query_value(request@.query, encode_utf8(key@)) is Some,
        r matches Some(v)
            ==> first_query_value(request@.query, encode_utf8(key@)) == Some(encode_utf8(v@)),
{
    let ghost q = request@.query;
    let ghost kb = encode_utf8(key@);
    let n = request.query.len();
    let mut i: usize = 0;
    proof {
        assert(q.subrange(0, q.len() as int) =~= q);
    }
    while i < n
        invariant
            i <= n,
            n == q.len(),
            first_query_value(q, kb) == first_query_value(q.subrange(i as int, q.len() as int), kb),
        decreases n - i,
    {
        let ghost rest = q.subrange(i as int, q.len() as int);
        proof {
            assert(rest[0] == q[i as int]);
            assert(rest.subrange(1, rest.len() as int) =~= q.subrange(i + 1, q.len() as int));
        }
        if bytes_equal(request.query[i].key.as_str().as_bytes(), key.as_bytes()) {
            return Some(&request.query[i].value);
        }
        i += 1;
    }
    None
}

/// Matches when the first query pair with the key has exactly the given
/// value.
#[derive(Debug)]
pub struct QueryParamExactMatcher {
    key: String,
    value: String,
}

impl QueryParamExactMatcher {
    /// The parameter name.
    pub closed spec fn spec_key(&self) -> Seq<char> {
        self.key@
    }

    /// The expected value.
    pub closed spec fn spec_value(&self) -> Seq<char> {
        self.value@
    }

    /// Builds the matcher; any key and value are acceptable.
    pub fn new(key: &str, value: &str) -> (r: Self)
        ensures
            r.spec_key() == key@,
            r.spec_value() == value@,
    {
        QueryParamExactMatcher { key: String::from_str(key), value: String::from_str(value) }
    }
}

impl Match for QueryParamExactMatcher {
    open spec fn spec_matches(&self, r: RequestModel) -> bool {
        first_query_value(r.query, encode_utf8(self.spec_key()))
            == Some(encode_utf8(self.spec_value()))
    }

    fn matches(&self, request: &Request) -> (b: bool) {
        match find_query_value(request, self.key.as_str()) {
            Some(v) => bytes_equal(v.as_str().as_bytes(), self.value.as_str().as_bytes()),
            None => false,
        }
    }
}

impl IntoMatcher for QueryParamExactMatcher {
    fn into_matcher(self) -> (m: Matcher) {
        Matcher::QueryExact(self)
    }
}

/// Matches when the first query pair with the key has a value containing
/// the given text.
#[derive(Debug)]
pub struct QueryParamContainsMatcher {
    key: String,
    value: String,
}

impl QueryParamContainsMatcher {
    /// The parameter name.
    pub closed spec fn spec_key(&self) -> Seq<char> {
        self.key@
    }

    /// The text the value must contain.
    pub closed spec fn spec_value(&self) -> Seq<char> {
        self.value@
    }

    /// Builds the matcher; any key and value are acceptable.
    pub fn new(key: &str, value: &str) -> (r: Self)
        ensures
            r.spec_key() == key@,
            r.spec_value() == value@,
    {
        QueryParamContainsMatcher { key: String::from_str(key), value: String::from_str(value) }
    }
}

impl Match for QueryParamContainsMatcher {
    open spec fn spec_matches(&self, r: RequestModel) -> bool {
        match first_query_value(r.query, encode_utf8(self.spec_key())) {
            Some(v) => contains_seq(v, encode_utf8(self.spec_value())),
            None => false,
        }
    }

    fn matches(&self, request: &Request) -> (b: bool) {
        match find_query_value(request, self.key.as_str()) {
            Some(v) => bytes_contains(v.as_str().as_bytes(), self.value.as_str().as_bytes()),
            None => false,
        }
    }
}

impl IntoMatcher for QueryParamContainsMatcher {
    fn into_matcher(self) -> (m: Matcher) {
        Matcher::QueryContains(self)
    }
}

/// Matches when the first query pair with the key equals the given value
/// up to ASCII case.
#[derive(Debug)]
pub struct QueryParamCaseInsensitiveMatcher {
    key: String,
    value: String,
}

impl QueryParamCaseInsensitiveMatcher {
    /// The parameter name.
    pub closed spec fn spec_key(&self) -> Seq<char> {
        self.key@
    }

    /// The expected value, compared ASCII case-insensitively.
    pub closed spec fn spec_value(&self) -> Seq<char> {
        self.value@
    }

    /// Builds the matcher; any key and value are acceptable.
    pub fn new(key: &str, value: &str) -> (r: Self)
        ensures
            r.spec_key() == key@,
            r.spec_value() == value@,
    {
        QueryParamCaseInsensitiveMatcher {
            key: String::from_str(key),
            value: String::from_str(value),
        }
    }
}

impl Match for QueryParamCaseInsensitiveMatcher {
    open spec fn spec_matches(&self, r: RequestModel) -> bool {
        match first_query_value(r.query, encode_utf8(self.spec_key())) {
            Some(v) => lower_seq(v) == lower_seq(encode_utf8(self.spec_value())),
            None => false,
        }
    }

    fn matches(&self, request: &Request) -> (b: bool) {
        match find_query_value(request, self.key.as_str()) {
            Some(v) => bytes_iequal(v.as_str().as_bytes(), self.value.as_str().as_bytes()),
            None => false,
        }
    }
}

impl IntoMatcher for QueryParamCaseInsensitiveMatcher {
    fn into_matcher(self) -> (m: Matcher) {
        Matcher::QueryCase(self)
    }
}

/// Matches when the first query pair with the key has a value the regex
/// matches.
#[derive(Debug)]
pub struct QueryParamRegexMatcher {
    key: String,
    regex: regex::Regex,
}

impl QueryParamRegexMatcher {
    /// The parameter name.
    pub closed spec fn spec_key(&self) -> Seq<char> {
        self.key@
    }

    /// The pattern source the matcher was built from.
    pub closed spec fn spec_pattern(&self) -> Seq<char> {
        regex_pattern(self.regex)
    }

    /// Builds the matcher, rejecting a pattern that does not compile.
    pub fn new(key: &str, value: &str) -> (r: Result<Self, ConfigError>)
        ensures
            r is Ok <==> regex_compiles(value@),
            r is Err ==> r == Err::<Self, ConfigError>(ConfigError::InvalidRegex),
            r matches Ok(m) ==> m.spec_key() == key@ && m.spec_pattern() == value@,
    {
        match regex_new(value) {
            Some(re) => Ok(QueryParamRegexMatcher { key: String::from_str(key), regex: re }),
            None => Err(ConfigError::InvalidRegex),
        }
    }
}

impl Match for QueryParamRegexMatcher {
    open spec fn spec_matches(&self, r: RequestModel) -> bool {
        match first_query_value(r.query, encode_utf8(self.spec_key())) {
            Some(v) => valid_utf8(v) && regex_accepts(self.spec_pattern(), v),
            None => false,
        }
    }

    fn matches(&self, request: &Request) -> (b: bool) {
        match find_query_value(request, self.key.as_str()) {
            Some(v) => regex_match_bytes(&self.regex, v.as_str().as_bytes()),
            None => false,
        }
    }
}

impl IntoMatcher for QueryParamRegexMatcher {
    fn into_matcher(self) -> (m: Matcher) {
        Matcher::QueryRegex(self)
    }
}

/// Matches when the key's presence among the query parameters equals the
/// expected polarity.
#[derive(Debug)]
pub struct QueryParamExistsMatcher {
    key: String,
    expected: bool,
}

impl QueryParamExistsMatcher {
    /// The parameter name.
    pub closed spec fn spec_key(&self) -> Seq<char> {
        self.key@
    }

    /// The expected polarity: `true` demands presence, `false` absence.
    pub closed spec fn spec_expected(&self) -> bool {
        self.expected
    }

    /// A matcher satisfied when the parameter is absent.
    pub fn does_not_exist(key: &str) -> (r: Self)
        ensures
            r.spec_key() == key@,
            r.spec_expected() == false,
    {
        QueryParamExistsMatcher { key: String::from_str(key), expected: false }
    }

    /// A matcher satisfied when the parameter is present.
    pub fn does_exist(key: &str) -> (r: Self)
        ensures
            r.spec_key() == key@,
            r.spec_expected() == true,
    {
        QueryParamExistsMatcher { key: String::from_str(key), expected: true }
    }
}

impl Match for QueryParamExistsMatcher {
    open spec fn spec_matches(&self, r: RequestModel) -> bool {
        (first_query_value(r.query, encode_utf8(self.spec_key())) is Some) == self.spec_expected()
    }

    fn matches(&self, request: &Request) -> (b: bool) {
        let exists = match find_query_value(request, self.key.as_str()) {
            Some(_) => true,
            None => false,
        };
        exists == self.expected
    }
}

impl IntoMatcher for QueryParamExistsMatcher {
    fn into_matcher(self) -> (m: Matcher) {
        Matcher::QueryExists(self)
    }
}

/// Matches when no query pair carries the key.
#[derive(Debug)]
pub struct QueryParamMissingMatcher {
    key: String,
}

impl QueryParamMissingMatcher {
    /// The parameter name.
    pub closed spec fn spec_key(&self) -> Seq<char> {
        self.key@
    }

    /// Builds the matcher; any key is acceptable.
    pub fn new(key: &str) -> (r: Self)
        ensures
            r.spec_key() == key@,
    {
        QueryParamMissingMatcher { key: String::from_str(key) }
    }
}

impl Match for QueryParamMissingMatcher {
    open spec fn spec_matches(&self, r: RequestModel) -> bool {
        first_query_value(r.query, encode_utf8(self.spec_key())) is None
    }

    fn matches(&self, request: &Request) -> (b: bool) {
        match find_query_value(request, self.key.as_str()) {
            Some(_) => false,
            None => true,
        }
    }
}

impl IntoMatcher for QueryParamMissingMatcher {
    fn into_matcher(self) -> (m: Matcher) {
        Matcher::QueryMissing(self)
    }
}

} // verus!
