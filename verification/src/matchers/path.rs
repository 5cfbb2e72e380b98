//! Path matchers: exact comparison of the path component, and regex
//! search over it. Exact construction rejects inputs carrying a query
//! string or a host, since those indicate confusion about what is
//! matched.

use vstd::prelude::*;
use vstd::utf8::{encode_utf8, valid_utf8};
use crate::error::ConfigError;
use crate::matchers::{IntoMatcher, Match, Matcher};
use crate::pattern::{regex_accepts, regex_compiles, regex_match_bytes, regex_new, regex_pattern};
use crate::request::{Request, RequestModel};
use crate::text::bytes_equal;

verus! {

/// The host component of the URL the string parses to, if the string is
/// an absolute URL with a host.
pub uninterp spec fn url_host_of(s: Seq<char>) -> Option<Seq<char>>;

/// Relies on url::Url::parse and url::Url::host_str: whether a string
/// parses as an absolute URL with a host, and which host, depend on the
/// string alone.
#[verifier::external_body]
fn parse_url_host(s: &str) -> (r: Option<String>)
    ensures
        r is Some <==> url_host_of(s@) is Some,
        r matches Some(h) ==> url_host_of(s@) == Some(h@),
{
    url::Url::parse(s).ok().and_then(|u| u.host_str().map(|h| h.to_string()))
}

/// Whether a byte slice holds the given byte.
fn contains_byte(s: &[u8], b: u8) -> (r: bool)
    ensures
        r == s@.contains(b),
{
    let n = s.len();
    let mut i: usize = 0;
    while i < n
        invariant
            i <= n,
            n == s@.len(),
            forall|k: int| 0 <= k < i ==> s@[k] != b,
        decreases n - i,
    {
        if s[i] == b {
            assert(s@[i as int] == b);
            return true;
        }
        i += 1;
    }
    proof {
        if s@.contains(b) {
            let k = choose|k: int| 0 <= k < s@.len() && s@[k] == b;
            assert(s@[k] != b);
        }
    }
    false
}

/// A path as the exact matcher stores it: the given string, with a
/// leading slash supplied when missing.
pub open spec fn normalized_path(p: Seq<char>) -> Seq<char> {
    if p.len() > 0 && p[0] == '/' {
        p
    } else {
        seq!['/'] + p
    }
}

/// Matches requests whose decoded path equals the stored path exactly.
#[derive(Debug)]
pub struct PathExactMatcher {
    path: String,
}

impl PathExactMatcher {
    /// The stored path, always starting with a slash.
    pub closed spec fn spec_path(&self) -> Seq<char> {
        self.path@
    }

    /// Builds the matcher. A string containing a query separator or
    /// parsing as a URL with a host is rejected as a configuration
    /// error; a missing leading slash is supplied.
    pub fn new(path: &str) -> (r: Result<Self, ConfigError>)
        ensures
            encode_utf8(path@).contains(63) ==> r == Err::<Self, ConfigError>(
                ConfigError::PathWithQuery,
            ),
            !encode_utf8(path@).contains(63) && url_host_of(path@) is Some ==> r == Err::<
                Self,
                ConfigError,
            >(ConfigError::PathWithHost),
            !encode_utf8(path@).contains(63) && url_host_of(path@) is None ==> (r matches Ok(m)
                && m.spec_path() == normalized_path(path@)),
    {
        if contains_byte(path.as_bytes(), 63) {
            return Err(ConfigError::PathWithQuery);
        }
        if let Some(_) = parse_url_host(path) {
            return Err(ConfigError::PathWithHost);
        }
        let starts_with_slash = path.unicode_len() > 0 && path.get_char(0) == '/';
        if starts_with_slash {
            Ok(PathExactMatcher { path: String::from_str(path) })
        } else {
            let p = String::from_str("/").concat(path);
            proof {
                reveal_strlit("/");
                assert(p@ =~= seq!['/'] + path@);
            }
            Ok(PathExactMatcher { path: p })
        }
    }
}

impl Match for PathExactMatcher {
    open spec fn spec_matches(&self, r: RequestModel) -> bool {
        r.path == encode_utf8(self.spec_path())
    }

    fn matches(&self, request: &Request) -> (b: bool) {
        bytes_equal(request.path.as_str().as_bytes(), self.path.as_str().as_bytes())
    }
}

impl IntoMatcher for PathExactMatcher {
    fn into_matcher(self) -> (m: Matcher) {
        Matcher::PathExact(self)
    }
}

/// Matches requests whose decoded path the regex matches somewhere.
#[derive(Debug)]
pub struct PathRegexMatcher {
    regex: regex::Regex,
}

impl PathRegexMatcher {
    /// The pattern source the matcher was built from.
    pub closed spec fn spec_pattern(&self) -> Seq<char> {
        regex_pattern(self.regex)
    }

    /// Builds the matcher, rejecting a pattern that does not compile.
    pub fn new(path: &str) -> (r: Result<Self, ConfigError>)
        ensures
            r is Ok <==> regex_compiles(path@),
            r is Err ==> r == Err::<Self, ConfigError>(ConfigError::InvalidRegex),
            r matches Ok(m) ==> m.spec_pattern() == path@,
    {
        match regex_new(path) {
            Some(re) => Ok(PathRegexMatcher { regex: re }),
            None => Err(ConfigError::InvalidRegex),
        }
    }
}

impl Match for PathRegexMatcher {
    open spec fn spec_matches(&self, r: RequestModel) -> bool {
        valid_utf8(r.path) && regex_accepts(self.spec_pattern(), r.path)
    }

    fn matches(&self, request: &Request) -> (b: bool) {
        regex_match_bytes(&self.regex, request.path.as_str().as_bytes())
    }
}

impl IntoMatcher for PathRegexMatcher {
    fn into_matcher(self) -> (m: Matcher) {
        Matcher::PathRegex(self)
    }
}

} // verus!
