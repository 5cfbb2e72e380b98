//! The method matcher: exact, case-sensitive comparison of the HTTP
//! method token.

use vstd::prelude::*;
use vstd::utf8::encode_utf8;
use crate::error::ConfigError;
use crate::matchers::{IntoMatcher, Match, Matcher};
use crate::request::{Request, RequestModel};
use crate::text::bytes_equal;

verus! {

/// Whether a byte may appear in an HTTP token (method or header name).
pub open spec fn is_token_byte(b: u8) -> bool {
    ||| 48 <= b <= 57  // 0-9
    ||| 65 <= b <= 90  // A-Z
    ||| 97 <= b <= 122  // a-z
    ||| b == 33  // !
    ||| 35 <= b <= 39  // # $ % & '
    ||| b == 42 || b == 43 || b == 45 || b == 46  // * + - .
    ||| 94 <= b <= 96  // ^ _ `
    ||| b == 124 || b == 126  // | ~
}

/// Whether a byte sequence is a non-empty HTTP token.
pub open spec fn is_token_seq(s: Seq<u8>) -> bool {
    s.len() > 0 && forall|i: int| 0 <= i < s.len() ==> is_token_byte(#[trigger] s[i])
}

/// Whether one byte may appear in a token.
#[verifier::when_used_as_spec(is_token_byte)]
pub fn token_byte(b: u8) -> (r: bool)
    ensures
        r == is_token_byte(b),
{
    (48 <= b && b <= 57) || (65 <= b && b <= 90) || (97 <= b && b <= 122) || b == 33
        || (35 <= b && b <= 39) || b == 42 || b == 43 || b == 45 || b == 46
        || (94 <= b && b <= 96) || b == 124 || b == 126
}

/// Decides whether a string is a non-empty HTTP token.
pub fn check_token(s: &str) -> (r: bool)
    ensures
        r == is_token_seq(encode_utf8(s@)),
{
    let b = s.as_bytes();
    if b.len() == 0 {
        return false;
    }
    let n = b.len();
    let mut i: usize = 0;
    while i < n
        invariant
            i <= n,
            n == b@.len(),
            b@ == encode_utf8(s@),
            forall|k: int| 0 <= k < i ==> is_token_byte(#[trigger] b@[k]),
        decreases n - i,
    {
        if !token_byte(b[i]) {
            return false;
        }
        i += 1;
    }
    true
}

/// Matches requests whose method equals the given token exactly.
#[derive(Debug)]
pub struct MethodMatcher {
    method: String,
}

impl MethodMatcher {
    /// The token being compared against.
    pub closed spec fn spec_method(&self) -> Seq<char> {
        self.method@
    }

    /// Builds the matcher, rejecting anything but a legal method token.
    pub fn new(method: &str) -> (r: Result<Self, ConfigError>)
        ensures
            r is Ok <==> is_token_seq(encode_utf8(method@)),
            r is Err ==> r == Err::<Self, ConfigError>(ConfigError::InvalidMethod),
            r matches Ok(m) ==> m.spec_method() == method@,
    {
        if check_token(method) {
            Ok(MethodMatcher { method: String::from_str(method) })
        } else {
            Err(ConfigError::InvalidMethod)
        }
    }
}

impl Match for MethodMatcher {
    open spec fn spec_matches(&self, r: RequestModel) -> bool {
        r.method == encode_utf8(self.spec_method())
    }

    fn matches(&self, request: &Request) -> (b: bool) {
        bytes_equal(request.method.as_str().as_bytes(), self.method.as_str().as_bytes())
    }
}

impl IntoMatcher for MethodMatcher {
    fn into_matcher(self) -> (m: Matcher) {
        Matcher::Method(self)
    }
}

} // verus!
