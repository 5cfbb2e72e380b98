//! Header matchers. Header names compare ASCII case-insensitively; the
//! exact and contains matchers first normalize each value under the name
//! by splitting it at commas and trimming each piece.

use vstd::prelude::*;
use vstd::utf8::{encode_utf8, is_ascii_chars, is_ascii_chars_encode_utf8, valid_utf8};
use crate::error::ConfigError;
use crate::matchers::method::{check_token, is_token_byte, is_token_seq};
use crate::matchers::{IntoMatcher, Match, Matcher};
use crate::pattern::{regex_accepts, regex_compiles, regex_match_bytes, regex_new, regex_pattern};
use crate::request::{Request, RequestModel};
use crate::text::{atoms_of, byte_views, bytes_equal, bytes_iequal, lower_seq, split_atoms};

verus! {

/// Whether two header names are the same, ASCII case-insensitively.
pub open spec fn name_matches(a: Seq<u8>, b: Seq<u8>) -> bool {
    lower_seq(a) == lower_seq(b)
}

/// Whether a byte may appear in a header value: anything but control
/// bytes, except horizontal tab.
pub open spec fn is_value_byte(b: u8) -> bool {
    b == 9 || (b >= 32 && b != 127)
}

/// Whether a byte sequence is a legal header value.
pub open spec fn is_value_seq(s: Seq<u8>) -> bool {
    forall|i: int| 0 <= i < s.len() ==> is_value_byte(#[trigger] s[i])
}

/// Decides whether a string is a legal header value.
pub fn check_value(s: &str) -> (r: bool)
    ensures
        r == is_value_seq(encode_utf8(s@)),
{
    let b = s.as_bytes();
    let n = b.len();
    let mut i: usize = 0;
    while i < n
        invariant
            i <= n,
            n == b@.len(),
            b@ == encode_utf8(s@),
            forall|k: int| 0 <= k < i ==> is_value_byte(#[trigger] b@[k]),
        decreases n - i,
    {
        let x = b[i];
        if !(x == 9 || (x >= 32 && x != 127)) {
            return false;
        }
        i += 1;
    }
    true
}

/// All comma-split, trimmed atoms of the values under the given name, in
/// header order.
pub open spec fn header_atoms(headers: Seq<(Seq<u8>, Seq<u8>)>, name: Seq<u8>) -> Seq<Seq<u8>>
    decreases headers.len(),
{
    if headers.len() == 0 {
        Seq::empty()
    } else {
        (if name_matches(headers[0].0, name) {
            atoms_of(headers[0].1)
        } else {
            Seq::empty()
        }) + header_atoms(headers.subrange(1, headers.len() as int), name)
    }
}

/// Whether some header carries the given name.
pub open spec fn has_header(headers: Seq<(Seq<u8>, Seq<u8>)>, name: Seq<u8>) -> bool
    decreases headers.len(),
{
    headers.len() > 0 && (name_matches(headers[0].0, name) || has_header(
        headers.subrange(1, headers.len() as int),
        name,
    ))
}

/// Whether every value under the given name is UTF-8 the pattern
/// matches.
pub open spec fn header_values_accept(
    headers: Seq<(Seq<u8>, Seq<u8>)>,
    name: Seq<u8>,
    pattern: Seq<char>,
) -> bool
    decreases headers.len(),
{
    headers.len() == 0 || {
        &&& (!name_matches(headers[0].0, name) || (valid_utf8(headers[0].1) && regex_accepts(
            pattern,
            headers[0].1,
        )))
        &&& header_values_accept(headers.subrange(1, headers.len() as int), name, pattern)
    }
}

/// Whether `x` is one of the byte strings in `xs`.
pub open spec fn seq_member(xs: Seq<Seq<u8>>, x: Seq<u8>) -> bool
    decreases xs.len(),
{
    xs.len() > 0 && (xs[0] == x || seq_member(xs.subrange(1, xs.len() as int), x))
}

/// Whether every byte string of `xs` is a member of `allowed`.
pub open spec fn all_members(xs: Seq<Seq<u8>>, allowed: Seq<Seq<u8>>) -> bool
    decreases xs.len(),
{
    xs.len() == 0 || (seq_member(allowed, xs[0]) && all_members(
        xs.subrange(1, xs.len() as int),
        allowed,
    ))
}

/// Collects the atoms of every value under the given name.
#[verifier::loop_isolation(false)]
fn gather_atoms(request: &Request, name: &str) -> (r: Vec<Vec<u8>>)
    ensures
        byte_views(r@) == header_atoms(request@.headers, encode_utf8(name@)),
{
    let ghost hs = request@.headers;
    let ghost nb = encode_utf8(name@);
    let n = request.headers.len();
    let mut r: Vec<Vec<u8>> = Vec::new();
    let mut i: usize = 0;
    proof {
        assert(hs.subrange(0, hs.len() as int) =~= hs);
        assert(byte_views(r@) =~= Seq::<Seq<u8>>::empty());
        assert(byte_views(r@) + header_atoms(hs, nb) =~= header_atoms(hs, nb));
    }
    while i < n
        invariant
            i <= n,
            n == hs.len(),
            byte_views(r@) + header_atoms(hs.subrange(i as int, hs.len() as int), nb)
                == header_atoms(hs, nb),
        decreases n - i,
    {
        let ghost rest = hs.subrange(i as int, hs.len() as int);
        proof {
            assert(rest[0] == hs[i as int]);
            assert(rest.subrange(1, rest.len() as int) =~= hs.subrange(i + 1, hs.len() as int));
        }
        if bytes_iequal(request.headers[i].name.as_str().as_bytes(), name.as_bytes()) {
            let mut pieces = split_atoms(request.headers[i].value.as_slice());
            let ghost prev = r@;
            let ghost got = pieces@;
            r.append(&mut pieces);
            proof {
                assert(byte_views(r@) =~= byte_views(prev) + byte_views(got));
                assert(byte_views(r@) + header_atoms(hs.subrange(i + 1, hs.len() as int), nb)
                    =~= byte_views(prev) + header_atoms(rest, nb));
            }
        } else {
            proof {
                assert(header_atoms(rest, nb) == header_atoms(
                    hs.subrange(i + 1, hs.len() as int),
                    nb,
                ));
            }
        }
        i += 1;
    }
    proof {
        assert(hs.subrange(n as int, hs.len() as int).len() == 0);
        assert(byte_views(r@) =~= header_atoms(hs, nb));
    }
    r
}

/// Decides whether some header carries the name.
#[verifier::loop_isolation(false)]
fn find_header(request: &Request, name: &str) -> (r: bool)
    ensures
        r == has_header(request@.headers, encode_utf8(name@)),
{
    let ghost hs = request@.headers;
    let ghost nb = encode_utf8(name@);
    let n = request.headers.len();
    let mut i: usize = 0;
    proof {
        assert(hs.subrange(0, hs.len() as int) =~= hs);
    }
    while i < n
        invariant
            i <= n,
            n == hs.len(),
            has_header(hs, nb) == has_header(hs.subrange(i as int, hs.len() as int), nb),
        decreases n - i,
    {
        let ghost rest = hs.subrange(i as int, hs.len() as int);
        proof {
            assert(rest[0] == hs[i as int]);
            assert(rest.subrange(1, rest.len() as int) =~= hs.subrange(i + 1, hs.len() as int));
        }
        if bytes_iequal(request.headers[i].name.as_str().as_bytes(), name.as_bytes()) {
            return true;
        }
        i += 1;
    }
    proof {
        assert(hs.subrange(n as int, hs.len() as int).len() == 0);
    }
    false
}

/// Matches when the atoms of the values under the name equal the
/// expected sequence of values, in order.
#[derive(Debug)]
pub struct HeaderExactMatcher {
    name: String,
    values: Vec<Vec<u8>>,
}

impl HeaderExactMatcher {
    /// The header name.
    pub closed spec fn spec_name(&self) -> Seq<char> {
        self.name@
    }

    /// The expected atoms, each as its bytes.
    pub closed spec fn spec_values(&self) -> Seq<Seq<u8>> {
        byte_views(self.values@)
    }

    /// Builds the matcher, rejecting an illegal header name or value.
    #[verifier::loop_isolation(false)]
    pub fn new(key: &str, values: Vec<String>) -> (r: Result<Self, ConfigError>)
        ensures
            r is Ok <==> is_token_seq(encode_utf8(key@)) && (forall|k: int|
                0 <= k < values@.len() ==> is_value_seq(encode_utf8(#[trigger] values@[k]@))),
            !is_token_seq(encode_utf8(key@)) ==> r == Err::<Self, ConfigError>(
                ConfigError::InvalidHeaderName,
            ),
            is_token_seq(encode_utf8(key@)) && r is Err ==> r == Err::<Self, ConfigError>(
                ConfigError::InvalidHeaderValue,
            ),
            r matches Ok(m) ==> m.spec_name() == key@ && m.spec_values() == Seq::new(
                values@.len(),
                |k: int| encode_utf8(values@[k]@),
            ),
    {
        if !check_token(key) {
            return Err(ConfigError::InvalidHeaderName);
        }
        let n = values.len();
        let mut stored: Vec<Vec<u8>> = Vec::new();
        let mut i: usize = 0;
        while i < n
            invariant
                i <= n,
                n == values@.len(),
                stored@.len() == i,
                forall|k: int| 0 <= k < i ==> is_value_seq(encode_utf8(#[trigger] values@[k]@)),
                forall|k: int| 0 <= k < i ==> #[trigger] stored@[k]@ == encode_utf8(values@[k]@),
            decreases n - i,
        {
            if !check_value(values[i].as_str()) {
                return Err(ConfigError::InvalidHeaderValue);
            }
            stored.push(values[i].as_str().as_bytes_vec());
            i += 1;
        }
        let m = HeaderExactMatcher { name: String::from_str(key), values: stored };
        proof {
            assert(m.spec_values() =~= Seq::new(values@.len(), |k: int| encode_utf8(values@[k]@)));
        }
        Ok(m)
    }
}

impl Match for HeaderExactMatcher {
    open spec fn spec_matches(&self, r: RequestModel) -> bool {
        header_atoms(r.headers, encode_utf8(self.spec_name())) == self.spec_values()
    }

    fn matches(&self, request: &Request) -> (b: bool) {
        let atoms = gather_atoms(request, self.name.as_str());
        if atoms.len() != self.values.len() {
            proof {
                assert(byte_views(atoms@).len() == atoms@.len());
                assert(self.spec_values().len() == self.values@.len());
            }
            return false;
        }
        let n = atoms.len();
        let mut i: usize = 0;
        while i < n
            invariant
                i <= n,
                n == atoms@.len() == self.values@.len(),
                byte_views(atoms@) == header_atoms(request@.headers, encode_utf8(self.spec_name())),
                forall|k: int| 0 <= k < i ==> #[trigger] atoms@[k]@ == self.values@[k]@,
            decreases n - i,
        {
            if !bytes_equal(atoms[i].as_slice(), self.values[i].as_slice()) {
                proof {
                    assert(byte_views(atoms@)[i as int] != self.spec_values()[i as int]);
                }
                return false;
            }
            i += 1;
        }
        proof {
            assert(byte_views(atoms@) =~= self.spec_values());
        }
        true
    }
}

impl IntoMatcher for HeaderExactMatcher {
    fn into_matcher(self) -> (m: Matcher) {
        Matcher::HeaderExact(self)
    }
}

/// Matches when at least one header carries the name, whatever its
/// value.
#[derive(Debug)]
pub struct HeaderExistsMatcher {
    name: String,
}

impl HeaderExistsMatcher {
    /// The header name.
    pub closed spec fn spec_name(&self) -> Seq<char> {
        self.name@
    }

    /// Builds the matcher, rejecting an illegal header name.
    pub fn new(key: &str) -> (r: Result<Self, ConfigError>)
        ensures
            r is Ok <==> is_token_seq(encode_utf8(key@)),
            r is Err ==> r == Err::<Self, ConfigError>(ConfigError::InvalidHeaderName),
            r matches Ok(m) ==> m.spec_name() == key@,
    {
        if check_token(key) {
            Ok(HeaderExistsMatcher { name: String::from_str(key) })
        } else {
            Err(ConfigError::InvalidHeaderName)
        }
    }
}

impl Match for HeaderExistsMatcher {
    open spec fn spec_matches(&self, r: RequestModel) -> bool {
        has_header(r.headers, encode_utf8(self.spec_name()))
    }

    fn matches(&self, request: &Request) -> (b: bool) {
        find_header(request, self.name.as_str())
    }
}

impl IntoMatcher for HeaderExistsMatcher {
    fn into_matcher(self) -> (m: Matcher) {
        Matcher::HeaderExists(self)
    }
}

/// Matches when the name occurs and the regex matches every raw value
/// under it.
#[derive(Debug)]
pub struct HeaderValueRegexMatcher {
    name: String,
    regex: regex::Regex,
}

impl HeaderValueRegexMatcher {
    /// The header name.
    pub closed spec fn spec_name(&self) -> Seq<char> {
        self.name@
    }

    /// The pattern source the matcher was built from.
    pub closed spec fn spec_pattern(&self) -> Seq<char> {
        regex_pattern(self.regex)
    }

    /// Builds the matcher, rejecting an illegal header name or a pattern
    /// that does not compile.
    pub fn new(key: &str, value: &str) -> (r: Result<Self, ConfigError>)
        ensures
            r is Ok <==> is_token_seq(encode_utf8(key@)) && regex_compiles(value@),
            !is_token_seq(encode_utf8(key@)) ==> r == Err::<Self, ConfigError>(
                ConfigError::InvalidHeaderName,
            ),
            is_token_seq(encode_utf8(key@)) && !regex_compiles(value@) ==> r == Err::<
                Self,
                ConfigError,
            >(ConfigError::InvalidRegex),
            r matches Ok(m) ==> m.spec_name() == key@ && m.spec_pattern() == value@,
    {
        if !check_token(key) {
            return Err(ConfigError::InvalidHeaderName);
        }
        match regex_new(value) {
            Some(re) => Ok(HeaderValueRegexMatcher { name: String::from_str(key), regex: re }),
            None => Err(ConfigError::InvalidRegex),
        }
    }
}

impl Match for HeaderValueRegexMatcher {
    open spec fn spec_matches(&self, r: RequestModel) -> bool {
        has_header(r.headers, encode_utf8(self.spec_name())) && header_values_accept(
            r.headers,
            encode_utf8(self.spec_name()),
            self.spec_pattern(),
        )
    }

    #[verifier::loop_isolation(false)]
    fn matches(&self, request: &Request) -> (b: bool) {
        let ghost hs = request@.headers;
        let ghost nb = encode_utf8(self.spec_name());
        let n = request.headers.len();
        let mut found = false;
        let mut all_ok = true;
        let mut i: usize = 0;
        proof {
            assert(hs.subrange(0, hs.len() as int) =~= hs);
        }
        while i < n
            invariant
                i <= n,
                n == hs.len(),
                has_header(hs, nb) == (found || has_header(
                    hs.subrange(i as int, hs.len() as int),
                    nb,
                )),
                all_ok ==> header_values_accept(hs, nb, self.spec_pattern())
                    == header_values_accept(
                    hs.subrange(i as int, hs.len() as int),
                    nb,
                    self.spec_pattern(),
                ),
                !all_ok ==> !header_values_accept(hs, nb, self.spec_pattern()),
            decreases n - i,
        {
            let ghost rest = hs.subrange(i as int, hs.len() as int);
            proof {
                assert(rest[0] == hs[i as int]);
                assert(rest.subrange(1, rest.len() as int) =~= hs.subrange(i + 1, hs.len() as int));
            }
            if bytes_iequal(request.headers[i].name.as_str().as_bytes(), self.name.as_str().as_bytes()) {
                found = true;
                if !regex_match_bytes(&self.regex, request.headers[i].value.as_slice()) {
                    all_ok = false;
                }
            }
            i += 1;
        }
        proof {
            assert(hs.subrange(n as int, hs.len() as int).len() == 0);
        }
        found && all_ok
    }
}

impl IntoMatcher for HeaderValueRegexMatcher {
    fn into_matcher(self) -> (m: Matcher) {
        Matcher::HeaderRegex(self)
    }
}

/// Matches when every atom of the values under the name belongs to the
/// expected set of values.
#[derive(Debug)]
pub struct HeaderValueContainsMatcher {
    name: String,
    values: Vec<Vec<u8>>,
}

impl HeaderValueContainsMatcher {
    /// The header name.
    pub closed spec fn spec_name(&self) -> Seq<char> {
        self.name@
    }

    /// The allowed atoms, each as its bytes.
    pub closed spec fn spec_values(&self) -> Seq<Seq<u8>> {
        byte_views(self.values@)
    }

    /// Builds the matcher, rejecting an illegal header name or value.
    pub fn new(key: &str, values: Vec<String>) -> (r: Result<Self, ConfigError>)
        ensures
            r is Ok <==> is_token_seq(encode_utf8(key@)) && (forall|k: int|
                0 <= k < values@.len() ==> is_value_seq(encode_utf8(#[trigger] values@[k]@))),
            !is_token_seq(encode_utf8(key@)) ==> r == Err::<Self, ConfigError>(
                ConfigError::InvalidHeaderName,
            ),
            is_token_seq(encode_utf8(key@)) && r is Err ==> r == Err::<Self, ConfigError>(
                ConfigError::InvalidHeaderValue,
            ),
            r matches Ok(m) ==> m.spec_name() == key@ && m.spec_values() == Seq::new(
                values@.len(),
                |k: int| encode_utf8(values@[k]@),
            ),
    {
        match HeaderExactMatcher::new(key, values) {
            Ok(inner) => Ok(HeaderValueContainsMatcher {
                name: String::from_str(key),
                values: inner.take_values(),
            }),
            Err(e) => Err(e),
        }
    }
}

impl HeaderExactMatcher {
    /// Hands out the stored expected atoms.
    pub(crate) fn take_values(self) -> (r: Vec<Vec<u8>>)
        ensures
            byte_views(r@) == self.spec_values(),
    {
        self.values
    }
}

impl Match for HeaderValueContainsMatcher {
    open spec fn spec_matches(&self, r: RequestModel) -> bool {
        all_members(header_atoms(r.headers, encode_utf8(self.spec_name())), self.spec_values())
    }

    #[verifier::loop_isolation(false)]
    fn matches(&self, request: &Request) -> (b: bool) {
        let ghost allowed = self.spec_values();
        let atoms = gather_atoms(request, self.name.as_str());
        let ghost aa = byte_views(atoms@);
        let n = atoms.len();
        let mut i: usize = 0;
        proof {
            assert(aa.subrange(0, aa.len() as int) =~= aa);
        }
        while i < n
            invariant
                i <= n,
                n == aa.len(),
                all_members(aa, allowed) == all_members(
                    aa.subrange(i as int, aa.len() as int),
                    allowed,
                ),
            decreases n - i,
        {
            let ghost rest = aa.subrange(i as int, aa.len() as int);
            proof {
                assert(rest[0] == aa[i as int]);
                assert(rest.subrange(1, rest.len() as int) =~= aa.subrange(i + 1, aa.len() as int));
            }
            let m = self.values.len();
            let mut j: usize = 0;
            let mut member = false;
            proof {
                assert(allowed.subrange(0, allowed.len() as int) =~= allowed);
            }
            while j < m
                invariant
                    j <= m,
                    i < n,
                    m == allowed.len(),
                    member ==> seq_member(allowed, aa[i as int]),
                    !member ==> seq_member(allowed, aa[i as int]) == seq_member(
                        allowed.subrange(j as int, allowed.len() as int),
                        aa[i as int],
                    ),
                decreases m - j,
            {
                let ghost arest = allowed.subrange(j as int, allowed.len() as int);
                proof {
                    assert(arest[0] == allowed[j as int]);
                    assert(arest.subrange(1, arest.len() as int) =~= allowed.subrange(
                        j + 1,
                        allowed.len() as int,
                    ));
                }
                if !member {
                    if bytes_equal(atoms[i].as_slice(), self.values[j].as_slice()) {
                        member = true;
                    }
                }
                j += 1;
            }
            if !member {
                proof {
                    assert(allowed.subrange(m as int, allowed.len() as int).len() == 0);
                }
                return false;
            }
            i += 1;
        }
        proof {
            assert(aa.subrange(n as int, aa.len() as int).len() == 0);
        }
        true
    }
}

impl IntoMatcher for HeaderValueContainsMatcher {
    fn into_matcher(self) -> (m: Matcher) {
        Matcher::HeaderContains(self)
    }
}

/// The standard-alphabet, padded Base64 rendering of a byte sequence.
pub uninterp spec fn base64_of(bytes: Seq<u8>) -> Seq<char>;

/// A character the standard, padded Base64 alphabet can produce.
pub open spec fn is_base64_char(c: char) -> bool {
    ('A' <= c <= 'Z') || ('a' <= c <= 'z') || ('0' <= c <= '9') || c == '+' || c == '/' || c == '='
}

/// Relies on base64::Engine::encode with the standard, padded alphabet:
/// the encoding is a function of the input bytes alone, and every
/// character of it comes from that alphabet (A-Z, a-z, 0-9, `+`, `/`,
/// with `=` padding).
#[verifier::external_body]
fn base64_encode(data: &[u8]) -> (r: String)
    ensures
        r@ == base64_of(data@),
        forall|i: int| 0 <= i < r@.len() ==> is_base64_char(#[trigger] r@[i]),
{
    base64::Engine::encode(&base64::engine::general_purpose::STANDARD, data)
}

/// An authorization scheme prefix followed by Base64 output is a legal
/// header value: every character is printable ASCII.
proof fn lemma_auth_header_value_legal(scheme: Seq<char>, token: Seq<char>)
    requires
        forall|i: int| 0 <= i < scheme.len() ==> 32 <= ((#[trigger] scheme[i]) as int)
            && ((scheme[i]) as int) < 127,
        forall|i: int| 0 <= i < token.len() ==> is_base64_char(#[trigger] token[i]),
    ensures
        is_value_seq(encode_utf8(scheme + token)),
{
    let chars = scheme + token;
    assert forall|i: int| 0 <= i < chars.len() implies 32 <= ((#[trigger] chars[i]) as int)
        && ((chars[i]) as int) < 127 by {
        if i < scheme.len() {
            assert(chars[i] == scheme[i]);
        } else {
            assert(chars[i] == token[i - scheme.len()]);
            assert(is_base64_char(chars[i]));
        }
    }
    assert(is_ascii_chars(chars));
    is_ascii_chars_encode_utf8(chars);
    assert forall|i: int| 0 <= i < encode_utf8(chars).len() implies is_value_byte(
        #[trigger] encode_utf8(chars)[i],
    ) by {
        assert(encode_utf8(chars)[i] == chars[i] as u8);
        assert(32 <= ((chars[i]) as int) && ((chars[i]) as int) < 127);
    }
}

/// The Authorization header name is a legal token.
proof fn lemma_authorization_is_token()
    ensures
        is_token_seq(encode_utf8("Authorization"@)),
{
    reveal_strlit("Authorization");
    let chars = "Authorization"@;
    assert(is_ascii_chars(chars));
    is_ascii_chars_encode_utf8(chars);
    assert forall|i: int| 0 <= i < encode_utf8(chars).len() implies is_token_byte(
        #[trigger] encode_utf8(chars)[i],
    ) by {
        assert(encode_utf8(chars)[i] == chars[i] as u8);
    }
    assert(encode_utf8(chars).len() > 0);
}

/// Matches a Basic authorization header computed from credentials.
#[derive(Debug)]
pub struct BasicAuthMatcher {
    inner: HeaderExactMatcher,
}

impl BasicAuthMatcher {
    /// The expected atoms of the Authorization header.
    pub closed spec fn spec_values(&self) -> Seq<Seq<u8>> {
        self.inner.spec_values()
    }

    /// The name compared against, always `Authorization`.
    pub closed spec fn spec_name(&self) -> Seq<char> {
        self.inner.spec_name()
    }

    /// Builds the matcher from a username and password: the expected
    /// value is `Basic` plus the Base64 of `username:password`.
    pub fn from_credentials(username: &str, password: &str) -> (r: Result<Self, ConfigError>)
        ensures
            r is Ok,
            r matches Ok(m) ==> m.spec_name() == "Authorization"@ && m.spec_values() == seq![
                encode_utf8(
                    "Basic "@ + base64_of(encode_utf8(username@ + ":"@ + password@)),
                ),
            ],
    {
        let credential = String::from_str(username).concat(":").concat(password);
        let token = base64_encode(credential.as_str().as_bytes());
        proof {
            lemma_authorization_is_token();
            reveal_strlit("Basic ");
            assert forall|i: int| 0 <= i < "Basic "@.len() implies 32 <= ((#[trigger] "Basic "@[i]) as int)
                && (("Basic "@[i]) as int) < 127 by {}
            lemma_auth_header_value_legal("Basic "@, token@);
        }
        Self::from_token(token.as_str())
    }

    /// Builds the matcher from an already-encoded token: the expected
    /// value is `Basic` plus the token.
    pub fn from_token(token: &str) -> (r: Result<Self, ConfigError>)
        ensures
            r is Ok <==> is_token_seq(encode_utf8("Authorization"@)) && is_value_seq(
                encode_utf8("Basic "@ + token@),
            ),
            r matches Ok(m) ==> m.spec_name() == "Authorization"@ && m.spec_values() == seq![
                encode_utf8("Basic "@ + token@),
            ],
    {
        let value = String::from_str("Basic ").concat(token);
        let vs = vec![value];
        let ghost gvs = vs@;
        let r = HeaderExactMatcher::new("Authorization", vs);
        proof {
            assert(gvs[0]@ == "Basic "@ + token@);
            assert((forall|k: int| 0 <= k < gvs.len() ==> is_value_seq(
                encode_utf8(#[trigger] gvs[k]@),
            )) == is_value_seq(encode_utf8("Basic "@ + token@)));
        }
        match r {
            Ok(inner) => {
                let m = BasicAuthMatcher { inner };
                proof {
                    assert(m.spec_values() =~= seq![encode_utf8("Basic "@ + token@)]);
                }
                Ok(m)
            },
            Err(e) => Err(e),
        }
    }
}

impl Match for BasicAuthMatcher {
    open spec fn spec_matches(&self, r: RequestModel) -> bool {
        header_atoms(r.headers, encode_utf8(self.spec_name())) == self.spec_values()
    }

    fn matches(&self, request: &Request) -> (b: bool) {
        self.inner.matches(request)
    }
}

impl IntoMatcher for BasicAuthMatcher {
    fn into_matcher(self) -> (m: Matcher) {
        Matcher::BasicAuth(self)
    }
}

/// Matches a Bearer authorization header carrying the given token.
#[derive(Debug)]
pub struct BearerTokenMatcher {
    inner: HeaderExactMatcher,
}

impl BearerTokenMatcher {
    /// The expected atoms of the Authorization header.
    pub closed spec fn spec_values(&self) -> Seq<Seq<u8>> {
        self.inner.spec_values()
    }

    /// The name compared against, always `Authorization`.
    pub closed spec fn spec_name(&self) -> Seq<char> {
        self.inner.spec_name()
    }

    /// Builds the matcher: the expected value is `Bearer` plus the
    /// token.
    pub fn from_token(token: &str) -> (r: Result<Self, ConfigError>)
        ensures
            r is Ok <==> is_token_seq(encode_utf8("Authorization"@)) && is_value_seq(
                encode_utf8("Bearer "@ + token@),
            ),
            r matches Ok(m) ==> m.spec_name() == "Authorization"@ && m.spec_values() == seq![
                encode_utf8("Bearer "@ + token@),
            ],
    {
        let value = String::from_str("Bearer ").concat(token);
        let vs = vec![value];
        let ghost gvs = vs@;
        let r = HeaderExactMatcher::new("Authorization", vs);
        proof {
            assert(gvs[0]@ == "Bearer "@ + token@);
            assert((forall|k: int| 0 <= k < gvs.len() ==> is_value_seq(
                encode_utf8(#[trigger] gvs[k]@),
            )) == is_value_seq(encode_utf8("Bearer "@ + token@)));
        }
        match r {
            Ok(inner) => {
                let m = BearerTokenMatcher { inner };
                proof {
                    assert(m.spec_values() =~= seq![encode_utf8("Bearer "@ + token@)]);
                }
                Ok(m)
            },
            Err(e) => Err(e),
        }
    }
}

impl Match for BearerTokenMatcher {
    open spec fn spec_matches(&self, r: RequestModel) -> bool {
        header_atoms(r.headers, encode_utf8(self.spec_name())) == self.spec_values()
    }

    fn matches(&self, request: &Request) -> (b: bool) {
        self.inner.matches(request)
    }
}

impl IntoMatcher for BearerTokenMatcher {
    fn into_matcher(self) -> (m: Matcher) {
        Matcher::BearerToken(self)
    }
}

} // verus!
