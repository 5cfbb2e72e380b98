//! The response template a stub answers with: status, headers, body and
//! an optional delay, assembled by a builder. The transport layer turns a
//! template into a wire response.

use vstd::prelude::*;
use vstd::utf8::encode_utf8;
use crate::error::ConfigError;
use crate::matchers::header::{check_value, is_value_seq, name_matches};
use crate::matchers::method::{check_token, is_token_seq};

verus! {

/// One response header pair.
#[derive(Debug, Clone)]
pub struct HeaderPair {
    pub name: String,
    pub value: String,
}

/// The headers without those carrying the given name.
pub open spec fn without_name(
    hs: Seq<(Seq<char>, Seq<char>)>,
    name: Seq<char>,
) -> Seq<(Seq<char>, Seq<char>)>
    decreases hs.len(),
{
    if hs.len() == 0 {
        Seq::empty()
    } else {
        (if name_matches(encode_utf8(hs[0].0), encode_utf8(name)) {
            Seq::empty()
        } else {
            seq![hs[0]]
        }) + without_name(hs.subrange(1, hs.len() as int), name)
    }
}

/// Builds the canned response a stub answers with.
#[derive(Debug, Clone)]
pub struct MockResponseBuilder {
    mime_type: String,
    status_code: Option<u16>,
    headers: Vec<HeaderPair>,
    body: Option<Vec<u8>>,
    delay_ms: Option<u64>,
}

impl MockResponseBuilder {
    /// The configured status code, if one was set.
    pub closed spec fn spec_status(&self) -> Option<u16> {
        self.status_code
    }

    /// The configured headers, in order.
    pub closed spec fn spec_headers(&self) -> Seq<(Seq<char>, Seq<char>)> {
        Seq::new(self.headers@.len(), |i: int| (self.headers@[i].name@, self.headers@[i].value@))
    }

    /// The configured body bytes, if any.
    pub closed spec fn spec_body(&self) -> Option<Seq<u8>> {
        match self.body {
            Some(b) => Some(b@),
            None => None,
        }
    }

    /// The configured content type; empty when none was set.
    pub closed spec fn spec_mime(&self) -> Seq<char> {
        self.mime_type@
    }

    /// The configured delay in milliseconds, if any.
    pub closed spec fn spec_delay_ms(&self) -> Option<u64> {
        self.delay_ms
    }

    /// An empty template: no status, headers, body or delay.
    pub fn new() -> (r: Self)
        ensures
            r.spec_status() is None,
            r.spec_headers() == Seq::<(Seq<char>, Seq<char>)>::empty(),
            r.spec_body() is None,
            r.spec_mime() == Seq::<char>::empty(),
            r.spec_delay_ms() is None,
    {
        let r = MockResponseBuilder {
            mime_type: String::new(),
            status_code: None,
            headers: Vec::new(),
            body: None,
            delay_ms: None,
        };
        proof {
            assert(r.spec_headers() =~= Seq::<(Seq<char>, Seq<char>)>::empty());
        }
        r
    }

    /// Sets the status code; codes outside 100..=999 are configuration
    /// errors.
    pub fn with_status_code(self, status_code: u16) -> (r: Result<Self, ConfigError>)
        ensures
            r is Ok <==> 100 <= status_code <= 999,
            r is Err ==> r == Err::<Self, ConfigError>(ConfigError::InvalidStatusCode),
            r matches Ok(m) ==> m.spec_status() == Some(status_code)
                && m.spec_headers() == self.spec_headers() && m.spec_body() == self.spec_body()
                && m.spec_mime() == self.spec_mime() && m.spec_delay_ms() == self.spec_delay_ms(),
    {
        if 100 <= status_code && status_code <= 999 {
            Ok(MockResponseBuilder { status_code: Some(status_code), ..self })
        } else {
            Err(ConfigError::InvalidStatusCode)
        }
    }

    /// Appends a header pair, keeping any pairs already present under
    /// the name.
    pub fn with_header_append(self, key: &str, value: &str) -> (r: Result<Self, ConfigError>)
        ensures
            r is Ok <==> is_token_seq(encode_utf8(key@)) && is_value_seq(encode_utf8(value@)),
            r matches Ok(m) ==> m.spec_headers() == self.spec_headers().push((key@, value@))
                && m.spec_status() == self.spec_status() && m.spec_body() == self.spec_body()
                && m.spec_mime() == self.spec_mime() && m.spec_delay_ms() == self.spec_delay_ms(),
    {
        if !check_token(key) {
            return Err(ConfigError::InvalidHeaderName);
        }
        if !check_value(value) {
            return Err(ConfigError::InvalidHeaderValue);
        }
        let mut headers = self.headers;
        let ghost prev = Seq::new(headers@.len(), |i: int| (headers@[i].name@, headers@[i].value@));
        headers.push(HeaderPair { name: String::from_str(key), value: String::from_str(value) });
        let m = MockResponseBuilder {
            mime_type: self.mime_type,
            status_code: self.status_code,
            headers,
            body: self.body,
            delay_ms: self.delay_ms,
        };
        proof {
            assert(m.spec_headers() =~= prev.push((key@, value@)));
        }
        Ok(m)
    }

    /// Replaces the pairs under the name with the single given pair.
    pub fn with_header_insert(self, key: &str, value: &str) -> (r: Result<Self, ConfigError>)
        ensures
            r is Ok <==> is_token_seq(encode_utf8(key@)) && is_value_seq(encode_utf8(value@)),
            r matches Ok(m) ==> m.spec_headers() == without_name(self.spec_headers(), key@).push(
                (key@, value@),
            ) && m.spec_status() == self.spec_status() && m.spec_body() == self.spec_body()
                && m.spec_mime() == self.spec_mime() && m.spec_delay_ms() == self.spec_delay_ms(),
    {
        if !check_token(key) {
            return Err(ConfigError::InvalidHeaderName);
        }
        if !check_value(value) {
            return Err(ConfigError::InvalidHeaderValue);
        }
        let ghost old_hs = self.spec_headers();
        let n = self.headers.len();
        let mut kept: Vec<HeaderPair> = Vec::new();
        let mut i: usize = 0;
        let headers = self.headers;
        proof {
            assert(old_hs.subrange(0, old_hs.len() as int) =~= old_hs);
            assert(Seq::new(kept@.len(), |k: int| (kept@[k].name@, kept@[k].value@))
                =~= Seq::<(Seq<char>, Seq<char>)>::empty());
            assert(Seq::new(kept@.len(), |k: int| (kept@[k].name@, kept@[k].value@))
                + without_name(old_hs, key@) =~= without_name(old_hs, key@));
        }
        while i < n
            invariant
                i <= n,
                n == headers@.len(),
                n == old_hs.len(),
                forall|k: int| 0 <= k < n ==> old_hs[k]
                    == (#[trigger] headers@[k].name@, headers@[k].value@),
                Seq::new(kept@.len(), |k: int| (kept@[k].name@, kept@[k].value@)) + without_name(
                    old_hs.subrange(i as int, old_hs.len() as int),
                    key@,
                ) == without_name(old_hs, key@),
            decreases n - i,
        {
            let ghost rest = old_hs.subrange(i as int, old_hs.len() as int);
            proof {
                assert(rest[0] == old_hs[i as int]);
                assert(rest.subrange(1, rest.len() as int) =~= old_hs.subrange(
                    i + 1,
                    old_hs.len() as int,
                ));
            }
            let keep = !crate::text::bytes_iequal(
                headers[i].name.as_str().as_bytes(),
                key.as_bytes(),
            );
            if keep {
                let ghost prev = kept@;
                kept.push(HeaderPair {
                    name: String::from_str(headers[i].name.as_str()),
                    value: String::from_str(headers[i].value.as_str()),
                });
                proof {
                    assert(Seq::new(kept@.len(), |k: int| (kept@[k].name@, kept@[k].value@))
                        =~= Seq::new(prev.len(), |k: int| (prev[k].name@, prev[k].value@)).push(
                        old_hs[i as int],
                    ));
                    assert(Seq::new(kept@.len(), |k: int| (kept@[k].name@, kept@[k].value@))
                        + without_name(old_hs.subrange(i + 1, old_hs.len() as int), key@)
                        =~= without_name(old_hs, key@));
                }
            }
            i += 1;
        }
        proof {
            assert(old_hs.subrange(n as int, old_hs.len() as int).len() == 0);
        }
        let ghost kept_view = Seq::new(kept@.len(), |k: int| (kept@[k].name@, kept@[k].value@));
        let mut kept = kept;
        kept.push(HeaderPair { name: String::from_str(key), value: String::from_str(value) });
        let m = MockResponseBuilder {
            mime_type: self.mime_type,
            status_code: self.status_code,
            headers: kept,
            body: self.body,
            delay_ms: self.delay_ms,
        };
        proof {
            assert(m.spec_headers() =~= without_name(old_hs, key@).push((key@, value@)));
        }
        Ok(m)
    }

    /// Sets the body bytes, leaving the content type alone.
    pub fn with_body_bytes(self, body: Vec<u8>) -> (r: Self)
        ensures
            r.spec_body() == Some(body@),
            r.spec_headers() == self.spec_headers(),
            r.spec_status() == self.spec_status(),
            r.spec_mime() == self.spec_mime(),
            r.spec_delay_ms() == self.spec_delay_ms(),
    {
        MockResponseBuilder { body: Some(body), ..self }
    }

    /// Sets the body to the string's bytes and the content type to
    /// `text/plain`.
    pub fn with_body_string(self, body: &str) -> (r: Self)
        ensures
            r.spec_body() == Some(encode_utf8(body@)),
            r.spec_headers() == self.spec_headers(),
            r.spec_status() == self.spec_status(),
            r.spec_mime() == "text/plain"@,
            r.spec_delay_ms() == self.spec_delay_ms(),
    {
        MockResponseBuilder {
            body: Some(body.as_bytes_vec()),
            mime_type: String::from_str("text/plain"),
            ..self
        }
    }

    /// Sets the body bytes and the content type.
    pub fn with_body(self, body: Vec<u8>, mime_type: &str) -> (r: Self)
        ensures
            r.spec_body() == Some(body@),
            r.spec_headers() == self.spec_headers(),
            r.spec_status() == self.spec_status(),
            r.spec_mime() == mime_type@,
            r.spec_delay_ms() == self.spec_delay_ms(),
    {
        MockResponseBuilder {
            body: Some(body),
            mime_type: String::from_str(mime_type),
            ..self
        }
    }

    /// Sets the artificial delay, in milliseconds.
    pub fn with_delay(self, delay_ms: u64) -> (r: Self)
        ensures
            r.spec_delay_ms() == Some(delay_ms),
            r.spec_headers() == self.spec_headers(),
            r.spec_status() == self.spec_status(),
            r.spec_body() == self.spec_body(),
            r.spec_mime() == self.spec_mime(),
    {
        MockResponseBuilder { delay_ms: Some(delay_ms), ..self }
    }

    /// The status the response is sent with: the configured one, or 200.
    pub fn effective_status(&self) -> (r: u16)
        ensures
            r == (match self.spec_status() {
                Some(s) => s,
                None => 200u16,
            }),
    {
        match self.status_code {
            Some(s) => s,
            None => 200,
        }
    }

    /// The configured status code, if any.
    pub fn status_code(&self) -> (r: Option<u16>)
        ensures
            r == self.spec_status(),
    {
        self.status_code
    }

    /// The configured content type; empty when none was set.
    pub fn mime_type(&self) -> (r: &String)
        ensures
            r@ == self.spec_mime(),
    {
        &self.mime_type
    }

    /// The configured headers, in order.
    pub fn headers(&self) -> (r: &Vec<HeaderPair>)
        ensures
            Seq::new(r@.len(), |i: int| (r@[i].name@, r@[i].value@)) == self.spec_headers(),
    {
        &self.headers
    }

    /// The configured body, if any.
    pub fn body(&self) -> (r: Option<&Vec<u8>>)
        ensures
            r is Some <==> self.spec_body() is Some,
            r matches Some(b) ==> self.spec_body() == Some(b@),
    {
        self.body.as_ref()
    }

    /// The configured delay in milliseconds, if any.
    pub fn delay_ms(&self) -> (r: Option<u64>)
        ensures
            r == self.spec_delay_ms(),
    {
        self.delay_ms
    }
}

} // verus!
