//! Configuration errors: invalid parameters detected when a matcher or a
//! response template is constructed, before the server starts.

use vstd::prelude::*;

verus! {

/// Why a matcher or response template could not be constructed.
#[derive(Debug, Clone, Copy, PartialEq, Eq, Structural)]
pub enum ConfigError {
    /// The method is not a legal HTTP method token.
    InvalidMethod,
    /// A path to match contains a query string; query parameters are
    /// matched by the query-parameter matchers instead.
    PathWithQuery,
    /// A path to match contains an explicit host.
    PathWithHost,
    /// A regex source does not compile.
    InvalidRegex,
    /// A header name is not a legal header name token.
    InvalidHeaderName,
    /// A header value holds bytes a header value cannot carry.
    InvalidHeaderValue,
    /// A status code outside 100..=999.
    InvalidStatusCode,
    /// A body given as a JSON string does not parse.
    InvalidJson,
}

impl ConfigError {
    /// A short description of the error.
    pub fn describe(&self) -> &'static str {
        match self {
            ConfigError::InvalidMethod => "not a legal HTTP method token",
            ConfigError::PathWithQuery => "path contains a query string; use a query-parameter matcher",
            ConfigError::PathWithHost => "path contains a host; match on the path component only",
            ConfigError::InvalidRegex => "regex source does not compile",
            ConfigError::InvalidHeaderName => "not a legal header name",
            ConfigError::InvalidHeaderValue => "not a legal header value",
            ConfigError::InvalidStatusCode => "status code outside 100..=999",
            ConfigError::InvalidJson => "body is not valid JSON",
        }
    }
}

} // verus!
