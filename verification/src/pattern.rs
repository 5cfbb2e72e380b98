//! The bridge to the regex engine. The engine's behaviour is named, not
//! restated: compilation and matching are deterministic functions of the
//! pattern source and the haystack.

use vstd::prelude::*;
use vstd::utf8::valid_utf8;

verus! {

#[verifier::external_type_specification]
#[verifier::external_body]
pub struct ExRegex(regex::Regex);

/// The pattern source a compiled regex was built from.
pub uninterp spec fn regex_pattern(re: regex::Regex) -> Seq<char>;

/// Whether `regex::Regex::new` accepts a pattern source.
pub uninterp spec fn regex_compiles(pattern: Seq<char>) -> bool;

/// What `regex::Regex::is_match` returns for a pattern and a haystack,
/// the haystack given by its UTF-8 bytes.
pub uninterp spec fn regex_accepts(pattern: Seq<char>, text: Seq<u8>) -> bool;

/// Relies on regex::Regex::new: it compiles a pattern or reports an
/// error, depending on the pattern source alone.
#[verifier::external_body]
pub(crate) fn regex_new(pattern: &str) -> (r: Option<regex::Regex>)
    ensures
        r is Some <==> regex_compiles(pattern@),
        r matches Some(re) ==> regex_pattern(re) == pattern@,
{
    regex::Regex::new(pattern).ok()
}

/// Relies on regex::Regex::is_match: true exactly when the regex matches
/// somewhere in the haystack, depending on the compiled pattern and the
/// haystack alone. A haystack that is not UTF-8 cannot be handed to the
/// engine, so it never matches.
#[verifier::external_body]
pub(crate) fn regex_match_bytes(re: &regex::Regex, text: &[u8]) -> (r: bool)
    ensures
        r == (valid_utf8(text@) && regex_accepts(regex_pattern(*re), text@)),
{
    match core::str::from_utf8(text) {
        Ok(t) => re.is_match(t),
        Err(_) => false,
    }
}

} // verus!
