//! The body fragment of a declarative stub document: an exact JSON
//! body, a JSONPath expression, and the two relaxation switches.

use vstd::prelude::*;
use crate::json::{json_eq, JsonValue};
use crate::model::matcher::{opt_tree, text_opt};

verus! {

/// A JSONPath constraint of a declarative document.
#[derive(Debug, Hash)]
pub struct HttpJsonPathExpressionStub {
    pub expression: Option<String>,
    pub contains: Option<String>,
    pub equal_to: Option<JsonValue>,
    pub matches_value: Option<JsonValue>,
}

/// The body dimension of a declarative document.
#[derive(Debug, Hash)]
pub struct HttpBodyPatternStub {
    /// Strict JSON match.
    pub equal_to_json: Option<JsonValue>,
    /// Check the body against a JSONPath expression.
    pub matches_json_path: Option<String>,
    pub json_path: Option<HttpJsonPathExpressionStub>,
    /// With `equal_to_json`: allow extra fields in the body.
    pub ignore_extra_elements: Option<bool>,
    /// With `equal_to_json`: allow arrays to match ignoring order.
    pub ignore_array_order: Option<bool>,
}

/// Whether two optional documents are structurally equal.
fn opt_json_eq(a: &Option<JsonValue>, b: &Option<JsonValue>) -> (r: bool)
    ensures
        r == (opt_tree(*a) == opt_tree(*b)),
{
    match (a, b) {
        (Some(x), Some(y)) => json_eq(x, y),
        (None, None) => true,
        _ => false,
    }
}

/// Whether two optional strings are equal.
fn opt_text_eq(a: &Option<String>, b: &Option<String>) -> (r: bool)
    ensures
        r == (text_opt(*a) == text_opt(*b)),
{
    match (a, b) {
        (Some(x), Some(y)) => *x == *y,
        (None, None) => true,
        _ => false,
    }
}

/// The view of a JSONPath constraint: each field by its model.
pub open spec fn json_path_view(s: HttpJsonPathExpressionStub) -> (
    Option<Seq<char>>,
    Option<Seq<char>>,
    Option<crate::json::JsonTree>,
    Option<crate::json::JsonTree>,
) {
    (text_opt(s.expression), text_opt(s.contains), opt_tree(s.equal_to), opt_tree(s.matches_value))
}

impl PartialEq for HttpJsonPathExpressionStub {
    fn eq(&self, other: &Self) -> (r: bool) {
        opt_text_eq(&self.expression, &other.expression) && opt_json_eq(
            &self.equal_to,
            &other.equal_to,
        ) && opt_text_eq(&self.contains, &other.contains) && opt_json_eq(
            &self.matches_value,
            &other.matches_value,
        )
    }
}

impl vstd::std_specs::cmp::PartialEqSpecImpl for HttpJsonPathExpressionStub {
    open spec fn obeys_eq_spec() -> bool {
        true
    }

    open spec fn eq_spec(&self, other: &Self) -> bool {
        json_path_view(*self) == json_path_view(*other)
    }
}

/// Whether two optional JSONPath constraints agree, by their views.
pub open spec fn opt_json_path_view(
    o: Option<HttpJsonPathExpressionStub>,
) -> Option<(
    Option<Seq<char>>,
    Option<Seq<char>>,
    Option<crate::json::JsonTree>,
    Option<crate::json::JsonTree>,
)> {
    match o {
        Some(s) => Some(json_path_view(s)),
        None => None,
    }
}

impl PartialEq for HttpBodyPatternStub {
    fn eq(&self, other: &Self) -> (r: bool) {
        let json_paths_equal = match (&self.json_path, &other.json_path) {
            (Some(x), Some(y)) => *x == *y,
            (None, None) => true,
            _ => false,
        };
        opt_json_eq(&self.equal_to_json, &other.equal_to_json)
            && self.ignore_extra_elements == other.ignore_extra_elements
            && self.ignore_array_order == other.ignore_array_order
            && opt_text_eq(&self.matches_json_path, &other.matches_json_path)
            && json_paths_equal
    }
}

impl vstd::std_specs::cmp::PartialEqSpecImpl for HttpBodyPatternStub {
    open spec fn obeys_eq_spec() -> bool {
        true
    }

    open spec fn eq_spec(&self, other: &Self) -> bool {
        &&& opt_tree(self.equal_to_json) == opt_tree(other.equal_to_json)
        &&& self.ignore_extra_elements == other.ignore_extra_elements
        &&& self.ignore_array_order == other.ignore_array_order
        &&& text_opt(self.matches_json_path) == text_opt(other.matches_json_path)
        &&& opt_json_path_view(self.json_path) == opt_json_path_view(other.json_path)
    }
}

} // verus!
