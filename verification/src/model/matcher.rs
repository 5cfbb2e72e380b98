//! One declarative field specification: a parameter name and the
//! loosely-typed constraints given for it. The resolver turns each such
//! entry into at most one concrete matcher.

use vstd::prelude::*;
use vstd::utf8::encode_utf8;
use crate::json::{duplicate, field_of, get_field, JsonTree, JsonValue};
use crate::text::{check_i64_rendering, is_i64_rendering};

verus! {

/// The documents of an optional document.
pub open spec fn opt_tree(o: Option<JsonValue>) -> Option<JsonTree> {
    match o {
        Some(v) => Some(v@),
        None => None,
    }
}

/// The view of an optional string.
pub open spec fn text_opt(o: Option<String>) -> Option<Seq<char>> {
    match o {
        Some(s) => Some(s@),
        None => None,
    }
}

/// Whether a field may feed an optional boolean: absent, null or a
/// boolean.
pub open spec fn bool_field_ok(f: Option<JsonTree>) -> bool {
    match f {
        None => true,
        Some(t) => t is Bool || t is Null,
    }
}

/// Whether a field may feed an optional string: absent, null or text.
pub open spec fn text_field_ok(f: Option<JsonTree>) -> bool {
    match f {
        None => true,
        Some(t) => t is Text || t is Null,
    }
}

/// The boolean a field carries, if one.
pub open spec fn bool_field_of(f: Option<JsonTree>) -> Option<bool> {
    match f {
        Some(JsonTree::Bool(b)) => Some(b),
        _ => None,
    }
}

/// The text a field carries, if any.
pub open spec fn text_field_of(f: Option<JsonTree>) -> Option<Seq<char>> {
    match f {
        Some(JsonTree::Text(s)) => Some(s),
        _ => None,
    }
}

/// The document a field carries; null counts as absent.
pub open spec fn any_field_of(f: Option<JsonTree>) -> Option<JsonTree> {
    match f {
        Some(JsonTree::Null) => None,
        Some(t) => Some(t),
        None => None,
    }
}

/// The loosely-typed constraints of one entry.
pub struct GenericMatcherValueStruct {
    /// Exact expected value, as a JSON scalar.
    pub equal_to: Option<JsonValue>,
    /// Compare `equal_to` ignoring ASCII case.
    pub case_insensitive: Option<bool>,
    /// Text the value must contain.
    pub contains: Option<String>,
    /// A regex source the value must match.
    pub matches_value: Option<JsonValue>,
    /// Demand absence (`true`) or presence (`false`) of the parameter.
    pub absent: Option<bool>,
}

/// Whether a document has the shape of a value specification: an object
/// whose recognized fields carry the right kinds.
pub open spec fn value_spec_ok(t: JsonTree) -> bool {
    &&& t is Object
    &&& bool_field_ok(field_of(t->Object_0, "caseInsensitive"@))
    &&& text_field_ok(field_of(t->Object_0, "contains"@))
    &&& bool_field_ok(field_of(t->Object_0, "absent"@))
}

/// How a parsed value specification reads the fields of its document.
pub open spec fn reads_fields(g: GenericMatcherValueStruct, t: JsonTree) -> bool {
    &&& opt_tree(g.equal_to) == any_field_of(field_of(t->Object_0, "equalTo"@))
    &&& g.case_insensitive == bool_field_of(field_of(t->Object_0, "caseInsensitive"@))
    &&& text_opt(g.contains) == text_field_of(field_of(t->Object_0, "contains"@))
    &&& opt_tree(g.matches_value) == any_field_of(field_of(t->Object_0, "matches"@))
    &&& g.absent == bool_field_of(field_of(t->Object_0, "absent"@))
}

impl GenericMatcherValueStruct {
    /// Reads the five recognized fields out of a document: absent and
    /// null fields impose nothing, unknown fields are ignored, and a
    /// recognized field of the wrong kind rejects the document.
    pub fn from_json(v: &JsonValue) -> (r: Option<Self>)
        ensures
            r is Some <==> value_spec_ok(v@),
            r matches Some(g) ==> reads_fields(g, v@),
    {
        match v {
            JsonValue::Object(_) => {},
            _ => {
                return None;
            },
        }
        let equal_to = match get_field(v, "equalTo") {
            Some(f) => match f {
                JsonValue::Null => None,
                _ => Some(duplicate(f)),
            },
            None => None,
        };
        let case_insensitive = match get_field(v, "caseInsensitive") {
            Some(f) => match f {
                JsonValue::Bool(b) => Some(*b),
                JsonValue::Null => None,
                _ => {
                    return None;
                },
            },
            None => None,
        };
        let contains = match get_field(v, "contains") {
            Some(f) => match f {
                JsonValue::Text(s) => Some(s.clone()),
                JsonValue::Null => None,
                _ => {
                    return None;
                },
            },
            None => None,
        };
        let matches_value = match get_field(v, "matches") {
            Some(f) => match f {
                JsonValue::Null => None,
                _ => Some(duplicate(f)),
            },
            None => None,
        };
        let absent = match get_field(v, "absent") {
            Some(f) => match f {
                JsonValue::Bool(b) => Some(*b),
                JsonValue::Null => None,
                _ => {
                    return None;
                },
            },
            None => None,
        };
        Some(GenericMatcherValueStruct { equal_to, case_insensitive, contains, matches_value, absent })
    }
}

/// One declarative entry: the parameter name and its constraints, when
/// the constraint document had the right shape.
pub struct GenericMatcherStub {
    pub key: String,
    pub value: Option<GenericMatcherValueStruct>,
}

/// The entry demands exact equality.
pub open spec fn spec_is_equal_to(s: GenericMatcherStub) -> bool {
    s.value matches Some(g) && g.equal_to is Some
}

/// The entry asks for ASCII case-insensitive comparison.
pub open spec fn spec_is_case_insensitive(s: GenericMatcherStub) -> bool {
    s.value matches Some(g) && g.case_insensitive == Some(true)
}

/// The entry carries a regex constraint.
pub open spec fn spec_is_matches(s: GenericMatcherStub) -> bool {
    s.value matches Some(g) && g.matches_value is Some
}

/// The entry demands containment: a non-empty text, with no exact value
/// alongside.
pub open spec fn spec_is_contains(s: GenericMatcherStub) -> bool {
    (s.value matches Some(g) && g.contains matches Some(c) && c@.len() > 0)
        && !spec_is_equal_to(s)
}

/// The entry speaks of the parameter's absence or presence.
pub open spec fn spec_is_absent(s: GenericMatcherStub) -> bool {
    s.value matches Some(g) && g.absent is Some
}

/// The entry resolves to an exact matcher: an exact value with no
/// case-folding or containment overriding it.
pub open spec fn spec_is_exact_match(s: GenericMatcherStub) -> bool {
    spec_is_equal_to(s) && !spec_is_case_insensitive(s) && !spec_is_contains(s)
}

/// The entry resolves to a regex matcher: a regex constraint with no
/// equality, case-folding or containment taking precedence.
pub open spec fn spec_is_by_regex(s: GenericMatcherStub) -> bool {
    spec_is_matches(s) && !spec_is_equal_to(s) && !spec_is_case_insensitive(s)
        && !spec_is_contains(s)
}

/// The string an exact value coerces to: text itself, booleans and
/// 64-bit integers by their rendering, nothing else.
pub open spec fn coerced_string(t: JsonTree) -> Option<Seq<char>> {
    match t {
        JsonTree::Text(s) => Some(s),
        JsonTree::Bool(b) => Some(if b {
            "true"@
        } else {
            "false"@
        }),
        JsonTree::Number(s) => if is_i64_rendering(encode_utf8(s)) {
            Some(s)
        } else {
            None
        },
        _ => None,
    }
}

/// The string the entry's exact value coerces to, if any.
pub open spec fn spec_equal_to_string(s: GenericMatcherStub) -> Option<Seq<char>> {
    match s.value {
        Some(g) => match g.equal_to {
            Some(v) => coerced_string(v@),
            None => None,
        },
        None => None,
    }
}

/// The regex source the entry carries, when its constraint is text.
pub open spec fn spec_matches_text(s: GenericMatcherStub) -> Option<Seq<char>> {
    match s.value {
        Some(g) => match g.matches_value {
            Some(v) => match v@ {
                JsonTree::Text(x) => Some(x),
                _ => None,
            },
            None => None,
        },
        None => None,
    }
}

impl GenericMatcherStub {
    /// Builds the entry for one `name: constraints` pair; constraints
    /// of the wrong shape impose nothing.
    pub fn from_entry(key: &str, value: &JsonValue) -> (r: Self)
        ensures
            r.key@ == key@,
            r.value is Some <==> value_spec_ok(value@),
            r.value matches Some(g) ==> reads_fields(g, value@),
    {
        GenericMatcherStub {
            key: String::from_str(key),
            value: GenericMatcherValueStruct::from_json(value),
        }
    }

    /// Whether an exact value was given.
    pub fn is_equal_to(&self) -> (r: bool)
        ensures
            r == spec_is_equal_to(*self),
    {
        match &self.value {
            Some(g) => g.equal_to.is_some(),
            None => false,
        }
    }

    /// Whether case-insensitive comparison was asked for.
    pub fn is_case_insensitive(&self) -> (r: bool)
        ensures
            r == spec_is_case_insensitive(*self),
    {
        match &self.value {
            Some(g) => match g.case_insensitive {
                Some(b) => b,
                None => false,
            },
            None => false,
        }
    }

    /// Whether a regex constraint was given.
    pub fn is_matches(&self) -> (r: bool)
        ensures
            r == spec_is_matches(*self),
    {
        match &self.value {
            Some(g) => g.matches_value.is_some(),
            None => false,
        }
    }

    /// Whether a containment constraint applies.
    pub fn is_contains(&self) -> (r: bool)
        ensures
            r == spec_is_contains(*self),
    {
        let has = match &self.value {
            Some(g) => match &g.contains {
                Some(c) => c.as_str().unicode_len() > 0,
                None => false,
            },
            None => false,
        };
        has && !self.is_equal_to()
    }

    /// Whether the entry speaks of absence or presence.
    pub fn is_absent(&self) -> (r: bool)
        ensures
            r == spec_is_absent(*self),
    {
        match &self.value {
            Some(g) => g.absent.is_some(),
            None => false,
        }
    }

    /// Whether the entry resolves to an exact matcher.
    pub fn is_exact_match(&self) -> (r: bool)
        ensures
            r == spec_is_exact_match(*self),
    {
        self.is_equal_to() && !self.is_case_insensitive() && !self.is_contains()
    }

    /// Whether the entry resolves to a regex matcher.
    pub fn is_by_regex(&self) -> (r: bool)
        ensures
            r == spec_is_by_regex(*self),
    {
        self.is_matches() && !self.is_equal_to() && !self.is_case_insensitive()
            && !self.is_contains()
    }

    /// The string the exact value coerces to: text as itself, booleans
    /// and 64-bit integers by their rendering.
    pub fn get_equal_to_as_string(&self) -> (r: Option<String>)
        ensures
            text_opt(r) == spec_equal_to_string(*self),
    {
        match &self.value {
            Some(g) => match &g.equal_to {
                Some(JsonValue::Text(s)) => Some(s.clone()),
                Some(JsonValue::Bool(b)) => Some(
                    String::from_str(if *b { "true" } else { "false" }),
                ),
                Some(JsonValue::Number(s)) => {
                    if check_i64_rendering(s.as_str().as_bytes()) {
                        Some(s.clone())
                    } else {
                        None
                    }
                },
                _ => None,
            },
            None => None,
        }
    }

    /// The regex source given, when the constraint is text.
    pub fn get_matches_as_str(&self) -> (r: Option<&String>)
        ensures
            text_opt_ref(r) == spec_matches_text(*self),
    {
        match &self.value {
            Some(g) => match &g.matches_value {
                Some(JsonValue::Text(s)) => Some(s),
                _ => None,
            },
            None => None,
        }
    }
}

/// The view of an optional string reference.
pub open spec fn text_opt_ref(o: Option<&String>) -> Option<Seq<char>> {
    match o {
        Some(s) => Some(s@),
        None => None,
    }
}

} // verus!
