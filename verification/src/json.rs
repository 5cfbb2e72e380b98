//! JSON documents as the stub matchers hold them, together with the
//! structural comparisons the body matchers use: exact equality and the
//! relaxed equality that ignores extra object fields on the candidate side
//! and ignores array element order.

use vstd::prelude::*;

verus! {

/// The mathematical model of a JSON document. Numbers appear as their
/// canonical decimal rendering, so two numbers are equal exactly when
/// their renderings are equal; objects keep their field order.
pub enum JsonTree {
    Null,
    Bool(bool),
    Number(Seq<char>),
    Text(Seq<char>),
    Array(Seq<JsonTree>),
    Object(Seq<(Seq<char>, JsonTree)>),
}

/// A JSON document. `Number` holds the canonical decimal rendering of the
/// number, `Object` keeps its fields in document order.
#[derive(Debug, Hash)]
pub enum JsonValue {
    Null,
    Bool(bool),
    Number(String),
    Text(String),
    Array(Vec<JsonValue>),
    Object(Vec<(String, JsonValue)>),
}

/// The model of a document.
pub open spec fn tree_of(v: JsonValue) -> JsonTree
    decreases v,
{
    match v {
        JsonValue::Null => JsonTree::Null,
        JsonValue::Bool(b) => JsonTree::Bool(b),
        JsonValue::Number(s) => JsonTree::Number(s@),
        JsonValue::Text(s) => JsonTree::Text(s@),
        JsonValue::Array(items) => JsonTree::Array(trees_of(items@)),
        JsonValue::Object(fields) => JsonTree::Object(field_trees_of(fields@)),
    }
}

/// The models of the elements of an array, in order.
pub open spec fn trees_of(items: Seq<JsonValue>) -> Seq<JsonTree>
    decreases items,
{
    if items.len() == 0 {
        Seq::empty()
    } else {
        seq![tree_of(items[0])] + trees_of(items.subrange(1, items.len() as int))
    }
}

/// The models of the fields of an object, in order.
pub open spec fn field_trees_of(fields: Seq<(String, JsonValue)>) -> Seq<(Seq<char>, JsonTree)>
    decreases fields,
{
    if fields.len() == 0 {
        Seq::empty()
    } else {
        seq![(fields[0].0@, tree_of(fields[0].1))]
            + field_trees_of(fields.subrange(1, fields.len() as int))
    }
}

impl View for JsonValue {
    type V = JsonTree;

    open spec fn view(&self) -> JsonTree {
        tree_of(*self)
    }
}

pub broadcast proof fn lemma_trees_of_len(items: Seq<JsonValue>)
    ensures
        #[trigger] trees_of(items).len() == items.len(),
    decreases items.len(),
{
    if items.len() > 0 {
        lemma_trees_of_len(items.subrange(1, items.len() as int));
    }
}

pub broadcast proof fn lemma_trees_of_index(items: Seq<JsonValue>, i: int)
    requires
        0 <= i < items.len(),
    ensures
        #[trigger] trees_of(items)[i] == tree_of(items[i]),
    decreases items.len(),
{
    lemma_trees_of_len(items.subrange(1, items.len() as int));
    if i > 0 {
        lemma_trees_of_index(items.subrange(1, items.len() as int), i - 1);
    }
}

pub broadcast proof fn lemma_field_trees_of_len(fields: Seq<(String, JsonValue)>)
    ensures
        #[trigger] field_trees_of(fields).len() == fields.len(),
    decreases fields.len(),
{
    if fields.len() > 0 {
        lemma_field_trees_of_len(fields.subrange(1, fields.len() as int));
    }
}

pub broadcast proof fn lemma_field_trees_of_index(fields: Seq<(String, JsonValue)>, i: int)
    requires
        0 <= i < fields.len(),
    ensures
        #[trigger] field_trees_of(fields)[i] == (fields[i].0@, tree_of(fields[i].1)),
    decreases fields.len(),
{
    lemma_field_trees_of_len(fields.subrange(1, fields.len() as int));
    if i > 0 {
        lemma_field_trees_of_index(fields.subrange(1, fields.len() as int), i - 1);
    }
}

/// Exact structural equality of two documents: decides `a@ == b@`.
#[verifier::loop_isolation(false)]
pub fn json_eq(a: &JsonValue, b: &JsonValue) -> (r: bool)
    ensures
        r == (a@ == b@),
    decreases *a,
{
    broadcast use lemma_trees_of_len, lemma_trees_of_index, lemma_field_trees_of_len, lemma_field_trees_of_index;

    match a {
        JsonValue::Null => if let JsonValue::Null = b { true } else { false },
        JsonValue::Bool(x) => if let JsonValue::Bool(y) = b { x == y } else { false },
        JsonValue::Number(x) => if let JsonValue::Number(y) = b { *x == *y } else { false },
        JsonValue::Text(x) => if let JsonValue::Text(y) = b { *x == *y } else { false },
        JsonValue::Array(xs) => {
            if let JsonValue::Array(ys) = b {
                if xs.len() != ys.len() {
                    proof {
                        lemma_trees_of_len(xs@);
                        lemma_trees_of_len(ys@);
                    }
                    false
                } else {
                    let n = xs.len();
                    let mut i: usize = 0;
                    let mut same = true;
                    while i < n
                        invariant
                            n == xs@.len() == ys@.len(),
                            i <= n,
                            a@ == JsonTree::Array(trees_of(xs@)),
                            b@ == JsonTree::Array(trees_of(ys@)),
                            same ==> forall|k: int| 0 <= k < i
                                ==> #[trigger] tree_of(xs@[k]) == tree_of(ys@[k]),
                            !same ==> a@ != b@,
                        decreases n - i,
                    {
                        proof {
                            lemma_trees_of_index(xs@, i as int);
                            lemma_trees_of_index(ys@, i as int);
                            assert(decreases_to!(*a => *xs));
                            assert(decreases_to!(*xs => xs@[i as int]));
                        }
                        if same {
                            if !json_eq(&xs[i], &ys[i]) {
                                assert(trees_of(xs@)[i as int] != trees_of(ys@)[i as int]);
                                same = false;
                            }
                        }
                        i += 1;
                    }
                    if same {
                        assert(trees_of(xs@) =~= trees_of(ys@));
                    }
                    same
                }
            } else {
                assert(a@ != b@);
                false
            }
        },
        JsonValue::Object(xs) => {
            if let JsonValue::Object(ys) = b {
                if xs.len() != ys.len() {
                    proof {
                        lemma_field_trees_of_len(xs@);
                        lemma_field_trees_of_len(ys@);
                    }
                    false
                } else {
                    let n = xs.len();
                    let mut i: usize = 0;
                    let mut same = true;
                    while i < n
                        invariant
                            n == xs@.len() == ys@.len(),
                            i <= n,
                            a@ == JsonTree::Object(field_trees_of(xs@)),
                            b@ == JsonTree::Object(field_trees_of(ys@)),
                            same ==> forall|k: int| 0 <= k < i
                                ==> #[trigger] field_trees_of(xs@)[k] == field_trees_of(ys@)[k],
                            !same ==> a@ != b@,
                        decreases n - i,
                    {
                        proof {
                            lemma_field_trees_of_index(xs@, i as int);
                            lemma_field_trees_of_index(ys@, i as int);
                            assert(decreases_to!(*a => *xs));
                            assert(decreases_to!(*xs => xs@[i as int]));
                            assert(decreases_to!(xs@[i as int] => xs@[i as int].1));
                        }
                        if same {
                            let keys_equal = xs[i].0 == ys[i].0;
                            if !(keys_equal && json_eq(&xs[i].1, &ys[i].1)) {
                                same = false;
                            }
                        }
                        i += 1;
                    }
                    if same {
                        assert(field_trees_of(xs@) =~= field_trees_of(ys@));
                    }
                    same
                }
            } else {
                false
            }
        },
    }
}

} // verus!

verus! {

/// Relaxed structural equality `R(a, b)`: `a` is the pattern side, `b` the
/// candidate side. Objects are compared position by position over the
/// pattern's fields, so extra fields of `b` after them are ignored; arrays
/// must have equal length but each pattern element only needs some
/// `R`-equal counterpart in `b`; everything else falls back to exact
/// structural equality. The relation is not symmetric.
pub open spec fn relaxed_eq(a: JsonTree, b: JsonTree) -> bool
    decreases a, 0nat,
    via relaxed_eq_decreases
{
    if a is Object && b is Object {
        object_prefix_eq(a->Object_0, b->Object_0)
    } else if a is Array && b is Array {
        a->Array_0.len() == b->Array_0.len() && all_covered(a->Array_0, b->Array_0)
    } else {
        a == b
    }
}

/// The object rule: position by position, each pattern field must find the
/// same name and a relaxed-equal value at the same position of the
/// candidate; candidate fields past the pattern's length are ignored.
pub open spec fn object_prefix_eq(
    fa: Seq<(Seq<char>, JsonTree)>,
    fb: Seq<(Seq<char>, JsonTree)>,
) -> bool
    decreases fa, 0nat,
    via object_prefix_eq_decreases
{
    fa.len() == 0 || {
        &&& fb.len() > 0
        &&& fa[0].0 == fb[0].0
        &&& relaxed_eq(fa[0].1, fb[0].1)
        &&& object_prefix_eq(fa.subrange(1, fa.len() as int), fb.subrange(1, fb.len() as int))
    }
}

/// The array rule: every pattern element has some relaxed-equal
/// counterpart among the candidate elements.
pub open spec fn all_covered(xa: Seq<JsonTree>, xb: Seq<JsonTree>) -> bool
    decreases xa, 0nat,
    via all_covered_decreases
{
    xa.len() == 0 || {
        &&& has_counterpart(xa[0], xb)
        &&& all_covered(xa.subrange(1, xa.len() as int), xb)
    }
}

/// Whether some element of `xb` is a relaxed-equal counterpart of `x`.
pub open spec fn has_counterpart(x: JsonTree, xb: Seq<JsonTree>) -> bool
    decreases x, xb.len() + 1nat,
    via has_counterpart_decreases
{
    xb.len() > 0 && (relaxed_eq(x, xb[0]) || has_counterpart(x, xb.subrange(1, xb.len() as int)))
}

#[via_fn]
proof fn relaxed_eq_decreases(a: JsonTree, b: JsonTree) {
    if a is Object {
        assert(decreases_to!(a => a->Object_0));
    }
    if a is Array {
        assert(decreases_to!(a => a->Array_0));
    }
}

#[via_fn]
proof fn object_prefix_eq_decreases(fa: Seq<(Seq<char>, JsonTree)>, fb: Seq<(Seq<char>, JsonTree)>) {
    if fa.len() > 0 {
        assert(decreases_to!(fa => fa[0]));
        assert(decreases_to!(fa[0] => fa[0].1));
        assert(decreases_to!(fa => fa.subrange(1, fa.len() as int)));
    }
}

#[via_fn]
proof fn all_covered_decreases(xa: Seq<JsonTree>, xb: Seq<JsonTree>) {
    if xa.len() > 0 {
        assert(decreases_to!(xa => xa[0]));
        assert(decreases_to!(xa => xa.subrange(1, xa.len() as int)));
    }
}

#[via_fn]
proof fn has_counterpart_decreases(x: JsonTree, xb: Seq<JsonTree>) {
}

} // verus!

verus! {

proof fn lemma_object_prefix_le(fa: Seq<(Seq<char>, JsonTree)>, fb: Seq<(Seq<char>, JsonTree)>)
    ensures
        object_prefix_eq(fa, fb) ==> fa.len() <= fb.len(),
    decreases fa.len(),
{
    if fa.len() > 0 && fb.len() > 0 {
        lemma_object_prefix_le(
            fa.subrange(1, fa.len() as int),
            fb.subrange(1, fb.len() as int),
        );
    }
}

/// Decides the relaxed equality `relaxed_eq(a@, b@)`, with `a` as the
/// pattern side and `b` as the candidate side.
#[verifier::loop_isolation(false)]
pub fn relaxed_equals(a: &JsonValue, b: &JsonValue) -> (r: bool)
    ensures
        r == relaxed_eq(a@, b@),
    decreases *a,
{
    broadcast use lemma_trees_of_len, lemma_trees_of_index, lemma_field_trees_of_len, lemma_field_trees_of_index;

    match a {
        JsonValue::Object(xs) => {
            if let JsonValue::Object(ys) = b {
                let ghost fa = field_trees_of(xs@);
                let ghost fb = field_trees_of(ys@);
                proof {
                    assert(a@ == JsonTree::Object(fa));
                    assert(b@ == JsonTree::Object(fb));
                }
                if xs.len() > ys.len() {
                    proof {
                        lemma_object_prefix_le(fa, fb);
                    }
                    false
                } else {
                    let n = xs.len();
                    let mut i: usize = 0;
                    let mut ok = true;
                    proof {
                        assert(fa.subrange(0, fa.len() as int) =~= fa);
                        assert(fb.subrange(0, fb.len() as int) =~= fb);
                    }
                    while i < n
                        invariant
                            i <= n,
                            ok ==> object_prefix_eq(fa, fb) == object_prefix_eq(
                                fa.subrange(i as int, fa.len() as int),
                                fb.subrange(i as int, fb.len() as int),
                            ),
                            !ok ==> !object_prefix_eq(fa, fb),
                        decreases n - i,
                    {
                        proof {
                            lemma_field_trees_of_index(xs@, i as int);
                            lemma_field_trees_of_index(ys@, i as int);
                            assert(decreases_to!(*a => *xs));
                            assert(decreases_to!(*xs => xs@[i as int]));
                            assert(decreases_to!(xs@[i as int] => xs@[i as int].1));
                        }
                        if ok {
                            let ghost sa = fa.subrange(i as int, fa.len() as int);
                            let ghost sb = fb.subrange(i as int, fb.len() as int);
                            proof {
                                assert(sa[0] == fa[i as int]);
                                assert(sb[0] == fb[i as int]);
                                assert(sa.subrange(1, sa.len() as int)
                                    =~= fa.subrange(i + 1, fa.len() as int));
                                assert(sb.subrange(1, sb.len() as int)
                                    =~= fb.subrange(i + 1, fb.len() as int));
                            }
                            let keys_equal = xs[i].0 == ys[i].0;
                            if keys_equal && relaxed_equals(&xs[i].1, &ys[i].1) {
                                proof {
                                    assert(object_prefix_eq(sa, sb) == object_prefix_eq(
                                        fa.subrange(i + 1, fa.len() as int),
                                        fb.subrange(i + 1, fb.len() as int),
                                    ));
                                }
                            } else {
                                proof {
                                    assert(!object_prefix_eq(sa, sb));
                                }
                                ok = false;
                            }
                        }
                        i += 1;
                    }
                    proof {
                        if ok {
                            assert(fa.subrange(n as int, fa.len() as int).len() == 0);
                        }
                    }
                    ok
                }
            } else {
                json_eq(a, b)
            }
        },
        JsonValue::Array(xs) => {
            if let JsonValue::Array(ys) = b {
                let ghost xa = trees_of(xs@);
                let ghost xb = trees_of(ys@);
                proof {
                    assert(a@ == JsonTree::Array(xa));
                    assert(b@ == JsonTree::Array(xb));
                }
                if xs.len() != ys.len() {
                    false
                } else {
                    let n = xs.len();
                    let mut i: usize = 0;
                    let mut ok = true;
                    proof {
                        assert(xa.subrange(0, xa.len() as int) =~= xa);
                    }
                    while i < n
                        invariant
                            i <= n,
                            ok ==> all_covered(xa, xb) == all_covered(
                                xa.subrange(i as int, xa.len() as int),
                                xb,
                            ),
                            !ok ==> !all_covered(xa, xb),
                        decreases n - i,
                    {
                        proof {
                            lemma_trees_of_index(xs@, i as int);
                            assert(decreases_to!(*a => *xs));
                            assert(decreases_to!(*xs => xs@[i as int]));
                        }
                        if ok {
                            let ghost sa = xa.subrange(i as int, xa.len() as int);
                            proof {
                                assert(sa[0] == xa[i as int]);
                                assert(sa.subrange(1, sa.len() as int)
                                    =~= xa.subrange(i + 1, xa.len() as int));
                            }
                            let mut j: usize = 0;
                            let mut found = false;
                            proof {
                                assert(xb.subrange(0, xb.len() as int) =~= xb);
                            }
                            while j < n
                                invariant
                                    j <= n,
                                    i < n,
                                    !found ==> has_counterpart(xa[i as int], xb)
                                        == has_counterpart(
                                            xa[i as int],
                                            xb.subrange(j as int, xb.len() as int),
                                        ),
                                    found ==> has_counterpart(xa[i as int], xb),
                                decreases n - j,
                            {
                                proof {
                                    lemma_trees_of_index(ys@, j as int);
                                    let sb = xb.subrange(j as int, xb.len() as int);
                                    assert(sb[0] == xb[j as int]);
                                    assert(sb.subrange(1, sb.len() as int)
                                        =~= xb.subrange(j + 1, xb.len() as int));
                                }
                                if !found {
                                    if relaxed_equals(&xs[i], &ys[j]) {
                                        found = true;
                                    }
                                }
                                j += 1;
                            }
                            if !found {
                                proof {
                                    assert(xb.subrange(n as int, xb.len() as int).len() == 0);
                                    assert(!has_counterpart(xa[i as int], xb));
                                    assert(!all_covered(sa, xb));
                                }
                                ok = false;
                            }
                        }
                        i += 1;
                    }
                    proof {
                        if ok {
                            assert(xa.subrange(n as int, xa.len() as int).len() == 0);
                        }
                    }
                    ok
                }
            } else {
                json_eq(a, b)
            }
        },
        _ => {
            json_eq(a, b)
        },
    }
}

} // verus!

verus! {

#[verifier::external_type_specification]
#[verifier::external_body]
pub struct ExSerdeValue(serde_json::Value);

/// Whether the bytes parse as one JSON document.
pub uninterp spec fn json_parses(bytes: Seq<u8>) -> bool;

/// The document the bytes parse to, when they parse.
pub uninterp spec fn json_tree_of(bytes: Seq<u8>) -> JsonTree;

/// The document a parsed serde_json value holds.
pub uninterp spec fn value_tree(v: serde_json::Value) -> JsonTree;

/// Relies on serde_json::from_slice::<Value>: success and the resulting
/// document depend on the input bytes alone.
#[verifier::external_body]
fn parse_value(bytes: &[u8]) -> (r: Option<serde_json::Value>)
    ensures
        r is Some <==> json_parses(bytes@),
        r matches Some(v) ==> value_tree(v) == json_tree_of(bytes@),
{
    serde_json::from_slice::<serde_json::Value>(bytes).ok()
}

/// Relies on the public variants of serde_json::Value and the Display of
/// serde_json::Number: converts a parsed value into the library's own
/// document, one arm per variant, numbers by their canonical rendering,
/// object fields in the order serde_json's map iterates them.
#[verifier::external_body]
fn to_json_value(v: &serde_json::Value) -> (r: JsonValue)
    ensures
        r@ == value_tree(*v),
{
    match v {
        serde_json::Value::Null => JsonValue::Null,
        serde_json::Value::Bool(b) => JsonValue::Bool(*b),
        serde_json::Value::Number(n) => JsonValue::Number(n.to_string()),
        serde_json::Value::String(s) => JsonValue::Text(s.clone()),
        serde_json::Value::Array(a) => JsonValue::Array(a.iter().map(to_json_value).collect()),
        serde_json::Value::Object(m) => JsonValue::Object(
            m.iter().map(|(k, x)| (k.clone(), to_json_value(x))).collect(),
        ),
    }
}

/// Parses bytes into a document: `Some` exactly when the bytes are JSON.
pub fn parse_json(bytes: &[u8]) -> (r: Option<JsonValue>)
    ensures
        r is Some <==> json_parses(bytes@),
        r matches Some(v) ==> v@ == json_tree_of(bytes@),
{
    match parse_value(bytes) {
        Some(v) => Some(to_json_value(&v)),
        None => None,
    }
}

} // verus!

verus! {

/// The value of the first object field with the given name, if any.
pub open spec fn field_of(fields: Seq<(Seq<char>, JsonTree)>, name: Seq<char>) -> Option<JsonTree>
    decreases fields.len(),
{
    if fields.len() == 0 {
        None
    } else if fields[0].0 == name {
        Some(fields[0].1)
    } else {
        field_of(fields.subrange(1, fields.len() as int), name)
    }
}

/// Looks up the first field with the given name of an object document;
/// `None` on any other document kind.
#[verifier::loop_isolation(false)]
pub fn get_field<'a>(v: &'a JsonValue, name: &str) -> (r: Option<&'a JsonValue>)
    ensures
        v@ is Object ==> (r is Some <==> field_of(v@->Object_0, name@) is Some),
        v@ is Object ==> (r matches Some(f) ==> field_of(v@->Object_0, name@) == Some(f@)),
        !(v@ is Object) ==> r is None,
{
    broadcast use lemma_field_trees_of_len, lemma_field_trees_of_index;

    match v {
        JsonValue::Object(fields) => {
            let ghost fs = field_trees_of(fields@);
            proof {
                assert(v@->Object_0 == fs);
                assert(fs.subrange(0, fs.len() as int) =~= fs);
            }
            let n = fields.len();
            let mut i: usize = 0;
            while i < n
                invariant
                    i <= n,
                    n == fields@.len() == fs.len(),
                    field_of(fs, name@) == field_of(fs.subrange(i as int, fs.len() as int), name@),
                decreases n - i,
            {
                let ghost rest = fs.subrange(i as int, fs.len() as int);
                proof {
                    assert(rest[0] == fs[i as int]);
                    assert(rest.subrange(1, rest.len() as int) =~= fs.subrange(
                        i + 1,
                        fs.len() as int,
                    ));
                }
                let same = crate::text::bytes_equal(
                    fields[i].0.as_str().as_bytes(),
                    name.as_bytes(),
                );
                proof {
                    vstd::utf8::encode_utf8_decode_utf8(fields@[i as int].0@);
                    vstd::utf8::encode_utf8_decode_utf8(name@);
                }
                if same {
                    return Some(&fields[i].1);
                }
                i += 1;
            }
            proof {
                assert(fs.subrange(n as int, fs.len() as int).len() == 0);
            }
            None
        },
        _ => None,
    }
}

/// A deep copy of the document.
#[verifier::loop_isolation(false)]
pub fn duplicate(v: &JsonValue) -> (r: JsonValue)
    ensures
        r@ == v@,
    decreases *v,
{
    broadcast use lemma_trees_of_len, lemma_trees_of_index, lemma_field_trees_of_len, lemma_field_trees_of_index;

    match v {
        JsonValue::Null => JsonValue::Null,
        JsonValue::Bool(b) => JsonValue::Bool(*b),
        JsonValue::Number(s) => JsonValue::Number(s.clone()),
        JsonValue::Text(s) => JsonValue::Text(s.clone()),
        JsonValue::Array(items) => {
            let n = items.len();
            let mut out: Vec<JsonValue> = Vec::new();
            let mut i: usize = 0;
            while i < n
                invariant
                    i <= n,
                    n == items@.len(),
                    out@.len() == i,
                    v@ == JsonTree::Array(trees_of(items@)),
                    forall|k: int| 0 <= k < i ==> (#[trigger] out@[k])@ == trees_of(items@)[k],
                decreases n - i,
            {
                proof {
                    lemma_trees_of_index(items@, i as int);
                    assert(decreases_to!(*v => *items));
                    assert(decreases_to!(*items => items@[i as int]));
                }
                let d = duplicate(&items[i]);
                out.push(d);
                i += 1;
            }
            let r = JsonValue::Array(out);
            proof {
                assert(trees_of(out@) =~= trees_of(items@));
            }
            r
        },
        JsonValue::Object(fields) => {
            let n = fields.len();
            let mut out: Vec<(String, JsonValue)> = Vec::new();
            let mut i: usize = 0;
            while i < n
                invariant
                    i <= n,
                    n == fields@.len(),
                    out@.len() == i,
                    v@ == JsonTree::Object(field_trees_of(fields@)),
                    forall|k: int| 0 <= k < i ==> ((#[trigger] out@[k]).0@, out@[k].1@)
                        == field_trees_of(fields@)[k],
                decreases n - i,
            {
                proof {
                    lemma_field_trees_of_index(fields@, i as int);
                    assert(decreases_to!(*v => *fields));
                    assert(decreases_to!(*fields => fields@[i as int]));
                    assert(decreases_to!(fields@[i as int] => fields@[i as int].1));
                }
                let d = duplicate(&fields[i].1);
                let k = fields[i].0.clone();
                out.push((k, d));
                i += 1;
            }
            let r = JsonValue::Object(out);
            proof {
                assert(field_trees_of(out@) =~= field_trees_of(fields@));
            }
            r
        },
    }
}

} // verus!

verus! {

/// A document wrapped for relaxed comparison; the wrapped document is
/// the pattern side.
pub struct RelaxedJson<'a>(pub &'a JsonValue);

impl<'a> RelaxedJson<'a> {
    /// Decides the relaxed equality, this document being the pattern.
    pub fn equals(&self, other: &RelaxedJson<'_>) -> (r: bool)
        ensures
            r == relaxed_eq(self.0@, other.0@),
    {
        relaxed_equals(self.0, other.0)
    }
}

} // verus!
