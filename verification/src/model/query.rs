//! The query-parameter fragment of a declarative stub document: one
//! entry per parameter name, each resolved to at most one concrete
//! matcher by a strict precedence order — absence first, then exact
//! equality, case-insensitive equality, containment, and regex last.
//! An entry satisfying no rule contributes no constraint.

use vstd::prelude::*;
use vstd::utf8::{encode_utf8, valid_utf8};
use crate::error::ConfigError;
use crate::json::JsonValue;
use crate::matchers::query::{
    first_query_value, QueryParamCaseInsensitiveMatcher, QueryParamContainsMatcher,
    QueryParamExactMatcher, QueryParamExistsMatcher, QueryParamRegexMatcher,
};
use crate::matchers::{IntoMatcher, Match, Matcher};
use crate::mock::StubMappingBuilder;
use crate::model::matcher::{
    reads_fields, spec_equal_to_string, spec_is_absent, spec_is_by_regex,
    spec_is_case_insensitive, spec_is_contains, spec_is_equal_to, spec_is_exact_match,
    spec_matches_text, value_spec_ok, GenericMatcherStub,
};
use crate::model::MockRegistrable;
use crate::pattern::{regex_accepts, regex_compiles};
use crate::request::RequestModel;
use crate::text::{contains_seq, lower_seq};

verus! {

/// The absence flag of an entry, if one was given.
pub open spec fn spec_absent_flag(s: GenericMatcherStub) -> Option<bool> {
    match s.value {
        Some(g) => g.absent,
        None => None,
    }
}

/// The containment text of an entry, if one was given.
pub open spec fn spec_contains_text(s: GenericMatcherStub) -> Option<Seq<char>> {
    match s.value {
        Some(g) => match g.contains {
            Some(c) => Some(c@),
            None => None,
        },
        None => None,
    }
}

/// The query-parameter dimension of a declarative document: for each
/// parameter name, one loosely-typed value specification.
pub struct HttpQueryParamsStub {
    pub query_params: Option<Vec<(String, JsonValue)>>,
}

/// How one parsed entry reads one `name: constraints` pair.
pub open spec fn entry_read(g: GenericMatcherStub, kv: (String, JsonValue)) -> bool {
    &&& g.key@ == kv.0@
    &&& g.value is Some <==> value_spec_ok(kv.1@)
    &&& (g.value matches Some(vs) ==> reads_fields(vs, kv.1@))
}

/// How a sequence of parsed entries reads the fragment's pairs, one per
/// pair in document order.
pub open spec fn entries_read(es: Seq<GenericMatcherStub>, ps: Seq<(String, JsonValue)>) -> bool {
    es.len() == ps.len() && forall|k: int| 0 <= k < ps.len() ==> entry_read(#[trigger] es[k], ps[k])
}

impl HttpQueryParamsStub {
    /// The entries of the fragment, one per parameter, in document
    /// order.
    pub fn entries(&self) -> (r: Vec<GenericMatcherStub>)
        ensures
            match self.query_params {
                None => r@.len() == 0,
                Some(ps) => entries_read(r@, ps@),
            },
    {
        let mut r: Vec<GenericMatcherStub> = Vec::new();
        match &self.query_params {
            None => r,
            Some(ps) => {
                let n = ps.len();
                let mut i: usize = 0;
                while i < n
                    invariant
                        i <= n,
                        n == ps@.len(),
                        r@.len() == i,
                        forall|k: int| 0 <= k < i ==> entry_read(#[trigger] r@[k], ps@[k]),
                    decreases n - i,
                {
                    let e = GenericMatcherStub::from_entry(ps[i].0.as_str(), &ps[i].1);
                    r.push(e);
                    i += 1;
                }
                r
            },
        }
    }
}

/// The predicate the decision table assigns a resolving entry: absence
/// first, then exact equality, case-insensitive equality, containment,
/// and regex last — always keyed by the entry's parameter name.
pub open spec fn entry_predicate(s: GenericMatcherStub, rm: RequestModel) -> bool {
    let key = encode_utf8(s.key@);
    if spec_is_absent(s) {
        (first_query_value(rm.query, key) is Some) == (spec_absent_flag(s) == Some(false))
    } else if spec_is_exact_match(s) {
        first_query_value(rm.query, key) == Some(encode_utf8(spec_equal_to_string(s).unwrap()))
    } else if spec_is_case_insensitive(s) && spec_is_equal_to(s) {
        match first_query_value(rm.query, key) {
            Some(v) => lower_seq(v) == lower_seq(encode_utf8(spec_equal_to_string(s).unwrap())),
            None => false,
        }
    } else if spec_is_contains(s) {
        match first_query_value(rm.query, key) {
            Some(v) => contains_seq(v, encode_utf8(spec_contains_text(s).unwrap())),
            None => false,
        }
    } else {
        match first_query_value(rm.query, key) {
            Some(v) => valid_utf8(v) && regex_accepts(spec_matches_text(s).unwrap(), v),
            None => false,
        }
    }
}

/// Resolves one entry into at most one matcher, by the precedence
/// order: absence, exact equality, case-insensitive equality,
/// containment, regex. An entry fitting no rule, or whose exact value
/// cannot be coerced to a string, contributes nothing; only a regex
/// source that does not compile is a configuration error.
pub fn resolve_query_entry(stub: &GenericMatcherStub) -> (r: Result<Option<Matcher>, ConfigError>)
    ensures
        r is Err <==> entry_is_config_error(*stub),
        r is Err ==> r == Err::<Option<Matcher>, ConfigError>(ConfigError::InvalidRegex),
        (r matches Ok(o) && o is Some) <==> entry_resolves_to_matcher(*stub),
        r matches Ok(o) ==> (o matches Some(m) ==> forall|rm: RequestModel|
            #[trigger] m.spec_matches(rm) == entry_predicate(*stub, rm)),
{
    if stub.is_absent() {
        let absent_flag = match &stub.value {
            Some(g) => match g.absent {
                Some(a) => a,
                None => true,
            },
            None => true,
        };
        let m = if absent_flag {
            QueryParamExistsMatcher::does_not_exist(stub.key.as_str())
        } else {
            QueryParamExistsMatcher::does_exist(stub.key.as_str())
        };
        let packed = m.into_matcher();
        proof {
            assert forall|rm: RequestModel| #[trigger] packed.spec_matches(rm) == entry_predicate(
                *stub,
                rm,
            ) by {}
        }
        Ok(Some(packed))
    } else if stub.is_exact_match() {
        match stub.get_equal_to_as_string() {
            Some(val) => {
                let m = QueryParamExactMatcher::new(stub.key.as_str(), val.as_str());
                let packed = m.into_matcher();
                proof {
                    assert forall|rm: RequestModel| #[trigger] packed.spec_matches(rm)
                        == entry_predicate(*stub, rm) by {}
                }
                Ok(Some(packed))
            },
            None => Ok(None),
        }
    } else if stub.is_case_insensitive() && stub.is_equal_to() {
        match stub.get_equal_to_as_string() {
            Some(val) => {
                let m = QueryParamCaseInsensitiveMatcher::new(stub.key.as_str(), val.as_str());
                let packed = m.into_matcher();
                proof {
                    assert forall|rm: RequestModel| #[trigger] packed.spec_matches(rm)
                        == entry_predicate(*stub, rm) by {}
                }
                Ok(Some(packed))
            },
            None => Ok(None),
        }
    } else if stub.is_contains() {
        let text = match &stub.value {
            Some(g) => match &g.contains {
                Some(c) => c.as_str(),
                None => "",
            },
            None => "",
        };
        let m = QueryParamContainsMatcher::new(stub.key.as_str(), text);
        let packed = m.into_matcher();
        proof {
            assert forall|rm: RequestModel| #[trigger] packed.spec_matches(rm) == entry_predicate(
                *stub,
                rm,
            ) by {}
        }
        Ok(Some(packed))
    } else if stub.is_by_regex() {
        match stub.get_matches_as_str() {
            Some(src) => match QueryParamRegexMatcher::new(stub.key.as_str(), src.as_str()) {
                Ok(m) => {
                    let packed = m.into_matcher();
                    proof {
                        assert forall|rm: RequestModel| #[trigger] packed.spec_matches(rm)
                            == entry_predicate(*stub, rm) by {}
                    }
                    Ok(Some(packed))
                },
                Err(e) => Err(e),
            },
            None => Ok(None),
        }
    } else {
        Ok(None)
    }
}

impl QueryParamExactMatcher {
    /// Resolves an entry into an exact matcher: the exact value must
    /// coerce to a string.
    pub fn try_from(stub: &GenericMatcherStub) -> (r: Result<Self, ()>)
        ensures
            r is Ok <==> spec_equal_to_string(*stub) is Some,
            r matches Ok(m) ==> m.spec_key() == stub.key@ && Some(m.spec_value())
                == spec_equal_to_string(*stub),
    {
        match stub.get_equal_to_as_string() {
            Some(val) => Ok(QueryParamExactMatcher::new(stub.key.as_str(), val.as_str())),
            None => Err(()),
        }
    }
}

impl QueryParamCaseInsensitiveMatcher {
    /// Resolves an entry into a case-insensitive matcher: the entry
    /// must ask for case-insensitive comparison and carry a coercible
    /// exact value.
    pub fn try_from(stub: &GenericMatcherStub) -> (r: Result<Self, ()>)
        ensures
            r is Ok <==> spec_is_case_insensitive(*stub) && spec_equal_to_string(*stub) is Some,
            r matches Ok(m) ==> m.spec_key() == stub.key@ && Some(m.spec_value())
                == spec_equal_to_string(*stub),
    {
        if !stub.is_case_insensitive() {
            return Err(());
        }
        match stub.get_equal_to_as_string() {
            Some(val) => Ok(QueryParamCaseInsensitiveMatcher::new(stub.key.as_str(), val.as_str())),
            None => Err(()),
        }
    }
}

impl QueryParamContainsMatcher {
    /// Resolves an entry into a containment matcher: the entry must
    /// carry a non-empty containment text not overridden by an exact
    /// value.
    pub fn try_from(stub: &GenericMatcherStub) -> (r: Result<Self, ()>)
        ensures
            r is Ok <==> spec_is_contains(*stub),
            r matches Ok(m) ==> m.spec_key() == stub.key@ && Some(m.spec_value())
                == spec_contains_text(*stub),
    {
        if !stub.is_contains() {
            return Err(());
        }
        match &stub.value {
            Some(g) => match &g.contains {
                Some(c) => Ok(QueryParamContainsMatcher::new(stub.key.as_str(), c.as_str())),
                None => Err(()),
            },
            None => Err(()),
        }
    }
}

impl QueryParamExistsMatcher {
    /// Resolves an entry into an existence matcher: the entry must
    /// carry the absence flag; the polarity is its negation.
    pub fn try_from(stub: &GenericMatcherStub) -> (r: Result<Self, ()>)
        ensures
            r is Ok <==> spec_is_absent(*stub),
            r matches Ok(m) ==> m.spec_key() == stub.key@ && m.spec_expected() == (
                spec_absent_flag(*stub) == Some(false)),
    {
        match &stub.value {
            Some(g) => match g.absent {
                Some(a) => if a {
                    Ok(QueryParamExistsMatcher::does_not_exist(stub.key.as_str()))
                } else {
                    Ok(QueryParamExistsMatcher::does_exist(stub.key.as_str()))
                },
                None => Err(()),
            },
            None => Err(()),
        }
    }
}

/// Whether the decision table turns an entry into a matcher.
pub open spec fn entry_resolves_to_matcher(s: GenericMatcherStub) -> bool {
    if spec_is_absent(s) {
        true
    } else if spec_is_exact_match(s) {
        spec_equal_to_string(s) is Some
    } else if spec_is_case_insensitive(s) && spec_is_equal_to(s) {
        spec_equal_to_string(s) is Some
    } else if spec_is_contains(s) {
        true
    } else if spec_is_by_regex(s) {
        spec_matches_text(s) matches Some(src) && regex_compiles(src)
    } else {
        false
    }
}

/// Whether an entry is a configuration error: the regex rule applies
/// but its source does not compile.
pub open spec fn entry_is_config_error(s: GenericMatcherStub) -> bool {
    &&& !spec_is_absent(s)
    &&& !spec_is_exact_match(s)
    &&& !(spec_is_case_insensitive(s) && spec_is_equal_to(s))
    &&& !spec_is_contains(s)
    &&& spec_is_by_regex(s)
    &&& (spec_matches_text(s) matches Some(src) && !regex_compiles(src))
}

/// How many of the entries resolve to a matcher.
pub open spec fn resolved_count(entries: Seq<GenericMatcherStub>) -> nat
    decreases entries.len(),
{
    if entries.len() == 0 {
        0
    } else {
        (if entry_resolves_to_matcher(entries[0]) {
            1nat
        } else {
            0nat
        }) + resolved_count(entries.subrange(1, entries.len() as int))
    }
}

proof fn lemma_resolved_count_push(entries: Seq<GenericMatcherStub>, s: GenericMatcherStub)
    ensures
        resolved_count(entries.push(s)) == resolved_count(entries) + (
        if entry_resolves_to_matcher(s) {
            1nat
        } else {
            0nat
        }),
    decreases entries.len(),
{
    let p = entries.push(s);
    assert(p.len() == entries.len() + 1);
    assert(resolved_count(p) == (if entry_resolves_to_matcher(p[0]) {
        1nat
    } else {
        0nat
    }) + resolved_count(p.subrange(1, p.len() as int)));
    if entries.len() == 0 {
        assert(p[0] == s);
        assert(p.subrange(1, p.len() as int) =~= Seq::<GenericMatcherStub>::empty());
        assert(resolved_count(p.subrange(1, p.len() as int)) == 0);
    } else {
        assert(p[0] == entries[0]);
        assert(p.subrange(1, p.len() as int) =~= entries.subrange(1, entries.len() as int).push(s));
        lemma_resolved_count_push(entries.subrange(1, entries.len() as int), s);
        assert(resolved_count(entries) == (if entry_resolves_to_matcher(entries[0]) {
            1nat
        } else {
            0nat
        }) + resolved_count(entries.subrange(1, entries.len() as int)));
    }
}

/// The appended matchers correspond one-to-one, in order, with the
/// entries the decision table resolves: each resolving entry's matcher
/// carries exactly the predicate the table assigns it, and an entry
/// resolving to nothing contributes no matcher.
pub open spec fn matchers_resolve_entries(
    entries: Seq<GenericMatcherStub>,
    ms: Seq<Matcher>,
) -> bool
    decreases entries.len(),
{
    if entries.len() == 0 {
        ms.len() == 0
    } else {
        let rest = entries.subrange(1, entries.len() as int);
        if entry_resolves_to_matcher(entries[0]) {
            &&& ms.len() > 0
            &&& (forall|rm: RequestModel| #[trigger] ms[0].spec_matches(rm) == entry_predicate(
                entries[0],
                rm,
            ))
            &&& matchers_resolve_entries(rest, ms.subrange(1, ms.len() as int))
        } else {
            matchers_resolve_entries(rest, ms)
        }
    }
}

proof fn lemma_resolve_entries_push_some(
    entries: Seq<GenericMatcherStub>,
    ms: Seq<Matcher>,
    e: GenericMatcherStub,
    m: Matcher,
)
    requires
        matchers_resolve_entries(entries, ms),
        entry_resolves_to_matcher(e),
        forall|rm: RequestModel| #[trigger] m.spec_matches(rm) == entry_predicate(e, rm),
    ensures
        matchers_resolve_entries(entries.push(e), ms.push(m)),
    decreases entries.len(),
{
    let p = entries.push(e);
    let q = ms.push(m);
    if entries.len() == 0 {
        assert(ms.len() == 0);
        assert(p[0] == e);
        assert(q[0] == m);
        assert(p.subrange(1, p.len() as int) =~= Seq::<GenericMatcherStub>::empty());
        assert(q.subrange(1, q.len() as int) =~= Seq::<Matcher>::empty());
        assert(matchers_resolve_entries(
            p.subrange(1, p.len() as int),
            q.subrange(1, q.len() as int),
        ));
        assert forall|rm: RequestModel| #[trigger] q[0].spec_matches(rm) == entry_predicate(
            p[0],
            rm,
        ) by {
            assert(q[0].spec_matches(rm) == m.spec_matches(rm));
        }
        assert(matchers_resolve_entries(p, q));
    } else {
        assert(p[0] == entries[0]);
        assert(p.subrange(1, p.len() as int) =~= entries.subrange(1, entries.len() as int).push(e));
        if entry_resolves_to_matcher(entries[0]) {
            assert(q[0] == ms[0]);
            assert(q.subrange(1, q.len() as int) =~= ms.subrange(1, ms.len() as int).push(m));
            lemma_resolve_entries_push_some(
                entries.subrange(1, entries.len() as int),
                ms.subrange(1, ms.len() as int),
                e,
                m,
            );
            assert forall|rm: RequestModel| #[trigger] q[0].spec_matches(rm) == entry_predicate(
                p[0],
                rm,
            ) by {
                assert(q[0].spec_matches(rm) == ms[0].spec_matches(rm));
                assert(ms[0].spec_matches(rm) == entry_predicate(entries[0], rm));
            }
            assert(matchers_resolve_entries(p, q));
        } else {
            lemma_resolve_entries_push_some(entries.subrange(1, entries.len() as int), ms, e, m);
            assert(matchers_resolve_entries(p, q));
        }
    }
}

proof fn lemma_resolve_entries_push_none(
    entries: Seq<GenericMatcherStub>,
    ms: Seq<Matcher>,
    e: GenericMatcherStub,
)
    requires
        matchers_resolve_entries(entries, ms),
        !entry_resolves_to_matcher(e),
    ensures
        matchers_resolve_entries(entries.push(e), ms),
    decreases entries.len(),
{
    let p = entries.push(e);
    if entries.len() == 0 {
        assert(ms.len() == 0);
        assert(p[0] == e);
        assert(p.subrange(1, p.len() as int) =~= Seq::<GenericMatcherStub>::empty());
        assert(matchers_resolve_entries(p.subrange(1, p.len() as int), ms));
        assert(matchers_resolve_entries(p, ms));
    } else {
        assert(p[0] == entries[0]);
        assert(p.subrange(1, p.len() as int) =~= entries.subrange(1, entries.len() as int).push(e));
        if entry_resolves_to_matcher(entries[0]) {
            lemma_resolve_entries_push_none(
                entries.subrange(1, entries.len() as int),
                ms.subrange(1, ms.len() as int),
                e,
            );
            assert forall|rm: RequestModel| #[trigger] ms[0].spec_matches(rm) == entry_predicate(
                p[0],
                rm,
            ) by {
                assert(ms[0].spec_matches(rm) == entry_predicate(entries[0], rm));
            }
            assert(matchers_resolve_entries(p, ms));
        } else {
            lemma_resolve_entries_push_none(entries.subrange(1, entries.len() as int), ms, e);
            assert(matchers_resolve_entries(p, ms));
        }
    }
}

/// Two entries reading the same pair agree on everything the decision
/// table looks at: whether the entry resolves, whether it errs, and
/// which predicate its matcher carries.
proof fn lemma_entry_read_determines(
    g1: GenericMatcherStub,
    g2: GenericMatcherStub,
    kv: (String, JsonValue),
)
    requires
        entry_read(g1, kv),
        entry_read(g2, kv),
    ensures
        entry_resolves_to_matcher(g1) == entry_resolves_to_matcher(g2),
        entry_is_config_error(g1) == entry_is_config_error(g2),
        forall|rm: RequestModel| entry_predicate(g1, rm) == entry_predicate(g2, rm),
{
    assert(g1.key@ == g2.key@);
    if value_spec_ok(kv.1@) {
        let v1 = g1.value.unwrap();
        let v2 = g2.value.unwrap();
        assert(crate::model::matcher::opt_tree(v1.equal_to)
            == crate::model::matcher::opt_tree(v2.equal_to));
        assert(v1.case_insensitive == v2.case_insensitive);
        assert(crate::model::matcher::text_opt(v1.contains)
            == crate::model::matcher::text_opt(v2.contains));
        assert(crate::model::matcher::opt_tree(v1.matches_value)
            == crate::model::matcher::opt_tree(v2.matches_value));
        assert(v1.absent == v2.absent);
        assert(spec_is_equal_to(g1) == spec_is_equal_to(g2));
        assert(spec_is_case_insensitive(g1) == spec_is_case_insensitive(g2));
        assert(spec_is_contains(g1) == spec_is_contains(g2));
        assert(spec_is_absent(g1) == spec_is_absent(g2));
        assert(spec_absent_flag(g1) == spec_absent_flag(g2));
        assert(spec_is_by_regex(g1) == spec_is_by_regex(g2));
        assert(spec_is_exact_match(g1) == spec_is_exact_match(g2));
        assert(spec_equal_to_string(g1) == spec_equal_to_string(g2));
        assert(spec_matches_text(g1) == spec_matches_text(g2));
        assert(spec_contains_text(g1) == spec_contains_text(g2));
    } else {
        assert(g1.value is None && g2.value is None);
    }
}

/// Appends, in order, the matcher each entry resolves to: registration
/// succeeds exactly when no entry is a configuration error, appends one
/// matcher per resolving entry, and leaves the builder's earlier
/// matchers in place.
#[verifier::loop_isolation(false)]
pub fn register_entries(entries: &Vec<GenericMatcherStub>, builder: StubMappingBuilder) -> (r:
    Result<StubMappingBuilder, ConfigError>)
    ensures
        r is Err <==> exists|k: int| 0 <= k < entries@.len() && entry_is_config_error(
            #[trigger] entries@[k],
        ),
        r is Err ==> r == Err::<StubMappingBuilder, ConfigError>(ConfigError::InvalidRegex),
        r matches Ok(b) ==> b.spec_matchers().len() == builder.spec_matchers().len()
            + resolved_count(entries@) && b.spec_matchers().subrange(
            0,
            builder.spec_matchers().len() as int,
        ) == builder.spec_matchers() && matchers_resolve_entries(
            entries@,
            b.spec_matchers().subrange(
                builder.spec_matchers().len() as int,
                b.spec_matchers().len() as int,
            ),
        ),
{
    let ghost start = builder.spec_matchers();
    let n = entries.len();
    let mut b = builder;
    let mut i: usize = 0;
    proof {
        assert(b.spec_matchers().subrange(0, start.len() as int) =~= start);
        assert(entries@.subrange(0, 0) =~= Seq::<GenericMatcherStub>::empty());
        assert(b.spec_matchers().subrange(start.len() as int, b.spec_matchers().len() as int)
            =~= Seq::<Matcher>::empty());
    }
    while i < n
        invariant
            i <= n,
            n == entries@.len(),
            forall|k: int| 0 <= k < i ==> !entry_is_config_error(#[trigger] entries@[k]),
            b.spec_matchers().len() == start.len() + resolved_count(entries@.subrange(0, i as int)),
            b.spec_matchers().subrange(0, start.len() as int) == start,
            matchers_resolve_entries(
                entries@.subrange(0, i as int),
                b.spec_matchers().subrange(start.len() as int, b.spec_matchers().len() as int),
            ),
        decreases n - i,
    {
        proof {
            assert(entries@.subrange(0, i + 1) =~= entries@.subrange(0, i as int).push(
                entries@[i as int],
            ));
            lemma_resolved_count_push(entries@.subrange(0, i as int), entries@[i as int]);
        }
        match resolve_query_entry(&entries[i]) {
            Ok(Some(m)) => {
                let ghost appended = m;
                let b2 = b.and(m);
                proof {
                    assert(b2.spec_matchers().subrange(0, start.len() as int) =~= start);
                    assert(entry_resolves_to_matcher(entries@[i as int]));
                    let old_suffix = b.spec_matchers().subrange(
                        start.len() as int,
                        b.spec_matchers().len() as int,
                    );
                    let new_suffix = b2.spec_matchers().subrange(
                        start.len() as int,
                        b2.spec_matchers().len() as int,
                    );
                    assert(b2.spec_matchers().last() == b2.spec_matchers()[
                        b2.spec_matchers().len() - 1
                    ]);
                    assert forall|rm: RequestModel| #[trigger] b2.spec_matchers().last()
                        .spec_matches(rm) == entry_predicate(entries@[i as int], rm) by {
                        assert(b2.spec_matchers().last().spec_matches(rm)
                            == appended.spec_matches(rm));
                    }
                    assert(new_suffix =~= old_suffix.push(b2.spec_matchers().last()));
                    lemma_resolve_entries_push_some(
                        entries@.subrange(0, i as int),
                        old_suffix,
                        entries@[i as int],
                        b2.spec_matchers().last(),
                    );
                }
                b = b2;
            },
            Ok(None) => {
                proof {
                    assert(!entry_resolves_to_matcher(entries@[i as int]));
                    assert(!entry_is_config_error(entries@[i as int]));
                    lemma_resolve_entries_push_none(
                        entries@.subrange(0, i as int),
                        b.spec_matchers().subrange(
                            start.len() as int,
                            b.spec_matchers().len() as int,
                        ),
                        entries@[i as int],
                    );
                }
            },
            Err(e) => {
                proof {
                    assert(entry_is_config_error(entries@[i as int]));
                }
                return Err(e);
            },
        }
        i += 1;
    }
    proof {
        assert(entries@.subrange(0, n as int) =~= entries@);
    }
    Ok(b)
}

impl QueryParamRegexMatcher {
    /// Resolves an entry into a regex matcher: the regex rule must
    /// apply, the constraint must be text, and the source must compile.
    pub fn try_from(stub: &GenericMatcherStub) -> (r: Result<Self, ()>)
        ensures
            r is Ok <==> spec_is_by_regex(*stub) && (spec_matches_text(*stub) matches Some(src)
                && regex_compiles(src)),
            r matches Ok(m) ==> m.spec_key() == stub.key@ && Some(m.spec_pattern())
                == spec_matches_text(*stub),
    {
        if !stub.is_by_regex() {
            return Err(());
        }
        match stub.get_matches_as_str() {
            Some(src) => match QueryParamRegexMatcher::new(stub.key.as_str(), src.as_str()) {
                Ok(m) => Ok(m),
                Err(_) => Err(()),
            },
            None => Err(()),
        }
    }
}

impl MockRegistrable for HttpQueryParamsStub {
    open spec fn spec_register_errs(&self) -> bool {
        match self.query_params {
            None => false,
            Some(ps) => exists|es: Seq<GenericMatcherStub>|
                #[trigger] entries_read(es, ps@) && exists|k: int|
                    0 <= k < es.len() && entry_is_config_error(#[trigger] es[k]),
        }
    }

    open spec fn spec_registers(&self, before: Seq<Matcher>, after: Seq<Matcher>) -> bool {
        match self.query_params {
            None => after == before,
            Some(ps) => exists|es: Seq<GenericMatcherStub>|
                #[trigger] entries_read(es, ps@) && matchers_resolve_entries(
                    es,
                    after.subrange(before.len() as int, after.len() as int),
                ),
        }
    }

    /// Appends, in document order, the matcher each entry resolves to.
    fn register(&self, builder: StubMappingBuilder) -> (r: Result<StubMappingBuilder, ConfigError>) {
        let ghost before = builder.spec_matchers();
        let entries = self.entries();
        let r = register_entries(&entries, builder);
        proof {
            match &self.query_params {
                None => {
                    assert(entries@.len() == 0);
                    if r is Err {
                        let k = choose|k: int| 0 <= k < entries@.len() && entry_is_config_error(
                            #[trigger] entries@[k],
                        );
                        assert(false);
                    }
                    assert(resolved_count(entries@) == 0);
                    assert(r matches Ok(b) ==> b.spec_matchers() =~= before);
                },
                Some(ps) => {
                    assert(entries_read(entries@, ps@));
                    if r is Err {
                        let k = choose|k: int| 0 <= k < entries@.len() && entry_is_config_error(
                            #[trigger] entries@[k],
                        );
                        assert(0 <= k < entries@.len() && entry_is_config_error(entries@[k]));
                        assert(self.spec_register_errs());
                    } else {
                        if self.spec_register_errs() {
                            let es2 = choose|es: Seq<GenericMatcherStub>|
                                #[trigger] entries_read(es, ps@) && exists|k: int|
                                    0 <= k < es.len() && entry_is_config_error(#[trigger] es[k]);
                            let k2 = choose|k: int| 0 <= k < es2.len() && entry_is_config_error(
                                #[trigger] es2[k],
                            );
                            assert(entry_read(es2[k2], ps@[k2]));
                            assert(entry_read(entries@[k2], ps@[k2]));
                            lemma_entry_read_determines(es2[k2], entries@[k2], ps@[k2]);
                            assert(entry_is_config_error(entries@[k2]));
                            assert(r is Err);
                        }
                    }
                },
            }
        }
        r
    }
}

} // verus!
