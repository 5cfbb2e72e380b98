//! Stubs and the stub registry. A stub is an ordered conjunction of
//! matchers plus the response template it answers with; the registry
//! keeps stubs in registration order and the first stub whose matchers
//! all pass wins.

use vstd::prelude::*;
use crate::matchers::{IntoMatcher, Match, Matcher};
use crate::request::{Request, RequestModel};
use crate::response::MockResponseBuilder;

verus! {

/// Whether every matcher of the sequence accepts the request.
pub open spec fn matchers_all_match(ms: Seq<Matcher>, r: RequestModel) -> bool
    decreases ms.len(),
{
    ms.len() == 0 || (ms[0].spec_matches(r) && matchers_all_match(
        ms.subrange(1, ms.len() as int),
        r,
    ))
}

/// A registered stub: matchers combined by logical AND, and the response
/// template returned on a match.
pub struct Stub {
    matchers: Vec<Matcher>,
    response: MockResponseBuilder,
}

impl Stub {
    /// The stub's matchers, in the order they were appended.
    pub closed spec fn spec_matchers(&self) -> Seq<Matcher> {
        self.matchers@
    }

    /// The stub's response template.
    pub closed spec fn spec_response(&self) -> MockResponseBuilder {
        self.response
    }

    /// Whether the stub accepts the request: every matcher must pass.
    pub open spec fn spec_matches(&self, r: RequestModel) -> bool {
        matchers_all_match(self.spec_matchers(), r)
    }

    /// Decides whether the stub accepts the request, stopping at the
    /// first failing matcher.
    #[verifier::loop_isolation(false)]
    pub fn matches(&self, request: &Request) -> (b: bool)
        ensures
            b == self.spec_matches(request@),
    {
        let ghost ms = self.matchers@;
        let n = self.matchers.len();
        let mut i: usize = 0;
        proof {
            assert(ms.subrange(0, ms.len() as int) =~= ms);
        }
        while i < n
            invariant
                i <= n,
                n == ms.len(),
                matchers_all_match(ms, request@) == matchers_all_match(
                    ms.subrange(i as int, ms.len() as int),
                    request@,
                ),
            decreases n - i,
        {
            let ghost rest = ms.subrange(i as int, ms.len() as int);
            proof {
                assert(rest[0] == ms[i as int]);
                assert(rest.subrange(1, rest.len() as int) =~= ms.subrange(i + 1, ms.len() as int));
            }
            if !self.matchers[i].matches(request) {
                return false;
            }
            i += 1;
        }
        proof {
            assert(ms.subrange(n as int, ms.len() as int).len() == 0);
        }
        true
    }

    /// The response template this stub answers with.
    pub fn response(&self) -> (r: &MockResponseBuilder)
        ensures
            *r == self.spec_response(),
    {
        &self.response
    }
}

/// Collects matchers for one stub, starting from one matcher and growing
/// by AND-composition.
pub struct StubMappingBuilder {
    matchers: Vec<Matcher>,
}

impl StubMappingBuilder {
    /// The matchers collected so far, in order.
    pub closed spec fn spec_matchers(&self) -> Seq<Matcher> {
        self.matchers@
    }

    /// Appends one more matcher: the stub will demand it as well.
    pub fn and<M: IntoMatcher>(self, matcher: M) -> (r: Self)
        ensures
            r.spec_matchers().len() == self.spec_matchers().len() + 1,
            forall|k: int| 0 <= k < self.spec_matchers().len()
                ==> #[trigger] r.spec_matchers()[k] == self.spec_matchers()[k],
            forall|rm: RequestModel| #[trigger] r.spec_matchers().last().spec_matches(rm)
                == matcher.spec_matches(rm),
    {
        let mut matchers = self.matchers;
        matchers.push(matcher.into_matcher());
        StubMappingBuilder { matchers }
    }

    /// Completes the stub with the response template it answers with.
    pub fn respond(self, response: MockResponseBuilder) -> (r: Stub)
        ensures
            r.spec_matchers() == self.spec_matchers(),
            r.spec_response() == response,
    {
        Stub { matchers: self.matchers, response }
    }
}

/// The entry point for building a stub.
pub struct Mock {}

impl Mock {
    /// Starts a stub from its first matcher.
    pub fn stub_for<M: IntoMatcher>(matcher: M) -> (r: StubMappingBuilder)
        ensures
            r.spec_matchers().len() == 1,
            forall|rm: RequestModel| #[trigger] r.spec_matchers()[0].spec_matches(rm)
                == matcher.spec_matches(rm),
    {
        StubMappingBuilder { matchers: vec![matcher.into_matcher()] }
    }
}

/// The position of the first stub accepting the request, if any.
pub open spec fn first_match(stubs: Seq<Stub>, r: RequestModel) -> Option<int>
    decreases stubs.len(),
{
    if stubs.len() == 0 {
        None
    } else if stubs[0].spec_matches(r) {
        Some(0int)
    } else {
        match first_match(stubs.subrange(1, stubs.len() as int), r) {
            Some(i) => Some(i + 1),
            None => None,
        }
    }
}

/// Stub precedence: the registry's answer is the earliest registered
/// stub that accepts the request — every stub registered before it
/// rejects the request, whatever the later stubs would say — and there
/// is no answer only when every stub rejects it.
pub proof fn lemma_first_match_earliest(stubs: Seq<Stub>, r: RequestModel)
    ensures
        match first_match(stubs, r) {
            Some(i) => 0 <= i < stubs.len() && stubs[i].spec_matches(r) && forall|j: int|
                0 <= j < i ==> !(#[trigger] stubs[j].spec_matches(r)),
            None => forall|j: int| 0 <= j < stubs.len() ==> !(#[trigger] stubs[j].spec_matches(r)),
        },
    decreases stubs.len(),
{
    if stubs.len() > 0 && !stubs[0].spec_matches(r) {
        let rest = stubs.subrange(1, stubs.len() as int);
        lemma_first_match_earliest(rest, r);
        assert forall|j: int| 1 <= j < stubs.len() implies stubs[j] == rest[j - 1] by {}
    }
}

/// The ordered collection of registered stubs. Evaluation order is
/// registration order: the first stub whose matchers all pass wins, and
/// later registrations never pre-empt earlier ones.
pub struct StubRegistry {
    stubs: Vec<Stub>,
}

impl StubRegistry {
    /// The registered stubs, in registration order.
    pub closed spec fn spec_stubs(&self) -> Seq<Stub> {
        self.stubs@
    }

    /// An empty registry.
    pub fn new() -> (r: Self)
        ensures
            r.spec_stubs() == Seq::<Stub>::empty(),
    {
        let r = StubRegistry { stubs: Vec::new() };
        proof {
            assert(r.spec_stubs() =~= Seq::<Stub>::empty());
        }
        r
    }

    /// How many stubs are registered.
    pub fn len(&self) -> (r: usize)
        ensures
            r == self.spec_stubs().len(),
    {
        self.stubs.len()
    }

    /// Appends a stub; stubs are never removed or reordered.
    pub fn register(&mut self, stub: Stub)
        ensures
            final(self).spec_stubs() == old(self).spec_stubs().push(stub),
    {
        self.stubs.push(stub);
    }

    /// The position of the first matching stub, in registration order.
    #[verifier::loop_isolation(false)]
    pub fn evaluate(&self, request: &Request) -> (r: Option<usize>)
        ensures
            r is Some <==> first_match(self.spec_stubs(), request@) is Some,
            r matches Some(i) ==> first_match(self.spec_stubs(), request@) == Some(i as int),
    {
        let ghost stubs = self.stubs@;
        let n = self.stubs.len();
        let mut i: usize = 0;
        proof {
            assert(stubs.subrange(0, stubs.len() as int) =~= stubs);
        }
        while i < n
            invariant
                i <= n,
                n == stubs.len(),
                first_match(stubs, request@) == (match first_match(
                    stubs.subrange(i as int, stubs.len() as int),
                    request@,
                ) {
                    Some(k) => Some(k + i),
                    None => None::<int>,
                }),
            decreases n - i,
        {
            let ghost rest = stubs.subrange(i as int, stubs.len() as int);
            proof {
                assert(rest[0] == stubs[i as int]);
                assert(rest.subrange(1, rest.len() as int) =~= stubs.subrange(
                    i + 1,
                    stubs.len() as int,
                ));
            }
            if self.stubs[i].matches(request) {
                return Some(i);
            }
            i += 1;
        }
        proof {
            assert(stubs.subrange(n as int, stubs.len() as int).len() == 0);
        }
        None
    }

    /// The stub at a position.
    pub fn stub_at(&self, i: usize) -> (r: &Stub)
        requires
            i < self.spec_stubs().len(),
        ensures
            *r == self.spec_stubs()[i as int],
    {
        &self.stubs[i]
    }
}

} // verus!
