//! The path fragment of a declarative stub document: an exact path, a
//! path regex, or neither.

use vstd::prelude::*;
use vstd::utf8::{encode_utf8, valid_utf8};
use crate::error::ConfigError;
use crate::matchers::path::{normalized_path, url_host_of, PathExactMatcher, PathRegexMatcher};
use crate::matchers::{IntoMatcher, Match, Matcher};
use crate::mock::StubMappingBuilder;
use crate::model::MockRegistrable;
use crate::pattern::regex_compiles;
use crate::request::RequestModel;

verus! {

/// The path dimension of a declarative document: match the decoded path
/// exactly, or by regex; an exact path takes precedence.
#[derive(Debug, Clone, PartialEq, Eq, Hash)]
pub struct HttpPathStub {
    pub path_equals: Option<String>,
    pub path_regex: Option<String>,
}

impl HttpPathStub {
    /// Appends the path matcher this fragment describes: the exact
    /// matcher when `path_equals` is given — rejecting a path carrying
    /// a query string or host — else the regex matcher when
    /// `path_regex` is given, else nothing.
    pub fn apply(&self, builder: StubMappingBuilder) -> (r: Result<StubMappingBuilder, ConfigError>)
        ensures
            r matches Ok(b) ==> b.spec_matchers().len() >= builder.spec_matchers().len()
                && b.spec_matchers().subrange(0, builder.spec_matchers().len() as int)
                == builder.spec_matchers(),
            ({
                match self.path_equals {
                    Some(p) => {
                        &&& encode_utf8(p@).contains(63) ==> r == Err::<
                            StubMappingBuilder,
                            ConfigError,
                        >(ConfigError::PathWithQuery)
                        &&& (!encode_utf8(p@).contains(63) && url_host_of(p@) is Some) ==> r
                            == Err::<StubMappingBuilder, ConfigError>(ConfigError::PathWithHost)
                        &&& (!encode_utf8(p@).contains(63) && url_host_of(p@) is None) ==> (r
                            matches Ok(b) && b.spec_matchers().len() == builder.spec_matchers().len()
                            + 1 && forall|rm: RequestModel| #[trigger] b.spec_matchers().last()
                            .spec_matches(rm) == (rm.path == encode_utf8(normalized_path(p@))))
                    },
                    None => match self.path_regex {
                        Some(x) => {
                            &&& regex_compiles(x@) ==> (r matches Ok(b) && b.spec_matchers().len()
                                == builder.spec_matchers().len() + 1 && forall|rm: RequestModel|
                                #[trigger] b.spec_matchers().last().spec_matches(rm) == (valid_utf8(
                                rm.path,
                            ) && crate::pattern::regex_accepts(x@, rm.path)))
                            &&& !regex_compiles(x@) ==> r == Err::<StubMappingBuilder, ConfigError>(
                                ConfigError::InvalidRegex,
                            )
                        },
                        None => r matches Ok(b) && b.spec_matchers() == builder.spec_matchers(),
                    },
                }
            }),
    {
        match &self.path_equals {
            Some(p) => match PathExactMatcher::new(p.as_str()) {
                Ok(m) => {
                    let b = builder.and(m);
                    proof {
                        assert(b.spec_matchers().subrange(0, b.spec_matchers().len() - 1)
                            =~= builder.spec_matchers());
                    }
                    Ok(b)
                },
                Err(e) => Err(e),
            },
            None => match &self.path_regex {
                Some(x) => match PathRegexMatcher::new(x.as_str()) {
                    Ok(m) => {
                        let b = builder.and(m);
                        proof {
                            assert(b.spec_matchers().subrange(0, b.spec_matchers().len() - 1)
                                =~= builder.spec_matchers());
                        }
                        Ok(b)
                    },
                    Err(e) => Err(e),
                },
                None => Ok(builder),
            },
        }
    }
}

impl MockRegistrable for HttpPathStub {
    open spec fn spec_register_errs(&self) -> bool {
        match self.path_equals {
            Some(p) => encode_utf8(p@).contains(63) || url_host_of(p@) is Some,
            None => match self.path_regex {
                Some(x) => !regex_compiles(x@),
                None => false,
            },
        }
    }

    open spec fn spec_registers(&self, before: Seq<Matcher>, after: Seq<Matcher>) -> bool {
        match self.path_equals {
            Some(p) => after.len() == before.len() + 1 && forall|rm: RequestModel|
                #[trigger] after.last().spec_matches(rm) == (rm.path == encode_utf8(
                    normalized_path(p@),
                )),
            None => match self.path_regex {
                Some(x) => after.len() == before.len() + 1 && forall|rm: RequestModel|
                    #[trigger] after.last().spec_matches(rm) == (valid_utf8(rm.path)
                        && crate::pattern::regex_accepts(x@, rm.path)),
                None => after == before,
            },
        }
    }

    fn register(&self, builder: StubMappingBuilder) -> (r: Result<StubMappingBuilder, ConfigError>) {
        self.apply(builder)
    }
}

} // verus!
