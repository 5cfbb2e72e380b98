//! The declarative stub document: loosely-typed fragments that each
//! register zero or more matchers on a stub builder, resolved by a
//! strict precedence order.

use vstd::prelude::*;
use crate::error::ConfigError;
use crate::matchers::Matcher;
use crate::mock::StubMappingBuilder;

pub mod body;
pub mod matcher;
pub mod path;
pub mod query;

verus! {

/// A fragment of the declarative document that can register its
/// matchers on a stub builder. Registration only ever appends: the
/// matchers already collected stay in place and in order, and each
/// implementation says, through its two spec functions, when it fails
/// and what a successful registration appends.
pub trait MockRegistrable {
    /// Whether registering this fragment fails with a configuration
    /// error.
    spec fn spec_register_errs(&self) -> bool;

    /// How the matchers after a successful registration relate to those
    /// before: which matchers this fragment appends.
    spec fn spec_registers(&self, before: Seq<Matcher>, after: Seq<Matcher>) -> bool;

    /// Appends this fragment's matchers, or reports a configuration
    /// error.
    fn register(&self, builder: StubMappingBuilder) -> (r: Result<StubMappingBuilder, ConfigError>)
        ensures
            r is Err <==> self.spec_register_errs(),
            r matches Ok(b) ==> b.spec_matchers().len() >= builder.spec_matchers().len()
                && b.spec_matchers().subrange(0, builder.spec_matchers().len() as int)
                == builder.spec_matchers() && self.spec_registers(
                builder.spec_matchers(),
                b.spec_matchers(),
            ),
    ;
}

} // verus!
