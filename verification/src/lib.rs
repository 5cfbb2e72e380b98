//! An embeddable HTTP stub server core: request predicates ("matchers"),
//! stubs that combine them, a registry that picks the first matching stub,
//! a relaxed structural JSON comparison, and the state machine of a
//! gracefully draining connection server.

pub mod error;
pub mod matchers;
pub mod mock;
pub mod model;
pub mod json;
pub mod pattern;
pub mod request;
pub mod response;
pub mod server;
pub mod text;
