//! Turns an OpenAPI 3 document into a typed intermediate representation:
//! an algebraic IR for every named schema (sum types, product types,
//! primitives, nullability, optionality, cross-references) and a
//! shared-prefix trie over the route paths.

use vstd::prelude::*;

pub mod intermediate;
pub mod names;
pub mod normalize;
pub mod routes;
pub mod schema;
pub mod types;

verus! {

/// One generated output record: the emitter collaborator writes
/// `content` to `path` relative to the output directory.
pub struct File {
    pub path: String,
    pub content: String,
}

} // verus!
