//! Code generation for JSON Schema Language schemas.
//!
//! A schema document is a tree of nodes, each carrying one of seven forms
//! (empty, reference, primitive type, enum, list, object, map, discriminated
//! union). The modules here turn such a tree into a target-neutral type AST
//! for each supported target language, hoist named declarations for every
//! definition and for the document root, and render the AST to source text.
//! The discriminated-union wire protocol that the generated code implements
//! is modelled and proved round-trip correct in `union`.

pub mod codegen;
pub mod ident;
pub mod schema;
pub mod targets;
pub mod text;
pub mod union;

use vstd::prelude::*;

verus! {

} // verus!
