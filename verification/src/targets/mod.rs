//! Free-standing per-target renderers that write source text directly
//! while walking the schema, without an intermediate AST.

pub mod java;
pub mod typescript;
