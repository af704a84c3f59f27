//! One module per target language. Each target owns its AST, a transformer
//! from the schema model into that AST, and an emitter from the AST to
//! source text.

pub mod go;
pub mod java;
pub mod typescript;
