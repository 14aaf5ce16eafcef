//! Semantic analysis and code emission for the eas expression language.
//!
//! A source text is split into tokens ([`lexer`]) and read into a tree ([`parser`],
//! [`ast`]). The build pass ([`binding`]) walks the tree and binds every assigned name
//! in the scope it stands in ([`scope`]). The emit pass ([`emit`]) walks the tree again,
//! checks every call against the functions in scope ([`matching`], [`calls`]) and writes
//! stack machine instructions as text, or returns the first error ([`errors`],
//! [`messages`]). [`pipeline`] runs one compilation from end to end, and [`laws`] holds
//! what is proved of all of them.

pub mod ast;
pub mod binding;
pub mod byte_size;
pub mod calls;
pub mod emit;
pub mod errors;
pub mod laws;
pub mod layers;
pub mod lexer;
pub mod matching;
pub mod messages;
pub mod parser;
pub mod pipeline;
pub mod register;
pub mod scope;
pub mod text;
pub mod verbosity;
