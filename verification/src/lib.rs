//! A bridge between a surface ML-family language and a minimal internal
//! representation of it: lexing, parsing, normalisation in both directions,
//! pretty-printing, and the tagged JSON encoding of the internal form.

pub mod text;
pub mod language;
pub mod lexer;
pub mod parser;
pub mod util;
pub mod processor;
pub mod printer;
pub mod serializer;
