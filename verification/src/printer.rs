//! The pretty-printer of types, patterns, terms, commands and programs.

pub mod doc;
pub mod type_printer;
pub mod pattern_printer;
pub mod term_printer;
pub mod operators;
