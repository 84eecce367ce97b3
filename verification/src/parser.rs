//! The parsers: token sequences to types, patterns, terms, commands and
//! programs.

pub mod util;
pub mod type_parser;
pub mod pattern_parser;
pub mod term_parser;
pub mod program_parser;
