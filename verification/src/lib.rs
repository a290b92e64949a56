//! Front end of a small statically typed expression language: source bytes are
//! scanned into spanned tokens, parsed by precedence climbing into a syntax
//! tree, and type checked into a tree in which every node carries its type.

pub mod environment;
pub mod error;
pub mod interner;
pub mod lexer;
pub mod parser;
pub mod semantic_analyzer;
