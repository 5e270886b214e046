//! A lexical scanner for a small C-like scripting language.
//!
//! The crate turns source text into a stream of typed tokens, one per call.
//! `token` holds the closed set of token kinds and the keyword lookup, `chars`
//! the character classes, `scan` the scanning rules as mathematical functions
//! together with the laws that follow from them, and `lexer` the scanner itself.
pub mod chars;
pub mod lexer;
pub mod scan;
pub mod token;
