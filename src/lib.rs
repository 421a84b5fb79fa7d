//! A lexical scanner for a small scripting language: it turns a source
//! buffer into a stream of tokens that refer to spans of that buffer.
pub mod token;
pub mod scanner;

pub mod compiler;
