//! A shell-like query language for a document database: bytes are decoded to
//! characters, characters are grouped into tokens, and token streams are parsed
//! into commands of the form `db.<collection>.<operation>(<args>)`.

pub mod chars;
pub mod error;
pub mod grammar;
pub mod lex;
pub mod number;
pub mod options;
pub mod parser;
pub mod region;
pub mod stream;
pub mod text;
pub mod token;
