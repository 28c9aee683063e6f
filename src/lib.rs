//! A lexical scanner for the Lox scripting language.
//!
//! `Scanner::scan_tokens` turns source text into a sequence of tokens ending
//! in one `Eof` token. What the scanner produces is stated over the spec
//! function `lexical::scan`, and the properties of that function are proved in
//! `laws`.

pub mod token_type;
pub mod token;
pub mod text;
pub mod lox_error;
pub mod lexical;
pub mod scanner;
pub mod laws;
