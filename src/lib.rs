//! A lexer for a small C-like scripting language: it turns source text into
//! typed tokens, one at a time or all at once.

pub mod grammar;
pub mod lexer;
pub mod scan;
pub mod text;
pub mod tokens;

pub use lexer::Lexer;
pub use scan::scan;
pub use tokens::{LexError, Token};
