//! Decoding of the escape sequences in the body of a JSON string literal.
pub mod grammar;
pub mod laws;
pub mod text;
pub mod unescape;

pub use grammar::EscapeState;
pub use unescape::{unescape_str, UnescapeError};
