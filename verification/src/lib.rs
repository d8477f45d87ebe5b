//! Keyword/identifier classification stage of a tokenizer for a
//! JavaScript/TypeScript-like language.
//!
//! Given a source buffer and the position just past an already-consumed
//! first character, the lexer decides whether the character run beginning
//! there spells one of a fixed set of reserved words (yielding a dedicated
//! token type) or a general identifier. Every input resolves to exactly one
//! token; this stage never raises a lexical error.

pub mod chars;
pub mod keywords;
pub mod laws;
pub mod lexer;
pub mod token;
