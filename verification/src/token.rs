//! Tokens and the closed enumeration of token types.

use vstd::prelude::*;

verus! {

/// The type of a resolved token: a general identifier, or one dedicated
/// variant per reserved word of the language.
#[derive(Clone, Copy, Debug, PartialEq, Eq, Structural)]
pub enum TokenType {
    Identifier,
    Break,
    Case,
    Catch,
    Class,
    Continue,
    Debugger,
    Default,
    Delete,
    Do,
    Else,
    Enum,
    Export,
    Extends,
    False,
    Finally,
    For,
    Function,
    If,
    Implements,
    Import,
    In,
    Instanceof,
    Interface,
    New,
    Null,
    Package,
    Private,
    Protected,
    Public,
    Return,
    Static,
    Super,
    Switch,
    This,
    Throw,
    Try,
    Typeof,
    Void,
    While,
    With,
    Yield,
    DeclarationLet,
    Await,
}

/// An immutable lexical unit: a token type together with its half-open
/// span `[start, end)` over source offsets.
#[derive(Clone, Copy, Debug, PartialEq, Eq, Structural)]
pub struct Token {
    pub token_type: TokenType,
    pub start: usize,
    pub end: usize,
}

/// The fixed strict-reserved subset of the token types: words lexed
/// unconditionally with their own type, whose use as a binding name is
/// restricted only under strict-mode semantics. The parser consults this
/// set; this stage never enforces it.
pub open spec fn is_strict_reserved_spec(t: TokenType) -> bool {
    t == TokenType::DeclarationLet || t == TokenType::Await
}

/// Decides whether `t` belongs to the strict-reserved subset.
pub fn is_strict_reserved(t: TokenType) -> (r: bool)
    ensures
        r == is_strict_reserved_spec(t),
{
    match t {
        TokenType::DeclarationLet => true,
        TokenType::Await => true,
        _ => false,
    }
}

} // verus!
