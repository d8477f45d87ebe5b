//! The fixed reserved-word set: each keyword's literal spelling, and the
//! decision function from a character run to the keyword it spells, if any.

use vstd::prelude::*;

use crate::chars::{is_ascii_lowercase_char, is_identifier_part};
use crate::token::TokenType;

verus! {

/// The literal spelling of a reserved word's token type, as a character
/// sequence. `Identifier` is no reserved word and spells nothing.
pub open spec fn spelling(t: TokenType) -> Seq<char> {
    match t {
        TokenType::Identifier => Seq::empty(),
        TokenType::Break => seq!['b', 'r', 'e', 'a', 'k'],
        TokenType::Case => seq!['c', 'a', 's', 'e'],
        TokenType::Catch => seq!['c', 'a', 't', 'c', 'h'],
        TokenType::Class => seq!['c', 'l', 'a', 's', 's'],
        TokenType::Continue => seq!['c', 'o', 'n', 't', 'i', 'n', 'u', 'e'],
        TokenType::Debugger => seq!['d', 'e', 'b', 'u', 'g', 'g', 'e', 'r'],
        TokenType::Default => seq!['d', 'e', 'f', 'a', 'u', 'l', 't'],
        TokenType::Delete => seq!['d', 'e', 'l', 'e', 't', 'e'],
        TokenType::Do => seq!['d', 'o'],
        TokenType::Else => seq!['e', 'l', 's', 'e'],
        TokenType::Enum => seq!['e', 'n', 'u', 'm'],
        TokenType::Export => seq!['e', 'x', 'p', 'o', 'r', 't'],
        TokenType::Extends => seq!['e', 'x', 't', 'e', 'n', 'd', 's'],
        TokenType::False => seq!['f', 'a', 'l', 's', 'e'],
        TokenType::Finally => seq!['f', 'i', 'n', 'a', 'l', 'l', 'y'],
        TokenType::For => seq!['f', 'o', 'r'],
        TokenType::Function => seq!['f', 'u', 'n', 'c', 't', 'i', 'o', 'n'],
        TokenType::If => seq!['i', 'f'],
        TokenType::Implements => seq!['i', 'm', 'p', 'l', 'e', 'm', 'e', 'n', 't', 's'],
        TokenType::Import => seq!['i', 'm', 'p', 'o', 'r', 't'],
        TokenType::In => seq!['i', 'n'],
        TokenType::Instanceof => seq!['i', 'n', 's', 't', 'a', 'n', 'c', 'e', 'o', 'f'],
        TokenType::Interface => seq!['i', 'n', 't', 'e', 'r', 'f', 'a', 'c', 'e'],
        TokenType::New => seq!['n', 'e', 'w'],
        TokenType::Null => seq!['n', 'u', 'l', 'l'],
        TokenType::Package => seq!['p', 'a', 'c', 'k', 'a', 'g', 'e'],
        TokenType::Private => seq!['p', 'r', 'i', 'v', 'a', 't', 'e'],
        TokenType::Protected => seq!['p', 'r', 'o', 't', 'e', 'c', 't', 'e', 'd'],
        TokenType::Public => seq!['p', 'u', 'b', 'l', 'i', 'c'],
        TokenType::Return => seq!['r', 'e', 't', 'u', 'r', 'n'],
        TokenType::Static => seq!['s', 't', 'a', 't', 'i', 'c'],
        TokenType::Super => seq!['s', 'u', 'p', 'e', 'r'],
        TokenType::Switch => seq!['s', 'w', 'i', 't', 'c', 'h'],
        TokenType::This => seq!['t', 'h', 'i', 's'],
        TokenType::Throw => seq!['t', 'h', 'r', 'o', 'w'],
        TokenType::Try => seq!['t', 'r', 'y'],
        TokenType::Typeof => seq!['t', 'y', 'p', 'e', 'o', 'f'],
        TokenType::Void => seq!['v', 'o', 'i', 'd'],
        TokenType::While => seq!['w', 'h', 'i', 'l', 'e'],
        TokenType::With => seq!['w', 'i', 't', 'h'],
        TokenType::Yield => seq!['y', 'i', 'e', 'l', 'd'],
        TokenType::DeclarationLet => seq!['l', 'e', 't'],
        TokenType::Await => seq!['a', 'w', 'a', 'i', 't'],
    }
}

/// The reserved word that the character run `w` spells exactly, if any.
/// A run spells a keyword only when it equals the keyword's full literal
/// spelling; the first character selects the family to compare against.
pub open spec fn keyword_of(w: Seq<char>) -> Option<TokenType> {
    if w.len() == 0 {
        None
    } else if w[0] == 'a' {
        if w == spelling(TokenType::Await) {
            Some(TokenType::Await)
        } else {
            None
        }
    } else if w[0] == 'b' {
        if w == spelling(TokenType::Break) {
            Some(TokenType::Break)
        } else {
            None
        }
    } else if w[0] == 'c' {
        if w == spelling(TokenType::Case) {
            Some(TokenType::Case)
        } else if w == spelling(TokenType::Catch) {
            Some(TokenType::Catch)
        } else if w == spelling(TokenType::Class) {
            Some(TokenType::Class)
        } else if w == spelling(TokenType::Continue) {
            Some(TokenType::Continue)
        } else {
            None
        }
    } else if w[0] == 'd' {
        if w == spelling(TokenType::Debugger) {
            Some(TokenType::Debugger)
        } else if w == spelling(TokenType::Default) {
            Some(TokenType::Default)
        } else if w == spelling(TokenType::Delete) {
            Some(TokenType::Delete)
        } else if w == spelling(TokenType::Do) {
            Some(TokenType::Do)
        } else {
            None
        }
    } else if w[0] == 'e' {
        if w == spelling(TokenType::Else) {
            Some(TokenType::Else)
        } else if w == spelling(TokenType::Enum) {
            Some(TokenType::Enum)
        } else if w == spelling(TokenType::Export) {
            Some(TokenType::Export)
        } else if w == spelling(TokenType::Extends) {
            Some(TokenType::Extends)
        } else {
            None
        }
    } else if w[0] == 'f' {
        if w == spelling(TokenType::False) {
            Some(TokenType::False)
        } else if w == spelling(TokenType::Finally) {
            Some(TokenType::Finally)
        } else if w == spelling(TokenType::For) {
            Some(TokenType::For)
        } else if w == spelling(TokenType::Function) {
            Some(TokenType::Function)
        } else {
            None
        }
    } else if w[0] == 'i' {
        if w == spelling(TokenType::If) {
            Some(TokenType::If)
        } else if w == spelling(TokenType::Implements) {
            Some(TokenType::Implements)
        } else if w == spelling(TokenType::Import) {
            Some(TokenType::Import)
        } else if w == spelling(TokenType::In) {
            Some(TokenType::In)
        } else if w == spelling(TokenType::Instanceof) {
            Some(TokenType::Instanceof)
        } else if w == spelling(TokenType::Interface) {
            Some(TokenType::Interface)
        } else {
            None
        }
    } else if w[0] == 'l' {
        if w == spelling(TokenType::DeclarationLet) {
            Some(TokenType::DeclarationLet)
        } else {
            None
        }
    } else if w[0] == 'n' {
        if w == spelling(TokenType::New) {
            Some(TokenType::New)
        } else if w == spelling(TokenType::Null) {
            Some(TokenType::Null)
        } else {
            None
        }
    } else if w[0] == 'p' {
        if w == spelling(TokenType::Package) {
            Some(TokenType::Package)
        } else if w == spelling(TokenType::Private) {
            Some(TokenType::Private)
        } else if w == spelling(TokenType::Protected) {
            Some(TokenType::Protected)
        } else if w == spelling(TokenType::Public) {
            Some(TokenType::Public)
        } else {
            None
        }
    } else if w[0] == 'r' {
        if w == spelling(TokenType::Return) {
            Some(TokenType::Return)
        } else {
            None
        }
    } else if w[0] == 's' {
        if w == spelling(TokenType::Static) {
            Some(TokenType::Static)
        } else if w == spelling(TokenType::Super) {
            Some(TokenType::Super)
        } else if w == spelling(TokenType::Switch) {
            Some(TokenType::Switch)
        } else {
            None
        }
    } else if w[0] == 't' {
        if w == spelling(TokenType::This) {
            Some(TokenType::This)
        } else if w == spelling(TokenType::Throw) {
            Some(TokenType::Throw)
        } else if w == spelling(TokenType::Try) {
            Some(TokenType::Try)
        } else if w == spelling(TokenType::Typeof) {
            Some(TokenType::Typeof)
        } else {
            None
        }
    } else if w[0] == 'v' {
        if w == spelling(TokenType::Void) {
            Some(TokenType::Void)
        } else {
            None
        }
    } else if w[0] == 'w' {
        if w == spelling(TokenType::While) {
            Some(TokenType::While)
        } else if w == spelling(TokenType::With) {
            Some(TokenType::With)
        } else {
            None
        }
    } else if w[0] == 'y' {
        if w == spelling(TokenType::Yield) {
            Some(TokenType::Yield)
        } else {
            None
        }
    } else {
        None
    }
}

/// Every reserved word's spelling is between two and ten characters long,
/// consists of identifier-continuation characters, begins with an ASCII
/// lowercase letter, and is recognized as exactly that reserved word.
pub proof fn lemma_spelling_props(t: TokenType)
    requires
        t != TokenType::Identifier,
    ensures
        2 <= spelling(t).len() <= 10,
        is_ascii_lowercase_char(spelling(t)[0]),
        forall|i: int| 0 <= i < spelling(t).len() ==> is_identifier_part(#[trigger] spelling(t)[i]),
        keyword_of(spelling(t)) == Some(t),
{
    assert(forall|i: int|
        0 <= i < spelling(t).len() ==> is_identifier_part(#[trigger] spelling(t)[i]));
}

/// A run is recognized as a reserved word only when it equals that word's
/// spelling; no run is ever recognized as `Identifier`.
pub proof fn lemma_keyword_of_some(w: Seq<char>, t: TokenType)
    requires
        keyword_of(w) == Some(t),
    ensures
        t != TokenType::Identifier,
        w == spelling(t),
{
}

} // verus!
