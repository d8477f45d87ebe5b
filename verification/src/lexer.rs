//! The lexer: a position-tracked cursor over a source buffer, and the
//! resolution of one identifier-or-keyword token per invocation.

use vstd::prelude::*;

use crate::chars::{ascii_lowercase, identifier_part, is_identifier_part};
use crate::keywords::{keyword_of, lemma_keyword_of_some, lemma_spelling_props, spelling};
use crate::token::{Token, TokenType};

verus! {

/// The first offset at or after `i` that does not hold an
/// identifier-continuation character, clamped to the end of the source.
/// The identifier run that begins at `i` spans `[i, ident_end(s, i))`.
pub open spec fn ident_end(s: Seq<char>, i: int) -> int
    decreases s.len() - i,
{
    if i < s.len() && is_identifier_part(s[i]) {
        ident_end(s, i + 1)
    } else {
        i
    }
}

/// The run's end lies between its start and the end of the source.
pub proof fn lemma_ident_end_bounds(s: Seq<char>, i: int)
    requires
        0 <= i <= s.len(),
    ensures
        i <= ident_end(s, i) <= s.len(),
    decreases s.len() - i,
{
    if i < s.len() && is_identifier_part(s[i]) {
        lemma_ident_end_bounds(s, i + 1);
    }
}

/// A stretch of identifier-continuation characters that ends at the end of
/// the source or just before a non-continuation character is exactly the
/// identifier run: `ident_end` lands on its right edge.
pub proof fn lemma_ident_end_run(s: Seq<char>, i: int, e: int)
    requires
        0 <= i <= e <= s.len(),
        forall|j: int| i <= j < e ==> is_identifier_part(#[trigger] s[j]),
        e == s.len() || !is_identifier_part(s[e]),
    ensures
        ident_end(s, i) == e,
    decreases e - i,
{
    if i < e {
        lemma_ident_end_run(s, i + 1, e);
    }
}

/// The type that resolution assigns to the token beginning at `start`,
/// whose first character was already consumed: the dedicated keyword type
/// when the full identifier run beginning at `start` spells a reserved
/// word, and `Identifier` otherwise.
pub open spec fn resolved_type(s: Seq<char>, start: int) -> TokenType {
    match keyword_of(s.subrange(start, ident_end(s, start + 1))) {
        Some(t) => t,
        None => TokenType::Identifier,
    }
}

/// The resolution relation: token `t` and resulting cursor position `end`
/// are what resolving from `start` over source `s` yields. Resolution is a
/// function of `(s, start)` alone, so this relation holds of exactly one
/// `(t, end)` pair.
pub open spec fn resolves_to(s: Seq<char>, start: int, t: Token, end: int) -> bool {
    &&& t.token_type == resolved_type(s, start)
    &&& t.start as int == start
    &&& t.end as int == end
    &&& end == ident_end(s, start + 1)
}

/// A lexer owning exclusive access to one fully-resident source buffer.
/// `pos` is the offset of the next unconsumed character; it only ever
/// moves forward.
pub struct Lexer {
    pub source: Vec<char>,
    pub pos: usize,
}

impl Lexer {
    /// A fresh lexer positioned at the start of `source`.
    pub fn new(source: Vec<char>) -> (lx: Lexer)
        ensures
            lx.source == source,
            lx.pos == 0,
    {
        Lexer { source, pos: 0 }
    }

    /// The next unconsumed character, without consuming it.
    pub fn peek(&self) -> (r: Option<char>)
        ensures
            r == if self.pos < self.source@.len() {
                Some(self.source@[self.pos as int])
            } else {
                None::<char>
            },
    {
        if self.pos < self.source.len() {
            Some(self.source[self.pos])
        } else {
            None
        }
    }

    /// Consumes and returns the next character, if any.
    pub fn advance(&mut self) -> (r: Option<char>)
        ensures
            final(self).source == old(self).source,
            r == if old(self).pos < old(self).source@.len() {
                Some(old(self).source@[old(self).pos as int])
            } else {
                None::<char>
            },
            final(self).pos == if old(self).pos < old(self).source@.len() {
                old(self).pos + 1
            } else {
                old(self).pos as int
            },
    {
        if self.pos < self.source.len() {
            let c = self.source[self.pos];
            self.pos = self.pos + 1;
            Some(c)
        } else {
            None
        }
    }

    /// The character at offset `i`.
    fn ch(&self, i: usize) -> (c: char)
        requires
            i < self.source@.len(),
        ensures
            c == self.source@[i as int],
    {
        self.source[i]
    }

    /// A token of the given type spanning from `start` to the current
    /// cursor position.
    fn token(&self, start: usize, token_type: TokenType) -> (t: Token)
        ensures
            t.token_type == token_type,
            t.start == start,
            t.end == self.pos,
    {
        Token { token_type, start, end: self.pos }
    }

    /// Consumes every contiguous identifier-continuation character from the
    /// current position and emits an `Identifier` token spanning from
    /// `start` to the final cursor position. The universal fallback and
    /// terminal state: every path that rules out an exact keyword match
    /// ends here.
    pub fn resolve_identifier(&mut self, start: usize) -> (t: Token)
        requires
            old(self).pos <= old(self).source@.len(),
            start <= old(self).pos,
        ensures
            final(self).source == old(self).source,
            final(self).pos == ident_end(old(self).source@, old(self).pos as int),
            t.token_type == TokenType::Identifier,
            t.start == start,
            t.end == final(self).pos,
    {
        loop
            invariant
                self.source == old(self).source,
                self.pos <= self.source@.len(),
                ident_end(self.source@, self.pos as int) == ident_end(
                    old(self).source@,
                    old(self).pos as int,
                ),
            decreases self.source@.len() - self.pos,
        {
            match self.peek() {
                Some(c) => {
                    if identifier_part(c) {
                        let _ = self.advance();
                    } else {
                        return self.token(start, TokenType::Identifier);
                    }
                },
                None => {
                    return self.token(start, TokenType::Identifier);
                },
            }
        }
    }

    /// Decides whether the already-scanned run `[start, end)` spells a
    /// reserved word, and which. The first character selects the keyword
    /// family; the run must then equal a family member's full spelling.
    pub fn resolve_keyword(&self, start: usize, end: usize) -> (r: Option<TokenType>)
        requires
            start <= end,
            end <= self.source@.len(),
        ensures
            r == keyword_of(self.source@.subrange(start as int, end as int)),
    {
        let ghost w = self.source@.subrange(start as int, end as int);
        let n = end - start;
        if n < 2 || n > 10 {
            proof {
                if keyword_of(w) is Some {
                    let t = keyword_of(w)->Some_0;
                    lemma_keyword_of_some(w, t);
                    lemma_spelling_props(t);
                }
            }
            return None;
        }
        let r: Option<TokenType> = match self.ch(start) {
            'a' => {
                if n == 5 && self.ch(start + 1) == 'w' && self.ch(start + 2) == 'a' && self.ch(
                    start + 3,
                ) == 'i' && self.ch(start + 4) == 't' {
                    proof {
                        assert(w =~= spelling(TokenType::Await));
                    }
                    Some(TokenType::Await)
                } else {
                    None
                }
            },
            'b' => {
                if n == 5 && self.ch(start + 1) == 'r' && self.ch(start + 2) == 'e' && self.ch(
                    start + 3,
                ) == 'a' && self.ch(start + 4) == 'k' {
                    proof {
                        assert(w =~= spelling(TokenType::Break));
                    }
                    Some(TokenType::Break)
                } else {
                    None
                }
            },
            'c' => {
                if n == 4 && self.ch(start + 1) == 'a' && self.ch(start + 2) == 's' && self.ch(
                    start + 3,
                ) == 'e' {
                    proof {
                        assert(w =~= spelling(TokenType::Case));
                    }
                    Some(TokenType::Case)
                } else if n == 5 && self.ch(start + 1) == 'a' && self.ch(start + 2) == 't'
                    && self.ch(start + 3) == 'c' && self.ch(start + 4) == 'h' {
                    proof {
                        assert(w =~= spelling(TokenType::Catch));
                    }
                    Some(TokenType::Catch)
                } else if n == 5 && self.ch(start + 1) == 'l' && self.ch(start + 2) == 'a'
                    && self.ch(start + 3) == 's' && self.ch(start + 4) == 's' {
                    proof {
                        assert(w =~= spelling(TokenType::Class));
                    }
                    Some(TokenType::Class)
                } else if n == 8 && self.ch(start + 1) == 'o' && self.ch(start + 2) == 'n'
                    && self.ch(start + 3) == 't' && self.ch(start + 4) == 'i' && self.ch(start + 5)
                    == 'n' && self.ch(start + 6) == 'u' && self.ch(start + 7) == 'e' {
                    proof {
                        assert(w =~= spelling(TokenType::Continue));
                    }
                    Some(TokenType::Continue)
                } else {
                    None
                }
            },
            'd' => {
                if n == 8 && self.ch(start + 1) == 'e' && self.ch(start + 2) == 'b' && self.ch(
                    start + 3,
                ) == 'u' && self.ch(start + 4) == 'g' && self.ch(start + 5) == 'g' && self.ch(
                    start + 6,
                ) == 'e' && self.ch(start + 7) == 'r' {
                    proof {
                        assert(w =~= spelling(TokenType::Debugger));
                    }
                    Some(TokenType::Debugger)
                } else if n == 7 && self.ch(start + 1) == 'e' && self.ch(start + 2) == 'f'
                    && self.ch(start + 3) == 'a' && self.ch(start + 4) == 'u' && self.ch(start + 5)
                    == 'l' && self.ch(start + 6) == 't' {
                    proof {
                        assert(w =~= spelling(TokenType::Default));
                    }
                    Some(TokenType::Default)
                } else if n == 6 && self.ch(start + 1) == 'e' && self.ch(start + 2) == 'l'
                    && self.ch(start + 3) == 'e' && self.ch(start + 4) == 't' && self.ch(start + 5)
                    == 'e' {
                    proof {
                        assert(w =~= spelling(TokenType::Delete));
                    }
                    Some(TokenType::Delete)
                } else if n == 2 && self.ch(start + 1) == 'o' {
                    proof {
                        assert(w =~= spelling(TokenType::Do));
                    }
                    Some(TokenType::Do)
                } else {
                    None
                }
            },
            'e' => {
                if n == 4 && self.ch(start + 1) == 'l' && self.ch(start + 2) == 's' && self.ch(
                    start + 3,
                ) == 'e' {
                    proof {
                        assert(w =~= spelling(TokenType::Else));
                    }
                    Some(TokenType::Else)
                } else if n == 4 && self.ch(start + 1) == 'n' && self.ch(start + 2) == 'u'
                    && self.ch(start + 3) == 'm' {
                    proof {
                        assert(w =~= spelling(TokenType::Enum));
                    }
                    Some(TokenType::Enum)
                } else if n == 6 && self.ch(start + 1) == 'x' && self.ch(start + 2) == 'p'
                    && self.ch(start + 3) == 'o' && self.ch(start + 4) == 'r' && self.ch(start + 5)
                    == 't' {
                    proof {
                        assert(w =~= spelling(TokenType::Export));
                    }
                    Some(TokenType::Export)
                } else if n == 7 && self.ch(start + 1) == 'x' && self.ch(start + 2) == 't'
                    && self.ch(start + 3) == 'e' && self.ch(start + 4) == 'n' && self.ch(start + 5)
                    == 'd' && self.ch(start + 6) == 's' {
                    proof {
                        assert(w =~= spelling(TokenType::Extends));
                    }
                    Some(TokenType::Extends)
                } else {
                    None
                }
            },
            'f' => {
                if n == 5 && self.ch(start + 1) == 'a' && self.ch(start + 2) == 'l' && self.ch(
                    start + 3,
                ) == 's' && self.ch(start + 4) == 'e' {
                    proof {
                        assert(w =~= spelling(TokenType::False));
                    }
                    Some(TokenType::False)
                } else if n == 7 && self.ch(start + 1) == 'i' && self.ch(start + 2) == 'n'
                    && self.ch(start + 3) == 'a' && self.ch(start + 4) == 'l' && self.ch(start + 5)
                    == 'l' && self.ch(start + 6) == 'y' {
                    proof {
                        assert(w =~= spelling(TokenType::Finally));
                    }
                    Some(TokenType::Finally)
                } else if n == 3 && self.ch(start + 1) == 'o' && self.ch(start + 2) == 'r' {
                    proof {
                        assert(w =~= spelling(TokenType::For));
                    }
                    Some(TokenType::For)
                } else if n == 8 && self.ch(start + 1) == 'u' && self.ch(start + 2) == 'n'
                    && self.ch(start + 3) == 'c' && self.ch(start + 4) == 't' && self.ch(start + 5)
                    == 'i' && self.ch(start + 6) == 'o' && self.ch(start + 7) == 'n' {
                    proof {
                        assert(w =~= spelling(TokenType::Function));
                    }
                    Some(TokenType::Function)
                } else {
                    None
                }
            },
            'i' => {
                if n == 2 && self.ch(start + 1) == 'f' {
                    proof {
                        assert(w =~= spelling(TokenType::If));
                    }
                    Some(TokenType::If)
                } else if n == 2 && self.ch(start + 1) == 'n' {
                    proof {
                        assert(w =~= spelling(TokenType::In));
                    }
                    Some(TokenType::In)
                } else if n == 10 && self.ch(start + 1) == 'm' && self.ch(start + 2) == 'p'
                    && self.ch(start + 3) == 'l' && self.ch(start + 4) == 'e' && self.ch(start + 5)
                    == 'm' && self.ch(start + 6) == 'e' && self.ch(start + 7) == 'n' && self.ch(
                    start + 8,
                ) == 't' && self.ch(start + 9) == 's' {
                    proof {
                        assert(w =~= spelling(TokenType::Implements));
                    }
                    Some(TokenType::Implements)
                } else if n == 6 && self.ch(start + 1) == 'm' && self.ch(start + 2) == 'p'
                    && self.ch(start + 3) == 'o' && self.ch(start + 4) == 'r' && self.ch(start + 5)
                    == 't' {
                    proof {
                        assert(w =~= spelling(TokenType::Import));
                    }
                    Some(TokenType::Import)
                } else if n == 10 && self.ch(start + 1) == 'n' && self.ch(start + 2) == 's'
                    && self.ch(start + 3) == 't' && self.ch(start + 4) == 'a' && self.ch(start + 5)
                    == 'n' && self.ch(start + 6) == 'c' && self.ch(start + 7) == 'e' && self.ch(
                    start + 8,
                ) == 'o' && self.ch(start + 9) == 'f' {
                    proof {
                        assert(w =~= spelling(TokenType::Instanceof));
                    }
                    Some(TokenType::Instanceof)
                } else if n == 9 && self.ch(start + 1) == 'n' && self.ch(start + 2) == 't'
                    && self.ch(start + 3) == 'e' && self.ch(start + 4) == 'r' && self.ch(start + 5)
                    == 'f' && self.ch(start + 6) == 'a' && self.ch(start + 7) == 'c' && self.ch(
                    start + 8,
                ) == 'e' {
                    proof {
                        assert(w =~= spelling(TokenType::Interface));
                    }
                    Some(TokenType::Interface)
                } else {
                    None
                }
            },
            'l' => {
                if n == 3 && self.ch(start + 1) == 'e' && self.ch(start + 2) == 't' {
                    proof {
                        assert(w =~= spelling(TokenType::DeclarationLet));
                    }
                    Some(TokenType::DeclarationLet)
                } else {
                    None
                }
            },
            'n' => {
                if n == 3 && self.ch(start + 1) == 'e' && self.ch(start + 2) == 'w' {
                    proof {
                        assert(w =~= spelling(TokenType::New));
                    }
                    Some(TokenType::New)
                } else if n == 4 && self.ch(start + 1) == 'u' && self.ch(start + 2) == 'l'
                    && self.ch(start + 3) == 'l' {
                    proof {
                        assert(w =~= spelling(TokenType::Null));
                    }
                    Some(TokenType::Null)
                } else {
                    None
                }
            },
            'p' => {
                if n == 7 && self.ch(start + 1) == 'a' && self.ch(start + 2) == 'c' && self.ch(
                    start + 3,
                ) == 'k' && self.ch(start + 4) == 'a' && self.ch(start + 5) == 'g' && self.ch(
                    start + 6,
                ) == 'e' {
                    proof {
                        assert(w =~= spelling(TokenType::Package));
                    }
                    Some(TokenType::Package)
                } else if n == 7 && self.ch(start + 1) == 'r' && self.ch(start + 2) == 'i'
                    && self.ch(start + 3) == 'v' && self.ch(start + 4) == 'a' && self.ch(start + 5)
                    == 't' && self.ch(start + 6) == 'e' {
                    proof {
                        assert(w =~= spelling(TokenType::Private));
                    }
                    Some(TokenType::Private)
                } else if n == 9 && self.ch(start + 1) == 'r' && self.ch(start + 2) == 'o'
                    && self.ch(start + 3) == 't' && self.ch(start + 4) == 'e' && self.ch(start + 5)
                    == 'c' && self.ch(start + 6) == 't' && self.ch(start + 7) == 'e' && self.ch(
                    start + 8,
                ) == 'd' {
                    proof {
                        assert(w =~= spelling(TokenType::Protected));
                    }
                    Some(TokenType::Protected)
                } else if n == 6 && self.ch(start + 1) == 'u' && self.ch(start + 2) == 'b'
                    && self.ch(start + 3) == 'l' && self.ch(start + 4) == 'i' && self.ch(start + 5)
                    == 'c' {
                    proof {
                        assert(w =~= spelling(TokenType::Public));
                    }
                    Some(TokenType::Public)
                } else {
                    None
                }
            },
            'r' => {
                if n == 6 && self.ch(start + 1) == 'e' && self.ch(start + 2) == 't' && self.ch(
                    start + 3,
                ) == 'u' && self.ch(start + 4) == 'r' && self.ch(start + 5) == 'n' {
                    proof {
                        assert(w =~= spelling(TokenType::Return));
                    }
                    Some(TokenType::Return)
                } else {
                    None
                }
            },
            's' => {
                if n == 6 && self.ch(start + 1) == 't' && self.ch(start + 2) == 'a' && self.ch(
                    start + 3,
                ) == 't' && self.ch(start + 4) == 'i' && self.ch(start + 5) == 'c' {
                    proof {
                        assert(w =~= spelling(TokenType::Static));
                    }
                    Some(TokenType::Static)
                } else if n == 5 && self.ch(start + 1) == 'u' && self.ch(start + 2) == 'p'
                    && self.ch(start + 3) == 'e' && self.ch(start + 4) == 'r' {
                    proof {
                        assert(w =~= spelling(TokenType::Super));
                    }
                    Some(TokenType::Super)
                } else if n == 6 && self.ch(start + 1) == 'w' && self.ch(start + 2) == 'i'
                    && self.ch(start + 3) == 't' && self.ch(start + 4) == 'c' && self.ch(start + 5)
                    == 'h' {
                    proof {
                        assert(w =~= spelling(TokenType::Switch));
                    }
                    Some(TokenType::Switch)
                } else {
                    None
                }
            },
            't' => {
                if n == 4 && self.ch(start + 1) == 'h' && self.ch(start + 2) == 'i' && self.ch(
                    start + 3,
                ) == 's' {
                    proof {
                        assert(w =~= spelling(TokenType::This));
                    }
                    Some(TokenType::This)
                } else if n == 5 && self.ch(start + 1) == 'h' && self.ch(start + 2) == 'r'
                    && self.ch(start + 3) == 'o' && self.ch(start + 4) == 'w' {
                    proof {
                        assert(w =~= spelling(TokenType::Throw));
                    }
                    Some(TokenType::Throw)
                } else if n == 3 && self.ch(start + 1) == 'r' && self.ch(start + 2) == 'y' {
                    proof {
                        assert(w =~= spelling(TokenType::Try));
                    }
                    Some(TokenType::Try)
                } else if n == 6 && self.ch(start + 1) == 'y' && self.ch(start + 2) == 'p'
                    && self.ch(start + 3) == 'e' && self.ch(start + 4) == 'o' && self.ch(start + 5)
                    == 'f' {
                    proof {
                        assert(w =~= spelling(TokenType::Typeof));
                    }
                    Some(TokenType::Typeof)
                } else {
                    None
                }
            },
            'v' => {
                if n == 4 && self.ch(start + 1) == 'o' && self.ch(start + 2) == 'i' && self.ch(
                    start + 3,
                ) == 'd' {
                    proof {
                        assert(w =~= spelling(TokenType::Void));
                    }
                    Some(TokenType::Void)
                } else {
                    None
                }
            },
            'w' => {
                if n == 5 && self.ch(start + 1) == 'h' && self.ch(start + 2) == 'i' && self.ch(
                    start + 3,
                ) == 'l' && self.ch(start + 4) == 'e' {
                    proof {
                        assert(w =~= spelling(TokenType::While));
                    }
                    Some(TokenType::While)
                } else if n == 4 && self.ch(start + 1) == 'i' && self.ch(start + 2) == 't'
                    && self.ch(start + 3) == 'h' {
                    proof {
                        assert(w =~= spelling(TokenType::With));
                    }
                    Some(TokenType::With)
                } else {
                    None
                }
            },
            'y' => {
                if n == 5 && self.ch(start + 1) == 'i' && self.ch(start + 2) == 'e' && self.ch(
                    start + 3,
                ) == 'l' && self.ch(start + 4) == 'd' {
                    proof {
                        assert(w =~= spelling(TokenType::Yield));
                    }
                    Some(TokenType::Yield)
                } else {
                    None
                }
            },
            _ => None,
        };
        proof {
            if r is None && keyword_of(w) is Some {
                let t = keyword_of(w)->Some_0;
                lemma_keyword_of_some(w, t);
                assert(forall|j: int|
                    0 <= j < w.len() ==> w[j] == self.source@[start + j]);
            }
        }
        r
    }

    /// Resolves the token that begins at the offset just before the current
    /// cursor position, whose first character `ident_start` was already
    /// consumed: a dedicated keyword token when the identifier run
    /// beginning there spells a reserved word, and an `Identifier` token
    /// spanning the full run otherwise. Exactly one token is produced; no
    /// other outcome exists.
    pub fn resolve_ident_or_keyword(&mut self, ident_start: char) -> (t: Token)
        requires
            0 < old(self).pos <= old(self).source@.len(),
            old(self).source@[old(self).pos - 1] == ident_start,
        ensures
            final(self).source == old(self).source,
            resolves_to(old(self).source@, old(self).pos - 1, t, final(self).pos as int),
    {
        let ghost s = self.source@;
        let start = self.pos - 1;
        proof {
            lemma_ident_end_bounds(s, self.pos as int);
        }
        if !ascii_lowercase(ident_start) {
            // No reserved word begins with this character: straight to the
            // identifier scanner.
            let t = self.resolve_identifier(start);
            proof {
                let e = ident_end(s, start + 1);
                let w = s.subrange(start as int, e);
                if keyword_of(w) is Some {
                    let kt = keyword_of(w)->Some_0;
                    lemma_keyword_of_some(w, kt);
                    lemma_spelling_props(kt);
                    assert(w[0] == ident_start);
                }
            }
            return t;
        }
        let t = self.resolve_identifier(start);
        match self.resolve_keyword(start, self.pos) {
            Some(token_type) => self.token(start, token_type),
            None => t,
        }
    }
}

} // verus!
