//! Laws of token resolution, stated over the specification model and
//! proved once for all inputs.

use vstd::prelude::*;

use crate::chars::{is_ascii_lowercase_char, is_identifier_part};
use crate::keywords::{keyword_of, lemma_keyword_of_some, lemma_spelling_props, spelling};
use crate::lexer::{ident_end, lemma_ident_end_bounds, lemma_ident_end_run, resolved_type,
    resolves_to};
use crate::token::{is_strict_reserved_spec, Token, TokenType};

verus! {

/// Every reserved word, followed by a non-continuation character or by the
/// end of the source, resolves to its own dedicated token type, spanning
/// exactly the word's literal length.
pub proof fn lemma_keyword_recognized(s: Seq<char>, start: int, t: TokenType)
    requires
        t != TokenType::Identifier,
        0 <= start,
        start + spelling(t).len() <= s.len(),
        s.subrange(start, start + spelling(t).len() as int) == spelling(t),
        start + spelling(t).len() == s.len() || !is_identifier_part(
            s[start + spelling(t).len()],
        ),
    ensures
        resolved_type(s, start) == t,
        ident_end(s, start + 1) == start + spelling(t).len(),
{
    lemma_spelling_props(t);
    let e = start + spelling(t).len() as int;
    assert forall|j: int| start + 1 <= j < e implies is_identifier_part(#[trigger] s[j]) by {
        assert(s[j] == spelling(t)[j - start]);
    }
    lemma_ident_end_run(s, start + 1, e);
    assert(s.subrange(start, ident_end(s, start + 1)) == spelling(t));
}

/// A reserved word immediately followed by a further continuation
/// character is merely a prefix of a longer identifier run: the run
/// extends strictly past the word, a single token spans the whole run,
/// and — whenever that longer run does not itself spell a reserved word —
/// its type is `Identifier`.
pub proof fn lemma_keyword_prefix_of_longer_run(s: Seq<char>, start: int, t: TokenType)
    requires
        t != TokenType::Identifier,
        0 <= start,
        start + spelling(t).len() < s.len(),
        s.subrange(start, start + spelling(t).len() as int) == spelling(t),
        is_identifier_part(s[start + spelling(t).len()]),
        keyword_of(s.subrange(start, ident_end(s, start + 1))) is None,
    ensures
        ident_end(s, start + 1) > start + spelling(t).len(),
        resolved_type(s, start) == TokenType::Identifier,
{
    lemma_spelling_props(t);
    let e = ident_end(s, start + 1);
    let p = start + spelling(t).len() as int;
    assert forall|j: int| start + 1 <= j <= p implies is_identifier_part(#[trigger] s[j]) by {
        if j < p {
            assert(s.subrange(start, p)[j - start] == spelling(t)[j - start]);
            assert(s[j] == spelling(t)[j - start]);
        }
    }
    lemma_ident_end_continues(s, start + 1, p + 1);
}

/// A strict, non-keyword prefix of some reserved word, followed by a
/// non-continuation character or by the end of the source, resolves to an
/// `Identifier` token spanning exactly that prefix.
pub proof fn lemma_strict_prefix_is_identifier(s: Seq<char>, start: int, e: int, t: TokenType)
    requires
        t != TokenType::Identifier,
        0 <= start < e,
        e <= s.len(),
        e - start < spelling(t).len(),
        s.subrange(start, e) == spelling(t).subrange(0, e - start),
        keyword_of(s.subrange(start, e)) is None,
        e == s.len() || !is_identifier_part(s[e]),
    ensures
        resolved_type(s, start) == TokenType::Identifier,
        ident_end(s, start + 1) == e,
{
    lemma_spelling_props(t);
    assert forall|j: int| start + 1 <= j < e implies is_identifier_part(#[trigger] s[j]) by {
        assert(s.subrange(start, e)[j - start] == spelling(t).subrange(0, e - start)[j - start]);
        assert(s.subrange(start, e)[j - start] == s[(j - start) + start]);
        assert(spelling(t).subrange(0, e - start)[j - start] == spelling(t)[(j - start) + 0]);
        assert(s[j] == spelling(t)[j - start]);
    }
    lemma_ident_end_run(s, start + 1, e);
}

/// A run that spells no reserved word resolves to `Identifier`.
pub proof fn lemma_non_keyword_is_identifier(s: Seq<char>, start: int)
    requires
        keyword_of(s.subrange(start, ident_end(s, start + 1))) is None,
    ensures
        resolved_type(s, start) == TokenType::Identifier,
{
}

/// A token whose first character is not an ASCII lowercase letter is
/// always an `Identifier`: resolution coincides with running the
/// identifier scanner directly from the token's start.
pub proof fn lemma_non_lowercase_start_is_identifier(s: Seq<char>, start: int)
    requires
        0 <= start < s.len(),
        !is_ascii_lowercase_char(s[start]),
    ensures
        resolved_type(s, start) == TokenType::Identifier,
{
    lemma_ident_end_bounds(s, start + 1);
    let w = s.subrange(start, ident_end(s, start + 1));
    if keyword_of(w) is Some {
        let t = keyword_of(w)->Some_0;
        lemma_keyword_of_some(w, t);
        lemma_spelling_props(t);
        assert(w[0] == s[start]);
    }
}

/// A strict-reserved word is lexed with its own dedicated token type
/// exactly like every other reserved word: resolution consults no context,
/// and strict-mode legality is left entirely to the parser.
pub proof fn lemma_strict_reserved_lexed_unconditionally(s: Seq<char>, start: int, t: TokenType)
    requires
        is_strict_reserved_spec(t),
        0 <= start,
        start + spelling(t).len() <= s.len(),
        s.subrange(start, start + spelling(t).len() as int) == spelling(t),
        start + spelling(t).len() == s.len() || !is_identifier_part(
            s[start + spelling(t).len()],
        ),
    ensures
        resolved_type(s, start) == t,
        ident_end(s, start + 1) == start + spelling(t).len(),
{
    lemma_keyword_recognized(s, start, t);
}

/// Resolution is deterministic: over one source, from one start offset,
/// only one token and one resulting cursor position satisfy the
/// resolution relation.
pub proof fn lemma_resolution_deterministic(
    s: Seq<char>,
    start: int,
    t1: Token,
    e1: int,
    t2: Token,
    e2: int,
)
    requires
        resolves_to(s, start, t1, e1),
        resolves_to(s, start, t2, e2),
    ensures
        t1 == t2,
        e1 == e2,
{
}

/// The identifier run never stops at a continuation character: as long as
/// every character before `p` continues the identifier, the run's end is
/// at least `p`.
proof fn lemma_ident_end_continues(s: Seq<char>, i: int, p: int)
    requires
        0 <= i <= p <= s.len(),
        forall|j: int| i <= j < p ==> is_identifier_part(#[trigger] s[j]),
    ensures
        ident_end(s, i) >= p,
    decreases p - i,
{
    if i < p {
        assert(is_identifier_part(s[i]));
        lemma_ident_end_continues(s, i + 1, p);
    } else {
        lemma_ident_end_bounds(s, i);
    }
}

} // verus!
