//! Character classification for the identifier grammar.

use vstd::prelude::*;

verus! {

/// An ASCII lowercase letter, `'a'..='z'`. Only these can begin a reserved
/// word, so the dispatch entry point filters on this class.
pub open spec fn is_ascii_lowercase_char(c: char) -> bool {
    97 <= c as u32 && c as u32 <= 122
}

/// An identifier-continuation character: any character valid as a
/// non-initial character of an identifier. Here: ASCII letters, ASCII
/// digits, underscore and dollar sign.
pub open spec fn is_identifier_part(c: char) -> bool {
    ||| is_ascii_lowercase_char(c)
    ||| 65 <= c as u32 && c as u32 <= 90
    ||| 48 <= c as u32 && c as u32 <= 57
    ||| c == '_'
    ||| c == '$'
}

/// Decides whether `c` is an ASCII lowercase letter.
pub fn ascii_lowercase(c: char) -> (r: bool)
    ensures
        r == is_ascii_lowercase_char(c),
{
    let u = c as u32;
    97 <= u && u <= 122
}

/// Decides whether `c` is an identifier-continuation character.
pub fn identifier_part(c: char) -> (r: bool)
    ensures
        r == is_identifier_part(c),
{
    let u = c as u32;
    (97 <= u && u <= 122) || (65 <= u && u <= 90) || (48 <= u && u <= 57) || u == 95 || u == 36
}

} // verus!
