//! The 26-letter Latin alphabet: classification of characters and the
//! correspondence between a letter and its position in the alphabet.

use vstd::prelude::*;

verus! {

/// True for the uppercase Latin letters `'A'` through `'Z'`.
pub open spec fn is_upper(c: char) -> bool {
    'A' <= c && c <= 'Z'
}

/// True for the lowercase Latin letters `'a'` through `'z'`.
pub open spec fn is_lower(c: char) -> bool {
    'a' <= c && c <= 'z'
}

/// True for the Latin letters of either case.
pub open spec fn is_letter(c: char) -> bool {
    is_upper(c) || is_lower(c)
}

/// Position of a letter within its alphabet: 0 for `'A'` or `'a'`,
/// up to 25 for `'Z'` or `'z'`.
pub open spec fn letter_value(c: char) -> int
    recommends
        is_letter(c),
{
    if is_upper(c) {
        c as int - 'A' as int
    } else {
        c as int - 'a' as int
    }
}

/// The letter at the given alphabet position, in the requested case.
pub open spec fn letter_of(v: int, upper: bool) -> char
    recommends
        0 <= v < 26,
{
    if upper {
        ('A' as int + v) as char
    } else {
        ('a' as int + v) as char
    }
}

/// A letter's alphabet position lies in [0, 26), and rendering that
/// position in the letter's own case gives the letter back.
pub proof fn lemma_letter_roundtrip(c: char)
    requires
        is_letter(c),
    ensures
        0 <= letter_value(c) < 26,
        letter_of(letter_value(c), is_upper(c)) == c,
{
}

/// Rendering an alphabet position yields a letter of the requested case,
/// and that letter's position is the one rendered.
pub proof fn lemma_value_roundtrip(v: int, upper: bool)
    requires
        0 <= v < 26,
    ensures
        is_letter(letter_of(v, upper)),
        is_upper(letter_of(v, upper)) == upper,
        letter_value(letter_of(v, upper)) == v,
{
}

/// Tests for an uppercase Latin letter, as executable code.
pub fn is_upper_exec(c: char) -> (r: bool)
    ensures
        r == is_upper(c),
{
    let code = c as u32;
    65 <= code && code <= 90
}

/// Tests for a lowercase Latin letter, as executable code.
pub fn is_lower_exec(c: char) -> (r: bool)
    ensures
        r == is_lower(c),
{
    let code = c as u32;
    97 <= code && code <= 122
}

/// Tests for a Latin letter of either case, as executable code.
pub fn is_letter_exec(c: char) -> (r: bool)
    ensures
        r == is_letter(c),
{
    is_upper_exec(c) || is_lower_exec(c)
}

/// Alphabet position of a letter, as executable code.
pub fn letter_value_exec(c: char) -> (v: u8)
    requires
        is_letter(c),
    ensures
        v as int == letter_value(c),
        v < 26,
{
    let code = c as u32;
    if code >= 97 {
        (code - 97) as u8
    } else {
        (code - 65) as u8
    }
}

/// The letter at an alphabet position, as executable code.
pub fn letter_of_exec(v: u8, upper: bool) -> (c: char)
    requires
        v < 26,
    ensures
        c == letter_of(v as int, upper),
{
    if upper {
        (65 + v) as char
    } else {
        (97 + v) as char
    }
}

} // verus!
