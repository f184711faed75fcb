//! Classification of candidates by the characters they hold.

use vstd::prelude::*;

verus! {

/// Whether `c` is a letter of the basic Latin alphabet, in either case.
pub open spec fn ascii_letter(c: char) -> bool {
    'a' <= c <= 'z' || 'A' <= c <= 'Z'
}

/// Whether `c` is one of the digits `0` to `9`.
pub open spec fn ascii_digit(c: char) -> bool {
    '0' <= c <= '9'
}

/// Whether `c` is one of the symbols that ordinary path completion handles
/// well: `_`, `-`, `.`, `/` and `~`.
pub open spec fn path_symbol(c: char) -> bool {
    c == '_' || c == '-' || c == '.' || c == '/' || c == '~'
}

/// Whether `c` may stand in a pure-English path.
pub open spec fn plain_path_char(c: char) -> bool {
    ascii_letter(c) || ascii_digit(c) || path_symbol(c)
}

/// Whether `s` is a pure-English path: every character is an ASCII letter, an
/// ASCII digit or a path symbol, and at least one is a letter. The empty
/// string and a string of digits and symbols alone are not.
pub open spec fn pure_english(s: Seq<char>) -> bool {
    &&& forall|i: int| 0 <= i < s.len() ==> plain_path_char(#[trigger] s[i])
    &&& exists|i: int| 0 <= i < s.len() && ascii_letter(#[trigger] s[i])
}

/// Whether `c` belongs to the script Han, by the ranges that Unicode 15.1
/// assigns to it.
pub open spec fn han(c: char) -> bool {
    ||| '\u{2e80}' <= c <= '\u{2e99}'
    ||| '\u{2e9b}' <= c <= '\u{2ef3}'
    ||| '\u{2f00}' <= c <= '\u{2fd5}'
    ||| c == '\u{3005}'
    ||| c == '\u{3007}'
    ||| '\u{3021}' <= c <= '\u{3029}'
    ||| '\u{3038}' <= c <= '\u{303b}'
    ||| '\u{3400}' <= c <= '\u{4dbf}'
    ||| '\u{4e00}' <= c <= '\u{9fff}'
    ||| '\u{f900}' <= c <= '\u{fa6d}'
    ||| '\u{fa70}' <= c <= '\u{fad9}'
    ||| '\u{16fe2}' <= c <= '\u{16fe3}'
    ||| '\u{16ff0}' <= c <= '\u{16ff1}'
    ||| '\u{20000}' <= c <= '\u{2a6df}'
    ||| '\u{2a700}' <= c <= '\u{2b739}'
    ||| '\u{2b740}' <= c <= '\u{2b81d}'
    ||| '\u{2b820}' <= c <= '\u{2cea1}'
    ||| '\u{2ceb0}' <= c <= '\u{2ebe0}'
    ||| '\u{2ebf0}' <= c <= '\u{2ee5d}'
    ||| '\u{2f800}' <= c <= '\u{2fa1d}'
    ||| '\u{30000}' <= c <= '\u{3134a}'
    ||| '\u{31350}' <= c <= '\u{323af}'
}

/// Whether `s` holds at least one character of the script Han.
pub open spec fn has_han(s: Seq<char>) -> bool {
    exists|i: int| 0 <= i < s.len() && han(#[trigger] s[i])
}

/// Tests whether `c` is an ASCII letter.
pub fn is_ascii_letter(c: char) -> (r: bool)
    ensures
        r == ascii_letter(c),
{
    ('a' <= c && c <= 'z') || ('A' <= c && c <= 'Z')
}

/// Tests whether `c` is an ASCII digit.
pub fn is_ascii_digit(c: char) -> (r: bool)
    ensures
        r == ascii_digit(c),
{
    '0' <= c && c <= '9'
}

/// Tests whether `c` is one of `_`, `-`, `.`, `/` and `~`.
pub fn is_path_symbol(c: char) -> (r: bool)
    ensures
        r == path_symbol(c),
{
    c == '_' || c == '-' || c == '.' || c == '/' || c == '~'
}

/// Tests whether `c` belongs to the script Han.
pub fn is_han(c: char) -> (r: bool)
    ensures
        r == han(c),
{
    if '\u{2e80}' > c {
        false
    } else if c <= '\u{303b}' {
        ('\u{2e80}' <= c && c <= '\u{2e99}') || ('\u{2e9b}' <= c && c <= '\u{2ef3}') || ('\u{2f00}'
            <= c && c <= '\u{2fd5}') || c == '\u{3005}' || c == '\u{3007}' || ('\u{3021}' <= c && c
            <= '\u{3029}') || ('\u{3038}' <= c && c <= '\u{303b}')
    } else if c <= '\u{fad9}' {
        ('\u{3400}' <= c && c <= '\u{4dbf}') || ('\u{4e00}' <= c && c <= '\u{9fff}') || ('\u{f900}'
            <= c && c <= '\u{fa6d}') || ('\u{fa70}' <= c && c <= '\u{fad9}')
    } else if c <= '\u{16ff1}' {
        ('\u{16fe2}' <= c && c <= '\u{16fe3}') || ('\u{16ff0}' <= c && c <= '\u{16ff1}')
    } else {
        ('\u{20000}' <= c && c <= '\u{2a6df}') || ('\u{2a700}' <= c && c <= '\u{2b739}') || (
        '\u{2b740}' <= c && c <= '\u{2b81d}') || ('\u{2b820}' <= c && c <= '\u{2cea1}') || (
        '\u{2ceb0}' <= c && c <= '\u{2ebe0}') || ('\u{2ebf0}' <= c && c <= '\u{2ee5d}') || (
        '\u{2f800}' <= c && c <= '\u{2fa1d}') || ('\u{30000}' <= c && c <= '\u{3134a}') || (
        '\u{31350}' <= c && c <= '\u{323af}')
    }
}

/// Tests whether `s` is a pure-English path, which ordinary completion
/// handles and this filter leaves alone.
pub fn is_pure_english_path(s: &str) -> (r: bool)
    ensures
        r == pure_english(s@),
{
    let mut has_alpha = false;
    for ch in it: s.chars()
        invariant
            it.seq() == s@,
            forall|i: int| 0 <= i < it.index() ==> plain_path_char(#[trigger] s@[i]),
            has_alpha == (exists|i: int| 0 <= i < it.index() && ascii_letter(#[trigger] s@[i])),
    {
        let ghost at = it.index() as int;
        if is_ascii_letter(ch) {
            has_alpha = true;
            assert(ascii_letter(s@[at]));
        } else if is_ascii_digit(ch) || is_path_symbol(ch) {
        } else {
            assert(!plain_path_char(s@[at]));
            return false;
        }
    }
    has_alpha
}

/// Tests whether `s` holds at least one character of the script Han.
pub fn contains_han(s: &str) -> (r: bool)
    ensures
        r == has_han(s@),
{
    for ch in it: s.chars()
        invariant
            it.seq() == s@,
            forall|i: int| 0 <= i < it.index() ==> !han(#[trigger] s@[i]),
    {
        if is_han(ch) {
            assert(han(s@[it.index() as int]));
            return true;
        }
    }
    false
}

/// A pure-English path holds no character outside ASCII, so none of the
/// script Han.
pub proof fn lemma_pure_english_has_no_han(s: Seq<char>)
    requires
        pure_english(s),
    ensures
        !has_han(s),
{
    assert forall|i: int| 0 <= i < s.len() implies !han(#[trigger] s[i]) by {
        assert(plain_path_char(s[i]));
    }
}

} // verus!
