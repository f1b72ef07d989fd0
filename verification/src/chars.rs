//! Character classes that the lexer cuts text by.

use vstd::prelude::*;

verus! {

/// Whether `c` is a digit of the binary system, `0` or `1`.
pub open spec fn binary_digit(c: char) -> bool {
    '0' <= c <= '1'
}

/// Whether `c` is a digit of the octal system, `0` to `7`.
pub open spec fn octal_digit(c: char) -> bool {
    '0' <= c <= '7'
}

/// Whether `c` is a digit of the decimal system, `0` to `9`.
pub open spec fn decimal_digit(c: char) -> bool {
    '0' <= c <= '9'
}

/// Whether `c` is a digit of the hexadecimal system, in either case.
pub open spec fn hexadecimal_digit(c: char) -> bool {
    ('0' <= c <= '9') || ('a' <= c <= 'f') || ('A' <= c <= 'F')
}

/// Whether `c` may begin an identifier: an underscore or an ASCII letter.
pub open spec fn ident_start(c: char) -> bool {
    c == '_' || ('a' <= c <= 'z') || ('A' <= c <= 'Z')
}

/// What `char::is_numeric` answers for `c`: whether Unicode puts `c` in one
/// of its general categories for numbers (Nd, Nl, No).
pub uninterp spec fn numeric(c: char) -> bool;

/// `char::is_numeric` of the standard library. Its answer depends on `c`
/// alone and is looked up in Unicode's tables, which are not restated here:
/// the answer is only given its name, `numeric`.
pub assume_specification[ char::is_numeric ](c: char) -> (b: bool)
    ensures
        b == numeric(c),
;

/// Whether `c` may continue an identifier: whatever may begin one, the
/// decimal digits, and beyond ASCII every character that Unicode counts as
/// numeric. Of the ASCII characters the digits are the only numeric ones, so
/// within ASCII nothing is left to Unicode's tables.
pub open spec fn ident_continue(c: char) -> bool {
    ident_start(c) || decimal_digit(c) || (c > '\u{7f}' && numeric(c))
}

/// Whether `c` is white space: the code points that carry Unicode's
/// `White_Space` property.
pub open spec fn whitespace(c: char) -> bool {
    ||| '\u{9}' <= c <= '\u{d}'
    ||| c == ' '
    ||| c == '\u{85}'
    ||| c == '\u{a0}'
    ||| c == '\u{1680}'
    ||| '\u{2000}' <= c <= '\u{200a}'
    ||| c == '\u{2028}'
    ||| c == '\u{2029}'
    ||| c == '\u{202f}'
    ||| c == '\u{205f}'
    ||| c == '\u{3000}'
}

/// Whether `c` is a binary digit.
pub fn is_binary_digit(c: char) -> (b: bool)
    ensures
        b == binary_digit(c),
{
    c >= '0' && c <= '1'
}

/// Whether `c` is an octal digit.
pub fn is_octal_digit(c: char) -> (b: bool)
    ensures
        b == octal_digit(c),
{
    c >= '0' && c <= '7'
}

/// Whether `c` is a decimal digit.
pub fn is_decimal_digit(c: char) -> (b: bool)
    ensures
        b == decimal_digit(c),
{
    c >= '0' && c <= '9'
}

/// Whether `c` is a hexadecimal digit.
pub fn is_hexadecimal_digit(c: char) -> (b: bool)
    ensures
        b == hexadecimal_digit(c),
{
    (c >= '0' && c <= '9') || (c >= 'a' && c <= 'f') || (c >= 'A' && c <= 'F')
}

/// Whether `c` may begin an identifier.
pub fn is_ident_start(c: char) -> (b: bool)
    ensures
        b == ident_start(c),
{
    c == '_' || (c >= 'a' && c <= 'z') || (c >= 'A' && c <= 'Z')
}

/// Whether `c` may continue an identifier.
pub fn is_ident_continue(c: char) -> (b: bool)
    ensures
        b == ident_continue(c),
{
    is_ident_start(c) || is_decimal_digit(c) || (c > '\u{7f}' && c.is_numeric())
}

/// Whether `c` is white space.
pub fn is_whitespace(c: char) -> (b: bool)
    ensures
        b == whitespace(c),
{
    (c >= '\u{9}' && c <= '\u{d}') || c == ' ' || c == '\u{85}' || c == '\u{a0}' || c
        == '\u{1680}' || (c >= '\u{2000}' && c <= '\u{200a}') || c == '\u{2028}' || c
        == '\u{2029}' || c == '\u{202f}' || c == '\u{205f}' || c == '\u{3000}'
}

/// Within ASCII the characters that may continue an identifier are the
/// underscore, the letters and the decimal digits, and no others.
pub proof fn lemma_ascii_ident_continue(c: char)
    requires
        c <= '\u{7f}',
    ensures
        ident_continue(c) <==> c == '_' || ('a' <= c <= 'z') || ('A' <= c <= 'Z') || ('0' <= c
            <= '9'),
{
}

} // verus!
