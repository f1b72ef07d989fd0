//! The lexical grammar, stated over a sequence of characters.
//!
//! Every function here takes the whole source text and an index into it, and
//! says where the piece that starts there ends and what it is. The lexer is
//! proved to compute exactly these functions.

use vstd::prelude::*;
use crate::chars::{
    binary_digit,
    decimal_digit,
    hexadecimal_digit,
    ident_continue,
    ident_start,
    octal_digit,
    whitespace,
};
use crate::text::{decimal_text, decimal_value, lemma_decimal_round_trip};
use crate::token::{Base, BinaryOperation, LiteralKind, TokenKind, TokenView};

verus! {

/// A class of characters that the lexer consumes a run of.
pub enum CharClass {
    /// White space.
    Whitespace,
    /// The digits `0` and `1`.
    BinaryDigit,
    /// The digits `0` to `7`.
    OctalDigit,
    /// The digits `0` to `9`.
    DecimalDigit,
    /// The digits `0` to `9` and the letters `a` to `f` in either case.
    HexadecimalDigit,
    /// Whatever may continue an identifier.
    IdentContinue,
    /// Everything but a line feed.
    LineRest,
}

impl CharClass {
    /// Whether `c` belongs to the class.
    pub open spec fn contains(self, c: char) -> bool {
        match self {
            CharClass::Whitespace => whitespace(c),
            CharClass::BinaryDigit => binary_digit(c),
            CharClass::OctalDigit => octal_digit(c),
            CharClass::DecimalDigit => decimal_digit(c),
            CharClass::HexadecimalDigit => hexadecimal_digit(c),
            CharClass::IdentContinue => ident_continue(c),
            CharClass::LineRest => c != '\n',
        }
    }
}

/// The character at index `i`, or the NUL character where `i` is past the end.
pub open spec fn peek_at(src: Seq<char>, i: int) -> char {
    if 0 <= i < src.len() {
        src[i]
    } else {
        '\0'
    }
}

/// The line of the character at index `i`: the number of line feeds before it.
pub open spec fn line_of(src: Seq<char>, i: int) -> nat
    decreases i,
{
    if i <= 0 {
        0
    } else if src[i - 1] == '\n' {
        line_of(src, i - 1) + 1
    } else {
        line_of(src, i - 1)
    }
}

/// The column of the character at index `i`: the number of characters between
/// the last line feed before it, or the start of the text, and it.
pub open spec fn column_of(src: Seq<char>, i: int) -> nat
    decreases i,
{
    if i <= 0 {
        0
    } else if src[i - 1] == '\n' {
        0
    } else {
        column_of(src, i - 1) + 1
    }
}

/// Neither the line nor the column of an index exceeds the index.
pub proof fn lemma_position_bounds(src: Seq<char>, i: int)
    requires
        0 <= i,
    ensures
        line_of(src, i) <= i,
        column_of(src, i) <= i,
    decreases i,
{
    if i > 0 {
        lemma_position_bounds(src, i - 1);
    }
}

/// The index at which the run of characters of `class` that starts at `start`
/// ends: the first index from `start` on that holds no character of the
/// class, or the length of the text.
pub open spec fn run_end(src: Seq<char>, start: int, class: CharClass) -> int
    decreases src.len() - start,
{
    if 0 <= start < src.len() && class.contains(src[start]) {
        run_end(src, start + 1, class)
    } else {
        start
    }
}

/// A run ends within the text, holds only characters of its class, and stops
/// at the first character that is not of the class.
pub proof fn lemma_run_end(src: Seq<char>, start: int, class: CharClass)
    requires
        0 <= start <= src.len(),
    ensures
        start <= run_end(src, start, class) <= src.len(),
        forall|k: int|
            start <= k < run_end(src, start, class) ==> class.contains(#[trigger] src[k]),
        run_end(src, start, class) < src.len() ==> !class.contains(
            src[run_end(src, start, class)],
        ),
    decreases src.len() - start,
{
    if start < src.len() && class.contains(src[start]) {
        lemma_run_end(src, start + 1, class);
    }
}

/// The end of a run is the only index that the properties of `lemma_run_end`
/// hold of.
pub proof fn lemma_run_end_unique(src: Seq<char>, start: int, end: int, class: CharClass)
    requires
        0 <= start <= end <= src.len(),
        forall|k: int| start <= k < end ==> class.contains(#[trigger] src[k]),
        end < src.len() ==> !class.contains(src[end]),
    ensures
        run_end(src, start, class) == end,
    decreases end - start,
{
    if start < end {
        lemma_run_end_unique(src, start + 1, end, class);
    }
}

/// An exponent, from the index after its marker `e` or `E`: an optional sign
/// and a run of decimal digits. Gives whether the run holds a digit, and the
/// index at which the exponent ends.
pub open spec fn scan_exponent(src: Seq<char>, i: int) -> (bool, int) {
    let digits = if peek_at(src, i) == '+' || peek_at(src, i) == '-' {
        i + 1
    } else {
        i
    };
    let end = run_end(src, digits, CharClass::DecimalDigit);
    (end > digits, end)
}

/// What follows the integer digits of a number, from the index `i` after them.
///
/// A `.` begins a fraction unless the character after it could begin an
/// identifier; the fraction's digits may be followed by an exponent. Without a
/// fraction, `e` or `E` begins an exponent. Either makes the literal a float;
/// otherwise it is an integer that ends at `i`.
pub open spec fn scan_number_tail(src: Seq<char>, i: int, base: Base) -> (LiteralKind, int) {
    let c = peek_at(src, i);
    if c == '.' && !ident_start(peek_at(src, i + 1)) {
        if decimal_digit(peek_at(src, i + 1)) {
            let fraction_end = run_end(src, i + 1, CharClass::DecimalDigit);
            let marker = peek_at(src, fraction_end);
            if marker == 'e' || marker == 'E' {
                let (has_digits, end) = scan_exponent(src, fraction_end + 1);
                (LiteralKind::Float { base, empty_exponent: !has_digits }, end)
            } else {
                (LiteralKind::Float { base, empty_exponent: false }, fraction_end)
            }
        } else {
            (LiteralKind::Float { base, empty_exponent: false }, i + 1)
        }
    } else if c == 'e' || c == 'E' {
        let (has_digits, end) = scan_exponent(src, i + 1);
        (LiteralKind::Float { base, empty_exponent: !has_digits }, end)
    } else {
        (LiteralKind::Int { base, empty_int: false }, i)
    }
}

/// A number after its base prefix, from the index `i` after the prefix: a run
/// of digits of `class`, then what `scan_number_tail` describes. Where the run
/// is empty the literal is an integer flagged `empty_int` and ends at `i`.
pub open spec fn scan_prefixed_number(src: Seq<char>, i: int, base: Base, class: CharClass) -> (
    LiteralKind,
    int,
) {
    let digits_end = run_end(src, i, class);
    if digits_end == i {
        (LiteralKind::Int { base, empty_int: true }, i)
    } else {
        scan_number_tail(src, digits_end, base)
    }
}

/// The digits that the integer part of a number in base `base` is written
/// with.
pub open spec fn digits_of(base: Base) -> CharClass {
    match base {
        Base::Binary => CharClass::BinaryDigit,
        Base::Octal => CharClass::OctalDigit,
        Base::Decimal => CharClass::DecimalDigit,
        Base::Hexadecimal => CharClass::HexadecimalDigit,
    }
}

/// A number whose first digit is `first`, from the index `i` after that digit.
/// Gives the kind of the literal and the index at which its body ends.
///
/// After a first digit `0`, the letters `b`, `o`, `d` and `x` announce base 2,
/// 8, 10 and 16, and the digits that follow are those of that base: a digit
/// that the base does not have ends the run, so that `0b12` is the literal
/// `0b1` and `0b2` is a prefix without digits. A `0` followed by anything but
/// these letters, a digit, `.`, `e` or `E` is the integer zero.
pub open spec fn scan_number(src: Seq<char>, i: int, first: char) -> (LiteralKind, int) {
    let c = peek_at(src, i);
    if first != '0' {
        scan_number_tail(src, run_end(src, i, CharClass::DecimalDigit), Base::Decimal)
    } else if c == 'b' {
        scan_prefixed_number(src, i + 1, Base::Binary, digits_of(Base::Binary))
    } else if c == 'o' {
        scan_prefixed_number(src, i + 1, Base::Octal, digits_of(Base::Octal))
    } else if c == 'd' {
        scan_prefixed_number(src, i + 1, Base::Decimal, digits_of(Base::Decimal))
    } else if c == 'x' {
        scan_prefixed_number(src, i + 1, Base::Hexadecimal, digits_of(Base::Hexadecimal))
    } else if decimal_digit(c) || c == '.' || c == 'e' || c == 'E' {
        scan_number_tail(src, run_end(src, i, CharClass::DecimalDigit), Base::Decimal)
    } else {
        (LiteralKind::Int { base: Base::Decimal, empty_int: false }, i)
    }
}

/// The suffix of a literal, from the index `i` after the literal's body: ends
/// at `i` unless a character that may begin an identifier stands there, in
/// which case the suffix runs as far as an identifier would.
pub open spec fn suffix_end(src: Seq<char>, i: int) -> int {
    if ident_start(peek_at(src, i)) {
        run_end(src, i + 1, CharClass::IdentContinue)
    } else {
        i
    }
}

/// A string, from the index `i` after its opening quote. Gives whether the
/// closing quote was found, and the index after it, or the length of the text
/// where the input ended first.
///
/// A backslash directly before a backslash or a quote takes that character
/// with it, so that neither ends the string nor escapes in its turn.
pub open spec fn scan_string(src: Seq<char>, i: int) -> (bool, int)
    decreases src.len() - i,
{
    if !(0 <= i < src.len()) {
        (false, i)
    } else if src[i] == '"' {
        (true, i + 1)
    } else if src[i] == '\\' && (peek_at(src, i + 1) == '\\' || peek_at(src, i + 1) == '"') {
        scan_string(src, i + 2)
    } else {
        scan_string(src, i + 1)
    }
}

/// The kind that the characters `c` and `next` form together, if any.
pub open spec fn two_character_kind(c: char, next: char) -> Option<TokenKind> {
    if c == '&' && next == '&' {
        Some(TokenKind::AndAnd)
    } else if c == '|' && next == '|' {
        Some(TokenKind::OrOr)
    } else if next != '=' {
        None
    } else if c == '&' {
        Some(TokenKind::BinOpEq(BinaryOperation::And))
    } else if c == '|' {
        Some(TokenKind::BinOpEq(BinaryOperation::Or))
    } else if c == '+' {
        Some(TokenKind::BinOpEq(BinaryOperation::Plus))
    } else if c == '-' {
        Some(TokenKind::BinOpEq(BinaryOperation::Minus))
    } else if c == '*' {
        Some(TokenKind::BinOpEq(BinaryOperation::Star))
    } else if c == '/' {
        Some(TokenKind::BinOpEq(BinaryOperation::Slash))
    } else if c == '>' {
        Some(TokenKind::GreaterEq)
    } else if c == '=' {
        Some(TokenKind::EqEq)
    } else if c == '<' {
        Some(TokenKind::LessEq)
    } else if c == '!' {
        Some(TokenKind::NotEq)
    } else {
        None
    }
}

/// The kind of the character `c` standing alone as an operator or as
/// punctuation; `Unknown` where it is neither.
pub open spec fn one_character_kind(c: char) -> TokenKind {
    if c == '&' {
        TokenKind::BinOp(BinaryOperation::And)
    } else if c == '|' {
        TokenKind::BinOp(BinaryOperation::Or)
    } else if c == '+' {
        TokenKind::BinOp(BinaryOperation::Plus)
    } else if c == '-' {
        TokenKind::BinOp(BinaryOperation::Minus)
    } else if c == '*' {
        TokenKind::BinOp(BinaryOperation::Star)
    } else if c == '/' {
        TokenKind::BinOp(BinaryOperation::Slash)
    } else if c == '>' {
        TokenKind::Greater
    } else if c == '=' {
        TokenKind::Eq
    } else if c == '<' {
        TokenKind::Less
    } else if c == '!' {
        TokenKind::Bang
    } else if c == ';' {
        TokenKind::Semicolon
    } else if c == ',' {
        TokenKind::Comma
    } else if c == '~' {
        TokenKind::Tilde
    } else if c == '(' {
        TokenKind::OpenParen
    } else if c == ')' {
        TokenKind::CloseParen
    } else if c == '[' {
        TokenKind::OpenBracket
    } else if c == ']' {
        TokenKind::CloseBracket
    } else if c == '{' {
        TokenKind::OpenCurly
    } else if c == '}' {
        TokenKind::CloseCurly
    } else {
        TokenKind::Unknown
    }
}

/// The token that starts at index `start`, which holds a character that is
/// not white space. Gives the token's kind and the index at which it ends.
///
/// A `#` starts a comment that runs up to the next line feed. A character that
/// may begin an identifier starts one. A digit starts a number, a `"` a
/// string. Of the operators the longest form wins: two characters that form a
/// kind together are one token.
pub open spec fn scan_token(src: Seq<char>, start: int) -> (TokenKind, int) {
    let c = src[start];
    let i = start + 1;
    if c == '#' {
        (TokenKind::Comment, run_end(src, i, CharClass::LineRest))
    } else if ident_start(c) {
        (TokenKind::Identifier, run_end(src, i, CharClass::IdentContinue))
    } else if decimal_digit(c) {
        let (kind, body_end) = scan_number(src, i, c);
        (
            TokenKind::Literal { kind, suffix_start: (body_end - start) as usize },
            suffix_end(src, body_end),
        )
    } else if c == '"' {
        let (terminated, end) = scan_string(src, i);
        (
            TokenKind::Literal {
                kind: LiteralKind::Str(terminated),
                suffix_start: (end - start) as usize,
            },
            end,
        )
    } else {
        match two_character_kind(c, peek_at(src, i)) {
            Some(kind) => (kind, i + 1),
            None => (one_character_kind(c), i),
        }
    }
}

/// The next token from index `i` on, and the index at which it ends.
///
/// White space before the token is passed over. Where nothing but white space
/// is left, the token is the end-of-input marker, with no text.
pub open spec fn lex_at(src: Seq<char>, i: int) -> (TokenView, int) {
    let start = run_end(src, i, CharClass::Whitespace);
    if start >= src.len() {
        (
            TokenView {
                lexeme: Seq::empty(),
                kind: TokenKind::Eof,
                line: line_of(src, start),
                column: column_of(src, start),
            },
            start,
        )
    } else {
        let (kind, end) = scan_token(src, start);
        (
            TokenView {
                lexeme: src.subrange(start, end),
                kind,
                line: line_of(src, start),
                column: column_of(src, start),
            },
            end,
        )
    }
}

/// An exponent ends within the text, at or after the index it starts at.
pub proof fn lemma_scan_exponent_bounds(src: Seq<char>, i: int)
    requires
        0 <= i <= src.len(),
    ensures
        i <= scan_exponent(src, i).1 <= src.len(),
{
    if peek_at(src, i) == '+' || peek_at(src, i) == '-' {
        lemma_run_end(src, i + 1, CharClass::DecimalDigit);
    } else {
        lemma_run_end(src, i, CharClass::DecimalDigit);
    }
}

/// The tail of a number ends within the text, at or after the index it starts
/// at.
pub proof fn lemma_scan_number_tail_bounds(src: Seq<char>, i: int, base: Base)
    requires
        0 <= i <= src.len(),
    ensures
        i <= scan_number_tail(src, i, base).1 <= src.len(),
{
    let c = peek_at(src, i);
    if c == '.' && !ident_start(peek_at(src, i + 1)) {
        if decimal_digit(peek_at(src, i + 1)) {
            lemma_run_end(src, i + 1, CharClass::DecimalDigit);
            let fraction_end = run_end(src, i + 1, CharClass::DecimalDigit);
            let marker = peek_at(src, fraction_end);
            if marker == 'e' || marker == 'E' {
                lemma_scan_exponent_bounds(src, fraction_end + 1);
            }
        }
    } else if c == 'e' || c == 'E' {
        lemma_scan_exponent_bounds(src, i + 1);
    }
}

/// The body of a number ends within the text, at or after the index that
/// follows its first digit.
pub proof fn lemma_scan_number_bounds(src: Seq<char>, i: int, first: char)
    requires
        0 <= i <= src.len(),
    ensures
        i <= scan_number(src, i, first).1 <= src.len(),
{
    let c = peek_at(src, i);
    if first == '0' && (c == 'b' || c == 'o' || c == 'd' || c == 'x') {
        let base = if c == 'b' {
            Base::Binary
        } else if c == 'o' {
            Base::Octal
        } else if c == 'd' {
            Base::Decimal
        } else {
            Base::Hexadecimal
        };
        let class = digits_of(base);
        lemma_run_end(src, i + 1, class);
        lemma_scan_number_tail_bounds(src, run_end(src, i + 1, class), base);
    } else {
        lemma_run_end(src, i, CharClass::DecimalDigit);
        lemma_scan_number_tail_bounds(src, run_end(src, i, CharClass::DecimalDigit), Base::Decimal);
    }
}

/// A string ends within the text, at or after the index that follows its
/// opening quote.
pub proof fn lemma_scan_string_bounds(src: Seq<char>, i: int)
    requires
        0 <= i <= src.len(),
    ensures
        i <= scan_string(src, i).1 <= src.len(),
    decreases src.len() - i,
{
    if i < src.len() && src[i] != '"' {
        if src[i] == '\\' && (peek_at(src, i + 1) == '\\' || peek_at(src, i + 1) == '"') {
            lemma_scan_string_bounds(src, i + 2);
        } else {
            lemma_scan_string_bounds(src, i + 1);
        }
    }
}

/// A token holds at least one character and ends within the text.
pub proof fn lemma_scan_token_bounds(src: Seq<char>, start: int)
    requires
        0 <= start < src.len(),
    ensures
        start < scan_token(src, start).1 <= src.len(),
{
    let c = src[start];
    let i = start + 1;
    if c == '#' {
        lemma_run_end(src, i, CharClass::LineRest);
    } else if ident_start(c) {
        lemma_run_end(src, i, CharClass::IdentContinue);
    } else if decimal_digit(c) {
        lemma_scan_number_bounds(src, i, c);
        let body_end = scan_number(src, i, c).1;
        if ident_start(peek_at(src, body_end)) {
            lemma_run_end(src, body_end + 1, CharClass::IdentContinue);
        }
    } else if c == '"' {
        lemma_scan_string_bounds(src, i);
    }
}

/// The next token starts at or after the index asked from and ends within
/// the text; unless it is the end-of-input marker it holds a character.
pub proof fn lemma_lex_at_bounds(src: Seq<char>, i: int)
    requires
        0 <= i <= src.len(),
    ensures
        i <= lex_at(src, i).1 <= src.len(),
        lex_at(src, i).0.kind != TokenKind::Eof ==> i < lex_at(src, i).1,
        lex_at(src, i).0.kind == TokenKind::Eof ==> lex_at(src, i).1 == src.len(),
{
    lemma_run_end(src, i, CharClass::Whitespace);
    let start = run_end(src, i, CharClass::Whitespace);
    if start < src.len() {
        lemma_scan_token_bounds(src, start);
    }
}

/// The tokens from index `i` on, in order, up to the end of the text. The
/// end-of-input marker is not among them; comments are.
pub open spec fn tokens_from(src: Seq<char>, i: int) -> Seq<TokenView>
    decreases src.len() - i,
{
    if 0 <= i <= src.len() {
        let (token, end) = lex_at(src, i);
        if token.kind == TokenKind::Eof {
            Seq::empty()
        } else {
            proof {
                lemma_lex_at_bounds(src, i);
            }
            seq![token] + tokens_from(src, end)
        }
    } else {
        Seq::empty()
    }
}

/// The tokens of a whole text.
pub open spec fn tokens_of(src: Seq<char>) -> Seq<TokenView> {
    tokens_from(src, 0)
}

/// A dot that stands before a character that could begin an identifier
/// begins no fraction: the number before it is an integer and ends before the
/// dot, so that `13.to_string()` calls a method on `13`.
pub proof fn lemma_dot_before_identifier_begins_no_fraction(src: Seq<char>, i: int, base: Base)
    requires
        peek_at(src, i) == '.',
        ident_start(peek_at(src, i + 1)),
    ensures
        scan_number_tail(src, i, base) == (LiteralKind::Int { base, empty_int: false }, i),
{
}

/// Two ampersands are one token, the short-circuit operator, and never two
/// bitwise operators.
pub proof fn lemma_two_ampersands_are_one_token(src: Seq<char>, start: int)
    requires
        0 <= start,
        start + 1 < src.len(),
        src[start] == '&',
        src[start + 1] == '&',
    ensures
        scan_token(src, start) == (TokenKind::AndAnd, start + 2),
{
}

/// A text that consists of decimal digits, at least one, is one token: an
/// integer literal in base ten that lacks nothing, has no suffix, and whose
/// text is the whole text.
pub proof fn lemma_decimal_digits_are_one_integer(digits: Seq<char>)
    requires
        digits.len() > 0,
        forall|k: int| 0 <= k < digits.len() ==> decimal_digit(#[trigger] digits[k]),
    ensures
        tokens_of(digits) == seq![
            TokenView {
                lexeme: digits,
                kind: TokenKind::Literal {
                    kind: LiteralKind::Int { base: Base::Decimal, empty_int: false },
                    suffix_start: digits.len() as usize,
                },
                line: 0,
                column: 0,
            },
        ],
{
    let len = digits.len() as int;
    // No white space stands before the first digit.
    assert(!whitespace(digits[0]));
    assert(run_end(digits, 0, CharClass::Whitespace) == 0);
    // The digits run to the end of the text.
    lemma_run_end_unique(digits, 1, len, CharClass::DecimalDigit);
    assert(peek_at(digits, len) == '\0');
    if len > 1 {
        assert(decimal_digit(digits[1]));
    }
    assert(scan_number(digits, 1, digits[0]) == (
        LiteralKind::Int { base: Base::Decimal, empty_int: false },
        len,
    ));
    assert(suffix_end(digits, len) == len);
    assert(digits.subrange(0, len) =~= digits);
    let (token, end) = lex_at(digits, 0);
    assert(end == len);
    // Nothing is left behind the literal.
    assert(run_end(digits, len, CharClass::Whitespace) == len);
    assert(lex_at(digits, len).0.kind == TokenKind::Eof);
    assert(tokens_from(digits, len) =~= Seq::<TokenView>::empty());
    assert(tokens_from(digits, 0) =~= seq![token] + tokens_from(digits, len));
    assert(tokens_of(digits) =~= seq![token]);
}

/// A number written in decimal digits is one token: an integer literal in
/// base ten that lacks nothing, and reading its text gives the number back.
pub proof fn lemma_decimal_integer_lexes_to_itself(n: nat)
    ensures
        tokens_of(decimal_text(n)) == seq![
            TokenView {
                lexeme: decimal_text(n),
                kind: TokenKind::Literal {
                    kind: LiteralKind::Int { base: Base::Decimal, empty_int: false },
                    suffix_start: decimal_text(n).len() as usize,
                },
                line: 0,
                column: 0,
            },
        ],
        decimal_value(decimal_text(n)) == n,
{
    lemma_decimal_round_trip(n);
    lemma_decimal_digits_are_one_integer(decimal_text(n));
}

/// The end-of-input marker is not among the tokens of a text, and every
/// token holds at least one character.
pub proof fn lemma_tokens_are_real(src: Seq<char>, i: int)
    ensures
        forall|k: int|
            0 <= k < tokens_from(src, i).len() ==> (#[trigger] tokens_from(src, i)[k]).kind
                != TokenKind::Eof && tokens_from(src, i)[k].lexeme.len() > 0,
    decreases src.len() - i,
{
    if 0 <= i <= src.len() {
        let (token, end) = lex_at(src, i);
        if token.kind != TokenKind::Eof {
            lemma_lex_at_bounds(src, i);
            lemma_run_end(src, i, CharClass::Whitespace);
            lemma_scan_token_bounds(src, run_end(src, i, CharClass::Whitespace));
            lemma_tokens_are_real(src, end);
            let rest = tokens_from(src, end);
            assert forall|k: int| 0 <= k < tokens_from(src, i).len() implies (
            #[trigger] tokens_from(src, i)[k]).kind != TokenKind::Eof && tokens_from(
                src,
                i,
            )[k].lexeme.len() > 0 by {
                if k > 0 {
                    assert(tokens_from(src, i)[k] == rest[k - 1]);
                }
            }
        }
    }
}

/// The index at which the first token from index `i` on that is no comment
/// ends; the length of the text where there is no such token.
pub open spec fn significant_end(src: Seq<char>, i: int) -> int
    decreases src.len() - i,
{
    if 0 <= i <= src.len() {
        let (token, end) = lex_at(src, i);
        if token.kind == TokenKind::Comment {
            proof {
                lemma_lex_at_bounds(src, i);
            }
            significant_end(src, end)
        } else {
            end
        }
    } else {
        i
    }
}

/// A number with a base prefix is flagged as lacking its digits exactly if no
/// digit of its base stands behind the prefix, and then it ends with the
/// prefix: a digit that the base does not have is no digit of the number.
pub proof fn lemma_prefix_needs_a_digit_of_its_base(src: Seq<char>, i: int, base: Base)
    requires
        0 <= i <= src.len(),
    ensures
        scan_prefixed_number(src, i, base, digits_of(base)).0 == (LiteralKind::Int {
            base,
            empty_int: true,
        }) <==> !digits_of(base).contains(peek_at(src, i)),
        !digits_of(base).contains(peek_at(src, i)) ==> scan_prefixed_number(
            src,
            i,
            base,
            digits_of(base),
        ).1 == i,
{
    lemma_run_end(src, i, digits_of(base));
}

/// The digits behind a base prefix are digits of that base, and the first
/// character behind them is none.
pub proof fn lemma_prefixed_digits_fit_the_base(src: Seq<char>, i: int, base: Base)
    requires
        0 <= i <= src.len(),
    ensures
        forall|k: int|
            i <= k < run_end(src, i, digits_of(base)) ==> digits_of(base).contains(
                #[trigger] src[k],
            ),
        !digits_of(base).contains(peek_at(src, run_end(src, i, digits_of(base)))),
{
    lemma_run_end(src, i, digits_of(base));
}

/// A character that may begin an identifier begins one, and the identifier
/// runs up to the first character that may not continue it: within ASCII that
/// is the first character that is no letter, no decimal digit and no
/// underscore.
pub proof fn lemma_identifier_ends_where_its_characters_end(src: Seq<char>, start: int)
    requires
        0 <= start < src.len(),
        ident_start(src[start]),
    ensures
        scan_token(src, start).0 == TokenKind::Identifier,
        start < scan_token(src, start).1 <= src.len(),
        forall|k: int| start < k < scan_token(src, start).1 ==> ident_continue(#[trigger] src[k]),
        scan_token(src, start).1 < src.len() ==> !ident_continue(src[scan_token(src, start).1]),
        scan_token(src, start).1 < src.len() && src[scan_token(src, start).1] <= '\u{7f}' ==> {
            let c = src[scan_token(src, start).1];
            !(c == '_' || ('a' <= c <= 'z') || ('A' <= c <= 'Z') || ('0' <= c <= '9'))
        },
{
    lemma_run_end(src, start + 1, CharClass::IdentContinue);
}

} // verus!
