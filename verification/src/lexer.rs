//! The lexer: a cursor that walks the source text once, from its start to
//! its end, and hands out one token per request.

use vstd::prelude::*;
use crate::chars::{
    is_binary_digit,
    is_decimal_digit,
    is_hexadecimal_digit,
    is_ident_continue,
    is_ident_start,
    is_octal_digit,
    is_whitespace,
};
use crate::scan::{
    column_of,
    lemma_position_bounds,
    lemma_lex_at_bounds,
    lemma_run_end,
    lemma_run_end_unique,
    lemma_scan_number_bounds,
    lemma_scan_string_bounds,
    lex_at,
    line_of,
    peek_at,
    run_end,
    scan_exponent,
    scan_number,
    scan_number_tail,
    scan_string,
    suffix_end,
    tokens_from,
    tokens_of,
    CharClass,
};
use crate::text::split_chars;
use crate::token::{Base, BinaryOperation, LiteralKind, Token, TokenKind, TokenView};

verus! {

/// The cursor of the lexer: the source text and a position in it.
pub struct TokenStream<'src> {
    /// The characters of the source text.
    chars: Vec<char>,
    /// The source text from the character at index `rest_idx` on: what the
    /// tokens handed out so far have left.
    rest: &'src str,
    rest_idx: usize,
    line: usize,
    column: usize,
    idx: usize,
}

impl<'src> TokenStream<'src> {
    /// The source text.
    pub closed spec fn source(&self) -> Seq<char> {
        self.chars@
    }

    /// The index of the next character to be read.
    pub closed spec fn offset(&self) -> int {
        self.idx as int
    }

    /// The cursor is consistent: it stands within the text, and the line and
    /// column it keeps are those of the index it stands at.
    pub closed spec fn wf(&self) -> bool {
        &&& self.rest_idx <= self.idx
        &&& self.rest@ == self.chars@.skip(self.rest_idx as int)
        &&& self.idx <= self.chars@.len()
        &&& self.line == line_of(self.chars@, self.idx as int)
        &&& self.column == column_of(self.chars@, self.idx as int)
    }

    /// A consistent cursor stands within the text.
    pub proof fn lemma_offset_bounds(&self)
        requires
            self.wf(),
        ensures
            0 <= self.offset() <= self.source().len(),
    {
    }

    /// A cursor at the start of `input`.
    pub fn new(input: &'src str) -> (stream: TokenStream<'src>)
        ensures
            stream.wf(),
            stream.source() == input@,
            stream.offset() == 0,
    {
        let mut chars: Vec<char> = Vec::new();
        for c in it: input.chars()
            invariant
                it.seq() == input@,
                chars@ == it.seq().take(it.index() as int),
        {
            chars.push(c);
        }
        assert(chars@ =~= input@);
        assert(chars@.skip(0) =~= input@);
        TokenStream { chars, rest: input, rest_idx: 0, line: 0, column: 0, idx: 0 }
    }

    /// The line of the next character, counted from zero.
    pub fn line(&self) -> (line: usize)
        requires
            self.wf(),
        ensures
            line == line_of(self.source(), self.offset()),
    {
        self.line
    }

    /// The column of the next character, counted from zero.
    pub fn column(&self) -> (column: usize)
        requires
            self.wf(),
        ensures
            column == column_of(self.source(), self.offset()),
    {
        self.column
    }

    /// The next character, or NUL at the end of the text. Nothing is consumed.
    pub fn peek(&self) -> (c: char)
        requires
            self.wf(),
        ensures
            c == peek_at(self.source(), self.offset()),
    {
        if self.idx < self.chars.len() {
            self.chars[self.idx]
        } else {
            '\0'
        }
    }

    /// The character after the next, or NUL where the text has none. Nothing
    /// is consumed.
    pub fn peek_second(&self) -> (c: char)
        requires
            self.wf(),
        ensures
            c == peek_at(self.source(), self.offset() + 1),
    {
        if self.chars.len() - self.idx > 1 {
            self.chars[self.idx + 1]
        } else {
            '\0'
        }
    }

    /// Whether the whole text has been consumed.
    pub fn at_end(&self) -> (b: bool)
        requires
            self.wf(),
        ensures
            b == (self.offset() == self.source().len()),
    {
        self.idx == self.chars.len()
    }

    /// Consumes the next character and returns it; at the end of the text
    /// returns `None` and leaves the cursor where it is.
    pub fn advance(&mut self) -> (c: Option<char>)
        requires
            old(self).wf(),
        ensures
            final(self).wf(),
            final(self).source() == old(self).source(),
            c == (if old(self).offset() < old(self).source().len() {
                Some(old(self).source()[old(self).offset()])
            } else {
                None
            }),
            final(self).offset() == (if old(self).offset() < old(self).source().len() {
                old(self).offset() + 1
            } else {
                old(self).offset()
            }),
    {
        if self.idx >= self.chars.len() {
            return None;
        }
        let c = self.chars[self.idx];
        proof {
            lemma_position_bounds(self.chars@, self.idx as int);
        }
        self.idx += 1;
        if c == '\n' {
            self.line += 1;
            self.column = 0;
        } else {
            self.column += 1;
        }
        Some(c)
    }

    /// Consumes characters for as long as `predicate` accepts the next one.
    ///
    /// Every character consumed was accepted, and the cursor stops at the
    /// first character that was turned down, or at the end of the text.
    pub fn advance_while<F: Fn(char) -> bool>(&mut self, predicate: F)
        requires
            old(self).wf(),
            forall|c: char| call_requires(predicate, (c,)),
        ensures
            final(self).wf(),
            final(self).source() == old(self).source(),
            old(self).offset() <= final(self).offset() <= old(self).source().len(),
            forall|k: int|
                old(self).offset() <= k < final(self).offset() ==> call_ensures(
                    predicate,
                    (#[trigger] old(self).source()[k],),
                    true,
                ),
            final(self).offset() < old(self).source().len() ==> call_ensures(
                predicate,
                (old(self).source()[final(self).offset()],),
                false,
            ),
    {
        loop
            invariant
                self.wf(),
                self.source() == old(self).source(),
                old(self).offset() <= self.offset() <= old(self).source().len(),
                forall|c: char| call_requires(predicate, (c,)),
                forall|k: int|
                    old(self).offset() <= k < self.offset() ==> call_ensures(
                        predicate,
                        (#[trigger] old(self).source()[k],),
                        true,
                    ),
            ensures
                self.offset() < old(self).source().len() ==> call_ensures(
                    predicate,
                    (old(self).source()[self.offset()],),
                    false,
                ),
            decreases self.source().len() - self.offset(),
        {
            if self.at_end() {
                break;
            }
            if !predicate(self.peek()) {
                break;
            }
            self.advance();
        }
    }

    /// A cursor that has passed only characters of `class` since `start` and
    /// stands before none stands at the end of the run that starts at `start`.
    proof fn lemma_stopped_at_run_end(&self, start: int, class: CharClass)
        requires
            self.wf(),
            0 <= start <= self.offset(),
            forall|k: int| start <= k < self.offset() ==> class.contains(#[trigger] self.source()[k]),
            self.offset() < self.source().len() ==> !class.contains(self.source()[self.offset()]),
        ensures
            self.offset() == run_end(self.source(), start, class),
    {
        lemma_run_end_unique(self.source(), start, self.offset(), class);
    }

    /// Passes over the white space at the cursor.
    pub fn skip_whitespace(&mut self)
        requires
            old(self).wf(),
        ensures
            final(self).wf(),
            final(self).source() == old(self).source(),
            old(self).offset() <= final(self).offset() <= old(self).source().len(),
            final(self).offset() == run_end(
                old(self).source(),
                old(self).offset(),
                CharClass::Whitespace,
            ),
    {
        self.advance_while(is_whitespace);
        proof {
            self.lemma_stopped_at_run_end(old(self).offset(), CharClass::Whitespace);
        }
    }

    /// Consumes the binary digits at the cursor and tells whether there was
    /// one.
    pub fn consume_binary_digits(&mut self) -> (has_digits: bool)
        requires
            old(self).wf(),
        ensures
            final(self).wf(),
            final(self).source() == old(self).source(),
            old(self).offset() <= final(self).offset() <= old(self).source().len(),
            final(self).offset() == run_end(
                old(self).source(),
                old(self).offset(),
                CharClass::BinaryDigit,
            ),
            has_digits == (final(self).offset() > old(self).offset()),
    {
        let start = self.idx;
        self.advance_while(is_binary_digit);
        proof {
            self.lemma_stopped_at_run_end(old(self).offset(), CharClass::BinaryDigit);
        }
        self.idx > start
    }

    /// Consumes the octal digits at the cursor and tells whether there was
    /// one.
    pub fn consume_octal_digits(&mut self) -> (has_digits: bool)
        requires
            old(self).wf(),
        ensures
            final(self).wf(),
            final(self).source() == old(self).source(),
            old(self).offset() <= final(self).offset() <= old(self).source().len(),
            final(self).offset() == run_end(
                old(self).source(),
                old(self).offset(),
                CharClass::OctalDigit,
            ),
            has_digits == (final(self).offset() > old(self).offset()),
    {
        let start = self.idx;
        self.advance_while(is_octal_digit);
        proof {
            self.lemma_stopped_at_run_end(old(self).offset(), CharClass::OctalDigit);
        }
        self.idx > start
    }

    /// Consumes the decimal digits at the cursor and tells whether there was
    /// one.
    pub fn consume_decimal_digits(&mut self) -> (has_digits: bool)
        requires
            old(self).wf(),
        ensures
            final(self).wf(),
            final(self).source() == old(self).source(),
            old(self).offset() <= final(self).offset() <= old(self).source().len(),
            final(self).offset() == run_end(
                old(self).source(),
                old(self).offset(),
                CharClass::DecimalDigit,
            ),
            has_digits == (final(self).offset() > old(self).offset()),
    {
        let start = self.idx;
        self.advance_while(is_decimal_digit);
        proof {
            self.lemma_stopped_at_run_end(old(self).offset(), CharClass::DecimalDigit);
        }
        self.idx > start
    }

    /// Consumes the hexadecimal digits at the cursor and tells whether there
    /// was one.
    pub fn consume_hexadecimal_digits(&mut self) -> (has_digits: bool)
        requires
            old(self).wf(),
        ensures
            final(self).wf(),
            final(self).source() == old(self).source(),
            old(self).offset() <= final(self).offset() <= old(self).source().len(),
            final(self).offset() == run_end(
                old(self).source(),
                old(self).offset(),
                CharClass::HexadecimalDigit,
            ),
            has_digits == (final(self).offset() > old(self).offset()),
    {
        let start = self.idx;
        self.advance_while(is_hexadecimal_digit);
        proof {
            self.lemma_stopped_at_run_end(old(self).offset(), CharClass::HexadecimalDigit);
        }
        self.idx > start
    }

    /// Consumes the suffix of a literal, if one stands at the cursor.
    pub fn consume_literal_suffix(&mut self)
        requires
            old(self).wf(),
        ensures
            final(self).wf(),
            final(self).source() == old(self).source(),
            old(self).offset() <= final(self).offset() <= old(self).source().len(),
            final(self).offset() == suffix_end(old(self).source(), old(self).offset()),
    {
        if !is_ident_start(self.peek()) {
            return ;
        }
        self.advance();
        let ghost after_first = self.offset();
        self.advance_while(is_ident_continue);
        proof {
            self.lemma_stopped_at_run_end(after_first, CharClass::IdentContinue);
        }
    }

    /// Consumes an exponent after its marker: an optional sign and the
    /// decimal digits. Tells whether there was a digit.
    pub fn consume_float_exponent(&mut self) -> (has_digits: bool)
        requires
            old(self).wf(),
        ensures
            final(self).wf(),
            final(self).source() == old(self).source(),
            old(self).offset() <= final(self).offset() <= old(self).source().len(),
            has_digits == scan_exponent(old(self).source(), old(self).offset()).0,
            final(self).offset() == scan_exponent(old(self).source(), old(self).offset()).1,
    {
        let c = self.peek();
        if c == '+' || c == '-' {
            self.advance();
        }
        self.consume_decimal_digits()
    }

    /// Consumes the body of a number whose first digit, `first_digit`, has
    /// just been consumed, and tells what kind of literal it is.
    pub fn number(&mut self, first_digit: char) -> (kind: LiteralKind)
        requires
            old(self).wf(),
        ensures
            final(self).wf(),
            final(self).source() == old(self).source(),
            old(self).offset() <= final(self).offset() <= old(self).source().len(),
            kind == scan_number(old(self).source(), old(self).offset(), first_digit).0,
            final(self).offset() == scan_number(
                old(self).source(),
                old(self).offset(),
                first_digit,
            ).1,
    {
        let mut base = Base::Decimal;
        if first_digit == '0' {
            let has_digits = match self.peek() {
                'b' => {
                    base = Base::Binary;
                    self.advance();
                    self.consume_binary_digits()
                },
                'o' => {
                    base = Base::Octal;
                    self.advance();
                    self.consume_octal_digits()
                },
                'd' => {
                    self.advance();
                    self.consume_decimal_digits()
                },
                'x' => {
                    base = Base::Hexadecimal;
                    self.advance();
                    self.consume_hexadecimal_digits()
                },
                '0'..='9' | '.' | 'e' | 'E' => {
                    self.consume_decimal_digits();
                    true
                },
                // Just a 0
                _ => {
                    return LiteralKind::Int { base, empty_int: false };
                },
            };

            // A base prefix with no digit after it, such as "0x"
            if !has_digits {
                return LiteralKind::Int { base, empty_int: true };
            }
        } else {
            self.consume_decimal_digits();
        }

        self.number_tail(base)
    }

    /// Consumes what follows the integer digits of a number in base `base`:
    /// a fraction, an exponent, both or nothing. Tells what kind of literal
    /// the number is.
    pub fn number_tail(&mut self, base: Base) -> (kind: LiteralKind)
        requires
            old(self).wf(),
        ensures
            final(self).wf(),
            final(self).source() == old(self).source(),
            old(self).offset() <= final(self).offset() <= old(self).source().len(),
            kind == scan_number_tail(old(self).source(), old(self).offset(), base).0,
            final(self).offset() == scan_number_tail(
                old(self).source(),
                old(self).offset(),
                base,
            ).1,
    {
        let c = self.peek();
        // The dot of a method call on an integer literal, as in
        // 13.to_string(), is no decimal point.
        if c == '.' && !is_ident_start(self.peek_second()) {
            self.advance();
            let mut empty_exponent = false;
            if is_decimal_digit(self.peek()) {
                self.consume_decimal_digits();
                let marker = self.peek();
                if marker == 'e' || marker == 'E' {
                    self.advance();
                    empty_exponent = !self.consume_float_exponent();
                }
            }
            LiteralKind::Float { base, empty_exponent }
        } else if c == 'e' || c == 'E' {
            self.advance();
            let empty_exponent = !self.consume_float_exponent();
            LiteralKind::Float { base, empty_exponent }
        } else {
            LiteralKind::Int { base, empty_int: false }
        }
    }

    /// Consumes a string whose opening quote has just been consumed, and
    /// tells whether its closing quote was found.
    pub fn double_quoted_string(&mut self) -> (terminated: bool)
        requires
            old(self).wf(),
        ensures
            final(self).wf(),
            final(self).source() == old(self).source(),
            old(self).offset() <= final(self).offset() <= old(self).source().len(),
            terminated == scan_string(old(self).source(), old(self).offset()).0,
            final(self).offset() == scan_string(old(self).source(), old(self).offset()).1,
    {
        loop
            invariant
                self.wf(),
                self.source() == old(self).source(),
                old(self).offset() <= self.offset() <= self.source().len(),
                scan_string(self.source(), self.offset()) == scan_string(
                    old(self).source(),
                    old(self).offset(),
                ),
            decreases self.source().len() - self.offset(),
        {
            match self.advance() {
                None => {
                    // The input ended first
                    return false;
                },
                Some(c) => {
                    if c == '"' {
                        return true;
                    }
                    if c == '\\' {
                        let next = self.peek();
                        if next == '\\' || next == '"' {
                            // An escaped \ or "
                            self.advance();
                        }
                    }
                },
            }
        }
    }

    /// Cuts out of the text the piece from index `start` up to the cursor.
    ///
    /// `left` is the text from index `left_idx` on, where `left_idx` is at or
    /// before `start`. The text is cut behind the cursor, and what was cut
    /// off is cut before `start`: neither cut looks further than the cursor.
    fn take_lexeme(&mut self, left: &'src str, left_idx: usize, start: usize) -> (lexeme: &'src str)
        requires
            old(self).wf(),
            left_idx <= start <= old(self).offset(),
            left@ == old(self).source().skip(left_idx as int),
        ensures
            final(self).wf(),
            final(self).source() == old(self).source(),
            final(self).offset() == old(self).offset(),
            lexeme@ == old(self).source().subrange(start as int, old(self).offset()),
    {
        let end = self.idx;
        let (passed, rest) = split_chars(left, end - left_idx);
        let (_, lexeme) = split_chars(passed, start - left_idx);
        assert(lexeme@ =~= self.chars@.subrange(start as int, end as int));
        assert(rest@ =~= self.chars@.skip(end as int));
        self.rest = rest;
        self.rest_idx = end;
        lexeme
    }

    /// Cuts the next token off the text.
    ///
    /// The token is the one that the lexical grammar puts at the cursor, and
    /// the cursor moves to the token's end. At the end of the text the token
    /// is the end-of-input marker, again and again.
    pub fn next_token(&mut self) -> (token: Token<'src>)
        requires
            old(self).wf(),
        ensures
            final(self).wf(),
            final(self).source() == old(self).source(),
            old(self).offset() <= final(self).offset() <= old(self).source().len(),
            token@ == lex_at(old(self).source(), old(self).offset()).0,
            final(self).offset() == lex_at(old(self).source(), old(self).offset()).1,
    {
        // What the earlier tokens have left of the text
        let left = self.rest;
        let left_idx = self.rest_idx;

        self.skip_whitespace();

        let start_idx = self.idx;
        let line = self.line;
        let column = self.column;

        let c = match self.advance() {
            Some(c) => c,
            None => {
                proof {
                    reveal_strlit("");
                }
                assert(""@ =~= Seq::<char>::empty());
                return Token::new("", TokenKind::Eof, line, column);
            },
        };

        let kind = match c {
            '#' => {
                self.advance_while(|c: char| -> (b: bool) ensures b == (c != '\n') { c != '\n' });
                proof {
                    self.lemma_stopped_at_run_end(start_idx + 1, CharClass::LineRest);
                }
                TokenKind::Comment
            },
            c if is_ident_start(c) => {
                self.advance_while(is_ident_continue);
                proof {
                    self.lemma_stopped_at_run_end(start_idx + 1, CharClass::IdentContinue);
                }
                TokenKind::Identifier
            },
            '0'..='9' => {
                let literal_kind = self.number(c);
                proof {
                    lemma_scan_number_bounds(self.source(), start_idx + 1, c);
                }
                let suffix_start = self.idx - start_idx;
                self.consume_literal_suffix();
                TokenKind::Literal { kind: literal_kind, suffix_start }
            },
            '&' => {
                match self.peek() {
                    '&' => {
                        self.advance();
                        TokenKind::AndAnd
                    },
                    '=' => {
                        self.advance();
                        TokenKind::BinOpEq(BinaryOperation::And)
                    },
                    _ => TokenKind::BinOp(BinaryOperation::And),
                }
            },
            '|' => {
                match self.peek() {
                    '|' => {
                        self.advance();
                        TokenKind::OrOr
                    },
                    '=' => {
                        self.advance();
                        TokenKind::BinOpEq(BinaryOperation::Or)
                    },
                    _ => TokenKind::BinOp(BinaryOperation::Or),
                }
            },
            '+' => {
                match self.peek() {
                    '=' => {
                        self.advance();
                        TokenKind::BinOpEq(BinaryOperation::Plus)
                    },
                    _ => TokenKind::BinOp(BinaryOperation::Plus),
                }
            },
            '-' => {
                match self.peek() {
                    '=' => {
                        self.advance();
                        TokenKind::BinOpEq(BinaryOperation::Minus)
                    },
                    _ => TokenKind::BinOp(BinaryOperation::Minus),
                }
            },
            '*' => {
                match self.peek() {
                    '=' => {
                        self.advance();
                        TokenKind::BinOpEq(BinaryOperation::Star)
                    },
                    _ => TokenKind::BinOp(BinaryOperation::Star),
                }
            },
            '/' => {
                match self.peek() {
                    '=' => {
                        self.advance();
                        TokenKind::BinOpEq(BinaryOperation::Slash)
                    },
                    _ => TokenKind::BinOp(BinaryOperation::Slash),
                }
            },
            '>' => {
                match self.peek() {
                    '=' => {
                        self.advance();
                        TokenKind::GreaterEq
                    },
                    _ => TokenKind::Greater,
                }
            },
            '=' => {
                match self.peek() {
                    '=' => {
                        self.advance();
                        TokenKind::EqEq
                    },
                    _ => TokenKind::Eq,
                }
            },
            '<' => {
                match self.peek() {
                    '=' => {
                        self.advance();
                        TokenKind::LessEq
                    },
                    _ => TokenKind::Less,
                }
            },
            '!' => {
                match self.peek() {
                    '=' => {
                        self.advance();
                        TokenKind::NotEq
                    },
                    _ => TokenKind::Bang,
                }
            },
            '"' => {
                let terminated = self.double_quoted_string();
                proof {
                    lemma_scan_string_bounds(self.source(), start_idx + 1);
                }
                let suffix_start = self.idx - start_idx;
                TokenKind::Literal { kind: LiteralKind::Str(terminated), suffix_start }
            },
            ';' => TokenKind::Semicolon,
            ',' => TokenKind::Comma,
            '~' => TokenKind::Tilde,
            '(' => TokenKind::OpenParen,
            ')' => TokenKind::CloseParen,
            '[' => TokenKind::OpenBracket,
            ']' => TokenKind::CloseBracket,
            '{' => TokenKind::OpenCurly,
            '}' => TokenKind::CloseCurly,
            _ => TokenKind::Unknown,
        };

        proof {
            lemma_lex_at_bounds(old(self).source(), old(self).offset());
        }
        let lexeme = self.take_lexeme(left, left_idx, start_idx);
        Token::new(lexeme, kind, line, column)
    }
}

/// The lexer as a source of tokens: hands out the tokens of a text one by
/// one and then reports that none is left.
pub struct Tokenizer<'src> {
    stream: TokenStream<'src>,
}

impl<'src> Tokenizer<'src> {
    /// The source text.
    pub closed spec fn source(&self) -> Seq<char> {
        self.stream.source()
    }

    /// The index in the text from which the next token is cut.
    pub closed spec fn offset(&self) -> int {
        self.stream.offset()
    }

    /// The cursor underneath is consistent.
    pub closed spec fn wf(&self) -> bool {
        self.stream.wf()
    }

    /// The tokens that are still to come, in order.
    pub open spec fn remaining(&self) -> Seq<TokenView> {
        tokens_from(self.source(), self.offset())
    }

    /// A consistent tokenizer stands within its text.
    pub proof fn lemma_offset_bounds(&self)
        requires
            self.wf(),
        ensures
            0 <= self.offset() <= self.source().len(),
    {
        self.stream.lemma_offset_bounds();
    }

    /// A tokenizer at the start of `input`.
    pub fn new(input: &'src str) -> (tokenizer: Tokenizer<'src>)
        ensures
            tokenizer.wf(),
            tokenizer.source() == input@,
            tokenizer.offset() == 0,
            tokenizer.remaining() == tokens_of(input@),
    {
        let stream = TokenStream::new(input);
        Tokenizer { stream }
    }

    /// The next token, or `None` when the text holds no further token.
    ///
    /// A token handed out is the first of those that were still to come, and
    /// the others are still to come after it. Once `None` has been returned
    /// nothing is to come, and `None` is returned from then on. The text is
    /// read as far as this one token reaches and no further.
    pub fn next(&mut self) -> (token: Option<Token<'src>>)
        requires
            old(self).wf(),
        ensures
            final(self).wf(),
            final(self).source() == old(self).source(),
            final(self).offset() == lex_at(old(self).source(), old(self).offset()).1,
            old(self).offset() <= final(self).offset(),
            match token {
                Some(t) => t@ == lex_at(old(self).source(), old(self).offset()).0
                    && old(self).remaining() == seq![t@] + final(self).remaining(),
                None => old(self).remaining() == Seq::<TokenView>::empty()
                    && final(self).remaining() == Seq::<TokenView>::empty(),
            },
    {
        proof {
            self.stream.lemma_offset_bounds();
            lemma_lex_at_bounds(self.source(), self.offset());
        }
        let token = self.stream.next_token();
        if token.kind != TokenKind::Eof {
            Some(token)
        } else {
            proof {
                lemma_run_end(self.source(), self.source().len() as int, CharClass::Whitespace);
            }
            None
        }
    }
}

/// Starts lexing `input`: the tokenizer returned hands out the tokens of
/// `input`, from the first on.
pub fn tokenize(input: &str) -> (tokenizer: Tokenizer<'_>)
    ensures
        tokenizer.wf(),
        tokenizer.source() == input@,
        tokenizer.offset() == 0,
        tokenizer.remaining() == tokens_of(input@),
{
    Tokenizer::new(input)
}

} // verus!
