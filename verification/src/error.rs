//! Diagnostics: the channel that failures are reported on, and the sentinel
//! that stands for a failure the channel already holds.

use vstd::prelude::*;
use vstd::string::StringExecFns;
use crate::text::{decimal_string, decimal_text};
use crate::token::{BinaryOperation, Keyword, LiteralKind, TokenKind, TokenView};

verus! {

/// A failure that has already been reported to the user.
///
/// The value carries nothing. Whoever receives one hands it on unchanged and
/// adds no message of its own. The only way to obtain one is `early_error`.
#[derive(Debug)]
pub struct ErrorEmitted {
    reported: (),
}

/// The error channel: the messages reported so far, oldest first.
///
/// How a message is shown (colour, prefix, the stream it is written to) is left
/// to whoever drains the channel.
#[derive(Debug)]
pub struct Diagnostics {
    messages: Vec<String>,
}

impl View for Diagnostics {
    type V = Seq<Seq<char>>;

    closed spec fn view(&self) -> Seq<Seq<char>> {
        Seq::new(self.messages@.len(), |i: int| self.messages@[i]@)
    }
}

impl Diagnostics {
    /// A channel on which nothing has been reported.
    pub fn new() -> (channel: Diagnostics)
        ensures
            channel@ == Seq::<Seq<char>>::empty(),
    {
        let channel = Diagnostics { messages: Vec::new() };
        assert(channel@ =~= Seq::<Seq<char>>::empty());
        channel
    }

    /// The number of messages reported so far.
    pub fn len(&self) -> (n: usize)
        ensures
            n == self@.len(),
    {
        self.messages.len()
    }

    /// Whether nothing has been reported.
    pub fn is_empty(&self) -> (b: bool)
        ensures
            b == (self@.len() == 0),
    {
        self.messages.len() == 0
    }

    /// The message at position `index`, counted from the oldest.
    pub fn message(&self, index: usize) -> (m: &String)
        requires
            index < self@.len(),
        ensures
            m@ == self@[index as int],
    {
        &self.messages[index]
    }
}

/// Reports `message` on `channel` and returns the sentinel for it.
///
/// The channel grows by exactly this one message; what it held before stays in
/// place.
pub fn early_error(channel: &mut Diagnostics, message: String) -> (sentinel: ErrorEmitted)
    ensures
        final(channel)@ == old(channel)@.push(message@),
{
    channel.messages.push(message);
    assert(channel@ =~= old(channel)@.push(message@));
    ErrorEmitted { reported: () }
}

/// What the parser was looking for when it failed.
#[derive(Clone, Copy, Debug, PartialEq, Eq, Structural)]
pub enum Expected {
    /// Any token at all.
    Token,
    /// A token of the given kind.
    Kind(TokenKind),
    /// A name: an identifier that is no keyword.
    Name,
    /// A type.
    Type,
    /// The start of an expression.
    Expression,
    /// The start of a top-level item.
    Item,
    /// The first argument of a call, or the parenthesis that closes it.
    Arguments,
    /// The first parameter of a function, or the parenthesis that closes the
    /// list.
    Parameters,
    /// A statement, or the brace that closes the block.
    Statement,
    /// What ends a function's signature: `;` or a block.
    Body,
}

/// What the parser found instead.
#[derive(Clone, Copy, Debug, PartialEq, Eq, Structural)]
pub enum Found {
    /// A keyword.
    Keyword(Keyword),
    /// A token of the given kind that is no keyword.
    Token(TokenKind),
}

/// A violation of the grammar. Line and column are those of the offending
/// token, counted from zero.
#[derive(Clone, Copy, Debug, PartialEq, Eq, Structural)]
pub enum SyntaxError {
    /// A token stands where another was required.
    UnexpectedToken { expected: Expected, found: Found, line: usize, column: usize },
    /// The input ends where a token was required.
    UnexpectedEnd { expected: Expected },
    /// A string literal without its closing quote stands in an expression.
    UnterminatedString { line: usize, column: usize },
    /// A parameter has the name of an earlier parameter of the same list.
    DuplicateParameter { line: usize, column: usize },
}

/// What `token` is called when it is found in the wrong place.
pub open spec fn found_of(token: TokenView) -> Found {
    match token.keyword() {
        Some(keyword) => Found::Keyword(keyword),
        None => Found::Token(token.kind),
    }
}

/// The error for meeting `tokens` where `expected` was required: the first
/// token is the offender, or the input has ended.
pub open spec fn unexpected(expected: Expected, tokens: Seq<TokenView>) -> SyntaxError {
    if tokens.len() == 0 {
        SyntaxError::UnexpectedEnd { expected }
    } else {
        SyntaxError::UnexpectedToken {
            expected,
            found: found_of(tokens[0]),
            line: tokens[0].line as usize,
            column: tokens[0].column as usize,
        }
    }
}

/// How an operation is written.
pub open spec fn operation_text(operation: BinaryOperation) -> Seq<char> {
    match operation {
        BinaryOperation::Minus => "`-`"@,
        BinaryOperation::Plus => "`+`"@,
        BinaryOperation::Slash => "`/`"@,
        BinaryOperation::Star => "`*`"@,
        BinaryOperation::And => "`&`"@,
        BinaryOperation::Or => "`|`"@,
    }
}

/// How the compound assignment of an operation is written.
pub open spec fn assignment_text(operation: BinaryOperation) -> Seq<char> {
    match operation {
        BinaryOperation::Minus => "`-=`"@,
        BinaryOperation::Plus => "`+=`"@,
        BinaryOperation::Slash => "`/=`"@,
        BinaryOperation::Star => "`*=`"@,
        BinaryOperation::And => "`&=`"@,
        BinaryOperation::Or => "`|=`"@,
    }
}

/// What a kind of token is called in a message.
pub open spec fn kind_text(kind: TokenKind) -> Seq<char> {
    match kind {
        TokenKind::Eof => "end of input"@,
        TokenKind::Comment => "a comment"@,
        TokenKind::Identifier => "an identifier"@,
        TokenKind::Literal { kind: LiteralKind::Int { .. }, .. } => "an integer literal"@,
        TokenKind::Literal { kind: LiteralKind::Float { .. }, .. } => "a float literal"@,
        TokenKind::Literal { kind: LiteralKind::Str(_), .. } => "a string literal"@,
        TokenKind::Greater => "`>`"@,
        TokenKind::GreaterEq => "`>=`"@,
        TokenKind::Less => "`<`"@,
        TokenKind::LessEq => "`<=`"@,
        TokenKind::NotEq => "`!=`"@,
        TokenKind::Eq => "`=`"@,
        TokenKind::EqEq => "`==`"@,
        TokenKind::AndAnd => "`&&`"@,
        TokenKind::OrOr => "`||`"@,
        TokenKind::BinOp(operation) => operation_text(operation),
        TokenKind::BinOpEq(operation) => assignment_text(operation),
        TokenKind::Semicolon => "`;`"@,
        TokenKind::Bang => "`!`"@,
        TokenKind::Tilde => "`~`"@,
        TokenKind::Comma => "`,`"@,
        TokenKind::OpenParen => "`(`"@,
        TokenKind::CloseParen => "`)`"@,
        TokenKind::OpenCurly => "`{`"@,
        TokenKind::CloseCurly => "`}`"@,
        TokenKind::OpenBracket => "`[`"@,
        TokenKind::CloseBracket => "`]`"@,
        TokenKind::Unknown => "an unknown character"@,
    }
}

/// What a keyword is called in a message.
pub open spec fn keyword_text(keyword: Keyword) -> Seq<char> {
    match keyword {
        Keyword::Func => "keyword `func`"@,
        Keyword::If => "keyword `if`"@,
        Keyword::I32 => "keyword `i32`"@,
    }
}

/// What the thing looked for is called in a message.
pub open spec fn expected_text(expected: Expected) -> Seq<char> {
    match expected {
        Expected::Token => "a token"@,
        Expected::Kind(kind) => kind_text(kind),
        Expected::Name => "a name"@,
        Expected::Type => "a type"@,
        Expected::Expression => "an expression"@,
        Expected::Item => "keyword `func`"@,
        Expected::Arguments => "an argument or `)`"@,
        Expected::Parameters => "a parameter or `)`"@,
        Expected::Statement => "a statement or `}`"@,
        Expected::Body => "`;` or a block"@,
    }
}

/// What the thing found is called in a message.
pub open spec fn found_text(found: Found) -> Seq<char> {
    match found {
        Found::Keyword(keyword) => keyword_text(keyword),
        Found::Token(kind) => kind_text(kind),
    }
}

/// How a position is written in a message.
pub open spec fn position_text(line: usize, column: usize) -> Seq<char> {
    " at line "@ + decimal_text(line as nat) + ", column "@ + decimal_text(column as nat)
}

/// The message that reports `error`.
pub open spec fn message_text(error: SyntaxError) -> Seq<char> {
    match error {
        SyntaxError::UnexpectedToken { expected, found, line, column } => "expected "@
            + expected_text(expected) + ", got "@ + found_text(found) + position_text(
            line,
            column,
        ),
        SyntaxError::UnexpectedEnd { expected } => "expected "@ + expected_text(expected)
            + ", got end of input"@,
        SyntaxError::UnterminatedString { line, column } => "unterminated string literal"@
            + position_text(line, column),
        SyntaxError::DuplicateParameter { line, column } => "parameter declared twice"@
            + position_text(line, column),
    }
}

fn operation_str(operation: BinaryOperation) -> (text: &'static str)
    ensures
        text@ == operation_text(operation),
{
    match operation {
        BinaryOperation::Minus => "`-`",
        BinaryOperation::Plus => "`+`",
        BinaryOperation::Slash => "`/`",
        BinaryOperation::Star => "`*`",
        BinaryOperation::And => "`&`",
        BinaryOperation::Or => "`|`",
    }
}

fn assignment_str(operation: BinaryOperation) -> (text: &'static str)
    ensures
        text@ == assignment_text(operation),
{
    match operation {
        BinaryOperation::Minus => "`-=`",
        BinaryOperation::Plus => "`+=`",
        BinaryOperation::Slash => "`/=`",
        BinaryOperation::Star => "`*=`",
        BinaryOperation::And => "`&=`",
        BinaryOperation::Or => "`|=`",
    }
}

fn kind_str(kind: TokenKind) -> (text: &'static str)
    ensures
        text@ == kind_text(kind),
{
    match kind {
        TokenKind::Eof => "end of input",
        TokenKind::Comment => "a comment",
        TokenKind::Identifier => "an identifier",
        TokenKind::Literal { kind: LiteralKind::Int { .. }, .. } => "an integer literal",
        TokenKind::Literal { kind: LiteralKind::Float { .. }, .. } => "a float literal",
        TokenKind::Literal { kind: LiteralKind::Str(_), .. } => "a string literal",
        TokenKind::Greater => "`>`",
        TokenKind::GreaterEq => "`>=`",
        TokenKind::Less => "`<`",
        TokenKind::LessEq => "`<=`",
        TokenKind::NotEq => "`!=`",
        TokenKind::Eq => "`=`",
        TokenKind::EqEq => "`==`",
        TokenKind::AndAnd => "`&&`",
        TokenKind::OrOr => "`||`",
        TokenKind::BinOp(operation) => operation_str(operation),
        TokenKind::BinOpEq(operation) => assignment_str(operation),
        TokenKind::Semicolon => "`;`",
        TokenKind::Bang => "`!`",
        TokenKind::Tilde => "`~`",
        TokenKind::Comma => "`,`",
        TokenKind::OpenParen => "`(`",
        TokenKind::CloseParen => "`)`",
        TokenKind::OpenCurly => "`{`",
        TokenKind::CloseCurly => "`}`",
        TokenKind::OpenBracket => "`[`",
        TokenKind::CloseBracket => "`]`",
        TokenKind::Unknown => "an unknown character",
    }
}

fn keyword_str(keyword: Keyword) -> (text: &'static str)
    ensures
        text@ == keyword_text(keyword),
{
    match keyword {
        Keyword::Func => "keyword `func`",
        Keyword::If => "keyword `if`",
        Keyword::I32 => "keyword `i32`",
    }
}

fn expected_str(expected: Expected) -> (text: &'static str)
    ensures
        text@ == expected_text(expected),
{
    match expected {
        Expected::Token => "a token",
        Expected::Kind(kind) => kind_str(kind),
        Expected::Name => "a name",
        Expected::Type => "a type",
        Expected::Expression => "an expression",
        Expected::Item => "keyword `func`",
        Expected::Arguments => "an argument or `)`",
        Expected::Parameters => "a parameter or `)`",
        Expected::Statement => "a statement or `}`",
        Expected::Body => "`;` or a block",
    }
}

fn found_str(found: Found) -> (text: &'static str)
    ensures
        text@ == found_text(found),
{
    match found {
        Found::Keyword(keyword) => keyword_str(keyword),
        Found::Token(kind) => kind_str(kind),
    }
}

fn append_position(message: &mut String, line: usize, column: usize)
    ensures
        final(message)@ == old(message)@ + position_text(line, column),
{
    let ghost start = message@;
    message.append(" at line ");
    message.append(decimal_string(line).as_str());
    message.append(", column ");
    message.append(decimal_string(column).as_str());
    assert(message@ =~= start + position_text(line, column));
}

impl SyntaxError {
    /// The message that reports the error.
    pub fn message(&self) -> (message: String)
        ensures
            message@ == message_text(*self),
    {
        match *self {
            SyntaxError::UnexpectedToken { expected, found, line, column } => {
                let mut message = String::from_str("expected ");
                message.append(expected_str(expected));
                message.append(", got ");
                message.append(found_str(found));
                append_position(&mut message, line, column);
                message
            },
            SyntaxError::UnexpectedEnd { expected } => {
                let mut message = String::from_str("expected ");
                message.append(expected_str(expected));
                message.append(", got end of input");
                message
            },
            SyntaxError::UnterminatedString { line, column } => {
                let mut message = String::from_str("unterminated string literal");
                append_position(&mut message, line, column);
                message
            },
            SyntaxError::DuplicateParameter { line, column } => {
                let mut message = String::from_str("parameter declared twice");
                append_position(&mut message, line, column);
                message
            },
        }
    }
}

/// Reports `error` on `channel` and returns the sentinel for it.
pub fn report(channel: &mut Diagnostics, error: SyntaxError) -> (sentinel: ErrorEmitted)
    ensures
        final(channel)@ == old(channel)@.push(message_text(error)),
{
    early_error(channel, error.message())
}

} // verus!
