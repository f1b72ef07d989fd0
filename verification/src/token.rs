//! Tokens: the pieces that the lexer cuts source text into.

use vstd::prelude::*;
use crate::text::same_text;

verus! {

/// The operation of a binary-operator token, and of its compound assignment.
#[derive(Clone, Copy, Debug, PartialEq, Eq, Structural)]
pub enum BinaryOperation {
    /// `-`
    Minus,
    /// `+`
    Plus,
    /// `/`
    Slash,
    /// `*`
    Star,
    /// `&`
    And,
    /// `|`
    Or,
}

/// Numeral system that a numeric literal is written in.
#[derive(Clone, Copy, Debug, PartialEq, Eq, Structural)]
pub enum Base {
    /// Prefix `0b`.
    Binary,
    /// Prefix `0o`.
    Octal,
    /// No prefix, or prefix `0d`.
    Decimal,
    /// Prefix `0x`.
    Hexadecimal,
}

impl Base {
    /// The number of digits of the numeral system.
    pub open spec fn radix_value(self) -> nat {
        match self {
            Base::Binary => 2,
            Base::Octal => 8,
            Base::Decimal => 10,
            Base::Hexadecimal => 16,
        }
    }

    /// The number of digits of the numeral system: 2, 8, 10 or 16.
    pub fn radix(&self) -> (r: u32)
        ensures
            r == self.radix_value(),
    {
        match self {
            Base::Binary => 2,
            Base::Octal => 8,
            Base::Decimal => 10,
            Base::Hexadecimal => 16,
        }
    }
}

/// What a literal token was recognised as. A literal that lacks digits where
/// digits belong, or a string that lacks its closing quote, is still a
/// literal: the flag records the defect and a later stage judges it.
#[derive(Clone, Copy, Debug, PartialEq, Eq, Structural)]
pub enum LiteralKind {
    /// An integer. `empty_int` is set when a base prefix has no digit after it.
    Int { base: Base, empty_int: bool },
    /// A number with a fraction or an exponent. `empty_exponent` is set when
    /// the exponent marker has no digit after it.
    Float { base: Base, empty_exponent: bool },
    /// A string in double quotes. The flag tells whether the closing quote
    /// was found before the input ended.
    Str(bool),
}

/// The class of a token.
#[derive(Clone, Copy, Debug, PartialEq, Eq, Structural)]
pub enum TokenKind {
    /// End of input. The lexer uses it internally and never yields it.
    Eof,
    /// A line comment, from `#` up to the end of the line.
    Comment,
    /// An identifier.
    Identifier,
    /// A literal. `suffix_start` is the offset within the lexeme, in
    /// characters, at which a suffix starts; it is the lexeme's length when
    /// there is none.
    Literal { kind: LiteralKind, suffix_start: usize },
    /// `>`
    Greater,
    /// `>=`
    GreaterEq,
    /// `<`
    Less,
    /// `<=`
    LessEq,
    /// `!=`
    NotEq,
    /// `=`
    Eq,
    /// `==`
    EqEq,
    /// `&&`
    AndAnd,
    /// `||`
    OrOr,
    /// A binary operator: `+`, `-`, `*`, `/`, `&`, `|`.
    BinOp(BinaryOperation),
    /// A compound assignment: `+=`, `-=`, `*=`, `/=`, `&=`, `|=`.
    BinOpEq(BinaryOperation),
    /// `;`
    Semicolon,
    /// `!`
    Bang,
    /// `~`
    Tilde,
    /// `,`
    Comma,
    /// `(`
    OpenParen,
    /// `)`
    CloseParen,
    /// `{`
    OpenCurly,
    /// `}`
    CloseCurly,
    /// `[`
    OpenBracket,
    /// `]`
    CloseBracket,
    /// A character that starts no token.
    Unknown,
}

impl TokenKind {
    /// The two kinds that this kind splits into: those of `>=`, `==`, `<=`,
    /// `&&`, `||` and of every compound assignment. Every other kind, `!=`
    /// among them, has none.
    pub open spec fn halves(self) -> Option<(TokenKind, TokenKind)> {
        match self {
            TokenKind::GreaterEq => Some((TokenKind::Greater, TokenKind::Eq)),
            TokenKind::EqEq => Some((TokenKind::Eq, TokenKind::Eq)),
            TokenKind::LessEq => Some((TokenKind::Less, TokenKind::Eq)),
            TokenKind::AndAnd => Some(
                (TokenKind::BinOp(BinaryOperation::And), TokenKind::BinOp(BinaryOperation::And)),
            ),
            TokenKind::OrOr => Some(
                (TokenKind::BinOp(BinaryOperation::Or), TokenKind::BinOp(BinaryOperation::Or)),
            ),
            TokenKind::BinOpEq(operation) => Some((TokenKind::BinOp(operation), TokenKind::Eq)),
            _ => None,
        }
    }

    /// Splits a kind into the kinds of its two characters: `&=` gives `&` and
    /// `=`. A kind that does not split gives `None`.
    pub fn split_two(&self) -> (parts: Option<(TokenKind, TokenKind)>)
        ensures
            parts == self.halves(),
    {
        match self {
            TokenKind::GreaterEq => Some((TokenKind::Greater, TokenKind::Eq)),
            TokenKind::EqEq => Some((TokenKind::Eq, TokenKind::Eq)),
            TokenKind::LessEq => Some((TokenKind::Less, TokenKind::Eq)),
            TokenKind::AndAnd => Some(
                (TokenKind::BinOp(BinaryOperation::And), TokenKind::BinOp(BinaryOperation::And)),
            ),
            TokenKind::OrOr => Some(
                (TokenKind::BinOp(BinaryOperation::Or), TokenKind::BinOp(BinaryOperation::Or)),
            ),
            TokenKind::BinOpEq(operation) => Some((TokenKind::BinOp(*operation), TokenKind::Eq)),
            _ => None,
        }
    }
}

/// A token as a value of the model: its text, its class, and the line and
/// column of its first character, both counted from zero.
pub struct TokenView {
    pub lexeme: Seq<char>,
    pub kind: TokenKind,
    pub line: nat,
    pub column: nat,
}

/// A classified piece of source text with its position.
#[derive(Clone, Copy, Debug)]
pub struct Token<'src> {
    /// The text that the token was cut from.
    pub string: &'src str,
    /// The class of the token.
    pub kind: TokenKind,
    /// Line of the first character, counted from zero.
    pub line: usize,
    /// Column of the first character, counted from zero.
    pub column: usize,
}

impl<'src> View for Token<'src> {
    type V = TokenView;

    open spec fn view(&self) -> TokenView {
        TokenView {
            lexeme: self.string@,
            kind: self.kind,
            line: self.line as nat,
            column: self.column as nat,
        }
    }
}

impl<'src> Token<'src> {
    /// A token with the given text, class and position.
    pub fn new(string: &'src str, kind: TokenKind, line: usize, column: usize) -> (token: Token<
        'src,
    >)
        ensures
            token.string == string,
            token.kind == kind,
            token.line == line,
            token.column == column,
    {
        Token { string, kind, line, column }
    }
}

/// A word that is written like an identifier and is none.
#[derive(Clone, Copy, Debug, PartialEq, Eq, Structural)]
pub enum Keyword {
    /// `func`, which begins a function.
    Func,
    /// `if`, which begins a conditional expression.
    If,
    /// `i32`, the type.
    I32,
}

/// The keyword that `lexeme` spells, if it spells one.
pub open spec fn keyword_of(lexeme: Seq<char>) -> Option<Keyword> {
    if lexeme == "func"@ {
        Some(Keyword::Func)
    } else if lexeme == "if"@ {
        Some(Keyword::If)
    } else if lexeme == "i32"@ {
        Some(Keyword::I32)
    } else {
        None
    }
}

impl TokenView {
    /// The keyword that the token is, if it is one: an identifier that spells
    /// a keyword.
    pub open spec fn keyword(self) -> Option<Keyword> {
        if self.kind == TokenKind::Identifier {
            keyword_of(self.lexeme)
        } else {
            None
        }
    }

    /// Whether the token is a name: an identifier that is no keyword.
    pub open spec fn is_name(self) -> bool {
        self.kind == TokenKind::Identifier && keyword_of(self.lexeme) is None
    }

    /// Whether the token is the dot that joins a receiver and a method. The
    /// lexer has no kind for the dot: it is the unknown character `.`.
    pub open spec fn is_dot(self) -> bool {
        self.kind == TokenKind::Unknown && self.lexeme == "."@
    }
}

impl<'src> Token<'src> {
    /// The keyword that the token is, if it is one.
    pub fn keyword(&self) -> (keyword: Option<Keyword>)
        ensures
            keyword == self@.keyword(),
    {
        if self.kind != TokenKind::Identifier {
            None
        } else if same_text(self.string, "func") {
            Some(Keyword::Func)
        } else if same_text(self.string, "if") {
            Some(Keyword::If)
        } else if same_text(self.string, "i32") {
            Some(Keyword::I32)
        } else {
            None
        }
    }

    /// Whether the token is a name.
    pub fn is_name(&self) -> (b: bool)
        ensures
            b == self@.is_name(),
    {
        self.kind == TokenKind::Identifier && self.keyword().is_none()
    }

    /// Whether the token is the dot that joins a receiver and a method.
    pub fn is_dot(&self) -> (b: bool)
        ensures
            b == self@.is_dot(),
    {
        self.kind == TokenKind::Unknown && same_text(self.string, ".")
    }
}

} // verus!
