//! The parser: reads the tokens of a text through a buffer of one token and
//! builds the syntax tree, or reports the first violation of the grammar.

use vstd::prelude::*;
use crate::ast::{
    expressions_view,
    items_view,
    lemma_function_call_view,
    lemma_if_expression_view,
    lemma_method_call_view,
    lemma_type_of_name,
    optional_block_view,
    optional_parameters_view,
    parameters_view,
    statements_view,
    Ast,
    BinaryOperator,
    Block,
    CallParameters,
    Expression,
    ExpressionView,
    Function,
    FunctionParameters,
    LiteralType,
    Precedence,
    ReturnType,
    Statement,
    StatementView,
    TopLevelItem,
    TopLevelItemView,
    Type,
    UnaryOperator,
};
use crate::error::{
    message_text,
    report,
    unexpected,
    Diagnostics,
    ErrorEmitted,
    Expected,
    Found,
    SyntaxError,
};
use crate::grammar::{
    binary_operator_of,
    lemma_behind_first_significant,
    continues_expression,
    expect_kind,
    precedence_of,
    significant,
    spec_arguments,
    spec_block,
    spec_body,
    spec_call_suffix,
    spec_conditional,
    spec_expression,
    spec_function_definition,
    spec_item,
    spec_literal_expression,
    spec_method_chain,
    spec_method_suffix,
    spec_named,
    spec_operators,
    spec_optional_parameters,
    spec_optional_return_type,
    spec_parameters,
    spec_precedence,
    spec_prefix,
    spec_program,
    spec_return_type,
    spec_statement,
    spec_statements,
    spec_type,
    spec_unary,
    Parsed,
};
use crate::lexer::{tokenize, Tokenizer};
use crate::scan::{lemma_lex_at_bounds, significant_end, tokens_from, tokens_of};
use crate::token::{BinaryOperation, Keyword, LiteralKind, Token, TokenKind, TokenView};

verus! {

/// What an operation that follows the rule `rule` owes.
///
/// Where the rule recognises something, the operation returns it (`result`
/// holds its model), leaves the tokens behind it to be read, and reports
/// nothing. Where the rule meets a violation, the operation fails (`result`
/// is `None`), has reported exactly that violation, once, and leaves to be
/// read exactly the tokens that the rule leaves unread: nothing behind the
/// token at fault has been consumed.
pub open spec fn conforms<T>(
    rule: Parsed<T>,
    result: Option<T>,
    remaining: Seq<TokenView>,
    reported_before: Seq<Seq<char>>,
    reported: Seq<Seq<char>>,
) -> bool {
    match rule {
        Ok((value, rest)) => result == Some(value) && remaining == rest && reported
            == reported_before,
        Err(failure) => result is None && remaining == failure.rest && reported
            == reported_before.push(message_text(failure.error)),
    }
}

/// The tokens that a parser reads from the text `src`: its tokens without the
/// comments.
pub open spec fn parser_tokens(src: Seq<char>) -> Seq<TokenView> {
    significant(tokens_of(src))
}

/// The next token of `tokenizer` that is no comment.
fn next_significant<'src>(tokenizer: &mut Tokenizer<'src>) -> (token: Option<Token<'src>>)
    requires
        old(tokenizer).wf(),
    ensures
        final(tokenizer).wf(),
        final(tokenizer).source() == old(tokenizer).source(),
        final(tokenizer).offset() == significant_end(old(tokenizer).source(), old(tokenizer).offset()),
        match token {
            Some(t) => significant(old(tokenizer).remaining()) == seq![t@] + significant(
                final(tokenizer).remaining(),
            ),
            None => significant(old(tokenizer).remaining()) == Seq::<TokenView>::empty()
                && final(tokenizer).remaining() == Seq::<TokenView>::empty()
                && final(tokenizer).offset() == final(tokenizer).source().len(),
        },
{
    loop
        invariant
            tokenizer.wf(),
            tokenizer.source() == old(tokenizer).source(),
            significant_end(tokenizer.source(), tokenizer.offset()) == significant_end(
                old(tokenizer).source(),
                old(tokenizer).offset(),
            ),
            significant(tokenizer.remaining()) == significant(old(tokenizer).remaining()),
        decreases tokenizer.remaining().len(),
    {
        let ghost before = tokenizer.remaining();
        let ghost before_offset = tokenizer.offset();
        proof {
            tokenizer.lemma_offset_bounds();
        }
        match tokenizer.next() {
            None => {
                proof {
                    lemma_lex_at_bounds(tokenizer.source(), before_offset);
                }
                return None;
            },
            Some(token) => {
                assert(before[0] == token@);
                assert(before.skip(1) =~= tokenizer.remaining());
                if token.kind != TokenKind::Comment {
                    return Some(token);
                }
            },
        }
    }
}

/// The violation of meeting `found` where `expected` was required.
fn unexpected_found(expected: Expected, found: Option<Token<'_>>) -> (error: SyntaxError)
    ensures
        error == unexpected(
            expected,
            match found {
                Some(token) => seq![token@],
                None => Seq::empty(),
            },
        ),
{
    match found {
        None => SyntaxError::UnexpectedEnd { expected },
        Some(token) => {
            let found = match token.keyword() {
                Some(keyword) => Found::Keyword(keyword),
                None => Found::Token(token.kind),
            };
            SyntaxError::UnexpectedToken {
                expected,
                found,
                line: token.line,
                column: token.column,
            }
        },
    }
}

impl<'src> Token<'src> {
    /// Succeeds if the token is of kind `kind`; otherwise reports that a
    /// token of that kind was expected and this one found, and fails.
    pub fn should_be_kind(&self, kind: TokenKind, diagnostics: &mut Diagnostics) -> (result: Result<
        (),
        ErrorEmitted,
    >)
        ensures
            self.kind == kind ==> result is Ok && final(diagnostics)@ == old(diagnostics)@,
            self.kind != kind ==> result is Err && final(diagnostics)@ == old(diagnostics)@.push(
                message_text(unexpected(Expected::Kind(kind), seq![self@])),
            ),
    {
        if self.kind != kind {
            return Err(report(diagnostics, unexpected_found(Expected::Kind(kind), Some(*self))));
        }
        Ok(())
    }

    /// How strongly the token binds.
    pub fn get_precedence(&self) -> (precedence: Precedence)
        ensures
            precedence == precedence_of(self.kind),
    {
        match self.kind {
            TokenKind::Eq | TokenKind::BinOpEq(_) => Precedence::Assign,
            TokenKind::BinOp(operation) => {
                match operation {
                    BinaryOperation::Plus | BinaryOperation::Minus => Precedence::Sum,
                    BinaryOperation::Star | BinaryOperation::Slash => Precedence::Product,
                    BinaryOperation::And => Precedence::BitAnd,
                    BinaryOperation::Or => Precedence::BitOr,
                }
            },
            TokenKind::EqEq | TokenKind::NotEq => Precedence::Equality,
            TokenKind::Greater | TokenKind::GreaterEq | TokenKind::Less | TokenKind::LessEq =>
                Precedence::Comparison,
            TokenKind::OpenParen | TokenKind::OpenBracket | TokenKind::OpenCurly =>
                Precedence::Call,
            _ => Precedence::Lowest,
        }
    }

    /// The operator of the tree that the token stands for between two
    /// operands, if it stands for one.
    pub fn binary_operator(&self) -> (operator: Option<BinaryOperator>)
        ensures
            operator == binary_operator_of(self.kind),
    {
        match self.kind {
            TokenKind::BinOp(operation) => {
                match operation {
                    BinaryOperation::Plus => Some(BinaryOperator::Plus),
                    BinaryOperation::Minus => Some(BinaryOperator::Minus),
                    BinaryOperation::Star => Some(BinaryOperator::Star),
                    BinaryOperation::Slash => Some(BinaryOperator::Divide),
                    BinaryOperation::And => Some(BinaryOperator::And),
                    BinaryOperation::Or => Some(BinaryOperator::Or),
                }
            },
            _ => None,
        }
    }
}

/// The parser: a tokenizer and the one token that has been looked at and not
/// yet consumed.
pub struct Parser<'src> {
    tokenizer: Tokenizer<'src>,
    peeked: Option<Option<Token<'src>>>,
}

impl<'src> Parser<'src> {
    /// The parser is consistent: so is its tokenizer, and a buffer that holds
    /// the end of the input has a tokenizer that has reached it.
    pub closed spec fn wf(&self) -> bool {
        &&& self.tokenizer.wf()
        &&& (self.peeked == Some(None::<Token<'src>>) ==> self.tokenizer.remaining()
            == Seq::<TokenView>::empty() && self.tokenizer.offset()
            == self.tokenizer.source().len())
    }

    /// The source text.
    pub closed spec fn source(&self) -> Seq<char> {
        self.tokenizer.source()
    }

    /// The index up to which the text has been cut into tokens.
    pub closed spec fn position(&self) -> int {
        self.tokenizer.offset()
    }

    /// Whether the buffer holds the token that is to be read next, or holds
    /// the fact that there is none.
    pub closed spec fn buffered(&self) -> bool {
        self.peeked is Some
    }

    /// The index up to which the text will have been cut once the buffer is
    /// filled: no further than the one token that is to be read next.
    pub open spec fn position_once_buffered(&self) -> int {
        if self.buffered() {
            self.position()
        } else {
            significant_end(self.source(), self.position())
        }
    }

    /// No token is cut ahead of need: whatever has been done with the parser,
    /// the text has been cut no further than the end of the token that is to
    /// be read next. What is to be read behind that token is still uncut
    /// text, and where no token is left, cutting has reached the end of the
    /// text at the latest when the buffer is filled.
    pub proof fn lemma_nothing_cut_ahead(&self)
        requires
            self.wf(),
        ensures
            0 <= self.position() <= self.position_once_buffered() <= self.source().len(),
            self.remaining().len() > 0 ==> self.remaining().skip(1) == significant(
                tokens_from(self.source(), self.position_once_buffered()),
            ),
            self.remaining().len() == 0 ==> self.position_once_buffered() == self.source().len(),
    {
        self.tokenizer.lemma_offset_bounds();
        lemma_behind_first_significant(self.source(), self.position());
        match self.peeked {
            Some(Some(token)) => {
                assert(self.remaining().skip(1) =~= significant(self.tokenizer.remaining()));
            },
            _ => {},
        }
    }

    /// The tokens that are still to be read, in order. Comments are not among
    /// them.
    pub closed spec fn remaining(&self) -> Seq<TokenView> {
        match self.peeked {
            Some(Some(token)) => seq![token@] + significant(self.tokenizer.remaining()),
            Some(None) => Seq::empty(),
            None => significant(self.tokenizer.remaining()),
        }
    }

    /// A parser at the start of `input`. No token is cut before one is asked
    /// for.
    pub fn new(input: &'src str) -> (parser: Parser<'src>)
        ensures
            parser.wf(),
            parser.source() == input@,
            parser.position() == 0,
            !parser.buffered(),
            parser.remaining() == parser_tokens(input@),
    {
        Parser { tokenizer: tokenize(input), peeked: None }
    }

    /// The next token, which stays to be read; `None` at the end of the
    /// input. The token is cut from the text now unless the buffer holds it
    /// already, and nothing is cut beyond it.
    pub fn peek(&mut self) -> (token: Option<Token<'src>>)
        requires
            old(self).wf(),
        ensures
            final(self).wf(),
            final(self).source() == old(self).source(),
            final(self).buffered(),
            final(self).position() == old(self).position_once_buffered(),
            final(self).remaining() == old(self).remaining(),
            match token {
                Some(t) => old(self).remaining().len() > 0 && t@ == old(self).remaining()[0],
                None => old(self).remaining().len() == 0,
            },
    {
        match self.peeked {
            Some(token) => token,
            None => {
                let token = next_significant(&mut self.tokenizer);
                self.peeked = Some(token);
                token
            },
        }
    }

    /// Consumes the next token and returns it; `None` at the end of the
    /// input. The buffer is empty afterwards, and nothing has been cut from
    /// the text beyond the token returned.
    pub fn next(&mut self) -> (token: Option<Token<'src>>)
        requires
            old(self).wf(),
        ensures
            final(self).wf(),
            final(self).source() == old(self).source(),
            !final(self).buffered(),
            final(self).position() == old(self).position_once_buffered(),
            match token {
                Some(t) => old(self).remaining().len() > 0 && t@ == old(self).remaining()[0]
                    && final(self).remaining() == old(self).remaining().skip(1),
                None => old(self).remaining().len() == 0 && final(self).remaining() == old(
                    self,
                ).remaining(),
            },
    {
        match self.peeked {
            Some(token) => {
                self.peeked = None;
                proof {
                    if token is None {
                        assert(self.remaining() =~= old(self).remaining());
                    }
                    if token is Some {
                        assert((seq![token->0@] + significant(self.tokenizer.remaining())).skip(1)
                            =~= significant(self.tokenizer.remaining()));
                    }
                }
                token
            },
            None => {
                let token = next_significant(&mut self.tokenizer);
                proof {
                    if token is None {
                        assert(self.remaining() =~= old(self).remaining());
                    }
                    if token is Some {
                        assert((seq![token->0@] + significant(self.tokenizer.remaining())).skip(1)
                            =~= significant(self.tokenizer.remaining()));
                    }
                }
                token
            },
        }
    }

    /// Consumes the next token and returns it; at the end of the input
    /// reports that a token was expected, and fails.
    pub fn get_next_token_or_error(&mut self, diagnostics: &mut Diagnostics) -> (result: Result<
        Token<'src>,
        ErrorEmitted,
    >)
        requires
            old(self).wf(),
        ensures
            final(self).wf(),
            match result {
                Ok(token) => old(self).remaining().len() > 0 && token@ == old(self).remaining()[0]
                    && final(self).remaining() == old(self).remaining().skip(1)
                    && final(diagnostics)@ == old(diagnostics)@,
                Err(_) => old(self).remaining().len() == 0 && final(self).remaining() == old(
                    self,
                ).remaining() && final(diagnostics)@ == old(diagnostics)@.push(
                    message_text(SyntaxError::UnexpectedEnd { expected: Expected::Token }),
                ),
            },
    {
        match self.next() {
            Some(token) => Ok(token),
            None => Err(
                report(diagnostics, SyntaxError::UnexpectedEnd { expected: Expected::Token }),
            ),
        }
    }

    /// Consumes the next token, which must be of kind `kind`. A token of
    /// another kind is reported after it has been consumed.
    pub fn expect(&mut self, kind: TokenKind, diagnostics: &mut Diagnostics) -> (result: Result<
        (),
        ErrorEmitted,
    >)
        requires
            old(self).wf(),
        ensures
            final(self).wf(),
            match expect_kind(old(self).remaining(), kind) {
                Ok(rest) => result is Ok && final(self).remaining() == rest && final(diagnostics)@
                    == old(diagnostics)@,
                Err(failure) => result is Err && final(self).remaining() == failure.rest
                    && final(diagnostics)@ == old(diagnostics)@.push(message_text(failure.error)),
            },
    {
        let token = self.get_next_token_or_error(diagnostics)?;
        token.should_be_kind(kind, diagnostics)
    }

    /// Parses a type.
    pub fn parse_type(&mut self, diagnostics: &mut Diagnostics) -> (result: Result<
        Type,
        ErrorEmitted,
    >)
        requires
            old(self).wf(),
        ensures
            final(self).wf(),
            conforms(
                spec_type(old(self).remaining()),
                match result {
                    Ok(ty) => Some(ty),
                    Err(_) => None,
                },
                final(self).remaining(),
                old(diagnostics)@,
                final(diagnostics)@,
            ),
            result is Ok ==> final(self).remaining().len() < old(self).remaining().len(),
    {
        let token = self.next();
        match token {
            Some(t) => {
                match t.keyword() {
                    Some(Keyword::I32) => Ok(Type::I32),
                    _ => Err(report(diagnostics, unexpected_found(Expected::Type, token))),
                }
            },
            None => Err(report(diagnostics, unexpected_found(Expected::Type, token))),
        }
    }

    /// Parses what follows the `~` of a function: the type that the function
    /// returns, and the `!` that says that it may fail.
    pub fn parse_return_type(&mut self, diagnostics: &mut Diagnostics) -> (result: Result<
        ReturnType,
        ErrorEmitted,
    >)
        requires
            old(self).wf(),
        ensures
            final(self).wf(),
            conforms(
                spec_return_type(old(self).remaining()),
                match result {
                    Ok(return_type) => Some(return_type),
                    Err(_) => None,
                },
                final(self).remaining(),
                old(diagnostics)@,
                final(diagnostics)@,
            ),
            result is Ok ==> final(self).remaining().len() < old(self).remaining().len(),
    {
        let ty = self.parse_type(diagnostics)?;
        match self.peek() {
            Some(t) => {
                match t.kind {
                    TokenKind::Bang => {
                        self.next();
                        Ok((ty, true))
                    },
                    _ => Ok((ty, false)),
                }
            },
            None => Ok((ty, false)),
        }
    }

    /// Parses the parameters of a function: a type and a name each, with
    /// commas between them. A name that occurs twice is reported.
    pub fn parse_function_parameters(&mut self, diagnostics: &mut Diagnostics) -> (result: Result<
        FunctionParameters,
        ErrorEmitted,
    >)
        requires
            old(self).wf(),
        ensures
            final(self).wf(),
            conforms(
                spec_parameters(old(self).remaining(), Seq::empty()),
                match result {
                    Ok(parameters) => Some(parameters@),
                    Err(_) => None,
                },
                final(self).remaining(),
                old(diagnostics)@,
                final(diagnostics)@,
            ),
            result is Ok ==> final(self).remaining().len() < old(self).remaining().len(),
            result matches Ok(parameters) ==> parameters.wf(),
    {
        let mut params = FunctionParameters::new();
        loop
            invariant
                self.wf(),
                params.wf(),
                diagnostics@ == old(diagnostics)@,
                self.remaining().len() <= old(self).remaining().len(),
                spec_parameters(self.remaining(), params@) == spec_parameters(
                    old(self).remaining(),
                    Seq::empty(),
                ),
            decreases self.remaining().len(),
        {
            let ghost tokens = self.remaining();
            let ty = self.parse_type(diagnostics)?;
            let ghost rest = self.remaining();

            let identifier = self.get_next_token_or_error(diagnostics)?;
            if !identifier.is_name() {
                return Err(report(diagnostics, unexpected_found(Expected::Name, Some(identifier))));
            }
            proof {
                lemma_type_of_name(params@, identifier@.lexeme);
            }
            if params.insert(identifier.string.to_owned(), ty).is_some() {
                return Err(
                    report(
                        diagnostics,
                        SyntaxError::DuplicateParameter {
                            line: identifier.line,
                            column: identifier.column,
                        },
                    ),
                );
            }
            match self.peek() {
                Some(t) => {
                    match t.kind {
                        TokenKind::Comma => {
                            self.next();
                        },
                        _ => {
                            return Ok(params);
                        },
                    }
                },
                None => {
                    return Ok(params);
                },
            }
        }
    }
    /// Parses an expression.
    pub fn parse_expression(&mut self, diagnostics: &mut Diagnostics) -> (result: Result<
        Expression,
        ErrorEmitted,
    >)
        requires
            old(self).wf(),
        ensures
            final(self).wf(),
            conforms(
                spec_expression(old(self).remaining()),
                match result {
                    Ok(expression) => Some(expression@),
                    Err(_) => None,
                },
                final(self).remaining(),
                old(diagnostics)@,
                final(diagnostics)@,
            ),
            result is Ok ==> final(self).remaining().len() < old(self).remaining().len(),
        decreases old(self).remaining().len(), 3nat,
    {
        self.parse_precedence(Precedence::Lowest, diagnostics)
    }

    /// Parses an expression whose binary operators all bind strictly more
    /// strongly than `minimum`: a prefix expression, and operators with their
    /// right operands for as long as the next token is such an operator.
    pub fn parse_precedence(&mut self, minimum: Precedence, diagnostics: &mut Diagnostics) -> (result:
        Result<Expression, ErrorEmitted>)
        requires
            old(self).wf(),
        ensures
            final(self).wf(),
            conforms(
                spec_precedence(old(self).remaining(), minimum),
                match result {
                    Ok(expression) => Some(expression@),
                    Err(_) => None,
                },
                final(self).remaining(),
                old(diagnostics)@,
                final(diagnostics)@,
            ),
            result is Ok ==> final(self).remaining().len() < old(self).remaining().len(),
        decreases old(self).remaining().len(), 2nat,
    {
        let mut left = self.parse_prefix(diagnostics)?;
        loop
            invariant
                self.wf(),
                diagnostics@ == old(diagnostics)@,
                self.remaining().len() < old(self).remaining().len(),
                spec_operators(left@, self.remaining(), minimum) == spec_precedence(
                    old(self).remaining(),
                    minimum,
                ),
            decreases self.remaining().len(),
        {
            let ghost tokens = self.remaining();
            let ghost before = left@;
            let next = match self.peek() {
                Some(token) => token,
                None => {
                    return Ok(left);
                },
            };
            let operator = match next.binary_operator() {
                Some(operator) => operator,
                None => {
                    return Ok(left);
                },
            };
            let precedence = next.get_precedence();
            if !precedence.exceeds(&minimum) {
                return Ok(left);
            }
            assert(continues_expression(tokens[0], minimum));
            self.next();
            let right = self.parse_precedence(precedence, diagnostics)?;
            left = Expression::Binary { left: Box::new(left), operator, right: Box::new(right) };
            assert(left@ == (ExpressionView::Binary {
                left: Box::new(before),
                operator,
                right: Box::new(right@),
            }));
            assert(spec_operators(before, tokens, minimum) == spec_operators(
                left@,
                self.remaining(),
                minimum,
            ));
        }
    }

    /// Parses a prefix expression: a unary operator with its operand, a name
    /// with the calls made on it, a literal, or a conditional.
    pub fn parse_prefix(&mut self, diagnostics: &mut Diagnostics) -> (result: Result<
        Expression,
        ErrorEmitted,
    >)
        requires
            old(self).wf(),
        ensures
            final(self).wf(),
            conforms(
                spec_prefix(old(self).remaining()),
                match result {
                    Ok(expression) => Some(expression@),
                    Err(_) => None,
                },
                final(self).remaining(),
                old(diagnostics)@,
                final(diagnostics)@,
            ),
            result is Ok ==> final(self).remaining().len() < old(self).remaining().len(),
        decreases old(self).remaining().len(), 1nat,
    {
        let next = match self.peek() {
            Some(token) => token,
            None => {
                return Err(
                    report(diagnostics, SyntaxError::UnexpectedEnd { expected: Expected::Expression }),
                );
            },
        };

        match next.kind {
            // The lexer calls `-` a binary operation; here it stands before
            // its one operand.
            TokenKind::BinOp(BinaryOperation::Minus) => self.parse_unary(
                UnaryOperator::Negate,
                diagnostics,
            ),
            TokenKind::Bang => self.parse_unary(UnaryOperator::Not, diagnostics),
            TokenKind::Identifier => {
                match next.keyword() {
                    Some(Keyword::If) => self.parse_conditional(diagnostics),
                    Some(_) => Err(
                        report(diagnostics, unexpected_found(Expected::Expression, Some(next))),
                    ),
                    None => self.parse_named(diagnostics),
                }
            },
            TokenKind::Literal { kind, suffix_start } => self.parse_literal(
                kind,
                suffix_start,
                diagnostics,
            ),
            _ => Err(report(diagnostics, unexpected_found(Expected::Expression, Some(next)))),
        }
    }

    /// Parses a unary expression whose operator, `operator`, is the next
    /// token.
    fn parse_unary(&mut self, operator: UnaryOperator, diagnostics: &mut Diagnostics) -> (result:
        Result<Expression, ErrorEmitted>)
        requires
            old(self).wf(),
            old(self).remaining().len() > 0,
            operator == (if old(self).remaining()[0].kind == TokenKind::Bang {
                UnaryOperator::Not
            } else {
                UnaryOperator::Negate
            }),
        ensures
            final(self).wf(),
            conforms(
                spec_unary(old(self).remaining()),
                match result {
                    Ok(expression) => Some(expression@),
                    Err(_) => None,
                },
                final(self).remaining(),
                old(diagnostics)@,
                final(diagnostics)@,
            ),
            result is Ok ==> final(self).remaining().len() < old(self).remaining().len(),
        decreases old(self).remaining().len(), 0nat,
    {
        self.next();
        let operand = self.parse_expression(diagnostics)?;
        Ok(Expression::Unary { operator, operand: Box::new(operand) })
    }

    /// Parses a conditional whose keyword `if` is the next token.
    fn parse_conditional(&mut self, diagnostics: &mut Diagnostics) -> (result: Result<
        Expression,
        ErrorEmitted,
    >)
        requires
            old(self).wf(),
            old(self).remaining().len() > 0,
        ensures
            final(self).wf(),
            conforms(
                spec_conditional(old(self).remaining()),
                match result {
                    Ok(expression) => Some(expression@),
                    Err(_) => None,
                },
                final(self).remaining(),
                old(diagnostics)@,
                final(diagnostics)@,
            ),
            result is Ok ==> final(self).remaining().len() < old(self).remaining().len(),
        decreases old(self).remaining().len(), 0nat,
    {
        self.next();
        let condition = self.parse_expression(diagnostics)?;
        let block = self.parse_block(diagnostics)?;
        let expression = Expression::IfExpression { condition: Box::new(condition), block };
        proof {
            lemma_if_expression_view(expression);
        }
        Ok(expression)
    }

    /// Parses an expression that begins with a name, which is the next
    /// token. It is either the name on its own:
    ///      x, y
    /// or the call of a function:
    ///      x(), f(a, b)
    /// and behind either, calls of methods.
    fn parse_named(&mut self, diagnostics: &mut Diagnostics) -> (result: Result<
        Expression,
        ErrorEmitted,
    >)
        requires
            old(self).wf(),
            old(self).remaining().len() > 0,
        ensures
            final(self).wf(),
            conforms(
                spec_named(old(self).remaining()),
                match result {
                    Ok(expression) => Some(expression@),
                    Err(_) => None,
                },
                final(self).remaining(),
                old(diagnostics)@,
                final(diagnostics)@,
            ),
            result is Ok ==> final(self).remaining().len() < old(self).remaining().len(),
        decreases old(self).remaining().len(), 0nat,
    {
        let identifier = self.next().unwrap();
        let name = identifier.string.to_owned();
        let is_call = match self.peek() {
            Some(token) => token.kind == TokenKind::OpenParen,
            None => false,
        };
        if is_call {
            self.next();
            let parameters = self.parse_call_suffix(diagnostics)?;
            let call = Expression::FunctionCall { name, parameters };
            proof {
                lemma_function_call_view(call);
            }
            self.parse_method_chain(call, diagnostics)
        } else {
            self.parse_method_chain(Expression::Ident(name), diagnostics)
        }
    }

    /// Parses an expression that is a literal. The literal is the next token;
    /// `kind` and `suffix_start` are what that token holds. A string without
    /// its closing quote is reported and stays unread.
    fn parse_literal(
        &mut self,
        kind: LiteralKind,
        suffix_start: usize,
        diagnostics: &mut Diagnostics,
    ) -> (result: Result<Expression, ErrorEmitted>)
        requires
            old(self).wf(),
            old(self).remaining().len() > 0,
            old(self).remaining()[0].kind == (TokenKind::Literal { kind, suffix_start }),
        ensures
            final(self).wf(),
            conforms(
                spec_literal_expression(old(self).remaining()),
                match result {
                    Ok(expression) => Some(expression@),
                    Err(_) => None,
                },
                final(self).remaining(),
                old(diagnostics)@,
                final(diagnostics)@,
            ),
            result is Ok ==> final(self).remaining().len() < old(self).remaining().len(),
    {
        let token = self.peek().unwrap();
        let text = token.string.to_owned();
        match kind {
            LiteralKind::Str(terminated) => {
                if !terminated {
                    return Err(
                        report(
                            diagnostics,
                            SyntaxError::UnterminatedString { line: token.line, column: token.column },
                        ),
                    );
                }
                self.next();
                Ok(Expression::Literal(LiteralType::String(text)))
            },
            LiteralKind::Int { base, empty_int } => {
                self.next();
                Ok(Expression::Literal(LiteralType::Integer { text, base, empty_int, suffix_start }))
            },
            LiteralKind::Float { base, empty_exponent } => {
                self.next();
                Ok(
                    Expression::Literal(
                        LiteralType::Float { text, base, empty_exponent, suffix_start },
                    ),
                )
            },
        }
    }

    /// Parses one method call made on `receiver`; its dot is the next token.
    fn parse_method_suffix(&mut self, receiver: Expression, diagnostics: &mut Diagnostics) -> (result:
        Result<Expression, ErrorEmitted>)
        requires
            old(self).wf(),
            old(self).remaining().len() > 0,
        ensures
            final(self).wf(),
            conforms(
                spec_method_suffix(receiver@, old(self).remaining()),
                match result {
                    Ok(expression) => Some(expression@),
                    Err(_) => None,
                },
                final(self).remaining(),
                old(diagnostics)@,
                final(diagnostics)@,
            ),
            result is Ok ==> final(self).remaining().len() < old(self).remaining().len(),
        decreases old(self).remaining().len(), 0nat,
    {
        self.next();
        let method = self.get_next_token_or_error(diagnostics)?;
        if !method.is_name() {
            return Err(report(diagnostics, unexpected_found(Expected::Name, Some(method))));
        }
        self.expect(TokenKind::OpenParen, diagnostics)?;
        let parameters = self.parse_call_suffix(diagnostics)?;
        let call = Expression::MethodCall {
            receiver: Box::new(receiver),
            name: method.string.to_owned(),
            parameters,
        };
        proof {
            lemma_method_call_view(call);
        }
        Ok(call)
    }

    /// Parses the method calls made on `receiver`, one after the other. Each
    /// call becomes the receiver of the next.
    pub fn parse_method_chain(&mut self, receiver: Expression, diagnostics: &mut Diagnostics) -> (result:
        Result<Expression, ErrorEmitted>)
        requires
            old(self).wf(),
        ensures
            final(self).wf(),
            conforms(
                spec_method_chain(receiver@, old(self).remaining()),
                match result {
                    Ok(expression) => Some(expression@),
                    Err(_) => None,
                },
                final(self).remaining(),
                old(diagnostics)@,
                final(diagnostics)@,
            ),
            result is Ok ==> final(self).remaining().len() <= old(self).remaining().len(),
        decreases old(self).remaining().len(), 1nat,
    {
        let mut current = receiver;
        loop
            invariant
                self.wf(),
                diagnostics@ == old(diagnostics)@,
                self.remaining().len() <= old(self).remaining().len(),
                spec_method_chain(current@, self.remaining()) == spec_method_chain(
                    receiver@,
                    old(self).remaining(),
                ),
            decreases self.remaining().len(),
        {
            let is_dot = match self.peek() {
                Some(token) => token.is_dot(),
                None => false,
            };
            if !is_dot {
                return Ok(current);
            }
            current = self.parse_method_suffix(current, diagnostics)?;
        }
    }

    /// Parses what stands between the parentheses of a call, and the closing
    /// parenthesis. Empty parentheses give `None`.
    pub fn parse_call_suffix(&mut self, diagnostics: &mut Diagnostics) -> (result: Result<
        Option<CallParameters>,
        ErrorEmitted,
    >)
        requires
            old(self).wf(),
        ensures
            final(self).wf(),
            conforms(
                spec_call_suffix(old(self).remaining()),
                match result {
                    Ok(parameters) => Some(parameters_view(parameters)),
                    Err(_) => None,
                },
                final(self).remaining(),
                old(diagnostics)@,
                final(diagnostics)@,
            ),
            result is Ok ==> final(self).remaining().len() < old(self).remaining().len(),
        decreases old(self).remaining().len(), 5nat,
    {
        let close_paren_or_arg = match self.peek() {
            Some(token) => token,
            None => {
                return Err(
                    report(diagnostics, SyntaxError::UnexpectedEnd { expected: Expected::Arguments }),
                );
            },
        };

        let mut parameters: Option<CallParameters> = None;

        match close_paren_or_arg.kind {
            TokenKind::CloseParen => {},
            _ => {
                parameters = Some(self.parse_call_params(diagnostics)?);
            },
        }

        self.expect(TokenKind::CloseParen, diagnostics)?;

        Ok(parameters)
    }

    /// Parses the arguments of a call: an expression, and another after
    /// every comma. Stops before the first token behind an expression that is
    /// no comma; that no token is left there is no violation here.
    pub fn parse_call_params(&mut self, diagnostics: &mut Diagnostics) -> (result: Result<
        CallParameters,
        ErrorEmitted,
    >)
        requires
            old(self).wf(),
        ensures
            final(self).wf(),
            conforms(
                spec_arguments(old(self).remaining(), Seq::empty()),
                match result {
                    Ok(parameters) => Some(expressions_view(parameters@)),
                    Err(_) => None,
                },
                final(self).remaining(),
                old(diagnostics)@,
                final(diagnostics)@,
            ),
            result is Ok ==> final(self).remaining().len() < old(self).remaining().len(),
        decreases old(self).remaining().len(), 4nat,
    {
        let mut params = CallParameters::new();
        assert(expressions_view(params@) =~= Seq::<ExpressionView>::empty());

        loop
            invariant
                self.wf(),
                diagnostics@ == old(diagnostics)@,
                self.remaining().len() <= old(self).remaining().len(),
                spec_arguments(self.remaining(), expressions_view(params@)) == spec_arguments(
                    old(self).remaining(),
                    Seq::empty(),
                ),
            decreases self.remaining().len(),
        {
            let ghost seen = expressions_view(params@);
            let expr = self.parse_expression(diagnostics)?;

            params.push(expr);
            assert(expressions_view(params@) =~= seen.push(expr@));

            let is_comma = match self.peek() {
                Some(token) => token.kind == TokenKind::Comma,
                // The end of the input is no comma, and to ask for more
                // than the arguments is not the task here.
                None => false,
            };
            if !is_comma {
                return Ok(params);
            }
            self.next();
        }
    }

    /// Parses a statement: an expression and a semicolon.
    pub fn parse_statement(&mut self, diagnostics: &mut Diagnostics) -> (result: Result<
        Statement,
        ErrorEmitted,
    >)
        requires
            old(self).wf(),
        ensures
            final(self).wf(),
            conforms(
                spec_statement(old(self).remaining()),
                match result {
                    Ok(statement) => Some(statement@),
                    Err(_) => None,
                },
                final(self).remaining(),
                old(diagnostics)@,
                final(diagnostics)@,
            ),
            result is Ok ==> final(self).remaining().len() < old(self).remaining().len(),
        decreases old(self).remaining().len(), 4nat,
    {
        let expr = self.parse_expression(diagnostics)?;
        self.expect(TokenKind::Semicolon, diagnostics)?;
        Ok(Statement::Expression(expr))
    }

    /// Parses a block: statements between braces.
    pub fn parse_block(&mut self, diagnostics: &mut Diagnostics) -> (result: Result<
        Block,
        ErrorEmitted,
    >)
        requires
            old(self).wf(),
        ensures
            final(self).wf(),
            conforms(
                spec_block(old(self).remaining()),
                match result {
                    Ok(block) => Some(statements_view(block@)),
                    Err(_) => None,
                },
                final(self).remaining(),
                old(diagnostics)@,
                final(diagnostics)@,
            ),
            result is Ok ==> final(self).remaining().len() < old(self).remaining().len(),
        decreases old(self).remaining().len(), 5nat,
    {
        self.expect(TokenKind::OpenCurly, diagnostics)?;

        let mut block = Block::new();
        assert(statements_view(block@) =~= Seq::<StatementView>::empty());

        loop
            invariant
                self.wf(),
                diagnostics@ == old(diagnostics)@,
                self.remaining().len() < old(self).remaining().len(),
                spec_statements(self.remaining(), statements_view(block@)) == spec_block(
                    old(self).remaining(),
                ),
            decreases self.remaining().len(),
        {
            let next_token = match self.peek() {
                Some(token) => token,
                None => {
                    return Err(
                        report(
                            diagnostics,
                            SyntaxError::UnexpectedEnd { expected: Expected::Statement },
                        ),
                    );
                },
            };

            match next_token.kind {
                TokenKind::CloseCurly => {
                    self.next();
                    return Ok(block);
                },
                _ => {
                    let ghost seen = statements_view(block@);
                    let statement = self.parse_statement(diagnostics)?;
                    block.push(statement);
                    assert(statements_view(block@) =~= seen.push(statement@));
                },
            }
        }
    }
    /// Parses what stands between the parentheses of a function's signature
    /// and stops before the closing parenthesis. Empty parentheses give
    /// `None`.
    pub fn parse_optional_parameters(&mut self, diagnostics: &mut Diagnostics) -> (result: Result<
        Option<FunctionParameters>,
        ErrorEmitted,
    >)
        requires
            old(self).wf(),
        ensures
            final(self).wf(),
            conforms(
                spec_optional_parameters(old(self).remaining()),
                match result {
                    Ok(parameters) => Some(optional_parameters_view(parameters)),
                    Err(_) => None,
                },
                final(self).remaining(),
                old(diagnostics)@,
                final(diagnostics)@,
            ),
            result is Ok ==> final(self).remaining().len() <= old(self).remaining().len(),
            result matches Ok(Some(parameters)) ==> parameters.wf(),
    {
        match self.peek() {
            None => Err(
                report(diagnostics, SyntaxError::UnexpectedEnd { expected: Expected::Parameters }),
            ),
            Some(token) => {
                match token.kind {
                    TokenKind::CloseParen => Ok(None),
                    _ => {
                        let parameters = self.parse_function_parameters(diagnostics)?;
                        Ok(Some(parameters))
                    },
                }
            },
        }
    }

    /// Parses the return type of a function where `~` announces one. The
    /// input may not end here.
    pub fn parse_optional_return_type(&mut self, diagnostics: &mut Diagnostics) -> (result: Result<
        Option<ReturnType>,
        ErrorEmitted,
    >)
        requires
            old(self).wf(),
        ensures
            final(self).wf(),
            conforms(
                spec_optional_return_type(old(self).remaining()),
                match result {
                    Ok(return_type) => Some(return_type),
                    Err(_) => None,
                },
                final(self).remaining(),
                old(diagnostics)@,
                final(diagnostics)@,
            ),
            result is Ok ==> final(self).remaining().len() <= old(self).remaining().len(),
    {
        match self.peek() {
            None => Err(report(diagnostics, SyntaxError::UnexpectedEnd { expected: Expected::Body })),
            Some(token) => {
                match token.kind {
                    TokenKind::Tilde => {
                        self.next();
                        let return_type = self.parse_return_type(diagnostics)?;
                        Ok(Some(return_type))
                    },
                    _ => Ok(None),
                }
            },
        }
    }

    /// Parses what ends a function: `;`, which gives `None`, or a block.
    pub fn parse_body(&mut self, diagnostics: &mut Diagnostics) -> (result: Result<
        Option<Block>,
        ErrorEmitted,
    >)
        requires
            old(self).wf(),
        ensures
            final(self).wf(),
            conforms(
                spec_body(old(self).remaining()),
                match result {
                    Ok(block) => Some(optional_block_view(block)),
                    Err(_) => None,
                },
                final(self).remaining(),
                old(diagnostics)@,
                final(diagnostics)@,
            ),
            result is Ok ==> final(self).remaining().len() < old(self).remaining().len(),
    {
        let token = self.peek();
        match token {
            None => Err(report(diagnostics, SyntaxError::UnexpectedEnd { expected: Expected::Body })),
            Some(t) => {
                match t.kind {
                    TokenKind::Semicolon => {
                        self.next();
                        Ok(None)
                    },
                    TokenKind::OpenCurly => {
                        let block = self.parse_block(diagnostics)?;
                        Ok(Some(block))
                    },
                    _ => Err(report(diagnostics, unexpected_found(Expected::Body, token))),
                }
            },
        }
    }

    /// Parses a function behind its keyword: the name, the parameters in
    /// parentheses, the return type where one is given, and `;` or the body.
    pub fn parse_function_definition(&mut self, diagnostics: &mut Diagnostics) -> (result: Result<
        Function,
        ErrorEmitted,
    >)
        requires
            old(self).wf(),
        ensures
            final(self).wf(),
            conforms(
                spec_function_definition(old(self).remaining()),
                match result {
                    Ok(function) => Some(function@),
                    Err(_) => None,
                },
                final(self).remaining(),
                old(diagnostics)@,
                final(diagnostics)@,
            ),
            result matches Ok(function) ==> function.wf(),
            result is Ok ==> final(self).remaining().len() < old(self).remaining().len(),
    {
        // The next token is the name
        let identifier = self.get_next_token_or_error(diagnostics)?;
        if !identifier.is_name() {
            return Err(report(diagnostics, unexpected_found(Expected::Name, Some(identifier))));
        }
        self.expect(TokenKind::OpenParen, diagnostics)?;

        let parameters = self.parse_optional_parameters(diagnostics)?;

        self.expect(TokenKind::CloseParen, diagnostics)?;

        let mut function = Function {
            impure: false,
            name: identifier.string.to_owned(),
            parameters,
            return_type: None,
            block: None,
        };
        // Two things may follow:
        // 1. a return type
        // 2. either `;` or a block
        function.return_type = self.parse_optional_return_type(diagnostics)?;
        function.block = self.parse_body(diagnostics)?;

        Ok(function)
    }

    /// Parses the item that begins with `token`, which has been consumed.
    pub fn parse_item(&mut self, token: Token<'src>, diagnostics: &mut Diagnostics) -> (result:
        Result<TopLevelItem, ErrorEmitted>)
        requires
            old(self).wf(),
        ensures
            final(self).wf(),
            conforms(
                spec_item(token@, old(self).remaining()),
                match result {
                    Ok(item) => Some(item@),
                    Err(_) => None,
                },
                final(self).remaining(),
                old(diagnostics)@,
                final(diagnostics)@,
            ),
            result matches Ok(item) ==> item.wf(),
            result is Ok ==> final(self).remaining().len() < old(self).remaining().len(),
    {
        match token.keyword() {
            Some(Keyword::Func) => {
                let function = self.parse_function_definition(diagnostics)?;
                Ok(TopLevelItem::Function(function))
            },
            _ => Err(report(diagnostics, unexpected_found(Expected::Item, Some(token)))),
        }
    }

    /// Parses a program: one item after the other until no token is left.
    pub fn parse_program(&mut self, diagnostics: &mut Diagnostics) -> (result: Result<
        Ast,
        ErrorEmitted,
    >)
        requires
            old(self).wf(),
        ensures
            final(self).wf(),
            match spec_program(old(self).remaining(), Seq::empty()) {
                Ok(items) => result matches Ok(ast) && items_view(ast@) == items
                    && final(self).remaining().len() == 0 && final(diagnostics)@ == old(
                    diagnostics,
                )@,
                Err(failure) => result is Err && final(self).remaining() == failure.rest
                    && final(diagnostics)@ == old(diagnostics)@.push(message_text(failure.error)),
            },
            result matches Ok(ast) ==> forall|k: int|
                0 <= k < ast@.len() ==> (#[trigger] ast@[k]).wf(),
    {
        let mut ast = Ast::new();
        assert(items_view(ast@) =~= Seq::<TopLevelItemView>::empty());

        loop
            invariant
                self.wf(),
                diagnostics@ == old(diagnostics)@,
                forall|k: int| 0 <= k < ast@.len() ==> (#[trigger] ast@[k]).wf(),
                spec_program(self.remaining(), items_view(ast@)) == spec_program(
                    old(self).remaining(),
                    Seq::empty(),
                ),
            decreases self.remaining().len(),
        {
            let ghost tokens = self.remaining();
            let ghost seen = items_view(ast@);
            let token = match self.next() {
                Some(token) => token,
                None => {
                    return Ok(ast);
                },
            };
            let item = self.parse_item(token, diagnostics)?;
            ast.push(item);
            assert(items_view(ast@) =~= seen.push(item@));
        }
    }
}

/// What parsing the text `src` gives: the items of the program, or the first
/// violation of the grammar.
pub open spec fn spec_parse(src: Seq<char>) -> Result<Seq<TopLevelItemView>, SyntaxError> {
    match spec_program(parser_tokens(src), Seq::empty()) {
        Ok(items) => Ok(items),
        Err(failure) => Err(failure.error),
    }
}

/// Parses the program `input`.
///
/// Gives the syntax tree of the whole text and reports nothing, or reports
/// the first violation of the grammar, once, and gives the sentinel for it.
/// There is no tree for a part of a program.
pub fn parse(input: &str, diagnostics: &mut Diagnostics) -> (result: Result<Ast, ErrorEmitted>)
    ensures
        match spec_parse(input@) {
            Ok(items) => result matches Ok(ast) && items_view(ast@) == items && final(diagnostics)@
                == old(diagnostics)@,
            Err(error) => result is Err && final(diagnostics)@ == old(diagnostics)@.push(
                message_text(error),
            ),
        },
        result matches Ok(ast) ==> forall|k: int| 0 <= k < ast@.len() ==> (#[trigger] ast@[k]).wf(),
{
    let mut parser = Parser::new(input);
    parser.parse_program(diagnostics)
}

} // verus!
