//! The grammar, stated over a sequence of tokens.
//!
//! Every function here takes the tokens that are still to be read and gives
//! either what it recognised at their head together with the tokens behind
//! it, or the first violation of the grammar together with the tokens that
//! are left unread at that point. The parser is proved to compute exactly
//! these functions.
//!
//! A rule that fails has read nothing behind the token at fault. Where the
//! rule chooses by the next token, that token is left unread; where it asks
//! for one token of a certain sort (`expect_kind`, `spec_name`, `spec_type`),
//! it takes the token before it judges it, so the token at fault is the last
//! one read.
//!
//! ```text
//! Program      := Item*
//! Item         := "func" Name "(" Parameters? ")" ReturnSpec? ( ";" | Block )
//! Parameters   := Type Name ("," Type Name)*
//! ReturnSpec   := "~" Type "!"?
//! Block        := "{" Statement* "}"
//! Statement    := Expression ";"
//! Expression   := Prefix (BinaryOperator Expression)*
//! Prefix       := ("-" | "!") Expression
//!               | Name CallSuffix? MethodSuffix*
//!               | Literal
//!               | "if" Expression Block
//! CallSuffix   := "(" Arguments? ")"
//! MethodSuffix := "." Name CallSuffix
//! Arguments    := Expression ("," Expression)*
//! ```

use vstd::prelude::*;
use crate::ast::{
    distinct_names,
    has_name,
    BinaryOperator,
    ExpressionView,
    FunctionView,
    LiteralView,
    Precedence,
    ReturnType,
    StatementView,
    TopLevelItemView,
    Type,
    UnaryOperator,
};
use crate::error::{unexpected, Expected, SyntaxError};
use crate::scan::{
    lemma_lex_at_bounds,
    lex_at,
    peek_at,
    run_end,
    significant_end,
    tokens_from,
    CharClass,
};
use crate::token::{BinaryOperation, Keyword, LiteralKind, TokenKind, TokenView};

verus! {

/// A rule that fails: the violation, and the tokens that are left unread.
pub struct Failure {
    pub error: SyntaxError,
    pub rest: Seq<TokenView>,
}

/// What a rule of the grammar gives: what it recognised and the tokens behind
/// it, or the violation that it met and the tokens left unread.
pub type Parsed<T> = Result<(T, Seq<TokenView>), Failure>;

/// The failure of a rule that looked at the next token, found `tokens` where
/// `expected` was required, and left the token at fault unread.
pub open spec fn fails_before(expected: Expected, tokens: Seq<TokenView>) -> Failure {
    Failure { error: unexpected(expected, tokens), rest: tokens }
}

/// The failure of a rule that took the next token, found `tokens` where
/// `expected` was required, and has the token at fault behind it.
pub open spec fn fails_behind(expected: Expected, tokens: Seq<TokenView>) -> Failure {
    Failure {
        error: unexpected(expected, tokens),
        rest: if tokens.len() > 0 {
            tokens.skip(1)
        } else {
            tokens
        },
    }
}

/// The tokens that the parser reads: `tokens` without the comments.
pub open spec fn significant(tokens: Seq<TokenView>) -> Seq<TokenView>
    decreases tokens.len(),
{
    if tokens.len() == 0 {
        Seq::empty()
    } else if tokens[0].kind == TokenKind::Comment {
        significant(tokens.skip(1))
    } else {
        seq![tokens[0]] + significant(tokens.skip(1))
    }
}

/// How strongly a token of kind `kind` binds.
pub open spec fn precedence_of(kind: TokenKind) -> Precedence {
    match kind {
        TokenKind::Eq | TokenKind::BinOpEq(_) => Precedence::Assign,
        TokenKind::BinOp(BinaryOperation::Plus) | TokenKind::BinOp(BinaryOperation::Minus) =>
            Precedence::Sum,
        TokenKind::BinOp(BinaryOperation::Star) | TokenKind::BinOp(BinaryOperation::Slash) =>
            Precedence::Product,
        TokenKind::BinOp(BinaryOperation::And) => Precedence::BitAnd,
        TokenKind::BinOp(BinaryOperation::Or) => Precedence::BitOr,
        TokenKind::EqEq | TokenKind::NotEq => Precedence::Equality,
        TokenKind::Greater | TokenKind::GreaterEq | TokenKind::Less | TokenKind::LessEq =>
            Precedence::Comparison,
        TokenKind::OpenParen | TokenKind::OpenBracket | TokenKind::OpenCurly => Precedence::Call,
        _ => Precedence::Lowest,
    }
}

/// The operator of the tree that a token of kind `kind` stands for between
/// two operands, if it stands for one.
pub open spec fn binary_operator_of(kind: TokenKind) -> Option<BinaryOperator> {
    match kind {
        TokenKind::BinOp(BinaryOperation::Plus) => Some(BinaryOperator::Plus),
        TokenKind::BinOp(BinaryOperation::Minus) => Some(BinaryOperator::Minus),
        TokenKind::BinOp(BinaryOperation::Star) => Some(BinaryOperator::Star),
        TokenKind::BinOp(BinaryOperation::Slash) => Some(BinaryOperator::Divide),
        TokenKind::BinOp(BinaryOperation::And) => Some(BinaryOperator::And),
        TokenKind::BinOp(BinaryOperation::Or) => Some(BinaryOperator::Or),
        _ => None,
    }
}

/// Whether the token continues an expression whose threshold is `minimum`:
/// it is a binary operator and binds strictly more strongly than `minimum`.
pub open spec fn continues_expression(token: TokenView, minimum: Precedence) -> bool {
    binary_operator_of(token.kind) is Some && precedence_of(token.kind).rank() > minimum.rank()
}

/// Whether a token of this kind may begin an expression.
pub open spec fn begins_expression(token: TokenView) -> bool {
    ||| token.kind == TokenKind::BinOp(BinaryOperation::Minus)
    ||| token.kind == TokenKind::Bang
    ||| token.kind is Literal
    ||| token.is_name()
    ||| token.keyword() == Some(Keyword::If)
}

/// The tokens behind a first token of kind `kind`. The input may not end
/// here, and the first token may be of no other kind; one of another kind has
/// been taken when the rule fails on it.
pub open spec fn expect_kind(tokens: Seq<TokenView>, kind: TokenKind) -> Result<
    Seq<TokenView>,
    Failure,
> {
    if tokens.len() == 0 {
        Err(fails_before(Expected::Token, tokens))
    } else if tokens[0].kind != kind {
        Err(fails_behind(Expected::Kind(kind), tokens))
    } else {
        Ok(tokens.skip(1))
    }
}

/// A name: the text of a first token that is an identifier and no keyword.
/// A token that is no name has been taken when the rule fails on it.
pub open spec fn spec_name(tokens: Seq<TokenView>) -> Parsed<Seq<char>> {
    if tokens.len() == 0 {
        Err(fails_before(Expected::Token, tokens))
    } else if !tokens[0].is_name() {
        Err(fails_behind(Expected::Name, tokens))
    } else {
        Ok((tokens[0].lexeme, tokens.skip(1)))
    }
}

/// A type: the keyword `i32`. A token that is no type has been taken when the
/// rule fails on it.
pub open spec fn spec_type(tokens: Seq<TokenView>) -> Parsed<Type> {
    if tokens.len() > 0 && tokens[0].keyword() == Some(Keyword::I32) {
        Ok((Type::I32, tokens.skip(1)))
    } else {
        Err(fails_behind(Expected::Type, tokens))
    }
}

/// What follows the `~` of a function: a type, and `!` where the function
/// may fail.
pub open spec fn spec_return_type(tokens: Seq<TokenView>) -> Parsed<ReturnType> {
    match spec_type(tokens) {
        Err(failure) => Err(failure),
        Ok((ty, rest)) => if rest.len() > 0 && rest[0].kind == TokenKind::Bang {
            Ok(((ty, true), rest.skip(1)))
        } else {
            Ok(((ty, false), rest))
        },
    }
}

/// The parameters of a function, after those in `seen`: a type and a name
/// each, with a comma between one parameter and the next. A name that `seen`
/// or an earlier parameter of the list holds already is a violation; the rule
/// fails behind that name and reads nothing of what follows the list.
pub open spec fn spec_parameters(tokens: Seq<TokenView>, seen: Seq<(Seq<char>, Type)>) -> Parsed<
    Seq<(Seq<char>, Type)>,
>
    decreases tokens.len(),
{
    match spec_type(tokens) {
        Err(failure) => Err(failure),
        Ok((ty, rest)) => match spec_name(rest) {
            Err(failure) => Err(failure),
            Ok((name, behind)) => if has_name(seen, name) {
                Err(
                    Failure {
                        error: SyntaxError::DuplicateParameter {
                            line: rest[0].line as usize,
                            column: rest[0].column as usize,
                        },
                        rest: behind,
                    },
                )
            } else if behind.len() > 0 && behind[0].kind == TokenKind::Comma {
                spec_parameters(behind.skip(1), seen.push((name, ty)))
            } else {
                Ok((seen.push((name, ty)), behind))
            },
        },
    }
}

/// The literal that a literal token stands for. A string without its closing
/// quote is a violation; a number that lacks digits is none.
pub open spec fn spec_literal(token: TokenView) -> Result<LiteralView, SyntaxError>
    recommends
        token.kind is Literal,
{
    let suffix_start = token.kind->suffix_start;
    match token.kind->Literal_kind {
        LiteralKind::Int { base, empty_int } => Ok(
            LiteralView::Integer { text: token.lexeme, base, empty_int, suffix_start },
        ),
        LiteralKind::Float { base, empty_exponent } => Ok(
            LiteralView::Float { text: token.lexeme, base, empty_exponent, suffix_start },
        ),
        LiteralKind::Str(terminated) => if terminated {
            Ok(LiteralView::String(token.lexeme))
        } else {
            Err(
                SyntaxError::UnterminatedString {
                    line: token.line as usize,
                    column: token.column as usize,
                },
            )
        },
    }
}

/// An expression whose binary operators all bind strictly more strongly than
/// `minimum`: a prefix expression, then operators and their right operands
/// for as long as the next token continues the expression.
///
/// Wherever a rule below goes on with the tokens that another rule left, it
/// first tests that these are fewer than its own. The test only shows that the
/// definition ends: a rule that succeeds has read a token, so the test is
/// always passed.
pub open spec fn spec_precedence(tokens: Seq<TokenView>, minimum: Precedence) -> Parsed<
    ExpressionView,
>
    decreases tokens.len(), 2nat,
{
    match spec_prefix(tokens) {
        Err(failure) => Err(failure),
        Ok((left, rest)) => if rest.len() < tokens.len() {
            spec_operators(left, rest, minimum)
        } else {
            arbitrary()
        },
    }
}

/// An expression: one whose operators may bind as weakly as they like.
pub open spec fn spec_expression(tokens: Seq<TokenView>) -> Parsed<ExpressionView> {
    spec_precedence(tokens, Precedence::Lowest)
}

/// The operators behind the operand `left`. Each operator takes as its right
/// operand an expression whose own operators bind strictly more strongly than
/// it does, and the two operands become the left operand of the next
/// operator: operators of one strength group to the left.
pub open spec fn spec_operators(
    left: ExpressionView,
    tokens: Seq<TokenView>,
    minimum: Precedence,
) -> Parsed<ExpressionView>
    decreases tokens.len(), 0nat,
{
    if tokens.len() > 0 && continues_expression(tokens[0], minimum) {
        match spec_precedence(tokens.skip(1), precedence_of(tokens[0].kind)) {
            Err(failure) => Err(failure),
            Ok((right, rest)) => if rest.len() < tokens.len() {
                spec_operators(
                    ExpressionView::Binary {
                        left: Box::new(left),
                        operator: binary_operator_of(tokens[0].kind)->0,
                        right: Box::new(right),
                    },
                    rest,
                    minimum,
                )
            } else {
                arbitrary()
            },
        }
    } else {
        Ok((left, tokens))
    }
}

/// A prefix expression: a unary operator and its operand, a name with the
/// calls made on it, a literal, or a conditional. Any other first token is a
/// violation, and so is the end of the input.
pub open spec fn spec_prefix(tokens: Seq<TokenView>) -> Parsed<ExpressionView>
    decreases tokens.len(), 1nat,
{
    if tokens.len() == 0 {
        Err(fails_before(Expected::Expression, tokens))
    } else if tokens[0].kind == TokenKind::BinOp(BinaryOperation::Minus) || tokens[0].kind
        == TokenKind::Bang {
        spec_unary(tokens)
    } else if tokens[0].is_name() {
        spec_named(tokens)
    } else if tokens[0].kind is Literal {
        spec_literal_expression(tokens)
    } else if tokens[0].keyword() == Some(Keyword::If) {
        spec_conditional(tokens)
    } else {
        Err(fails_before(Expected::Expression, tokens))
    }
}

/// A unary expression: the operator `-` or `!` and its operand.
///
/// The operand is a whole expression, so `-a + b` negates `a + b`.
pub open spec fn spec_unary(tokens: Seq<TokenView>) -> Parsed<ExpressionView>
    recommends
        tokens.len() > 0,
    decreases tokens.len(), 0nat,
{
    if tokens.len() > 0 {
        match spec_precedence(tokens.skip(1), Precedence::Lowest) {
            Err(failure) => Err(failure),
            Ok((operand, rest)) => Ok(
                (
                    ExpressionView::Unary {
                        operator: if tokens[0].kind == TokenKind::Bang {
                            UnaryOperator::Not
                        } else {
                            UnaryOperator::Negate
                        },
                        operand: Box::new(operand),
                    },
                    rest,
                ),
            ),
        }
    } else {
        arbitrary()
    }
}

/// An expression that begins with a name: the name alone, or the call of the
/// function of that name, and behind either the method calls made on it.
pub open spec fn spec_named(tokens: Seq<TokenView>) -> Parsed<ExpressionView>
    recommends
        tokens.len() > 0,
    decreases tokens.len(), 0nat,
{
    if tokens.len() > 0 {
        let name = tokens[0].lexeme;
        let behind = tokens.skip(1);
        if behind.len() > 0 && behind[0].kind == TokenKind::OpenParen {
            match spec_call_suffix(behind.skip(1)) {
                Err(failure) => Err(failure),
                Ok((parameters, rest)) => if rest.len() < tokens.len() {
                    spec_method_chain(ExpressionView::FunctionCall { name, parameters }, rest)
                } else {
                    arbitrary()
                },
            }
        } else {
            spec_method_chain(ExpressionView::Ident(name), behind)
        }
    } else {
        arbitrary()
    }
}

/// An expression that is a literal. A string without its closing quote is
/// left unread.
pub open spec fn spec_literal_expression(tokens: Seq<TokenView>) -> Parsed<ExpressionView>
    recommends
        tokens.len() > 0,
        tokens[0].kind is Literal,
{
    match spec_literal(tokens[0]) {
        Err(error) => Err(Failure { error, rest: tokens }),
        Ok(literal) => Ok((ExpressionView::Literal(literal), tokens.skip(1))),
    }
}

/// A conditional: the keyword `if`, the condition, and the block that is run
/// when the condition holds.
pub open spec fn spec_conditional(tokens: Seq<TokenView>) -> Parsed<ExpressionView>
    recommends
        tokens.len() > 0,
    decreases tokens.len(), 0nat,
{
    if tokens.len() > 0 {
        match spec_precedence(tokens.skip(1), Precedence::Lowest) {
            Err(failure) => Err(failure),
            Ok((condition, rest)) => if rest.len() < tokens.len() {
                match spec_block(rest) {
                    Err(failure) => Err(failure),
                    Ok((block, behind)) => Ok(
                        (
                            ExpressionView::IfExpression { condition: Box::new(condition), block },
                            behind,
                        ),
                    ),
                }
            } else {
                arbitrary()
            },
        }
    } else {
        arbitrary()
    }
}

/// One method call made on `receiver`: a dot, the name of the method and its
/// arguments in parentheses.
pub open spec fn spec_method_suffix(receiver: ExpressionView, tokens: Seq<TokenView>) -> Parsed<
    ExpressionView,
>
    recommends
        tokens.len() > 0,
    decreases tokens.len(), 0nat,
{
    if tokens.len() > 0 {
        match spec_name(tokens.skip(1)) {
            Err(failure) => Err(failure),
            Ok((name, behind)) => match expect_kind(behind, TokenKind::OpenParen) {
                Err(failure) => Err(failure),
                Ok(inside) => match spec_call_suffix(inside) {
                    Err(failure) => Err(failure),
                    Ok((parameters, rest)) => Ok(
                        (
                            ExpressionView::MethodCall {
                                receiver: Box::new(receiver),
                                name,
                                parameters,
                            },
                            rest,
                        ),
                    ),
                },
            },
        }
    } else {
        arbitrary()
    }
}

/// The method calls made on `receiver`, one after the other, for as long as
/// the next token is a dot. Each call is the receiver of the next.
pub open spec fn spec_method_chain(receiver: ExpressionView, tokens: Seq<TokenView>) -> Parsed<
    ExpressionView,
>
    decreases tokens.len(), 1nat,
{
    if tokens.len() > 0 && tokens[0].is_dot() {
        match spec_method_suffix(receiver, tokens) {
            Err(failure) => Err(failure),
            Ok((call, rest)) => if rest.len() < tokens.len() {
                spec_method_chain(call, rest)
            } else {
                arbitrary()
            },
        }
    } else {
        Ok((receiver, tokens))
    }
}

/// What stands between the parentheses of a call, and the closing
/// parenthesis: nothing, which gives `None`, or arguments.
pub open spec fn spec_call_suffix(tokens: Seq<TokenView>) -> Parsed<Option<Seq<ExpressionView>>>
    decreases tokens.len(), 4nat,
{
    if tokens.len() == 0 {
        Err(fails_before(Expected::Arguments, tokens))
    } else if tokens[0].kind == TokenKind::CloseParen {
        Ok((None, tokens.skip(1)))
    } else {
        match spec_arguments(tokens, Seq::empty()) {
            Err(failure) => Err(failure),
            Ok((arguments, rest)) => match expect_kind(rest, TokenKind::CloseParen) {
                Err(failure) => Err(failure),
                Ok(behind) => Ok((Some(arguments), behind)),
            },
        }
    }
}

/// The arguments of a call, after those in `seen`: an expression, and
/// another after every comma. The list ends before the first token behind an
/// expression that is no comma, and also where the input ends there.
pub open spec fn spec_arguments(tokens: Seq<TokenView>, seen: Seq<ExpressionView>) -> Parsed<
    Seq<ExpressionView>,
>
    decreases tokens.len(), 3nat,
{
    match spec_precedence(tokens, Precedence::Lowest) {
        Err(failure) => Err(failure),
        Ok((argument, rest)) => if rest.len() > 0 && rest[0].kind == TokenKind::Comma {
            if rest.len() <= tokens.len() {
                spec_arguments(rest.skip(1), seen.push(argument))
            } else {
                arbitrary()
            }
        } else {
            Ok((seen.push(argument), rest))
        },
    }
}

/// A statement: an expression and a semicolon.
pub open spec fn spec_statement(tokens: Seq<TokenView>) -> Parsed<StatementView>
    decreases tokens.len(), 3nat,
{
    match spec_precedence(tokens, Precedence::Lowest) {
        Err(failure) => Err(failure),
        Ok((expression, rest)) => match expect_kind(rest, TokenKind::Semicolon) {
            Err(failure) => Err(failure),
            Ok(behind) => Ok((StatementView::Expression(expression), behind)),
        },
    }
}

/// The statements of a block, after those in `seen`, and the brace that
/// closes the block.
pub open spec fn spec_statements(tokens: Seq<TokenView>, seen: Seq<StatementView>) -> Parsed<
    Seq<StatementView>,
>
    decreases tokens.len(), 4nat,
{
    if tokens.len() == 0 {
        Err(fails_before(Expected::Statement, tokens))
    } else if tokens[0].kind == TokenKind::CloseCurly {
        Ok((seen, tokens.skip(1)))
    } else {
        match spec_statement(tokens) {
            Err(failure) => Err(failure),
            Ok((statement, rest)) => if rest.len() < tokens.len() {
                spec_statements(rest, seen.push(statement))
            } else {
                arbitrary()
            },
        }
    }
}

/// A block: statements between braces.
pub open spec fn spec_block(tokens: Seq<TokenView>) -> Parsed<Seq<StatementView>>
    decreases tokens.len(), 5nat,
{
    match expect_kind(tokens, TokenKind::OpenCurly) {
        Err(failure) => Err(failure),
        Ok(inside) => spec_statements(inside, Seq::empty()),
    }
}

/// What stands between the parentheses of a function's signature, up to the
/// closing parenthesis, which is left in place: nothing, which gives `None`,
/// or parameters.
pub open spec fn spec_optional_parameters(tokens: Seq<TokenView>) -> Parsed<
    Option<Seq<(Seq<char>, Type)>>,
> {
    if tokens.len() == 0 {
        Err(fails_before(Expected::Parameters, tokens))
    } else if tokens[0].kind == TokenKind::CloseParen {
        Ok((None, tokens))
    } else {
        match spec_parameters(tokens, Seq::empty()) {
            Err(failure) => Err(failure),
            Ok((parameters, rest)) => Ok((Some(parameters), rest)),
        }
    }
}

/// What may stand behind the parentheses of a function's signature: `~` and
/// a return type, or nothing. The input may not end here.
pub open spec fn spec_optional_return_type(tokens: Seq<TokenView>) -> Parsed<Option<ReturnType>> {
    if tokens.len() == 0 {
        Err(fails_before(Expected::Body, tokens))
    } else if tokens[0].kind == TokenKind::Tilde {
        match spec_return_type(tokens.skip(1)) {
            Err(failure) => Err(failure),
            Ok((return_type, rest)) => Ok((Some(return_type), rest)),
        }
    } else {
        Ok((None, tokens))
    }
}

/// What ends a function: `;`, which gives `None` and makes the function a
/// declaration, or a block.
pub open spec fn spec_body(tokens: Seq<TokenView>) -> Parsed<Option<Seq<StatementView>>> {
    if tokens.len() == 0 {
        Err(fails_before(Expected::Body, tokens))
    } else if tokens[0].kind == TokenKind::Semicolon {
        Ok((None, tokens.skip(1)))
    } else if tokens[0].kind == TokenKind::OpenCurly {
        match spec_block(tokens) {
            Err(failure) => Err(failure),
            Ok((block, rest)) => Ok((Some(block), rest)),
        }
    } else {
        Err(fails_before(Expected::Body, tokens))
    }
}

/// A function behind its keyword: the name, the parameters in parentheses,
/// the return type where one is given, and `;` or the body.
pub open spec fn spec_function_definition(tokens: Seq<TokenView>) -> Parsed<FunctionView> {
    match spec_name(tokens) {
        Err(failure) => Err(failure),
        Ok((name, behind_name)) => match expect_kind(behind_name, TokenKind::OpenParen) {
            Err(failure) => Err(failure),
            Ok(inside) => match spec_optional_parameters(inside) {
                Err(failure) => Err(failure),
                Ok((parameters, at_close)) => match expect_kind(at_close, TokenKind::CloseParen) {
                    Err(failure) => Err(failure),
                    Ok(behind_close) => match spec_optional_return_type(behind_close) {
                        Err(failure) => Err(failure),
                        Ok((return_type, at_body)) => match spec_body(at_body) {
                            Err(failure) => Err(failure),
                            Ok((block, rest)) => Ok(
                                (
                                    FunctionView {
                                        impure: false,
                                        name,
                                        parameters,
                                        return_type,
                                        block,
                                    },
                                    rest,
                                ),
                            ),
                        },
                    },
                },
            },
        }
    }
}

/// The item that begins with the token `first` and goes on with `tokens`:
/// `first` is the keyword `func`, and a function follows. The token `first`
/// has been taken before it is judged.
pub open spec fn spec_item(first: TokenView, tokens: Seq<TokenView>) -> Parsed<TopLevelItemView> {
    if first.keyword() == Some(Keyword::Func) {
        match spec_function_definition(tokens) {
            Err(failure) => Err(failure),
            Ok((function, rest)) => Ok((TopLevelItemView::Function(function), rest)),
        }
    } else {
        Err(Failure { error: unexpected(Expected::Item, seq![first]), rest: tokens })
    }
}

/// The items of a program, after those in `seen`: one item after the other
/// until no token is left.
pub open spec fn spec_program(tokens: Seq<TokenView>, seen: Seq<TopLevelItemView>) -> Result<
    Seq<TopLevelItemView>,
    Failure,
>
    decreases tokens.len(),
{
    if tokens.len() == 0 {
        Ok(seen)
    } else {
        match spec_item(tokens[0], tokens.skip(1)) {
            Err(failure) => Err(failure),
            Ok((item, rest)) => if rest.len() < tokens.len() {
                spec_program(rest, seen.push(item))
            } else {
                arbitrary()
            },
        }
    }
}

/// An expression cannot begin with a token that begins none: the rule fails
/// on that token, whatever follows it and whatever the threshold, and leaves
/// it unread.
pub proof fn lemma_expression_needs_its_first_token(tokens: Seq<TokenView>, minimum: Precedence)
    requires
        tokens.len() == 0 || !begins_expression(tokens[0]),
    ensures
        spec_precedence(tokens, minimum) == Err::<(ExpressionView, Seq<TokenView>), Failure>(
            fails_before(Expected::Expression, tokens),
        ),
        spec_expression(tokens) == spec_precedence(tokens, Precedence::Lowest),
{
}

/// The parameters of a list that the grammar accepts have different names,
/// provided that those seen before the list have.
/// Where the rule fails, it leaves no more tokens than it was given.
pub proof fn lemma_parameters_are_distinct(tokens: Seq<TokenView>, seen: Seq<(Seq<char>, Type)>)
    requires
        distinct_names(seen),
    ensures
        spec_parameters(tokens, seen) matches Ok((parameters, rest)) ==> distinct_names(parameters)
            && rest.len() < tokens.len(),
        spec_parameters(tokens, seen) matches Err(failure) ==> failure.rest.len() <= tokens.len(),
    decreases tokens.len(),
{
    if let Ok((ty, rest)) = spec_type(tokens) {
        if let Ok((name, behind)) = spec_name(rest) {
            if !has_name(seen, name) {
                let longer = seen.push((name, ty));
                assert(distinct_names(longer)) by {
                    assert forall|i: int, j: int| 0 <= i < j < longer.len() implies (
                    #[trigger] longer[i]).0 != (#[trigger] longer[j]).0 by {
                        if j == seen.len() {
                            assert(longer[i] == seen[i]);
                        } else {
                            assert(longer[i] == seen[i]);
                            assert(longer[j] == seen[j]);
                        }
                    }
                }
                if behind.len() > 0 && behind[0].kind == TokenKind::Comma {
                    lemma_parameters_are_distinct(behind.skip(1), longer);
                }
            }
        }
    }
}

/// An expression that the grammar accepts holds at least one token.
/// Where the rule fails, it leaves no more tokens than it was given.
pub proof fn lemma_precedence_reads_a_token(tokens: Seq<TokenView>, minimum: Precedence)
    ensures
        spec_precedence(tokens, minimum) matches Ok((_, rest)) ==> rest.len() < tokens.len(),
        spec_precedence(tokens, minimum) matches Err(failure) ==> failure.rest.len() <= tokens.len(),
    decreases tokens.len(), 2nat,
{
    lemma_prefix_reads_a_token(tokens);
    if let Ok((left, rest)) = spec_prefix(tokens) {
        lemma_operators_read_on(left, rest, minimum);
    }
}

/// The operators behind an operand leave no more tokens than they were given.
/// Where the rule fails, it leaves no more tokens than it was given.
pub proof fn lemma_operators_read_on(left: ExpressionView, tokens: Seq<TokenView>, minimum: Precedence)
    ensures
        spec_operators(left, tokens, minimum) matches Ok((_, rest)) ==> rest.len() <= tokens.len(),
        spec_operators(left, tokens, minimum) matches Err(failure) ==> failure.rest.len() <= tokens.len(),
    decreases tokens.len(), 0nat,
{
    if tokens.len() > 0 && continues_expression(tokens[0], minimum) {
        let precedence = precedence_of(tokens[0].kind);
        lemma_precedence_reads_a_token(tokens.skip(1), precedence);
        if let Ok((right, rest)) = spec_precedence(tokens.skip(1), precedence) {
            lemma_operators_read_on(
                ExpressionView::Binary {
                    left: Box::new(left),
                    operator: binary_operator_of(tokens[0].kind)->0,
                    right: Box::new(right),
                },
                rest,
                minimum,
            );
        }
    }
}

/// A prefix expression that the grammar accepts holds at least one token.
/// Where the rule fails, it leaves no more tokens than it was given.
pub proof fn lemma_prefix_reads_a_token(tokens: Seq<TokenView>)
    ensures
        spec_prefix(tokens) matches Ok((_, rest)) ==> rest.len() < tokens.len(),
        spec_prefix(tokens) matches Err(failure) ==> failure.rest.len() <= tokens.len(),
    decreases tokens.len(), 1nat,
{
    if tokens.len() > 0 {
        if tokens[0].kind == TokenKind::BinOp(BinaryOperation::Minus) || tokens[0].kind
            == TokenKind::Bang {
            lemma_precedence_reads_a_token(tokens.skip(1), Precedence::Lowest);
        } else if tokens[0].is_name() {
            let behind = tokens.skip(1);
            if behind.len() > 0 && behind[0].kind == TokenKind::OpenParen {
                lemma_call_suffix_reads_a_token(behind.skip(1));
                if let Ok((parameters, rest)) = spec_call_suffix(behind.skip(1)) {
                    lemma_method_chain_reads_on(
                        ExpressionView::FunctionCall { name: tokens[0].lexeme, parameters },
                        rest,
                    );
                }
            } else {
                lemma_method_chain_reads_on(ExpressionView::Ident(tokens[0].lexeme), behind);
            }
        } else if tokens[0].kind is Literal {
        } else if tokens[0].keyword() == Some(Keyword::If) {
            lemma_precedence_reads_a_token(tokens.skip(1), Precedence::Lowest);
            if let Ok((condition, rest)) = spec_precedence(tokens.skip(1), Precedence::Lowest) {
                lemma_block_reads_a_token(rest);
            }
        }
    }
}

/// One method call that the grammar accepts holds at least one token.
/// Where the rule fails, it leaves no more tokens than it was given.
pub proof fn lemma_method_suffix_reads_a_token(receiver: ExpressionView, tokens: Seq<TokenView>)
    requires
        tokens.len() > 0,
    ensures
        spec_method_suffix(receiver, tokens) matches Ok((_, rest)) ==> rest.len() < tokens.len(),
        spec_method_suffix(receiver, tokens) matches Err(failure) ==> failure.rest.len() <= tokens.len(),
    decreases tokens.len(), 0nat,
{
    if let Ok((name, behind)) = spec_name(tokens.skip(1)) {
        if let Ok(inside) = expect_kind(behind, TokenKind::OpenParen) {
            lemma_call_suffix_reads_a_token(inside);
        }
    }
}

/// The method calls behind a receiver leave no more tokens than they were
/// given.
/// Where the rule fails, it leaves no more tokens than it was given.
pub proof fn lemma_method_chain_reads_on(receiver: ExpressionView, tokens: Seq<TokenView>)
    ensures
        spec_method_chain(receiver, tokens) matches Ok((_, rest)) ==> rest.len() <= tokens.len(),
        spec_method_chain(receiver, tokens) matches Err(failure) ==> failure.rest.len() <= tokens.len(),
    decreases tokens.len(), 1nat,
{
    if tokens.len() > 0 && tokens[0].is_dot() {
        lemma_method_suffix_reads_a_token(receiver, tokens);
        if let Ok((call, rest)) = spec_method_suffix(receiver, tokens) {
            lemma_method_chain_reads_on(call, rest);
        }
    }
}

/// What stands in the parentheses of a call holds at least the closing
/// parenthesis.
/// Where the rule fails, it leaves no more tokens than it was given.
pub proof fn lemma_call_suffix_reads_a_token(tokens: Seq<TokenView>)
    ensures
        spec_call_suffix(tokens) matches Ok((_, rest)) ==> rest.len() < tokens.len(),
        spec_call_suffix(tokens) matches Err(failure) ==> failure.rest.len() <= tokens.len(),
    decreases tokens.len(), 4nat,
{
    if tokens.len() > 0 && tokens[0].kind != TokenKind::CloseParen {
        lemma_arguments_read_a_token(tokens, Seq::empty());
    }
}

/// The arguments of a call hold at least one token.
/// Where the rule fails, it leaves no more tokens than it was given.
pub proof fn lemma_arguments_read_a_token(tokens: Seq<TokenView>, seen: Seq<ExpressionView>)
    ensures
        spec_arguments(tokens, seen) matches Ok((_, rest)) ==> rest.len() < tokens.len(),
        spec_arguments(tokens, seen) matches Err(failure) ==> failure.rest.len() <= tokens.len(),
    decreases tokens.len(), 3nat,
{
    lemma_precedence_reads_a_token(tokens, Precedence::Lowest);
    if let Ok((argument, rest)) = spec_precedence(tokens, Precedence::Lowest) {
        if rest.len() > 0 && rest[0].kind == TokenKind::Comma {
            lemma_arguments_read_a_token(rest.skip(1), seen.push(argument));
        }
    }
}

/// A statement that the grammar accepts holds at least one token.
/// Where the rule fails, it leaves no more tokens than it was given.
pub proof fn lemma_statement_reads_a_token(tokens: Seq<TokenView>)
    ensures
        spec_statement(tokens) matches Ok((_, rest)) ==> rest.len() < tokens.len(),
        spec_statement(tokens) matches Err(failure) ==> failure.rest.len() <= tokens.len(),
    decreases tokens.len(), 3nat,
{
    lemma_precedence_reads_a_token(tokens, Precedence::Lowest);
}

/// The statements of a block and its closing brace hold at least one token.
/// Where the rule fails, it leaves no more tokens than it was given.
pub proof fn lemma_statements_read_a_token(tokens: Seq<TokenView>, seen: Seq<StatementView>)
    ensures
        spec_statements(tokens, seen) matches Ok((_, rest)) ==> rest.len() < tokens.len(),
        spec_statements(tokens, seen) matches Err(failure) ==> failure.rest.len() <= tokens.len(),
    decreases tokens.len(), 4nat,
{
    if tokens.len() > 0 && tokens[0].kind != TokenKind::CloseCurly {
        lemma_statement_reads_a_token(tokens);
        if let Ok((statement, rest)) = spec_statement(tokens) {
            lemma_statements_read_a_token(rest, seen.push(statement));
        }
    }
}

/// A block that the grammar accepts holds at least one token.
/// Where the rule fails, it leaves no more tokens than it was given.
pub proof fn lemma_block_reads_a_token(tokens: Seq<TokenView>)
    ensures
        spec_block(tokens) matches Ok((_, rest)) ==> rest.len() < tokens.len(),
        spec_block(tokens) matches Err(failure) ==> failure.rest.len() <= tokens.len(),
    decreases tokens.len(), 5nat,
{
    if let Ok(inside) = expect_kind(tokens, TokenKind::OpenCurly) {
        lemma_statements_read_a_token(inside, Seq::empty());
    }
}

/// A function that the grammar accepts holds at least one token, and its
/// parameters have different names.
/// Where the rule fails, it leaves no more tokens than it was given.
pub proof fn lemma_function_definition_reads_a_token(tokens: Seq<TokenView>)
    ensures
        spec_function_definition(tokens) matches Ok((function, rest)) ==> rest.len() < tokens.len()
            && (function.parameters matches Some(parameters) ==> distinct_names(parameters)),
        spec_function_definition(tokens) matches Err(failure) ==> failure.rest.len()
            <= tokens.len(),
{
    if let Ok((name, behind_name)) = spec_name(tokens) {
        if let Ok(inside) = expect_kind(behind_name, TokenKind::OpenParen) {
            if inside.len() > 0 && inside[0].kind != TokenKind::CloseParen {
                lemma_parameters_are_distinct(inside, Seq::empty());
            }
            if let Ok((parameters, at_close)) = spec_optional_parameters(inside) {
                if let Ok(behind_close) = expect_kind(at_close, TokenKind::CloseParen) {
                    if let Ok((return_type, at_body)) = spec_optional_return_type(behind_close) {
                        if at_body.len() > 0 && at_body[0].kind == TokenKind::OpenCurly {
                            lemma_block_reads_a_token(at_body);
                        }
                    }
                }
            }
        }
    }
}

/// No comment is among the tokens that the parser reads, and every one of
/// them is a token of the text.
pub proof fn lemma_significant_holds_no_comment(tokens: Seq<TokenView>)
    ensures
        significant(tokens).len() <= tokens.len(),
        forall|k: int|
            0 <= k < significant(tokens).len() ==> (#[trigger] significant(tokens)[k]).kind
                != TokenKind::Comment && tokens.contains(significant(tokens)[k]),
    decreases tokens.len(),
{
    if tokens.len() > 0 {
        let rest = tokens.skip(1);
        lemma_significant_holds_no_comment(rest);
        assert forall|k: int| 0 <= k < significant(tokens).len() implies (#[trigger] significant(
            tokens,
        )[k]).kind != TokenKind::Comment && tokens.contains(significant(tokens)[k]) by {
            let token = significant(tokens)[k];
            if tokens[0].kind != TokenKind::Comment && k == 0 {
                assert(token == tokens[0]);
            } else {
                let j = if tokens[0].kind == TokenKind::Comment {
                    k
                } else {
                    k - 1
                };
                assert(token == significant(rest)[j]);
                assert(rest.contains(token));
                let at = choose|at: int| 0 <= at < rest.len() && rest[at] == token;
                assert(tokens[at + 1] == token);
            }
        }
    }
}

/// Whether the parameters of the function that `item` is, if it has any, have
/// different names.
pub open spec fn parameter_names_differ(item: TopLevelItemView) -> bool {
    match item {
        TopLevelItemView::Function(function) => match function.parameters {
            Some(parameters) => distinct_names(parameters),
            None => true,
        },
    }
}

/// In a program that the grammar accepts no function has two parameters of
/// one name, provided that this holds of the items seen before.
pub proof fn lemma_program_parameters_are_distinct(
    tokens: Seq<TokenView>,
    seen: Seq<TopLevelItemView>,
)
    requires
        forall|k: int| 0 <= k < seen.len() ==> parameter_names_differ(#[trigger] seen[k]),
    ensures
        spec_program(tokens, seen) matches Ok(items) ==> forall|k: int|
            0 <= k < items.len() ==> parameter_names_differ(#[trigger] items[k]),
    decreases tokens.len(),
{
    if tokens.len() > 0 {
        lemma_function_definition_reads_a_token(tokens.skip(1));
        if let Ok((item, rest)) = spec_item(tokens[0], tokens.skip(1)) {
            let longer = seen.push(item);
            assert forall|k: int| 0 <= k < longer.len() implies parameter_names_differ(
                #[trigger] longer[k],
            ) by {
                if k < seen.len() {
                    assert(longer[k] == seen[k]);
                }
            }
            lemma_program_parameters_are_distinct(rest, longer);
        }
    }
}

/// The tokens that the parser reads of two runs of tokens joined are those
/// that it reads of the first and then those that it reads of the second.
pub proof fn lemma_significant_of_joined(first: Seq<TokenView>, second: Seq<TokenView>)
    ensures
        significant(first + second) == significant(first) + significant(second),
    decreases first.len(),
{
    if first.len() == 0 {
        assert(first + second =~= second);
        assert(significant(first) + significant(second) =~= significant(second));
    } else {
        lemma_significant_of_joined(first.skip(1), second);
        assert((first + second).skip(1) =~= first.skip(1) + second);
        assert(significant(first + second) =~= significant(first) + significant(second));
    }
}

/// A comment between tokens changes nothing of what the parser reads, and so
/// nothing of what any rule gives: with the comment and without it the
/// tokens read are the same.
pub proof fn lemma_comment_is_invisible(before: Seq<TokenView>, comment: TokenView, behind: Seq<TokenView>)
    requires
        comment.kind == TokenKind::Comment,
    ensures
        significant(before + seq![comment] + behind) == significant(before + behind),
        spec_program(significant(before + seq![comment] + behind), Seq::empty()) == spec_program(
            significant(before + behind),
            Seq::empty(),
        ),
{
    lemma_significant_of_joined(before + seq![comment], behind);
    lemma_significant_of_joined(before, seq![comment]);
    lemma_significant_of_joined(before, behind);
    let alone = seq![comment];
    assert(alone.skip(1) =~= Seq::<TokenView>::empty());
    assert(significant(alone.skip(1)) =~= Seq::<TokenView>::empty());
    assert(significant(alone) =~= Seq::<TokenView>::empty());
    assert(significant(before) + Seq::<TokenView>::empty() =~= significant(before));
}

/// A comment in the text is passed over: where `#` is the first character
/// from index `i` on that is no white space, the lexer cuts a comment that
/// ends before the next line feed, and the parser reads from index `i` what it
/// reads from the end of the comment.
pub proof fn lemma_comment_in_text_is_passed_over(src: Seq<char>, i: int)
    requires
        0 <= i <= src.len(),
        peek_at(src, run_end(src, i, CharClass::Whitespace)) == '#',
    ensures
        lex_at(src, i).0.kind == TokenKind::Comment,
        lex_at(src, i).1 == run_end(
            src,
            run_end(src, i, CharClass::Whitespace) + 1,
            CharClass::LineRest,
        ),
        significant(tokens_from(src, i)) == significant(tokens_from(src, lex_at(src, i).1)),
{
    lemma_lex_at_bounds(src, i);
    let (token, end) = lex_at(src, i);
    let all = tokens_from(src, i);
    assert(all =~= seq![token] + tokens_from(src, end));
    assert(all.skip(1) =~= tokens_from(src, end));
}

/// What the parser reads from index `i` on behind its first token is what it
/// reads from the end of that token on; where it reads no token from index
/// `i` on, the text has no token that is no comment up to its end.
pub proof fn lemma_behind_first_significant(src: Seq<char>, i: int)
    requires
        0 <= i <= src.len(),
    ensures
        i <= significant_end(src, i) <= src.len(),
        significant(tokens_from(src, i)).len() > 0 ==> significant(tokens_from(src, i)).skip(1)
            == significant(tokens_from(src, significant_end(src, i))),
        significant(tokens_from(src, i)).len() == 0 ==> significant_end(src, i) == src.len(),
    decreases src.len() - i,
{
    lemma_lex_at_bounds(src, i);
    let (token, end) = lex_at(src, i);
    let all = tokens_from(src, i);
    if token.kind != TokenKind::Eof {
        assert(all =~= seq![token] + tokens_from(src, end));
        assert(all.skip(1) =~= tokens_from(src, end));
        if token.kind == TokenKind::Comment {
            lemma_behind_first_significant(src, end);
        } else {
            let read = significant(all);
            assert(read =~= seq![token] + significant(tokens_from(src, end)));
            assert(read.skip(1) =~= significant(tokens_from(src, end)));
        }
    }
}

} // verus!
