use oxygen::ast::{
    BinaryOperator, Expression, Function, LiteralType, Precedence, Statement, TopLevelItem, Type,
    UnaryOperator,
};
use oxygen::error::{Diagnostics, Expected, Found, SyntaxError};
use oxygen::parser::{parse, Parser};
use oxygen::token::{Base, BinaryOperation, Keyword, Token, TokenKind};

fn program(input: &str) -> Vec<TopLevelItem> {
    let mut diagnostics = Diagnostics::new();
    let result = parse(input, &mut diagnostics);
    assert!(diagnostics.is_empty());
    result.unwrap()
}

fn only_function(input: &str) -> Function {
    let mut items = program(input);
    assert_eq!(items.len(), 1);
    match items.pop().unwrap() {
        TopLevelItem::Function(function) => function,
    }
}

fn failure(input: &str) -> String {
    let mut diagnostics = Diagnostics::new();
    let result = parse(input, &mut diagnostics);
    assert!(result.is_err());
    assert_eq!(diagnostics.len(), 1);
    diagnostics.message(0).clone()
}

fn expression(input: &str) -> Expression {
    let mut diagnostics = Diagnostics::new();
    let mut parser = Parser::new(input);
    let result = parser.parse_expression(&mut diagnostics);
    assert!(diagnostics.is_empty());
    result.unwrap()
}

fn expression_failure(input: &str) -> String {
    let mut diagnostics = Diagnostics::new();
    let mut parser = Parser::new(input);
    let result = parser.parse_expression(&mut diagnostics);
    assert!(result.is_err());
    assert_eq!(diagnostics.len(), 1);
    diagnostics.message(0).clone()
}

fn ident(name: &str) -> Expression {
    Expression::Ident(name.to_string())
}

fn boxed(name: &str) -> Box<Expression> {
    Box::new(ident(name))
}

fn binary(left: Expression, operator: BinaryOperator, right: Expression) -> Expression {
    Expression::Binary { left: Box::new(left), operator, right: Box::new(right) }
}

#[test]
fn function_with_one_call() {
    let function = only_function("func f() { g(); }");
    assert_eq!(function.name, "f");
    assert!(!function.impure);
    assert!(function.parameters.is_none());
    assert!(function.return_type.is_none());
    assert_eq!(
        function.block,
        Some(vec![Statement::Expression(Expression::FunctionCall {
            name: "g".to_string(),
            parameters: None
        })])
    );
}

#[test]
fn forward_declaration_with_parameters_and_return_type() {
    let function = only_function("func f(i32 a, i32 b) ~ i32! ;");
    assert_eq!(function.name, "f");
    assert!(function.block.is_none());
    assert_eq!(function.return_type, Some((Type::I32, true)));
    let parameters = function.parameters.unwrap();
    assert_eq!(parameters.len(), 2);
    assert_eq!(parameters.get("a"), Some(Type::I32));
    assert_eq!(parameters.get("b"), Some(Type::I32));
    assert_eq!(parameters.get("c"), None);
    assert_eq!(parameters.name(0), "a");
    assert_eq!(parameters.name(1), "b");
    assert_eq!(parameters.type_at(1), Type::I32);
}

#[test]
fn duplicate_parameter_fails_before_the_block() {
    // The block holds what would be a violation of its own, which is never
    // reached.
    let message = failure("func f(i32 a, i32 a) { ) }");
    assert_eq!(message, "parameter declared twice at line 0, column 18");
    let message = failure("func f(i32 a, i32 a) {}");
    assert_eq!(message, "parameter declared twice at line 0, column 18");
}

#[test]
fn expression_cannot_begin_with_a_closing_parenthesis() {
    let mut diagnostics = Diagnostics::new();
    let mut parser = Parser::new(") x");
    let result = parser.parse_expression(&mut diagnostics);
    assert!(result.is_err());
    assert_eq!(diagnostics.len(), 1);
    assert_eq!(diagnostics.message(0), "expected an expression, got `)` at line 0, column 0");
    // Nothing was consumed: the offending token is still the next one.
    assert_eq!(parser.peek().unwrap().kind, TokenKind::CloseParen);
}

#[test]
fn tokens_that_cannot_begin_an_expression() {
    for input in [";", "}", "{", ",", "~", "=", "==", "+", "*", "/", "&", "|", "&&", ">", "]", "@", "."] {
        let message = expression_failure(input);
        assert!(message.starts_with("expected an expression, got "));
    }
    assert_eq!(expression_failure(""), "expected an expression, got end of input");
    assert_eq!(
        expression_failure("func"),
        "expected an expression, got keyword `func` at line 0, column 0"
    );
    assert_eq!(
        expression_failure("  i32"),
        "expected an expression, got keyword `i32` at line 0, column 2"
    );
}

#[test]
fn empty_program() {
    assert_eq!(program("").len(), 0);
    assert_eq!(program("  # nothing but a comment\n").len(), 0);
}

#[test]
fn several_functions() {
    let items = program("func a(); func b() {} func c() ~ i32 { x; y; }");
    assert_eq!(items.len(), 3);
    match &items[1] {
        TopLevelItem::Function(function) => {
            assert_eq!(function.name, "b");
            assert_eq!(function.block, Some(vec![]));
        }
    }
    match &items[2] {
        TopLevelItem::Function(function) => {
            assert_eq!(function.return_type, Some((Type::I32, false)));
            assert_eq!(
                function.block,
                Some(vec![Statement::Expression(ident("x")), Statement::Expression(ident("y"))])
            );
        }
    }
}

#[test]
fn empty_body_is_not_a_declaration() {
    assert_eq!(only_function("func f() {}").block, Some(vec![]));
    assert_eq!(only_function("func f();").block, None);
}

#[test]
fn comments_are_invisible_to_the_grammar() {
    let function = only_function("# one\nfunc # two\n f # three\n ( # four\n ) { # five\n g # six\n ( ) ; } # seven");
    assert_eq!(function.name, "f");
    assert_eq!(
        function.block,
        Some(vec![Statement::Expression(Expression::FunctionCall {
            name: "g".to_string(),
            parameters: None
        })])
    );
}

#[test]
fn product_binds_more_strongly_than_sum() {
    assert_eq!(
        expression("a + b * c"),
        binary(ident("a"), BinaryOperator::Plus, binary(ident("b"), BinaryOperator::Star, ident("c")))
    );
    assert_eq!(
        expression("a * b + c"),
        binary(binary(ident("a"), BinaryOperator::Star, ident("b")), BinaryOperator::Plus, ident("c"))
    );
    assert_eq!(
        expression("a | b & c"),
        binary(ident("a"), BinaryOperator::Or, binary(ident("b"), BinaryOperator::And, ident("c")))
    );
    assert_eq!(
        expression("a & b + c"),
        binary(ident("a"), BinaryOperator::And, binary(ident("b"), BinaryOperator::Plus, ident("c")))
    );
}

#[test]
fn operators_of_one_strength_group_to_the_left() {
    assert_eq!(
        expression("a - b - c"),
        binary(binary(ident("a"), BinaryOperator::Minus, ident("b")), BinaryOperator::Minus, ident("c"))
    );
    assert_eq!(
        expression("a / b * c"),
        binary(binary(ident("a"), BinaryOperator::Divide, ident("b")), BinaryOperator::Star, ident("c"))
    );
    assert_eq!(
        expression("a + b - c + d"),
        binary(
            binary(binary(ident("a"), BinaryOperator::Plus, ident("b")), BinaryOperator::Minus, ident("c")),
            BinaryOperator::Plus,
            ident("d")
        )
    );
}

#[test]
fn unary_operator_takes_a_whole_expression() {
    assert_eq!(
        expression("-a + b"),
        Expression::Unary {
            operator: UnaryOperator::Negate,
            operand: Box::new(binary(ident("a"), BinaryOperator::Plus, ident("b")))
        }
    );
    assert_eq!(
        expression("!a * b + c"),
        Expression::Unary {
            operator: UnaryOperator::Not,
            operand: Box::new(binary(
                binary(ident("a"), BinaryOperator::Star, ident("b")),
                BinaryOperator::Plus,
                ident("c")
            ))
        }
    );
    assert_eq!(
        expression("!!a"),
        Expression::Unary {
            operator: UnaryOperator::Not,
            operand: Box::new(Expression::Unary { operator: UnaryOperator::Not, operand: boxed("a") })
        }
    );
    assert_eq!(
        expression("a - -b"),
        binary(
            ident("a"),
            BinaryOperator::Minus,
            Expression::Unary { operator: UnaryOperator::Negate, operand: boxed("b") }
        )
    );
    assert_eq!(
        expression("a * -b + c"),
        binary(
            ident("a"),
            BinaryOperator::Star,
            Expression::Unary {
                operator: UnaryOperator::Negate,
                operand: Box::new(binary(ident("b"), BinaryOperator::Plus, ident("c")))
            }
        )
    );
    assert_eq!(expression_failure("-"), "expected an expression, got end of input");
}

#[test]
fn duplicate_parameter_leaves_what_follows_the_list_unread() {
    let mut diagnostics = Diagnostics::new();
    let mut parser = Parser::new("i32 a, i32 a) {}");
    assert!(parser.parse_function_parameters(&mut diagnostics).is_err());
    assert_eq!(diagnostics.len(), 1);
    assert_eq!(parser.next().unwrap().kind, TokenKind::CloseParen);
    assert_eq!(parser.next().unwrap().kind, TokenKind::OpenCurly);
    assert_eq!(parser.next().unwrap().kind, TokenKind::CloseCurly);
    assert!(parser.next().is_none());
}

#[test]
fn failure_reads_nothing_behind_the_token_at_fault() {
    let mut diagnostics = Diagnostics::new();
    // A rule that asks for one token of a certain sort has taken it.
    let mut parser = Parser::new("a ; b");
    assert!(parser.expect(TokenKind::CloseParen, &mut diagnostics).is_err());
    assert_eq!(parser.next().unwrap().kind, TokenKind::Semicolon);
    let mut parser = Parser::new("x y");
    assert!(parser.parse_type(&mut diagnostics).is_err());
    assert_eq!(parser.next().unwrap().string, "y");
    let mut parser = Parser::new("i32 if z");
    assert!(parser.parse_function_parameters(&mut diagnostics).is_err());
    assert_eq!(parser.next().unwrap().string, "z");
    // A rule that chooses by the next token has left it.
    let mut parser = Parser::new("\"abc");
    assert!(parser.parse_expression(&mut diagnostics).is_err());
    assert!(parser.peek().is_some());
    let mut parser = Parser::new("x y");
    assert!(parser.parse_body(&mut diagnostics).is_err());
    assert_eq!(parser.next().unwrap().string, "x");
    let mut parser = Parser::new("f(a b) c");
    assert!(parser.parse_expression(&mut diagnostics).is_err());
    assert_eq!(parser.next().unwrap().kind, TokenKind::CloseParen);
    let mut parser = Parser::new("func f(i32 a, i32 a) { g(); }");
    assert!(parser.parse_program(&mut diagnostics).is_err());
    assert_eq!(parser.next().unwrap().kind, TokenKind::CloseParen);
    assert_eq!(parser.next().unwrap().kind, TokenKind::OpenCurly);
    assert_eq!(diagnostics.len(), 7);
}

#[test]
fn expression_ends_before_a_token_that_is_no_binary_operator() {
    let mut diagnostics = Diagnostics::new();
    let mut parser = Parser::new("a == b");
    assert_eq!(parser.parse_expression(&mut diagnostics).unwrap(), ident("a"));
    assert_eq!(parser.peek().unwrap().kind, TokenKind::EqEq);
    let mut parser = Parser::new("a = b");
    assert_eq!(parser.parse_expression(&mut diagnostics).unwrap(), ident("a"));
    assert_eq!(parser.peek().unwrap().kind, TokenKind::Eq);
    let mut parser = Parser::new("a b");
    assert_eq!(parser.parse_expression(&mut diagnostics).unwrap(), ident("a"));
    assert_eq!(parser.peek().unwrap().string, "b");
    assert!(diagnostics.is_empty());
}

#[test]
fn threshold_stops_weaker_operators() {
    let mut diagnostics = Diagnostics::new();
    let mut parser = Parser::new("a * b + c");
    let result = parser.parse_precedence(Precedence::Sum, &mut diagnostics).unwrap();
    assert_eq!(result, binary(ident("a"), BinaryOperator::Star, ident("b")));
    assert_eq!(parser.peek().unwrap().kind, TokenKind::BinOp(BinaryOperation::Plus));
    let mut parser = Parser::new("a * b");
    let result = parser.parse_precedence(Precedence::Product, &mut diagnostics).unwrap();
    assert_eq!(result, ident("a"));
}

#[test]
fn function_calls() {
    assert_eq!(
        expression("f()"),
        Expression::FunctionCall { name: "f".to_string(), parameters: None }
    );
    assert_eq!(
        expression("f(a)"),
        Expression::FunctionCall { name: "f".to_string(), parameters: Some(vec![ident("a")]) }
    );
    assert_eq!(
        expression("f(a, b + c, g())"),
        Expression::FunctionCall {
            name: "f".to_string(),
            parameters: Some(vec![
                ident("a"),
                binary(ident("b"), BinaryOperator::Plus, ident("c")),
                Expression::FunctionCall { name: "g".to_string(), parameters: None }
            ])
        }
    );
}

#[test]
fn call_arguments_stop_at_anything_but_a_comma() {
    let mut diagnostics = Diagnostics::new();
    let mut parser = Parser::new("a, b c");
    let arguments = parser.parse_call_params(&mut diagnostics).unwrap();
    assert_eq!(arguments, vec![ident("a"), ident("b")]);
    assert_eq!(parser.peek().unwrap().string, "c");
    // The end of the input is no comma and no violation here.
    let mut parser = Parser::new("a, b");
    let arguments = parser.parse_call_params(&mut diagnostics).unwrap();
    assert_eq!(arguments.len(), 2);
    assert!(parser.peek().is_none());
    assert!(diagnostics.is_empty());
    // A comma asks for another expression.
    let mut parser = Parser::new("a,");
    assert!(parser.parse_call_params(&mut diagnostics).is_err());
    assert_eq!(diagnostics.message(0), "expected an expression, got end of input");
}

#[test]
fn call_must_be_closed() {
    assert_eq!(expression_failure("f("), "expected an argument or `)`, got end of input");
    assert_eq!(expression_failure("f(a"), "expected a token, got end of input");
    assert_eq!(expression_failure("f(a;"), "expected `)`, got `;` at line 0, column 3");
    assert_eq!(expression_failure("f(a,)"), "expected an expression, got `)` at line 0, column 4");
}

#[test]
fn method_calls_chain_to_the_left() {
    assert_eq!(
        expression("x.f()"),
        Expression::MethodCall { receiver: boxed("x"), name: "f".to_string(), parameters: None }
    );
    assert_eq!(
        expression("x.f(a).g()"),
        Expression::MethodCall {
            receiver: Box::new(Expression::MethodCall {
                receiver: boxed("x"),
                name: "f".to_string(),
                parameters: Some(vec![ident("a")])
            }),
            name: "g".to_string(),
            parameters: None
        }
    );
    assert_eq!(
        expression("h(1).f()"),
        Expression::MethodCall {
            receiver: Box::new(Expression::FunctionCall {
                name: "h".to_string(),
                parameters: Some(vec![Expression::Literal(LiteralType::Integer {
                    text: "1".to_string(),
                    base: Base::Decimal,
                    empty_int: false,
                    suffix_start: 1
                })])
            }),
            name: "f".to_string(),
            parameters: None
        }
    );
    assert_eq!(
        expression("x.f() + y"),
        binary(
            Expression::MethodCall { receiver: boxed("x"), name: "f".to_string(), parameters: None },
            BinaryOperator::Plus,
            ident("y")
        )
    );
}

#[test]
fn method_call_needs_name_and_parentheses() {
    assert_eq!(expression_failure("x."), "expected a token, got end of input");
    assert_eq!(expression_failure("x.1"), "expected a name, got an integer literal at line 0, column 2");
    assert_eq!(expression_failure("x.if()"), "expected a name, got keyword `if` at line 0, column 2");
    assert_eq!(expression_failure("x.f"), "expected a token, got end of input");
    assert_eq!(expression_failure("x.f;"), "expected `(`, got `;` at line 0, column 3");
}

#[test]
fn literals_keep_their_text() {
    assert_eq!(
        expression("\"hi\\n\""),
        Expression::Literal(LiteralType::String("\"hi\\n\"".to_string()))
    );
    assert_eq!(
        expression("0x1fu8"),
        Expression::Literal(LiteralType::Integer {
            text: "0x1fu8".to_string(),
            base: Base::Hexadecimal,
            empty_int: false,
            suffix_start: 4
        })
    );
    assert_eq!(
        expression("0b"),
        Expression::Literal(LiteralType::Integer {
            text: "0b".to_string(),
            base: Base::Binary,
            empty_int: true,
            suffix_start: 2
        })
    );
    assert_eq!(
        expression("2.5e"),
        Expression::Literal(LiteralType::Float {
            text: "2.5e".to_string(),
            base: Base::Decimal,
            empty_exponent: true,
            suffix_start: 4
        })
    );
}

#[test]
fn literal_takes_no_method_call() {
    let mut diagnostics = Diagnostics::new();
    let mut parser = Parser::new("13.to_string()");
    let result = parser.parse_expression(&mut diagnostics).unwrap();
    assert_eq!(
        result,
        Expression::Literal(LiteralType::Integer {
            text: "13".to_string(),
            base: Base::Decimal,
            empty_int: false,
            suffix_start: 2
        })
    );
    assert!(parser.peek().unwrap().is_dot());
}

#[test]
fn unterminated_string_is_a_violation() {
    assert_eq!(expression_failure("\"abc"), "unterminated string literal at line 0, column 0");
    assert_eq!(
        failure("func f() {\n  g(\"abc); }"),
        "unterminated string literal at line 1, column 4"
    );
}

#[test]
fn conditional_has_a_condition_and_a_block() {
    assert_eq!(
        expression("if a + b { f(); g(); }"),
        Expression::IfExpression {
            condition: Box::new(binary(ident("a"), BinaryOperator::Plus, ident("b"))),
            block: vec![
                Statement::Expression(Expression::FunctionCall {
                    name: "f".to_string(),
                    parameters: None
                }),
                Statement::Expression(Expression::FunctionCall {
                    name: "g".to_string(),
                    parameters: None
                })
            ]
        }
    );
    assert_eq!(
        expression("if a { if b { } ; }"),
        Expression::IfExpression {
            condition: boxed("a"),
            block: vec![Statement::Expression(Expression::IfExpression {
                condition: boxed("b"),
                block: vec![]
            })]
        }
    );
}

#[test]
fn conditional_needs_its_block() {
    assert_eq!(expression_failure("if a"), "expected a token, got end of input");
    assert_eq!(expression_failure("if a;"), "expected `{`, got `;` at line 0, column 4");
    assert_eq!(expression_failure("if a { b;"), "expected a statement or `}`, got end of input");
    assert_eq!(expression_failure("if"), "expected an expression, got end of input");
}

#[test]
fn statement_needs_its_semicolon() {
    assert_eq!(failure("func f() { g() }"), "expected `;`, got `}` at line 0, column 15");
    assert_eq!(failure("func f() { g()"), "expected a token, got end of input");
    assert_eq!(failure("func f() { a == b; }"), "expected `;`, got `==` at line 0, column 13");
}

#[test]
fn violations_in_a_function_signature() {
    assert_eq!(failure("f() {}"), "expected keyword `func`, got an identifier at line 0, column 0");
    assert_eq!(failure("if"), "expected keyword `func`, got keyword `if` at line 0, column 0");
    assert_eq!(failure("func"), "expected a token, got end of input");
    assert_eq!(failure("func 1"), "expected a name, got an integer literal at line 0, column 5");
    assert_eq!(failure("func i32()"), "expected a name, got keyword `i32` at line 0, column 5");
    assert_eq!(failure("func f"), "expected a token, got end of input");
    assert_eq!(failure("func f {"), "expected `(`, got `{` at line 0, column 7");
    assert_eq!(failure("func f("), "expected a parameter or `)`, got end of input");
    assert_eq!(failure("func f(a"), "expected a type, got an identifier at line 0, column 7");
    assert_eq!(failure("func f(i32"), "expected a token, got end of input");
    assert_eq!(failure("func f(i32 i32)"), "expected a name, got keyword `i32` at line 0, column 11");
    assert_eq!(failure("func f(i32 a"), "expected a token, got end of input");
    assert_eq!(failure("func f(i32 a b)"), "expected `)`, got an identifier at line 0, column 13");
    assert_eq!(failure("func f(i32 a,)"), "expected a type, got `)` at line 0, column 13");
    assert_eq!(failure("func f()"), "expected `;` or a block, got end of input");
    assert_eq!(failure("func f() ~"), "expected a type, got end of input");
    assert_eq!(failure("func f() ~ x"), "expected a type, got an identifier at line 0, column 11");
    assert_eq!(failure("func f() ~ i32"), "expected `;` or a block, got end of input");
    assert_eq!(failure("func f() ~ i32 !"), "expected `;` or a block, got end of input");
    assert_eq!(failure("func f() x"), "expected `;` or a block, got an identifier at line 0, column 9");
    assert_eq!(failure("func f() {"), "expected a statement or `}`, got end of input");
}

#[test]
fn nothing_is_returned_for_a_program_that_fails_late() {
    let mut diagnostics = Diagnostics::new();
    let result = parse("func a() {} func b() {} func c(", &mut diagnostics);
    assert!(result.is_err());
    assert_eq!(diagnostics.len(), 1);
}

#[test]
fn report_is_added_behind_earlier_reports() {
    let mut diagnostics = Diagnostics::new();
    assert!(parse("func", &mut diagnostics).is_err());
    assert!(parse("func f() {}", &mut diagnostics).is_ok());
    assert!(parse(")", &mut diagnostics).is_err());
    assert_eq!(diagnostics.len(), 2);
    assert_eq!(diagnostics.message(0), "expected a token, got end of input");
    assert_eq!(diagnostics.message(1), "expected keyword `func`, got `)` at line 0, column 0");
}

#[test]
fn lookahead_buffer_peeks_without_consuming() {
    let mut parser = Parser::new("a # note\n b");
    assert_eq!(parser.peek().unwrap().string, "a");
    assert_eq!(parser.peek().unwrap().string, "a");
    assert_eq!(parser.next().unwrap().string, "a");
    assert_eq!(parser.next().unwrap().string, "b");
    assert!(parser.peek().is_none());
    assert!(parser.next().is_none());
    assert!(parser.next().is_none());
}

#[test]
fn next_token_or_error() {
    let mut diagnostics = Diagnostics::new();
    let mut parser = Parser::new("a");
    assert_eq!(parser.get_next_token_or_error(&mut diagnostics).unwrap().string, "a");
    assert!(parser.get_next_token_or_error(&mut diagnostics).is_err());
    assert_eq!(diagnostics.len(), 1);
    assert_eq!(diagnostics.message(0), "expected a token, got end of input");
}

#[test]
fn should_be_kind_compares_kinds() {
    let mut diagnostics = Diagnostics::new();
    let token = Token::new(";", TokenKind::Semicolon, 2, 7);
    assert!(token.should_be_kind(TokenKind::Semicolon, &mut diagnostics).is_ok());
    assert!(diagnostics.is_empty());
    assert!(token.should_be_kind(TokenKind::CloseParen, &mut diagnostics).is_err());
    assert_eq!(diagnostics.message(0), "expected `)`, got `;` at line 2, column 7");
}

#[test]
fn precedence_of_each_token() {
    let of = |kind: TokenKind| Token::new("", kind, 0, 0).get_precedence();
    assert_eq!(of(TokenKind::Eq), Precedence::Assign);
    assert_eq!(of(TokenKind::BinOpEq(BinaryOperation::Star)), Precedence::Assign);
    assert_eq!(of(TokenKind::BinOp(BinaryOperation::Plus)), Precedence::Sum);
    assert_eq!(of(TokenKind::BinOp(BinaryOperation::Minus)), Precedence::Sum);
    assert_eq!(of(TokenKind::BinOp(BinaryOperation::Star)), Precedence::Product);
    assert_eq!(of(TokenKind::BinOp(BinaryOperation::Slash)), Precedence::Product);
    assert_eq!(of(TokenKind::BinOp(BinaryOperation::And)), Precedence::BitAnd);
    assert_eq!(of(TokenKind::BinOp(BinaryOperation::Or)), Precedence::BitOr);
    assert_eq!(of(TokenKind::EqEq), Precedence::Equality);
    assert_eq!(of(TokenKind::NotEq), Precedence::Equality);
    assert_eq!(of(TokenKind::Greater), Precedence::Comparison);
    assert_eq!(of(TokenKind::GreaterEq), Precedence::Comparison);
    assert_eq!(of(TokenKind::Less), Precedence::Comparison);
    assert_eq!(of(TokenKind::LessEq), Precedence::Comparison);
    assert_eq!(of(TokenKind::OpenParen), Precedence::Call);
    assert_eq!(of(TokenKind::OpenBracket), Precedence::Call);
    assert_eq!(of(TokenKind::OpenCurly), Precedence::Call);
    assert_eq!(of(TokenKind::AndAnd), Precedence::Lowest);
    assert_eq!(of(TokenKind::OrOr), Precedence::Lowest);
    assert_eq!(of(TokenKind::Semicolon), Precedence::Lowest);
    assert_eq!(of(TokenKind::Identifier), Precedence::Lowest);
    assert_eq!(of(TokenKind::CloseParen), Precedence::Lowest);
}

#[test]
fn precedence_levels_are_ordered() {
    let levels = [
        Precedence::Lowest,
        Precedence::Assign,
        Precedence::Or,
        Precedence::And,
        Precedence::BitOr,
        Precedence::BitAnd,
        Precedence::Equality,
        Precedence::Comparison,
        Precedence::Sum,
        Precedence::Product,
        Precedence::Unary,
        Precedence::Call,
    ];
    for i in 0..levels.len() {
        assert_eq!(levels[i].level() as usize, i);
        for j in 0..levels.len() {
            assert_eq!(levels[i].exceeds(&levels[j]), i > j);
        }
    }
}

#[test]
fn binary_operator_of_each_token() {
    let of = |kind: TokenKind| Token::new("", kind, 0, 0).binary_operator();
    assert_eq!(of(TokenKind::BinOp(BinaryOperation::Plus)), Some(BinaryOperator::Plus));
    assert_eq!(of(TokenKind::BinOp(BinaryOperation::Minus)), Some(BinaryOperator::Minus));
    assert_eq!(of(TokenKind::BinOp(BinaryOperation::Star)), Some(BinaryOperator::Star));
    assert_eq!(of(TokenKind::BinOp(BinaryOperation::Slash)), Some(BinaryOperator::Divide));
    assert_eq!(of(TokenKind::BinOp(BinaryOperation::And)), Some(BinaryOperator::And));
    assert_eq!(of(TokenKind::BinOp(BinaryOperation::Or)), Some(BinaryOperator::Or));
    assert_eq!(of(TokenKind::BinOpEq(BinaryOperation::Plus)), None);
    assert_eq!(of(TokenKind::EqEq), None);
    assert_eq!(of(TokenKind::OpenParen), None);
}

#[test]
fn keywords_of_tokens() {
    assert_eq!(Token::new("func", TokenKind::Identifier, 0, 0).keyword(), Some(Keyword::Func));
    assert_eq!(Token::new("if", TokenKind::Identifier, 0, 0).keyword(), Some(Keyword::If));
    assert_eq!(Token::new("i32", TokenKind::Identifier, 0, 0).keyword(), Some(Keyword::I32));
    assert_eq!(Token::new("i33", TokenKind::Identifier, 0, 0).keyword(), None);
    assert_eq!(Token::new("if", TokenKind::Unknown, 0, 0).keyword(), None);
    assert!(!Token::new("if", TokenKind::Identifier, 0, 0).is_name());
    assert!(Token::new("iff", TokenKind::Identifier, 0, 0).is_name());
    assert!(Token::new(".", TokenKind::Unknown, 0, 0).is_dot());
    assert!(!Token::new("@", TokenKind::Unknown, 0, 0).is_dot());
}

#[test]
fn message_of_each_violation() {
    let error = SyntaxError::UnexpectedToken {
        expected: Expected::Kind(TokenKind::OpenParen),
        found: Found::Token(TokenKind::BinOpEq(BinaryOperation::Slash)),
        line: 12,
        column: 305,
    };
    assert_eq!(error.message(), "expected `(`, got `/=` at line 12, column 305");
    let error = SyntaxError::UnexpectedToken {
        expected: Expected::Statement,
        found: Found::Keyword(Keyword::Func),
        line: 0,
        column: 0,
    };
    assert_eq!(error.message(), "expected a statement or `}`, got keyword `func` at line 0, column 0");
    let error = SyntaxError::UnexpectedEnd { expected: Expected::Type };
    assert_eq!(error.message(), "expected a type, got end of input");
    let error = SyntaxError::UnterminatedString { line: 1, column: 2 };
    assert_eq!(error.message(), "unterminated string literal at line 1, column 2");
    let error = SyntaxError::DuplicateParameter { line: 10, column: 20 };
    assert_eq!(error.message(), "parameter declared twice at line 10, column 20");
}
