use oxygen::lexer::{tokenize, TokenStream, Tokenizer};
use oxygen::token::{Base, BinaryOperation, LiteralKind, Token, TokenKind};

fn all_tokens(input: &str) -> Vec<Token<'_>> {
    let mut tokenizer = tokenize(input);
    let mut tokens = Vec::new();
    while let Some(token) = tokenizer.next() {
        tokens.push(token);
    }
    tokens
}

fn single(input: &str) -> Token<'_> {
    let tokens = all_tokens(input);
    assert_eq!(tokens.len(), 1);
    tokens[0]
}

fn int_kind(base: Base, empty_int: bool, suffix_start: usize) -> TokenKind {
    TokenKind::Literal { kind: LiteralKind::Int { base, empty_int }, suffix_start }
}

fn float_kind(base: Base, empty_exponent: bool, suffix_start: usize) -> TokenKind {
    TokenKind::Literal { kind: LiteralKind::Float { base, empty_exponent }, suffix_start }
}

fn string_kind(terminated: bool, suffix_start: usize) -> TokenKind {
    TokenKind::Literal { kind: LiteralKind::Str(terminated), suffix_start }
}

#[test]
fn decimal_integers_lex_to_themselves() {
    for n in [0u64, 7, 10, 42, 109, 65535, 4294967296, 18446744073709551615] {
        let text = format!("{}", n);
        let token = single(&text);
        assert_eq!(token.kind, int_kind(Base::Decimal, false, text.chars().count()));
        assert_eq!(token.string, text);
        assert_eq!(token.string.parse::<u64>().unwrap(), n);
        assert_eq!(token.line, 0);
        assert_eq!(token.column, 0);
    }
}

#[test]
fn decimal_integer_with_leading_zeros_is_decimal() {
    let token = single("007");
    assert_eq!(token.kind, int_kind(Base::Decimal, false, 3));
    assert_eq!(token.string, "007");
}

#[test]
fn hexadecimal_prefix_without_digits_is_flagged() {
    let token = single("0x");
    assert_eq!(token.string, "0x");
    assert_eq!(token.kind, int_kind(Base::Hexadecimal, true, 2));
}

#[test]
fn binary_literal() {
    let token = single("0b101");
    assert_eq!(token.string, "0b101");
    assert_eq!(token.kind, int_kind(Base::Binary, false, 5));
}

#[test]
fn every_base_prefix() {
    assert_eq!(single("0b").kind, int_kind(Base::Binary, true, 2));
    assert_eq!(single("0o").kind, int_kind(Base::Octal, true, 2));
    assert_eq!(single("0d").kind, int_kind(Base::Decimal, true, 2));
    assert_eq!(single("0o17").kind, int_kind(Base::Octal, false, 4));
    assert_eq!(single("0d19").kind, int_kind(Base::Decimal, false, 4));
    assert_eq!(single("0xfF09").kind, int_kind(Base::Hexadecimal, false, 6));
    assert_eq!(single("0").kind, int_kind(Base::Decimal, false, 1));
}

#[test]
fn digit_that_the_base_lacks_ends_the_run() {
    let tokens = all_tokens("0b12");
    assert_eq!(tokens.len(), 2);
    assert_eq!(tokens[0].string, "0b1");
    assert_eq!(tokens[0].kind, int_kind(Base::Binary, false, 3));
    assert_eq!(tokens[1].string, "2");
    assert_eq!(tokens[1].kind, int_kind(Base::Decimal, false, 1));
    let tokens = all_tokens("0o178");
    assert_eq!(tokens[0].string, "0o17");
    assert_eq!(tokens[0].kind, int_kind(Base::Octal, false, 4));
    assert_eq!(tokens[1].string, "8");
    let tokens = all_tokens("0d12a");
    assert_eq!(tokens.len(), 1);
    assert_eq!(tokens[0].kind, int_kind(Base::Decimal, false, 4));
}

#[test]
fn prefix_before_a_digit_that_the_base_lacks_is_empty() {
    let tokens = all_tokens("0b2");
    assert_eq!(tokens.len(), 2);
    assert_eq!(tokens[0].string, "0b");
    assert_eq!(tokens[0].kind, int_kind(Base::Binary, true, 2));
    assert_eq!(tokens[1].string, "2");
    let tokens = all_tokens("0o8");
    assert_eq!(tokens[0].string, "0o");
    assert_eq!(tokens[0].kind, int_kind(Base::Octal, true, 2));
    let tokens = all_tokens("0xg");
    assert_eq!(tokens.len(), 1);
    assert_eq!(tokens[0].kind, int_kind(Base::Hexadecimal, true, 2));
}

#[test]
fn number_stops_at_the_first_digit_outside_its_base() {
    let mut stream = TokenStream::new("0b12");
    assert_eq!(stream.advance(), Some('0'));
    assert_eq!(stream.number('0'), LiteralKind::Int { base: Base::Binary, empty_int: false });
    assert_eq!(stream.peek(), '2');
    let mut stream = TokenStream::new("0b2");
    stream.advance();
    assert_eq!(stream.number('0'), LiteralKind::Int { base: Base::Binary, empty_int: true });
    assert_eq!(stream.peek(), '2');
    let mut stream = TokenStream::new("0o78");
    stream.advance();
    assert_eq!(stream.number('0'), LiteralKind::Int { base: Base::Octal, empty_int: false });
    assert_eq!(stream.peek(), '8');
    let mut stream = TokenStream::new("0101234");
    assert!(stream.consume_binary_digits());
    assert_eq!(stream.peek(), '2');
    assert!(!stream.consume_binary_digits());
    assert!(stream.consume_octal_digits());
    assert!(stream.at_end());
}

#[test]
fn empty_prefix_attempts_no_fraction() {
    let tokens = all_tokens("0x.5");
    assert_eq!(tokens[0].kind, int_kind(Base::Hexadecimal, true, 2));
    assert_eq!(tokens[0].string, "0x");
    assert_eq!(tokens[1].kind, TokenKind::Unknown);
    assert_eq!(tokens[1].string, ".");
}

#[test]
fn float_with_fraction() {
    let token = single("3.14");
    assert_eq!(token.string, "3.14");
    assert_eq!(token.kind, float_kind(Base::Decimal, false, 4));
}

#[test]
fn float_with_dangling_exponent() {
    let token = single("3.14e");
    assert_eq!(token.string, "3.14e");
    assert_eq!(token.kind, float_kind(Base::Decimal, true, 5));
}

#[test]
fn exponent_forms() {
    assert_eq!(single("1e10").kind, float_kind(Base::Decimal, false, 4));
    assert_eq!(single("1E+5").kind, float_kind(Base::Decimal, false, 4));
    assert_eq!(single("1e-5").kind, float_kind(Base::Decimal, false, 4));
    assert_eq!(single("1e-").kind, float_kind(Base::Decimal, true, 3));
    assert_eq!(single("2.5e+").kind, float_kind(Base::Decimal, true, 5));
    assert_eq!(single("2.5E7").kind, float_kind(Base::Decimal, false, 5));
    assert_eq!(single("0e1").kind, float_kind(Base::Decimal, false, 3));
    assert_eq!(single("0.5").kind, float_kind(Base::Decimal, false, 3));
}

#[test]
fn dot_without_digits_still_makes_a_float() {
    let tokens = all_tokens("1. ");
    assert_eq!(tokens.len(), 1);
    assert_eq!(tokens[0].string, "1.");
    assert_eq!(tokens[0].kind, float_kind(Base::Decimal, false, 2));
}

#[test]
fn hexadecimal_number_with_fraction_keeps_its_base() {
    let token = single("0x1f.5");
    assert_eq!(token.kind, float_kind(Base::Hexadecimal, false, 6));
}

#[test]
fn method_call_on_integer_is_no_float() {
    let tokens = all_tokens("13.to_string()");
    assert_eq!(tokens.len(), 5);
    assert_eq!(tokens[0].kind, int_kind(Base::Decimal, false, 2));
    assert_eq!(tokens[0].string, "13");
    assert_eq!(tokens[1].kind, TokenKind::Unknown);
    assert_eq!(tokens[1].string, ".");
    assert_eq!(tokens[2].kind, TokenKind::Identifier);
    assert_eq!(tokens[2].string, "to_string");
    assert_eq!(tokens[2].column, 3);
    assert_eq!(tokens[3].kind, TokenKind::OpenParen);
    assert_eq!(tokens[4].kind, TokenKind::CloseParen);
}

#[test]
fn dot_before_exponent_letter_is_no_fraction() {
    let tokens = all_tokens("1.e5");
    assert_eq!(tokens[0].kind, int_kind(Base::Decimal, false, 1));
    assert_eq!(tokens[1].string, ".");
    assert_eq!(tokens[2].kind, TokenKind::Identifier);
    assert_eq!(tokens[2].string, "e5");
}

#[test]
fn literal_suffix_is_recorded() {
    let token = single("12u8");
    assert_eq!(token.string, "12u8");
    assert_eq!(token.kind, int_kind(Base::Decimal, false, 2));
    let token = single("0xffu8");
    assert_eq!(token.kind, int_kind(Base::Hexadecimal, false, 4));
    let token = single("1.5f32");
    assert_eq!(token.kind, float_kind(Base::Decimal, false, 3));
    let token = single("0xg");
    assert_eq!(token.string, "0xg");
    assert_eq!(token.kind, int_kind(Base::Hexadecimal, true, 2));
    let token = single("7_");
    assert_eq!(token.kind, int_kind(Base::Decimal, false, 1));
}

#[test]
fn terminated_string() {
    let token = single("\"abc\"");
    assert_eq!(token.string, "\"abc\"");
    assert_eq!(token.kind, string_kind(true, 5));
}

#[test]
fn unterminated_string() {
    let token = single("\"abc");
    assert_eq!(token.string, "\"abc");
    assert_eq!(token.kind, string_kind(false, 4));
}

#[test]
fn escapes_in_strings() {
    // "a\"b"
    let token = single("\"a\\\"b\"");
    assert_eq!(token.kind, string_kind(true, 6));
    // "a\\" followed by x
    let tokens = all_tokens("\"a\\\\\"x");
    assert_eq!(tokens[0].string, "\"a\\\\\"");
    assert_eq!(tokens[0].kind, string_kind(true, 5));
    assert_eq!(tokens[1].kind, TokenKind::Identifier);
    // "a\" runs to the end of the input
    let token = single("\"a\\\"");
    assert_eq!(token.kind, string_kind(false, 4));
    // a backslash before another character escapes nothing
    let token = single("\"a\\n\"");
    assert_eq!(token.kind, string_kind(true, 5));
    // a lone backslash at the end of the input
    let token = single("\"\\");
    assert_eq!(token.kind, string_kind(false, 2));
}

#[test]
fn string_may_span_lines() {
    let tokens = all_tokens("\"a\nb\" c");
    assert_eq!(tokens[0].kind, string_kind(true, 5));
    assert_eq!(tokens[1].string, "c");
    assert_eq!(tokens[1].line, 1);
    assert_eq!(tokens[1].column, 3);
}

#[test]
fn and_and_is_one_token() {
    let token = single("&&");
    assert_eq!(token.kind, TokenKind::AndAnd);
    assert_eq!(token.string, "&&");
}

#[test]
fn two_character_operators() {
    assert_eq!(single("||").kind, TokenKind::OrOr);
    assert_eq!(single("==").kind, TokenKind::EqEq);
    assert_eq!(single("!=").kind, TokenKind::NotEq);
    assert_eq!(single(">=").kind, TokenKind::GreaterEq);
    assert_eq!(single("<=").kind, TokenKind::LessEq);
    assert_eq!(single("+=").kind, TokenKind::BinOpEq(BinaryOperation::Plus));
    assert_eq!(single("-=").kind, TokenKind::BinOpEq(BinaryOperation::Minus));
    assert_eq!(single("*=").kind, TokenKind::BinOpEq(BinaryOperation::Star));
    assert_eq!(single("/=").kind, TokenKind::BinOpEq(BinaryOperation::Slash));
    assert_eq!(single("&=").kind, TokenKind::BinOpEq(BinaryOperation::And));
    assert_eq!(single("|=").kind, TokenKind::BinOpEq(BinaryOperation::Or));
}

#[test]
fn one_character_operators() {
    assert_eq!(single("&").kind, TokenKind::BinOp(BinaryOperation::And));
    assert_eq!(single("|").kind, TokenKind::BinOp(BinaryOperation::Or));
    assert_eq!(single("+").kind, TokenKind::BinOp(BinaryOperation::Plus));
    assert_eq!(single("-").kind, TokenKind::BinOp(BinaryOperation::Minus));
    assert_eq!(single("*").kind, TokenKind::BinOp(BinaryOperation::Star));
    assert_eq!(single("/").kind, TokenKind::BinOp(BinaryOperation::Slash));
    assert_eq!(single(">").kind, TokenKind::Greater);
    assert_eq!(single("=").kind, TokenKind::Eq);
    assert_eq!(single("<").kind, TokenKind::Less);
    assert_eq!(single("!").kind, TokenKind::Bang);
}

#[test]
fn minus_assignment_differs_from_plus_assignment() {
    assert_ne!(single("-=").kind, single("+=").kind);
    assert_ne!(single("-").kind, single("+").kind);
}

#[test]
fn operator_falls_back_when_second_character_does_not_match() {
    let tokens = all_tokens("&|");
    assert_eq!(tokens[0].kind, TokenKind::BinOp(BinaryOperation::And));
    assert_eq!(tokens[1].kind, TokenKind::BinOp(BinaryOperation::Or));
    let tokens = all_tokens("=>");
    assert_eq!(tokens[0].kind, TokenKind::Eq);
    assert_eq!(tokens[1].kind, TokenKind::Greater);
    let tokens = all_tokens("&&&");
    assert_eq!(tokens[0].kind, TokenKind::AndAnd);
    assert_eq!(tokens[1].kind, TokenKind::BinOp(BinaryOperation::And));
    let tokens = all_tokens("===");
    assert_eq!(tokens[0].kind, TokenKind::EqEq);
    assert_eq!(tokens[1].kind, TokenKind::Eq);
}

#[test]
fn punctuation() {
    assert_eq!(single(";").kind, TokenKind::Semicolon);
    assert_eq!(single(",").kind, TokenKind::Comma);
    assert_eq!(single("~").kind, TokenKind::Tilde);
    assert_eq!(single("(").kind, TokenKind::OpenParen);
    assert_eq!(single(")").kind, TokenKind::CloseParen);
    assert_eq!(single("[").kind, TokenKind::OpenBracket);
    assert_eq!(single("]").kind, TokenKind::CloseBracket);
    assert_eq!(single("{").kind, TokenKind::OpenCurly);
    assert_eq!(single("}").kind, TokenKind::CloseCurly);
}

#[test]
fn unknown_characters_are_tokens() {
    assert_eq!(single("@").kind, TokenKind::Unknown);
    assert_eq!(single("$").string, "$");
    let tokens = all_tokens("é x");
    assert_eq!(tokens[0].kind, TokenKind::Unknown);
    assert_eq!(tokens[0].string, "é");
    assert_eq!(tokens[1].string, "x");
    assert_eq!(tokens[1].column, 2);
    let token = single("\0");
    assert_eq!(token.kind, TokenKind::Unknown);
}

#[test]
fn lexeme_after_wide_characters_is_cut_by_characters() {
    let tokens = all_tokens("\"äöü\" name");
    assert_eq!(tokens[0].string, "\"äöü\"");
    assert_eq!(tokens[0].kind, string_kind(true, 5));
    assert_eq!(tokens[1].string, "name");
    assert_eq!(tokens[1].column, 6);
}

#[test]
fn identifiers() {
    assert_eq!(single("abc").kind, TokenKind::Identifier);
    assert_eq!(single("_").kind, TokenKind::Identifier);
    let token = single("a1_b2");
    assert_eq!(token.kind, TokenKind::Identifier);
    assert_eq!(token.string, "a1_b2");
    // a numeric character that is no ASCII digit continues an identifier
    let token = single("x\u{663}");
    assert_eq!(token.kind, TokenKind::Identifier);
    // a letter that is not ASCII does not
    let tokens = all_tokens("xé");
    assert_eq!(tokens[0].string, "x");
    assert_eq!(tokens[1].kind, TokenKind::Unknown);
}

#[test]
fn keywords_are_identifiers_to_the_lexer() {
    assert_eq!(single("func").kind, TokenKind::Identifier);
    assert_eq!(single("if").kind, TokenKind::Identifier);
    assert_eq!(single("i32").kind, TokenKind::Identifier);
}

#[test]
fn comment_is_yielded_and_ends_before_the_line_feed() {
    let tokens = all_tokens("# hi there\nx");
    assert_eq!(tokens.len(), 2);
    assert_eq!(tokens[0].kind, TokenKind::Comment);
    assert_eq!(tokens[0].string, "# hi there");
    assert_eq!(tokens[1].kind, TokenKind::Identifier);
    assert_eq!(tokens[1].line, 1);
    assert_eq!(tokens[1].column, 0);
    let token = single("#");
    assert_eq!(token.kind, TokenKind::Comment);
    let token = single("# to the end");
    assert_eq!(token.string, "# to the end");
}

#[test]
fn whitespace_is_skipped() {
    let tokens = all_tokens("  \t\r\n  a \u{a0}\u{2003}b\u{3000}");
    assert_eq!(tokens.len(), 2);
    assert_eq!(tokens[0].string, "a");
    assert_eq!(tokens[0].line, 1);
    assert_eq!(tokens[0].column, 2);
    assert_eq!(tokens[1].string, "b");
    assert_eq!(tokens[1].column, 6);
}

#[test]
fn lines_and_columns_count_from_zero() {
    let tokens = all_tokens("a b\n  c\n\nd");
    assert_eq!((tokens[0].line, tokens[0].column), (0, 0));
    assert_eq!((tokens[1].line, tokens[1].column), (0, 2));
    assert_eq!((tokens[2].line, tokens[2].column), (1, 2));
    assert_eq!((tokens[3].line, tokens[3].column), (3, 0));
}

#[test]
fn empty_input_has_no_token() {
    assert!(tokenize("").next().is_none());
    assert!(tokenize("   \n\t ").next().is_none());
}

#[test]
fn end_of_input_is_reported_again_and_again() {
    let mut tokenizer = Tokenizer::new("a");
    assert!(tokenizer.next().is_some());
    assert!(tokenizer.next().is_none());
    assert!(tokenizer.next().is_none());
}

#[test]
fn end_of_input_marker_stays_inside_the_stream() {
    let mut stream = TokenStream::new(" x ");
    let token = stream.next_token();
    assert_eq!(token.kind, TokenKind::Identifier);
    let token = stream.next_token();
    assert_eq!(token.kind, TokenKind::Eof);
    assert_eq!(token.string, "");
    assert_eq!((token.line, token.column), (0, 3));
    let token = stream.next_token();
    assert_eq!(token.kind, TokenKind::Eof);
}

#[test]
fn cursor_primitives() {
    let mut stream = TokenStream::new("a\nbc");
    assert_eq!(stream.peek(), 'a');
    assert_eq!(stream.peek_second(), '\n');
    assert!(!stream.at_end());
    assert_eq!(stream.advance(), Some('a'));
    assert_eq!((stream.line(), stream.column()), (0, 1));
    assert_eq!(stream.advance(), Some('\n'));
    assert_eq!((stream.line(), stream.column()), (1, 0));
    stream.advance_while(|c| c == 'b');
    assert_eq!(stream.peek(), 'c');
    assert_eq!(stream.peek_second(), '\0');
    assert_eq!(stream.advance(), Some('c'));
    assert!(stream.at_end());
    assert_eq!(stream.peek(), '\0');
    assert_eq!(stream.advance(), None);
    assert_eq!((stream.line(), stream.column()), (1, 2));
}

#[test]
fn digit_runs() {
    let mut stream = TokenStream::new("123abc");
    assert!(stream.consume_decimal_digits());
    assert_eq!(stream.peek(), 'a');
    assert!(!stream.consume_decimal_digits());
    assert!(stream.consume_hexadecimal_digits());
    assert!(stream.at_end());
    let mut stream = TokenStream::new("+5x");
    assert!(stream.consume_float_exponent());
    assert_eq!(stream.peek(), 'x');
    stream.consume_literal_suffix();
    assert!(stream.at_end());
    let mut stream = TokenStream::new("-x");
    assert!(!stream.consume_float_exponent());
    assert_eq!(stream.peek(), 'x');
}

#[test]
fn number_after_its_first_digit() {
    let mut stream = TokenStream::new("0x2a");
    stream.advance();
    assert_eq!(stream.number('0'), LiteralKind::Int { base: Base::Hexadecimal, empty_int: false });
    assert!(stream.at_end());
    let mut stream = TokenStream::new("5.5;");
    stream.advance();
    assert_eq!(
        stream.number('5'),
        LiteralKind::Float { base: Base::Decimal, empty_exponent: false }
    );
    assert_eq!(stream.peek(), ';');
    let mut stream = TokenStream::new(".5");
    assert_eq!(
        stream.number_tail(Base::Octal),
        LiteralKind::Float { base: Base::Octal, empty_exponent: false }
    );
    let mut stream = TokenStream::new("abc\" d");
    assert!(stream.double_quoted_string());
    assert_eq!(stream.peek(), ' ');
    stream.skip_whitespace();
    assert_eq!(stream.peek(), 'd');
}

#[test]
fn split_two_gives_the_two_halves() {
    let and = TokenKind::BinOp(BinaryOperation::And);
    assert_eq!(TokenKind::BinOpEq(BinaryOperation::And).split_two(), Some((and, TokenKind::Eq)));
    assert_eq!(TokenKind::AndAnd.split_two(), Some((and, and)));
    assert_eq!(
        TokenKind::OrOr.split_two(),
        Some((TokenKind::BinOp(BinaryOperation::Or), TokenKind::BinOp(BinaryOperation::Or)))
    );
    assert_eq!(TokenKind::GreaterEq.split_two(), Some((TokenKind::Greater, TokenKind::Eq)));
    assert_eq!(TokenKind::LessEq.split_two(), Some((TokenKind::Less, TokenKind::Eq)));
    assert_eq!(TokenKind::EqEq.split_two(), Some((TokenKind::Eq, TokenKind::Eq)));
    assert_eq!(
        TokenKind::BinOpEq(BinaryOperation::Minus).split_two(),
        Some((TokenKind::BinOp(BinaryOperation::Minus), TokenKind::Eq))
    );
    assert_eq!(TokenKind::NotEq.split_two(), None);
    assert_eq!(TokenKind::Greater.split_two(), None);
    assert_eq!(TokenKind::Identifier.split_two(), None);
}

#[test]
fn radix_of_each_base() {
    assert_eq!(Base::Binary.radix(), 2);
    assert_eq!(Base::Octal.radix(), 8);
    assert_eq!(Base::Decimal.radix(), 10);
    assert_eq!(Base::Hexadecimal.radix(), 16);
}

#[test]
fn token_new_keeps_its_parts() {
    let token = Token::new("abc", TokenKind::Identifier, 3, 4);
    assert_eq!(token.string, "abc");
    assert_eq!(token.kind, TokenKind::Identifier);
    assert_eq!((token.line, token.column), (3, 4));
    assert!(token.is_name());
    assert!(!token.is_dot());
    assert_eq!(token.keyword(), None);
}

#[test]
fn long_text_is_lexed_token_by_token() {
    let mut text = String::new();
    let mut expected = 0usize;
    for i in 0..20000 {
        text.push_str("name_");
        text.push_str(&format!("{}", i));
        text.push_str(" + \"ü\" # note\n");
        expected += 4;
    }
    let tokens = all_tokens(&text);
    assert_eq!(tokens.len(), expected);
    assert_eq!(tokens[expected - 4].string, "name_19999");
    assert_eq!(tokens[expected - 4].line, 19999);
    assert_eq!(tokens[expected - 2].string, "\"ü\"");
    assert_eq!(tokens[expected - 1].string, "# note");
}

#[test]
fn tokens_cut_by_hand_do_not_disturb_the_lexemes() {
    let mut stream = TokenStream::new("ab cd ef");
    stream.advance();
    stream.advance();
    stream.advance();
    let token = stream.next_token();
    assert_eq!(token.string, "cd");
    assert_eq!(token.column, 3);
    stream.skip_whitespace();
    stream.advance();
    let token = stream.next_token();
    assert_eq!(token.string, "f");
    assert_eq!(token.column, 7);
}
