use oxygen::arguments::{handle_arguments, Options};
use oxygen::ast::{FunctionParameters, Type};
use oxygen::chars::{
    is_binary_digit, is_decimal_digit, is_hexadecimal_digit, is_ident_continue, is_ident_start,
    is_octal_digit, is_whitespace,
};
use oxygen::error::{early_error, report, Diagnostics, Expected, SyntaxError};
use oxygen::text::{decimal_string, same_text};

fn arguments(list: &[&str]) -> Vec<String> {
    list.iter().map(|argument| argument.to_string()).collect()
}

#[test]
fn no_argument_asks_for_usage() {
    let mut diagnostics = Diagnostics::new();
    let result = handle_arguments(&arguments(&["oxygen"]), &mut diagnostics);
    assert_eq!(result.unwrap(), None);
    assert!(diagnostics.is_empty());
}

#[test]
fn help_flags_ask_for_usage() {
    let mut diagnostics = Diagnostics::new();
    assert_eq!(handle_arguments(&arguments(&["oxygen", "-h"]), &mut diagnostics).unwrap(), None);
    assert_eq!(handle_arguments(&arguments(&["oxygen", "--help"]), &mut diagnostics).unwrap(), None);
    assert_eq!(
        handle_arguments(&arguments(&["oxygen", "main.oxy", "-h"]), &mut diagnostics).unwrap(),
        None
    );
    assert!(diagnostics.is_empty());
}

#[test]
fn one_path_is_compiled() {
    let mut diagnostics = Diagnostics::new();
    let result = handle_arguments(&arguments(&["oxygen", "main.oxy"]), &mut diagnostics);
    assert_eq!(result.unwrap(), Some(Options { input_path: "main.oxy".to_string() }));
    assert!(diagnostics.is_empty());
}

#[test]
fn unknown_flag_is_reported() {
    let mut diagnostics = Diagnostics::new();
    let result = handle_arguments(&arguments(&["oxygen", "main.oxy", "--fast", "-h"]), &mut diagnostics);
    assert!(result.is_err());
    assert_eq!(diagnostics.len(), 1);
    assert_eq!(diagnostics.message(0), "No such argument: --fast");
    let result = handle_arguments(&arguments(&["oxygen", "-"]), &mut diagnostics);
    assert!(result.is_err());
    assert_eq!(diagnostics.message(1), "No such argument: -");
}

#[test]
fn second_path_is_reported() {
    let mut diagnostics = Diagnostics::new();
    let result = handle_arguments(&arguments(&["oxygen", "a.oxy", "b.oxy", "-h"]), &mut diagnostics);
    assert!(result.is_err());
    assert_eq!(diagnostics.len(), 1);
    assert_eq!(
        diagnostics.message(0),
        "More than one input file was provided (Found a.oxy and b.oxy)"
    );
}

#[test]
fn empty_argument_is_a_path() {
    let mut diagnostics = Diagnostics::new();
    let result = handle_arguments(&arguments(&["oxygen", ""]), &mut diagnostics);
    assert_eq!(result.unwrap(), Some(Options { input_path: String::new() }));
    let result = handle_arguments(&arguments(&["oxygen", "", "b.oxy"]), &mut diagnostics);
    assert!(result.is_err());
    assert_eq!(
        diagnostics.message(0),
        "More than one input file was provided (Found  and b.oxy)"
    );
}

#[test]
fn early_error_records_the_message() {
    let mut diagnostics = Diagnostics::new();
    assert!(diagnostics.is_empty());
    let _sentinel = early_error(&mut diagnostics, "first".to_string());
    let _sentinel = early_error(&mut diagnostics, "second".to_string());
    assert_eq!(diagnostics.len(), 2);
    assert!(!diagnostics.is_empty());
    assert_eq!(diagnostics.message(0), "first");
    assert_eq!(diagnostics.message(1), "second");
}

#[test]
fn report_records_the_message_of_the_violation() {
    let mut diagnostics = Diagnostics::new();
    let _sentinel = report(&mut diagnostics, SyntaxError::UnexpectedEnd { expected: Expected::Body });
    assert_eq!(diagnostics.len(), 1);
    assert_eq!(diagnostics.message(0), "expected `;` or a block, got end of input");
}

#[test]
fn decimal_string_writes_numbers() {
    assert_eq!(decimal_string(0), "0");
    assert_eq!(decimal_string(9), "9");
    assert_eq!(decimal_string(10), "10");
    assert_eq!(decimal_string(1234567890), "1234567890");
    assert_eq!(decimal_string(usize::MAX), format!("{}", usize::MAX));
}

#[test]
fn same_text_compares_characters() {
    assert!(same_text("", ""));
    assert!(same_text("abc", "abc"));
    assert!(!same_text("abc", "abd"));
    assert!(!same_text("abc", "ab"));
    assert!(!same_text("", "a"));
    assert!(same_text("äö", "äö"));
    assert!(!same_text("ä", "a"));
}

#[test]
fn parameters_keep_their_first_declaration() {
    let mut parameters = FunctionParameters::new();
    assert_eq!(parameters.len(), 0);
    assert_eq!(parameters.insert("a".to_string(), Type::I32), None);
    assert_eq!(parameters.insert("b".to_string(), Type::I32), None);
    assert_eq!(parameters.insert("a".to_string(), Type::I32), Some(Type::I32));
    assert_eq!(parameters.len(), 2);
    assert_eq!(parameters.name(0), "a");
    assert_eq!(parameters.name(1), "b");
    assert_eq!(parameters.get("b"), Some(Type::I32));
    assert_eq!(parameters.get(""), None);
}

#[test]
fn character_classes() {
    assert!(is_ident_start('_'));
    assert!(is_ident_start('a'));
    assert!(is_ident_start('Z'));
    assert!(!is_ident_start('0'));
    assert!(!is_ident_start('é'));
    assert!(is_ident_continue('0'));
    assert!(is_ident_continue('x'));
    assert!(is_ident_continue('\u{2167}'));
    assert!(!is_ident_continue('-'));
    assert!(is_binary_digit('0'));
    assert!(is_binary_digit('1'));
    assert!(!is_binary_digit('2'));
    assert!(is_octal_digit('7'));
    assert!(!is_octal_digit('8'));
    assert!(is_decimal_digit('0'));
    assert!(is_decimal_digit('9'));
    assert!(!is_decimal_digit('a'));
    assert!(!is_decimal_digit('\u{663}'));
    assert!(is_hexadecimal_digit('f'));
    assert!(is_hexadecimal_digit('A'));
    assert!(!is_hexadecimal_digit('g'));
}

#[test]
fn identifiers_continue_as_the_standard_library_counts_numerics() {
    let mut code = 0u32;
    while code <= 0x10ffff {
        if let Some(c) = char::from_u32(code) {
            let expected = c == '_' || c.is_ascii_alphabetic() || c.is_numeric();
            assert_eq!(is_ident_continue(c), expected);
        }
        code += 1;
    }
}

#[test]
fn whitespace_is_what_the_standard_library_calls_whitespace() {
    let mut code = 0u32;
    while code <= 0x10ffff {
        if let Some(c) = char::from_u32(code) {
            assert_eq!(is_whitespace(c), c.is_whitespace());
        }
        code += 1;
    }
}
