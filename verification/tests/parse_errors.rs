//! The parser's error policy: total consumption, explicit failures with a
//! byte offset, no recovery.

use neo_script::errors::RuntimeError;
use neo_script::eval::evaluate;
use neo_script::parser::{parse, Expected, ParseError};

#[test]
fn trailing_input_is_rejected() {
    assert_eq!(parse("1 + 2 $"), Err(ParseError::TrailingInput { offset: 6 }));
}

#[test]
fn trailing_close_brace_is_rejected() {
    assert_eq!(parse("1; }"), Err(ParseError::TrailingInput { offset: 3 }));
}

#[test]
fn missing_expression_after_equals() {
    assert_eq!(
        parse("let x = ;"),
        Err(ParseError::UnexpectedToken { offset: 8, expected: Expected::Expression })
    );
}

#[test]
fn unterminated_string_reaches_end_of_input() {
    assert_eq!(parse("print \"abc"), Err(ParseError::UnexpectedEndOfInput));
}

#[test]
fn unclosed_paren_is_reported() {
    assert_eq!(parse("(1 + 2"), Err(ParseError::UnexpectedEndOfInput));
}

#[test]
fn number_beyond_the_signed_range_is_a_parse_error() {
    assert_eq!(
        parse("9223372036854775808;"),
        Err(ParseError::UnexpectedToken { offset: 0, expected: Expected::NumberInRange })
    );
    assert!(parse("9223372036854775807;").is_ok());
}

#[test]
fn keyword_cannot_be_an_identifier() {
    assert!(parse("let let = 1;").is_err());
}

#[test]
fn comments_may_close_the_input() {
    let ast = parse("1 + 1; // trailing comment").expect("should parse");
    assert_eq!(evaluate(&ast), Ok(2));
}

#[test]
fn undefined_variable_is_a_runtime_error() {
    let ast = parse("y;").expect("should parse");
    assert_eq!(evaluate(&ast), Err(RuntimeError::VariableNotFound(b"y".to_vec())));
}

#[test]
fn nesting_beyond_the_budget_is_a_parse_error() {
    let mut src = String::new();
    for _ in 0..5000 {
        src.push('(');
    }
    src.push('1');
    for _ in 0..5000 {
        src.push(')');
    }
    src.push(';');
    let r = parse(&src);
    assert!(matches!(
        r,
        Err(ParseError::UnexpectedToken { expected: Expected::ShallowerNesting, .. })
    ));
}

#[test]
fn long_flat_programs_parse_within_the_budget() {
    let mut src = String::new();
    for _ in 0..3000 {
        src.push_str("1;");
    }
    let ast = parse(&src).expect("should parse");
    assert_eq!(evaluate(&ast), Ok(1));
}
