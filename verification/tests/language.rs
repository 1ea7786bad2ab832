//! End-to-end scenarios: parse a program, evaluate it, check the result
//! and the output channel.

use neo_script::eval::{evaluate, evaluate_with_limits, evaluate_with_output};
use neo_script::errors::RuntimeError;
use neo_script::parser::parse;
use neo_script::state::OutputItem;

fn run_src(src: &str) -> Result<i64, RuntimeError> {
    let ast = parse(src).expect("program should parse");
    evaluate(&ast)
}

fn run_output(src: &str) -> (Vec<OutputItem>, Result<i64, RuntimeError>) {
    let ast = parse(src).expect("program should parse");
    evaluate_with_output(&ast)
}

#[test]
fn precedence_multiplication_binds_tighter() {
    assert_eq!(run_src("2 + 3 * 4;"), Ok(14));
}

#[test]
fn right_associative_subtraction() {
    assert_eq!(run_src("10 - 3 - 2;"), Ok(9));
}

#[test]
fn shadowing_keeps_outer_binding() {
    assert_eq!(run_src("let x = 1; { let x = 2; } x;"), Ok(1));
}

#[test]
fn assignment_to_const_is_rejected() {
    assert_eq!(
        run_src("const x = 1; x = 2;"),
        Err(RuntimeError::ImmutableAssignment(b"x".to_vec()))
    );
}

#[test]
fn assignment_to_let_mutates() {
    assert_eq!(run_src("let x = 1; x = 2; x;"), Ok(2));
}

#[test]
fn zero_is_falsy() {
    let (out, res) = run_output("if (0) { print 1; } else { print 2; }");
    assert_eq!(res, Ok(0));
    assert_eq!(out, vec![OutputItem::Value(2)]);
}

#[test]
fn negative_is_falsy() {
    let (out, res) = run_output("if (-5) { print 1; } else { print 2; }");
    assert_eq!(res, Ok(0));
    assert_eq!(out, vec![OutputItem::Value(2)]);
}

#[test]
fn positive_is_truthy() {
    let (out, res) = run_output("if (1) { print 1; } else { print 2; }");
    assert_eq!(res, Ok(0));
    assert_eq!(out, vec![OutputItem::Value(1)]);
}

#[test]
fn while_loop_prints_in_order_and_stops() {
    let (out, res) = run_output("let i = 0; while (i < 3) { print i; i = i + 1; }");
    assert_eq!(res, Ok(0));
    assert_eq!(
        out,
        vec![OutputItem::Value(0), OutputItem::Value(1), OutputItem::Value(2)]
    );
}

#[test]
fn division_by_zero_is_an_error() {
    assert_eq!(run_src("5 / 0;"), Err(RuntimeError::DivisionByZero));
}

#[test]
fn binding_is_unreachable_after_its_block() {
    assert_eq!(
        run_src("{ let b = 2; } b;"),
        Err(RuntimeError::VariableNotFound(b"b".to_vec()))
    );
}

#[test]
fn for_loop_counts() {
    let (out, res) = run_output("for (i = 0; i < 3; i = i + 1) { print i; }");
    assert_eq!(res, Ok(0));
    assert_eq!(
        out,
        vec![OutputItem::Value(0), OutputItem::Value(1), OutputItem::Value(2)]
    );
}

#[test]
fn else_if_chain_takes_the_matching_branch() {
    let (out, res) =
        run_output("let x = 2; if (x == 1) { print 1; } else if (x == 2) { print 2; } else { print 3; }");
    assert_eq!(res, Ok(0));
    assert_eq!(out, vec![OutputItem::Value(2)]);
}

#[test]
fn else_if_chain_falls_through_to_else() {
    let (out, res) =
        run_output("let x = 9; if (x == 1) { print 1; } else if (x == 2) { print 2; } else { print 3; }");
    assert_eq!(res, Ok(0));
    assert_eq!(out, vec![OutputItem::Value(3)]);
}

#[test]
fn print_literal_writes_text() {
    let (out, res) = run_output("print \"hello\";");
    assert_eq!(res, Ok(0));
    assert_eq!(out, vec![OutputItem::Text(b"hello".to_vec())]);
}

#[test]
fn comments_and_whitespace_are_insignificant() {
    assert_eq!(run_src("// a comment\nlet x = 1; // another\n\tx + 1;"), Ok(2));
}

#[test]
fn empty_program_yields_zero() {
    assert_eq!(run_src(""), Ok(0));
}

#[test]
fn block_value_is_last_statement() {
    assert_eq!(run_src("{ 1; 2; 3; }"), Ok(3));
}

#[test]
fn assignment_reaches_outer_scope() {
    assert_eq!(run_src("let x = 1; { x = 5; } x;"), Ok(5));
}

#[test]
fn logical_binds_tighter_than_additive() {
    assert_eq!(run_src("1 + 2 && 3;"), Ok(2));
}

#[test]
fn unary_not_follows_truthiness() {
    assert_eq!(run_src("!5;"), Ok(0));
    assert_eq!(run_src("!0;"), Ok(1));
    assert_eq!(run_src("!(0 - 7);"), Ok(1));
}

#[test]
fn logical_operators_follow_truthiness() {
    assert_eq!(run_src("5 && 3;"), Ok(1));
    assert_eq!(run_src("5 && 0;"), Ok(0));
    assert_eq!(run_src("0 || 2;"), Ok(1));
    assert_eq!(run_src("0 || 0;"), Ok(0));
    assert_eq!(run_src("5 ^ 3;"), Ok(0));
    assert_eq!(run_src("0 ^ 3;"), Ok(1));
}

#[test]
fn comparisons_yield_one_or_zero() {
    assert_eq!(run_src("2 == 2;"), Ok(1));
    assert_eq!(run_src("2 != 2;"), Ok(0));
    assert_eq!(run_src("1 < 2;"), Ok(1));
    assert_eq!(run_src("1 > 2;"), Ok(0));
    assert_eq!(run_src("2 <= 2;"), Ok(1));
    assert_eq!(run_src("3 >= 4;"), Ok(0));
}

#[test]
fn depth_limit_is_reported_not_crashed() {
    let ast = parse("{ { { { 1; } } } }").expect("should parse");
    let (_, res) = evaluate_with_limits(&ast, 4, u64::MAX);
    assert_eq!(res, Err(RuntimeError::RecursionLimitExceeded));
}

#[test]
fn fuel_limit_stops_an_endless_loop_keeping_output() {
    let ast = parse("let i = 1; while (i > 0) { print i; }").expect("should parse");
    let (out, res) = evaluate_with_limits(&ast, 64, 3);
    assert_eq!(res, Err(RuntimeError::RecursionLimitExceeded));
    assert!(out.len() >= 1);
    assert_eq!(out[0], OutputItem::Value(1));
}

#[test]
fn bind_returns_its_value() {
    assert_eq!(run_src("let x = 41; x + 1;"), Ok(42));
}

#[test]
fn nested_scopes_resolve_innermost_first() {
    assert_eq!(run_src("let x = 1; { let x = 2; { x; } }"), Ok(2));
}

#[test]
fn larger_budgets_do_not_change_a_finished_result() {
    let ast = parse("let i = 0; while (i < 3) { print i; i = i + 1; } i;").expect("should parse");
    let small = evaluate_with_limits(&ast, 16, 64);
    let large = evaluate_with_limits(&ast, 10000, u64::MAX);
    assert_eq!(small, large);
    assert_eq!(small.1, Ok(3));
}

#[test]
fn test_run() {
    let ast = parse("a > 3").expect("should parse");
    assert_eq!(evaluate(&ast), Err(RuntimeError::VariableNotFound(b"a".to_vec())));
}
