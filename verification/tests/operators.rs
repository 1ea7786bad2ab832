//! Exact expected values for the operator semantics.

use neo_script::ast::OpTag;
use neo_script::errors::RuntimeError;
use neo_script::ops::calc_op;

#[test]
fn arithmetic_tags() {
    assert_eq!(calc_op(OpTag::Add, 2, 3), Ok(5));
    assert_eq!(calc_op(OpTag::Sub, 2, 3), Ok(-1));
    assert_eq!(calc_op(OpTag::Mul, -4, 3), Ok(-12));
    assert_eq!(calc_op(OpTag::Div, 7, 2), Ok(3));
    assert_eq!(calc_op(OpTag::Div, -7, 2), Ok(-3));
    assert_eq!(calc_op(OpTag::Mod, 7, 2), Ok(1));
    assert_eq!(calc_op(OpTag::Mod, -7, 2), Ok(-1));
}

#[test]
fn arithmetic_wraps_on_overflow() {
    assert_eq!(calc_op(OpTag::Add, i64::MAX, 1), Ok(i64::MIN));
    assert_eq!(calc_op(OpTag::Sub, i64::MIN, 1), Ok(i64::MAX));
    assert_eq!(calc_op(OpTag::Mul, i64::MAX, 2), Ok(-2));
    assert_eq!(calc_op(OpTag::Div, i64::MIN, -1), Ok(i64::MIN));
    assert_eq!(calc_op(OpTag::Mod, i64::MIN, -1), Ok(0));
}

#[test]
fn division_and_remainder_by_zero() {
    assert_eq!(calc_op(OpTag::Div, 5, 0), Err(RuntimeError::DivisionByZero));
    assert_eq!(calc_op(OpTag::Mod, 5, 0), Err(RuntimeError::DivisionByZero));
}

#[test]
fn comparison_tags() {
    assert_eq!(calc_op(OpTag::Eq, 4, 4), Ok(1));
    assert_eq!(calc_op(OpTag::Eq, 4, 5), Ok(0));
    assert_eq!(calc_op(OpTag::Ne, 4, 5), Ok(1));
    assert_eq!(calc_op(OpTag::Lt, 4, 5), Ok(1));
    assert_eq!(calc_op(OpTag::Gt, 4, 5), Ok(0));
    assert_eq!(calc_op(OpTag::Le, 5, 5), Ok(1));
    assert_eq!(calc_op(OpTag::Ge, 4, 5), Ok(0));
}

#[test]
fn logical_tags_read_truthiness_not_bits() {
    assert_eq!(calc_op(OpTag::And, 5, 2), Ok(1));
    assert_eq!(calc_op(OpTag::And, 5, 0), Ok(0));
    assert_eq!(calc_op(OpTag::And, -1, 5), Ok(0));
    assert_eq!(calc_op(OpTag::Or, 0, 0), Ok(0));
    assert_eq!(calc_op(OpTag::Or, -3, 7), Ok(1));
    assert_eq!(calc_op(OpTag::Xor, 5, 3), Ok(0));
    assert_eq!(calc_op(OpTag::Xor, -5, 3), Ok(1));
    assert_eq!(calc_op(OpTag::Xor, 0, 0), Ok(0));
}
