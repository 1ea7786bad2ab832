//! Operator semantics: pure functions from an operator tag and two 64-bit
//! integers to a result integer or a runtime error.

use vstd::prelude::*;
use crate::ast::OpTag;
use crate::errors::{res_view, RuntimeError, RuntimeErrorSpec};

verus! {

/// A value is truthy exactly when it is strictly greater than zero; zero and
/// negative values are falsy.
pub open spec fn truthy(v: i64) -> bool {
    v > 0
}

/// What applying a binary operator yields.
///
/// Addition, subtraction and multiplication wrap around on 64-bit overflow.
/// Division and remainder truncate toward zero and report `DivisionByZero`
/// for a zero right operand; the one overflowing case, `i64::MIN` divided by
/// `-1`, wraps as well.  Comparisons yield `1` or `0`.  The logical
/// operators read the truthiness of each operand and yield `1` or `0`.
pub open spec fn op_result(tag: OpTag, l: i64, r: i64) -> Result<i64, RuntimeErrorSpec> {
    match tag {
        OpTag::Add => Ok(l.wrapping_add(r)),
        OpTag::Sub => Ok(l.wrapping_sub(r)),
        OpTag::Mul => Ok(l.wrapping_mul(r)),
        OpTag::Div => if r == 0 {
            Err(RuntimeErrorSpec::DivisionByZero)
        } else {
            match l.checked_div(r) {
                Some(q) => Ok(q),
                None => Ok(i64::MIN),
            }
        },
        OpTag::Mod => if r == 0 {
            Err(RuntimeErrorSpec::DivisionByZero)
        } else {
            match l.checked_rem(r) {
                Some(m) => Ok(m),
                None => Ok(0),
            }
        },
        OpTag::Eq => Ok(if l == r { 1 } else { 0 }),
        OpTag::Ne => Ok(if l != r { 1 } else { 0 }),
        OpTag::Lt => Ok(if l < r { 1 } else { 0 }),
        OpTag::Gt => Ok(if l > r { 1 } else { 0 }),
        OpTag::Le => Ok(if l <= r { 1 } else { 0 }),
        OpTag::Ge => Ok(if l >= r { 1 } else { 0 }),
        OpTag::And => Ok(if truthy(l) && truthy(r) { 1 } else { 0 }),
        OpTag::Or => Ok(if truthy(l) || truthy(r) { 1 } else { 0 }),
        OpTag::Xor => Ok(if truthy(l) != truthy(r) { 1 } else { 0 }),
    }
}

/// Applies a binary operator to two evaluated operands.
pub fn calc_op(tag: OpTag, l: i64, r: i64) -> (res: Result<i64, RuntimeError>)
    ensures
        res_view(res) == op_result(tag, l, r),
{
    match tag {
        OpTag::Add => Ok(l.wrapping_add(r)),
        OpTag::Sub => Ok(l.wrapping_sub(r)),
        OpTag::Mul => Ok(l.wrapping_mul(r)),
        OpTag::Div => {
            if r == 0 {
                Err(RuntimeError::DivisionByZero)
            } else {
                match l.checked_div(r) {
                    Some(q) => Ok(q),
                    None => Ok(i64::MIN),
                }
            }
        },
        OpTag::Mod => {
            if r == 0 {
                Err(RuntimeError::DivisionByZero)
            } else {
                match l.checked_rem(r) {
                    Some(m) => Ok(m),
                    None => Ok(0),
                }
            }
        },
        OpTag::Eq => Ok(if l == r { 1 } else { 0 }),
        OpTag::Ne => Ok(if l != r { 1 } else { 0 }),
        OpTag::Lt => Ok(if l < r { 1 } else { 0 }),
        OpTag::Gt => Ok(if l > r { 1 } else { 0 }),
        OpTag::Le => Ok(if l <= r { 1 } else { 0 }),
        OpTag::Ge => Ok(if l >= r { 1 } else { 0 }),
        OpTag::And => Ok(if l > 0 && r > 0 { 1 } else { 0 }),
        OpTag::Or => Ok(if l > 0 || r > 0 { 1 } else { 0 }),
        OpTag::Xor => Ok(if (l > 0) != (r > 0) { 1 } else { 0 }),
    }
}

} // verus!
