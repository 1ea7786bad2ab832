//! Runtime errors of the evaluator.
//!
//! Every error is terminal for the current run: the first failing
//! sub-evaluation aborts the remainder of the run and is returned to the
//! caller unchanged.

use vstd::prelude::*;

verus! {

/// The specification-level form of a runtime error, with names as byte
/// sequences.  The contracts of the evaluator speak in this type.
pub enum RuntimeErrorSpec {
    /// No frame, searched innermost to outermost, defines the name.
    VariableNotFound(Seq<u8>),
    /// An assignment targeted a binding declared immutable.
    ImmutableAssignment(Seq<u8>),
    /// Division or remainder with a zero right operand.
    DivisionByZero,
    /// The evaluation budget ran out before the program finished.
    RecursionLimitExceeded,
    /// Reserved for syntax-tree variants outside this core's scope.
    UnsupportedNode,
}

/// A runtime error as the evaluator returns it.
#[derive(Debug, PartialEq, Eq)]
pub enum RuntimeError {
    /// No frame, searched innermost to outermost, defines the name.
    VariableNotFound(Vec<u8>),
    /// An assignment targeted a binding declared immutable.
    ImmutableAssignment(Vec<u8>),
    /// Division or remainder with a zero right operand.
    DivisionByZero,
    /// The evaluation budget ran out before the program finished.
    RecursionLimitExceeded,
    /// Reserved for syntax-tree variants outside this core's scope.
    UnsupportedNode,
}

impl View for RuntimeError {
    type V = RuntimeErrorSpec;

    open spec fn view(&self) -> RuntimeErrorSpec {
        match self {
            RuntimeError::VariableNotFound(n) => RuntimeErrorSpec::VariableNotFound(n@),
            RuntimeError::ImmutableAssignment(n) => RuntimeErrorSpec::ImmutableAssignment(n@),
            RuntimeError::DivisionByZero => RuntimeErrorSpec::DivisionByZero,
            RuntimeError::RecursionLimitExceeded => RuntimeErrorSpec::RecursionLimitExceeded,
            RuntimeError::UnsupportedNode => RuntimeErrorSpec::UnsupportedNode,
        }
    }
}

/// Lifts an evaluation result to its specification-level form.
pub open spec fn res_view(r: Result<i64, RuntimeError>) -> Result<i64, RuntimeErrorSpec> {
    match r {
        Ok(v) => Ok(v),
        Err(e) => Err(e@),
    }
}

} // verus!
