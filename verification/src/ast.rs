//! The abstract syntax tree shared by the parser and the evaluator.
//!
//! The tree is a closed tagged union: each node exclusively owns its
//! children, so there is no aliasing and there are no cycles.  Identifiers
//! and literal text are held as ASCII byte strings.

use vstd::prelude::*;

verus! {

/// The tag of a binary operator.
///
/// The comparison tags produce `1` (true) or `0` (false).  The logical tags
/// operate on the truthiness of each operand (a value is truthy when it is
/// strictly greater than zero), not on raw bit patterns, matching the rule
/// that `if` and `while` use for their conditions.
#[derive(Clone, Copy, PartialEq, Eq, Structural, Debug)]
pub enum OpTag {
    Add,
    Sub,
    Mul,
    Div,
    Mod,
    Eq,
    Ne,
    Lt,
    Gt,
    Le,
    Ge,
    And,
    Or,
    Xor,
}

/// An ordered sequence of statements.  Evaluating a block pushes a fresh
/// scope frame, runs the statements in order, and pops the frame again on
/// every exit path.
#[derive(Debug, PartialEq, Eq)]
pub struct Block {
    pub stmts: Vec<Node>,
}

/// A node of the syntax tree.
#[derive(Debug, PartialEq, Eq)]
pub enum Node {
    /// A 64-bit integer literal.
    NumberLiteral(i64),
    /// A binary operation; both operands are always evaluated, left first,
    /// with no short-circuiting even for the logical tags.
    BinaryOp(OpTag, Box<Node>, Box<Node>),
    /// A read of a variable, searched innermost frame to outermost.
    VariableRef(Vec<u8>),
    /// Declares a binding with the given name and mutability in the current
    /// innermost frame; the flag is `true` for a mutable binding.
    Bind(Vec<u8>, bool, Box<Node>),
    /// Mutates the nearest enclosing binding of the name; never creates one.
    Assign(Vec<u8>, Box<Node>),
    /// Conditional: evaluates exactly one of the two blocks.  An absent
    /// `else` is an empty alternate block.
    If(Box<Node>, Block, Block),
    /// Loop: condition, then body, repeated while the condition is truthy.
    While(Box<Node>, Block),
    /// C-style loop: initializer, condition, update, body.
    For(Box<Node>, Box<Node>, Box<Node>, Block),
    /// Writes the decimal value of its operand to the output channel.
    Print(Box<Node>),
    /// Writes literal text to the output channel.
    PrintLiteral(Vec<u8>),
    /// A block used as a statement.
    Block(Block),
    /// Explicit no-value placeholder; evaluates to zero.
    Empty,
}

} // verus!
