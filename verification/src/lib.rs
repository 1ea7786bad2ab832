//! A minimal scripting-language front end and evaluator.
//!
//! The library turns source text into an abstract syntax tree with a
//! recursive-descent parser, and executes that tree with a tree-walking
//! evaluator over a stack of lexical scope frames.  The meaning of every
//! construct is written down as a specification-level interpreter, and the
//! executable evaluator is proved to return exactly what that interpreter
//! says, for every program and every input state.

pub mod ast;
pub mod syntax;
pub mod errors;
pub mod ops;
pub mod state;
pub mod semantics;
pub mod eval;
pub mod parser;
pub mod schema;
