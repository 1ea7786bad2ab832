//! A richer syntax-tree schema, declared as an extension point.
//!
//! These types describe a more expressive language — functions, arrays,
//! objects, member and call expressions, switch, try/catch, and a static
//! type tag — that neither the parser nor the evaluator supports.  They
//! are a documented shape for future growth, not part of the executable
//! core: no function in this crate constructs or consumes them.

use vstd::prelude::*;

verus! {

/// The static type of a node.
pub enum Type {
    Int,
    Float,
    Char,
    String,
    Bool,
    Array,
    Tuple,
    Unit,
    Never,
    Null,
}

/// An expression of the extended language.
pub enum Expression {
    Literal(LiteralExpression),
    Identifier(IdentifierExpression),
    Binary(BinaryExpression),
    Unary(UnaryExpression),
    Function(FunctionExpression),
    Call(CallExpression),
    Conditional(ConditionalExpression),
    Array(ArrayExpression),
    Object(ObjectExpression),
    Member(MemberExpression),
    Assignment(AssignmentExpression),
}

/// A literal with its source text and type tag.
pub struct LiteralExpression {
    pub value: String,
    pub type_tag: Type,
}

/// A name, optionally annotated with a type.
pub struct IdentifierExpression {
    pub name: String,
    pub type_tag: Option<Type>,
}

/// A binary operation.
pub struct BinaryExpression {
    pub left: Box<Expression>,
    pub operator: BinaryOperator,
    pub right: Box<Expression>,
}

/// The binary operators of the extended language.
pub enum BinaryOperator {
    Add,
    Subtract,
    Multiply,
    Divide,
    Modulo,
    Equal,
    NotEqual,
    LessThan,
    LessThanOrEqual,
    GreaterThan,
    GreaterThanOrEqual,
    And,
    Or,
}

/// A unary operation.
pub struct UnaryExpression {
    pub operator: UnaryOperator,
    pub argument: Box<Expression>,
}

/// The unary operators of the extended language.
pub enum UnaryOperator {
    Minus,
    Increment,
    Decrement,
    Not,
    SizeOf,
}

/// An anonymous function.
pub struct FunctionExpression {
    pub params: Vec<FunctionParameter>,
    pub body: Box<Expression>,
    pub return_type: Type,
}

/// One parameter of a function.
pub struct FunctionParameter {
    pub name: String,
    pub type_tag: Type,
}

/// A call of a callee with its arguments.
pub struct CallExpression {
    pub callee: Box<Expression>,
    pub arguments: Vec<Expression>,
}

/// A conditional expression.
pub struct ConditionalExpression {
    pub test: Box<Expression>,
    pub consequent: Box<Expression>,
    pub alternate: Box<Expression>,
}

/// An array literal.
pub struct ArrayExpression {
    pub elements: Vec<Expression>,
}

/// An object literal.
pub struct ObjectExpression {
    pub properties: Vec<Property>,
}

/// One key-value pair of an object literal.
pub struct Property {
    pub key: String,
    pub value: Expression,
}

/// A member access.
pub struct MemberExpression {
    pub object: Box<Expression>,
    pub property: Box<Expression>,
}

/// A compound or plain assignment.
pub struct AssignmentExpression {
    pub operator: AssignmentOperator,
    pub left: Box<Expression>,
    pub right: Box<Expression>,
}

/// The assignment operators of the extended language.
pub enum AssignmentOperator {
    Assign,
    AddAssign,
    SubtractAssign,
    MultiplyAssign,
    DivideAssign,
    ModuloAssign,
}

/// A statement of the extended language.
pub enum Statement {
    VariableBinding(VariableBindingStatement),
    FunctionDeclaration(FunctionDeclarationStatement),
    Return(ReturnStatement),
    If(IfStatement),
    For(ForLoopStatement),
    While(WhileLoopStatement),
    Break,
    Continue,
    Switch(SwitchStatement),
    Throw(ThrowStatement),
    TryCatchFinally(TryCatchFinallyStatement),
}

/// A typed variable binding.
pub struct VariableBindingStatement {
    pub name: String,
    pub type_tag: Type,
    pub value: Expression,
}

/// A named function declaration.
pub struct FunctionDeclarationStatement {
    pub name: String,
    pub args: Vec<(String, Type)>,
    pub return_type: Type,
    pub body: Vec<Statement>,
}

/// A return, optionally with a value.
pub struct ReturnStatement {
    pub value: Option<Expression>,
}

/// A conditional statement.
pub struct IfStatement {
    pub test: Expression,
    pub consequent: Vec<Statement>,
    pub alternate: Option<Vec<Statement>>,
}

/// A C-style loop; every header part is optional.
pub struct ForLoopStatement {
    pub init: Option<Box<Statement>>,
    pub test: Option<Expression>,
    pub update: Option<Expression>,
    pub body: Vec<Statement>,
}

/// A while loop.
pub struct WhileLoopStatement {
    pub condition: Expression,
    pub body: Vec<Statement>,
}

/// A switch over a discriminant.
pub struct SwitchStatement {
    pub discriminant: Expression,
    pub cases: Vec<SwitchCase>,
}

/// One case of a switch; a missing test is the default case.
pub struct SwitchCase {
    pub test: Option<Expression>,
    pub consequent: Vec<Statement>,
}

/// A throw.
pub struct ThrowStatement {
    pub value: Expression,
}

/// A try/catch/finally.
pub struct TryCatchFinallyStatement {
    pub try_body: Vec<Statement>,
    pub catch_body: Vec<Statement>,
    pub finally_body: Vec<Statement>,
}

/// A node of the extended language: an expression or a statement.
pub enum Node {
    Expression(Expression),
    Statement(Statement),
}

} // verus!
