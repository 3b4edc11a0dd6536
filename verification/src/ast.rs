//! The typed syntax tree: a template is either a whole program made of
//! actions, or a single function made of statements over expressions.

use vstd::prelude::*;

verus! {

/// Top-level template types.
pub enum Template {
    Program(ProgramTemplate),
    Function(FunctionTemplate),
}

/// Program template - simplest entry point.
pub struct ProgramTemplate {
    pub name: String,
    pub description: Option<String>,
    pub actions: Vec<Action>,
}

/// Actions that a program can perform.
pub enum Action {
    /// Print a string to stdout.
    Print(String),
}

/// Function template.
pub struct FunctionTemplate {
    pub name: String,
    pub description: Option<String>,
    pub inputs: Vec<Parameter>,
    pub output: Option<TypeSpec>,
    pub implementation: Vec<Statement>,
}

/// Function parameter.
pub struct Parameter {
    pub name: String,
    pub param_type: TypeSpec,
}

/// Type specifications.
#[derive(Clone, Copy, PartialEq, Eq, Structural)]
pub enum TypeSpec {
    I32,
    I64,
    U32,
    U64,
    String,
}

/// Statements.
pub enum Statement {
    Return { value: Expression },
}

/// Expressions.
pub enum Expression {
    Literal(Literal),
    Variable(String),
    BinaryOp { op: BinaryOperator, left: Box<Expression>, right: Box<Expression> },
}

/// Literal values.
pub enum Literal {
    Integer(i64),
    String(String),
}

/// Binary operators.
#[derive(Clone, Copy, PartialEq, Eq, Structural)]
pub enum BinaryOperator {
    Add,
    Sub,
    Mul,
    Div,
}

/// The message printed by an action.
pub open spec fn action_msg(a: Action) -> Seq<char> {
    match a {
        Action::Print(m) => m@,
    }
}

} // verus!
