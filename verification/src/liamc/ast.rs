//! The syntax tree.

use vstd::prelude::*;

verus! {

/// A program: statements in the order in which they run.
pub struct Program {
    pub statements: Vec<Statement>,
}

impl Program {
    /// The program made of `statements`.
    pub fn new(statements: Vec<Statement>) -> (program: Self)
        ensures
            program.statements == statements,
    {
        Program { statements }
    }
}

/// A statement.
#[derive(Clone, Copy, Debug, PartialEq, Eq)]
pub enum Statement {
    /// Print a number.
    Print { literal: i32 },
}

/// An expression.
#[derive(Debug)]
pub enum Expression {
    BinaryExpression { lhs: Box<Expression>, op: Operator, rhs: Box<Expression> },
    LiteralExpression { literal: i32 },
}

/// A binary operator.
#[derive(Clone, Copy, Debug, PartialEq, Eq)]
pub enum Operator {
    Add,
    Minus,
    Mult,
    Divide,
}

} // verus!
