use vstd::prelude::*;

verus! {

/// A literal value in source code. Numbers arrive already classified: an
/// integral number as `Integer`, a fractional one as the bits of the float
/// width that holds it.
#[derive(Debug, Clone)]
pub enum Literal {
    Integer(i64),
    Float32(u32),
    Float64(u64),
    Bool(bool),
    Nil,
    String(Vec<u8>),
}

/// Operators of binary expressions.
#[derive(Debug, Clone, Copy, PartialEq, Eq, Structural)]
pub enum BinaryOperator {
    Plus,
    Minus,
    Star,
    Slash,
    Percent,
    Caret,
    Less,
    LessEqual,
    Greater,
    GreaterEqual,
    EqualEqual,
    NotEqual,
    And,
    Or,
}

/// Operators of unary expressions.
#[derive(Debug, Clone, Copy, PartialEq, Eq, Structural)]
pub enum UnaryOperator {
    Minus,
    Bang,
}

/// Expression nodes of the syntax tree; names are UTF-8 bytes.
#[derive(Debug)]
pub enum Expression {
    Literal(Literal),
    Variable(Vec<u8>),
    Assign(Vec<u8>, Box<Expression>),
    Binary(Box<Expression>, BinaryOperator, Box<Expression>),
    Unary(UnaryOperator, Box<Expression>),
    Grouping(Box<Expression>),
    Call(Box<Expression>, Vec<Expression>),
}

/// Statement nodes of the syntax tree.
#[derive(Debug)]
pub enum Statement {
    VarDeclaration(Vec<u8>, Option<Expression>),
    Expression(Expression),
    If(Expression, Box<Statement>, Option<Box<Statement>>),
    While(Expression, Box<Statement>),
    Block(Vec<Statement>),
    Function(Vec<u8>, Vec<Vec<u8>>, Vec<Statement>),
    Return(Option<Expression>),
}

} // verus!
