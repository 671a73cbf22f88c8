//! The syntax tree that the compiler takes.
use vstd::prelude::*;

verus! {

#[derive(Debug)]
#[allow(inconsistent_fields)]
pub enum StatementNode {
    Class { name: ExpressionNode, body: Box<StatementNode>, super_class: Option<ExpressionNode> },
    For { name: ExpressionNode, range: ExpressionNode, consequence: Box<StatementNode> },
    Fun { name: ExpressionNode, params: Vec<ExpressionNode>, body: Box<StatementNode> },
    If {
        condition: ExpressionNode,
        consequence: Box<StatementNode>,
        alternative: Option<Box<StatementNode>>,
    },
    Return { value: Option<ExpressionNode> },
    Var { name: ExpressionNode, value: ExpressionNode },
    While { condition: ExpressionNode, consequence: Box<StatementNode> },
    Block { stmts: Vec<StatementNode> },
    Print { expression: ExpressionNode },
    ExpStmt { expression: ExpressionNode },
}

/// An expression.  A float literal carries the IEEE-754 binary64 bit pattern
/// of its value.
#[derive(Debug)]
#[allow(inconsistent_fields)]
pub enum ExpressionNode {
    Identifer(String),
    StringLiteral(String),
    FloatLiteral(u64),
    IntegerLiteral(i64),
    BooleanLiteral(bool),
    ArrayLiteral(Vec<ExpressionNode>),
    RangeLiteral { start: Box<ExpressionNode>, end: Box<ExpressionNode> },
    NullLiteral,
    Prefix { ope: String, right: Box<ExpressionNode> },
    Infix { ope: String, left: Box<ExpressionNode>, right: Box<ExpressionNode> },
    GetProperty { left: Box<ExpressionNode>, right: Box<ExpressionNode> },
    GetSuperProperty { left: Box<ExpressionNode>, right: Box<ExpressionNode> },
    SetProperty { left: Box<ExpressionNode>, right: Box<ExpressionNode> },
    InvokeMethod {
        left: Box<ExpressionNode>,
        right: Box<ExpressionNode>,
        arguments: Vec<ExpressionNode>,
    },
    InvokeSuperMethod {
        left: Box<ExpressionNode>,
        right: Box<ExpressionNode>,
        arguments: Vec<ExpressionNode>,
    },
    Assign { ope: String, left: Box<ExpressionNode>, right: Box<ExpressionNode> },
    Logical { ope: String, left: Box<ExpressionNode>, right: Box<ExpressionNode> },
    FunCall { function: Box<ExpressionNode>, arguments: Vec<ExpressionNode> },
    IndexCall { array: Box<ExpressionNode>, index: Box<ExpressionNode> },
}

/// A whole script: its top-level statements in order.
#[derive(Debug)]
pub struct Program {
    pub stmts: Vec<StatementNode>,
}

impl Program {
    pub fn new() -> (r: Self)
        ensures
            r.stmts@.len() == 0,
    {
        Program { stmts: Vec::new() }
    }
}

} // verus!
