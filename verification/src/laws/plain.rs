//! The programs of which the stack discipline holds.
//!
//! An assignment to an array element leaves no value on the stack, unlike
//! every other expression, and a local variable whose declaration is the
//! whole body of a branch or of a loop is declared whether or not the branch
//! is taken.  A program is plain if it has neither, and no node that the
//! parser never makes: no unknown operator and no property target outside an
//! assignment.  A declaration outside every scope declares a global
//! variable, and may be the body of a branch or of a `while` loop.
use vstd::prelude::*;
use crate::compiler::ast::{ExpressionNode, StatementNode};

verus! {

/// The operator is one that the compiler has an instruction for.
pub open spec fn known_infix(ope: Seq<char>) -> bool {
    ope == "+"@ || ope == "-"@ || ope == "*"@ || ope == "/"@ || ope == "^"@ || ope == "%"@ || ope
        == "!="@ || ope == "=="@ || ope == ">"@ || ope == ">="@ || ope == "<"@ || ope == "<="@
}

/// The expression leaves exactly one value on the stack.
pub open spec fn plain_exp(e: &ExpressionNode) -> bool
    decreases e,
{
    match e {
        ExpressionNode::ArrayLiteral(items) => plain_exps(items@, 0),
        ExpressionNode::RangeLiteral { start, end } => plain_exp(start) && plain_exp(end),
        ExpressionNode::Prefix { ope, right } => plain_exp(right),
        ExpressionNode::Infix { ope, left, right } => known_infix(ope@) && plain_exp(left)
            && plain_exp(right),
        ExpressionNode::GetProperty { left, right } => plain_exp(left),
        ExpressionNode::SetProperty { left, right } => false,
        ExpressionNode::InvokeMethod { left, right, arguments } => plain_exp(left) && plain_exps(
            arguments@,
            0,
        ),
        ExpressionNode::InvokeSuperMethod { left, right, arguments } => plain_exps(arguments@, 0),
        ExpressionNode::Logical { ope, left, right } => (ope@ == "and"@ || ope@ == "or"@)
            && plain_exp(left) && plain_exp(right),
        ExpressionNode::Assign { ope, left, right } => ope@ == "="@ && plain_exp(right) && match &**left {
            ExpressionNode::Identifer(_) => true,
            ExpressionNode::SetProperty { left: object, right: property } => plain_exp(object),
            _ => false,
        },
        ExpressionNode::FunCall { function, arguments } => plain_exp(function) && plain_exps(
            arguments@,
            0,
        ),
        ExpressionNode::IndexCall { array, index } => plain_exp(array) && plain_exp(index),
        _ => true,
    }
}

/// The expressions from position `from` on are plain.
pub open spec fn plain_exps(es: Seq<ExpressionNode>, from: int) -> bool
    decreases es, es.len() - from,
{
    if from < 0 || from >= es.len() {
        true
    } else {
        plain_exp(&es[from]) && plain_exps(es, from + 1)
    }
}

/// The statement declares nothing in the scope it stands in.
pub open spec fn closed_stmt(s: &StatementNode) -> bool {
    !(s is Var || s is Fun || s is Class)
}

/// The statement is made of plain expressions, and the bodies of its
/// branches and loops declare no local variable.  `top` says that the
/// statement stands outside every scope, where a declaration is that of a
/// global variable.
pub open spec fn plain_stmt(s: &StatementNode, top: bool) -> bool
    decreases s,
{
    match s {
        StatementNode::Class { name, body, super_class } => match &**body {
            StatementNode::Block { stmts } => plain_methods(stmts@, 0),
            _ => true,
        },
        StatementNode::For { name, range, consequence } => plain_exp(range) && plain_stmt(
            consequence,
            false,
        ) && closed_stmt(consequence),
        StatementNode::Fun { name, params, body } => plain_stmt(body, false),
        StatementNode::If { condition, consequence, alternative } => plain_exp(condition)
            && plain_stmt(consequence, top) && (closed_stmt(consequence) || top)
            && match alternative {
            Some(otherwise) => plain_stmt(otherwise, top) && (closed_stmt(otherwise) || top),
            None => true,
        },
        StatementNode::Return { value } => match value {
            Some(e) => plain_exp(e),
            None => true,
        },
        StatementNode::Var { name, value } => plain_exp(value),
        StatementNode::While { condition, consequence } => plain_exp(condition) && plain_stmt(
            consequence,
            top,
        ) && (closed_stmt(consequence) || top),
        StatementNode::Block { stmts } => plain_stmts(stmts@, 0, false),
        StatementNode::Print { expression } => plain_exp(expression),
        StatementNode::ExpStmt { expression } => plain_exp(expression),
    }
}

/// The statements from position `from` on are plain.
pub open spec fn plain_stmts(stmts: Seq<StatementNode>, from: int, top: bool) -> bool
    decreases stmts, stmts.len() - from,
{
    if from < 0 || from >= stmts.len() {
        true
    } else {
        plain_stmt(&stmts[from], top) && plain_stmts(stmts, from + 1, top)
    }
}

/// What is plain within a scope is plain outside every scope.
pub proof fn lemma_plain_anywhere(s: &StatementNode, top: bool)
    requires
        plain_stmt(s, false),
    ensures
        plain_stmt(s, top),
    decreases s,
{
    match s {
        StatementNode::If { condition, consequence, alternative } => {
            lemma_plain_anywhere(consequence, top);
            match alternative {
                Some(otherwise) => {
                    lemma_plain_anywhere(otherwise, top);
                },
                None => {},
            }
        },
        StatementNode::While { condition, consequence } => {
            lemma_plain_anywhere(consequence, top);
        },
        _ => {},
    }
}

/// Statements that are plain within a scope are plain outside every scope.
pub proof fn lemma_plain_all_anywhere(stmts: Seq<StatementNode>, from: int, top: bool)
    requires
        plain_stmts(stmts, from, false),
    ensures
        plain_stmts(stmts, from, top),
    decreases stmts.len() - from,
{
    if 0 <= from < stmts.len() {
        lemma_plain_anywhere(&stmts[from], top);
        lemma_plain_all_anywhere(stmts, from + 1, top);
    }
}

/// The bodies of the methods from position `from` on are plain.
pub open spec fn plain_methods(stmts: Seq<StatementNode>, from: int) -> bool
    decreases stmts, stmts.len() - from,
{
    if from < 0 || from >= stmts.len() {
        true
    } else {
        (match &stmts[from] {
            StatementNode::Fun { name, params, body } => plain_stmt(body, false),
            _ => true,
        }) && plain_methods(stmts, from + 1)
    }
}

} // verus!
