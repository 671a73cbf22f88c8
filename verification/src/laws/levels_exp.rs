//! A plain expression leaves one value on the stack.
use vstd::prelude::*;
use super::jumps::Cut;
use super::levels::{branch, sound};
use super::levels_prim::{
    begun, effect0, effect1, effect2, lemma_begun, lemma_moved_twice, lemma_rooted_begun,
    level_add_text, level_emit1, level_emit2, level_emit3, level_emit_constant, level_emit_text,
    level_emit_text3, level_jump, level_load, level_patch, level_store, moved, rooted, same_debts,
    still,
};
use super::plain::{known_infix, plain_exp, plain_exps};
use crate::compiler::ast::ExpressionNode;
use crate::compiler::model::{
    compile_exp, compile_exps, emit_infix, emit_prefix, exp_assign, exp_atom, exp_invoke,
    exp_logical, exp_operation, exp_property, exp_sequence, exp_super_invoke, identifier,
    CompilerView,
};
use crate::vm::chunk::{
    OP_ADD, OP_ARRAY, OP_CALL, OP_CONSTANT, OP_DIVIDE, OP_EQUAL, OP_FALSE, OP_GET_PROP,
    OP_GET_SUPER, OP_GREATER, OP_INDEX_CALL, OP_INVOKE, OP_JUMP, OP_JUMP_IF_FALSE, OP_LESS,
    OP_MULTIPLY, OP_NEGATIVE, OP_NOT, OP_NULL, OP_POP, OP_POW, OP_RANGE, OP_REM, OP_SET_PROP,
    OP_SUBTRACT, OP_SUPER_INVOKE, OP_TRUE,
};
use crate::vm::value::Value;

verus! {

/// Two instructions without operands, the second of which keeps the height.
proof fn level_emit1_twice(c: CompilerView, cut: Cut, first: u8, second: u8) -> (cut2: Cut)
    requires
        sound(c, cut),
        crate::vm::chunk::fixed_operands(first) == 0,
        crate::vm::chunk::fixed_operands(second) == 0,
    ensures
        same_debts(cut, cut2),
        moved(c, cut, c.emit(first).emit(second), cut2, effect0(first) + effect0(second)),
        still(c, c.emit(first).emit(second)),
        begun(cut, cut2),
{
    let cut1 = level_emit1(c, cut, first);
    let c1 = c.emit(first);
    let cut2 = level_emit1(c1, cut1, second);
    lemma_moved_twice(c, cut, c1, cut1, effect0(first), c1.emit(second), cut2, effect0(second));
    lemma_begun(c, cut, c1, cut1, effect0(first), c1.emit(second), cut2, effect0(second));
    cut2
}

/// A binary operator takes two values and leaves one.
proof fn level_emit_infix(c: CompilerView, cut: Cut, ope: Seq<char>) -> (cut2: Cut)
    requires
        sound(c, cut),
        known_infix(ope),
    ensures
        same_debts(cut, cut2),
        moved(c, cut, emit_infix(c, ope), cut2, -1),
        still(c, emit_infix(c, ope)),
        begun(cut, cut2),
{
    reveal(emit_infix);
    if ope == "+"@ {
        level_emit1(c, cut, OP_ADD)
    } else if ope == "-"@ {
        level_emit1(c, cut, OP_SUBTRACT)
    } else if ope == "*"@ {
        level_emit1(c, cut, OP_MULTIPLY)
    } else if ope == "/"@ {
        level_emit1(c, cut, OP_DIVIDE)
    } else if ope == "^"@ {
        level_emit1(c, cut, OP_POW)
    } else if ope == "%"@ {
        level_emit1(c, cut, OP_REM)
    } else if ope == "!="@ {
        level_emit1_twice(c, cut, OP_EQUAL, OP_NOT)
    } else if ope == "=="@ {
        level_emit1(c, cut, OP_EQUAL)
    } else if ope == ">"@ {
        level_emit1(c, cut, OP_GREATER)
    } else if ope == ">="@ {
        level_emit1_twice(c, cut, OP_LESS, OP_NOT)
    } else if ope == "<"@ {
        level_emit1(c, cut, OP_LESS)
    } else {
        level_emit1_twice(c, cut, OP_GREATER, OP_NOT)
    }
}

/// A unary operator takes one value and leaves one; an unknown one leaves
/// the operand.
proof fn level_emit_prefix(c: CompilerView, cut: Cut, ope: Seq<char>) -> (cut2: Cut)
    requires
        sound(c, cut),
    ensures
        same_debts(cut, cut2),
        moved(c, cut, emit_prefix(c, ope), cut2, 0),
        still(c, emit_prefix(c, ope)),
        rooted(cut, cut2),
{
    reveal(emit_prefix);
    if ope == "-"@ {
        level_emit1(c, cut, OP_NEGATIVE)
    } else if ope == "!"@ {
        level_emit1(c, cut, OP_NOT)
    } else {
        cut
    }
}

proof fn level_exp_atom(c: CompilerView, cut: Cut, in_class: bool, e: &ExpressionNode) -> (cut2:
    Cut)
    requires
        sound(c, cut),
        plain_exp(e),
        e is Identifer || e is StringLiteral || e is FloatLiteral || e is IntegerLiteral || e is BooleanLiteral || e is NullLiteral,
    ensures
        same_debts(cut, cut2),
        exp_atom(c, in_class, e) matches Ok(c2) ==> moved(c, cut, c2, cut2, 1) && still(c, c2)
            && begun(cut, cut2),
    decreases e, 0int,
{
    reveal(exp_atom);
    match e {
        ExpressionNode::Identifer(name) => level_load(c, cut, name@),
        ExpressionNode::StringLiteral(text) => level_emit_text(c, cut, OP_CONSTANT, text@),
        ExpressionNode::FloatLiteral(bits) => level_emit_constant(
            c,
            cut,
            OP_CONSTANT,
            Value::Float(*bits),
        ),
        ExpressionNode::IntegerLiteral(number) => level_emit_constant(
            c,
            cut,
            OP_CONSTANT,
            Value::Integer(*number),
        ),
        ExpressionNode::BooleanLiteral(truth) => {
            if *truth {
                level_emit1(c, cut, OP_TRUE)
            } else {
                level_emit1(c, cut, OP_FALSE)
            }
        },
        ExpressionNode::NullLiteral => level_emit1(c, cut, OP_NULL),
        _ => cut,
    }
}

/// Plain expressions one after another leave one value each.
pub proof fn level_compile_exps(
    c: CompilerView,
    cut: Cut,
    in_class: bool,
    es: Seq<ExpressionNode>,
    from: int,
) -> (cut2:
    Cut)
    requires
        sound(c, cut),
        plain_exps(es, from),
        0 <= from <= es.len(),
    ensures
        same_debts(cut, cut2),
        compile_exps(c, in_class, es, from) matches Ok(c2) ==> moved(
            c,
            cut,
            c2,
            cut2,
            es.len() - from,
        ) && still(c, c2) && rooted(cut, cut2),
    decreases es, es.len() - from,
{
    if from >= es.len() {
        cut
    } else {
        let cut1 = level_compile_exp(c, cut, in_class, &es[from]);
        match compile_exp(c, in_class, &es[from]) {
            Ok(c1) => {
                let cut2 = level_compile_exps(c1, cut1, in_class, es, from + 1);
                match compile_exps(c1, in_class, es, from + 1) {
                    Ok(c2) => {
                        lemma_moved_twice(c, cut, c1, cut1, 1, c2, cut2, es.len() - from - 1);
                        lemma_begun(c, cut, c1, cut1, 1, c2, cut2, es.len() - from - 1);
                    },
                    Err(_) => {},
                }
                cut2
            },
            Err(_) => cut,
        }
    }
}

proof fn level_exp_sequence(c: CompilerView, cut: Cut, in_class: bool, e: &ExpressionNode) -> (cut2:
    Cut)
    requires
        sound(c, cut),
        plain_exp(e),
        e is ArrayLiteral || e is FunCall,
    ensures
        same_debts(cut, cut2),
        exp_sequence(c, in_class, e) matches Ok(c2) ==> moved(c, cut, c2, cut2, 1) && still(c, c2)
            && begun(cut, cut2),
    decreases e, 0int,
{
    reveal(exp_sequence);
    match e {
        ExpressionNode::ArrayLiteral(items) => {
            if items@.len() > 255 {
                cut
            } else {
                let cut1 = level_compile_exps(c, cut, in_class, items@, 0);
                match compile_exps(c, in_class, items@, 0) {
                    Ok(c1) => {
                        let cut2 = level_emit2(c1, cut1, OP_ARRAY, items@.len() as u8);
                        let c2 = c1.emit2(OP_ARRAY, items@.len() as u8);
                        lemma_moved_twice(
                            c,
                            cut,
                            c1,
                            cut1,
                            items@.len() as int,
                            c2,
                            cut2,
                            effect1(OP_ARRAY, items@.len() as u8),
                        );
                        lemma_rooted_begun(
                            c,
                            cut,
                            c1,
                            cut1,
                            items@.len() as int,
                            c2,
                            cut2,
                            effect1(OP_ARRAY, items@.len() as u8),
                        );
                        cut2
                    },
                    Err(_) => cut,
                }
            }
        },
        ExpressionNode::FunCall { function, arguments } => {
            let cut1 = level_compile_exp(c, cut, in_class, function);
            match compile_exp(c, in_class, function) {
                Ok(c1) => {
                    if arguments@.len() > 255 {
                        cut
                    } else {
                        let cut3 = level_compile_exps(c1, cut1, in_class, arguments@, 0);
                        match compile_exps(c1, in_class, arguments@, 0) {
                            Ok(c3) => {
                                lemma_moved_twice(
                                    c,
                                    cut,
                                    c1,
                                    cut1,
                                    1int,
                                    c3,
                                    cut3,
                                    arguments@.len() as int,
                                );
                                lemma_begun(
                                    c,
                                    cut,
                                    c1,
                                    cut1,
                                    1int,
                                    c3,
                                    cut3,
                                    arguments@.len() as int,
                                );
                                let cut4 = level_emit2(c3, cut3, OP_CALL, arguments@.len() as u8);
                                let c4 = c3.emit2(OP_CALL, arguments@.len() as u8);
                                lemma_moved_twice(
                                    c,
                                    cut,
                                    c3,
                                    cut3,
                                    1int + arguments@.len() as int,
                                    c4,
                                    cut4,
                                    effect1(OP_CALL, arguments@.len() as u8),
                                );
                                lemma_begun(
                                    c,
                                    cut,
                                    c3,
                                    cut3,
                                    1int + arguments@.len() as int,
                                    c4,
                                    cut4,
                                    effect1(OP_CALL, arguments@.len() as u8),
                                );
                                cut4
                            },
                            Err(_) => cut,
                        }
                    }
                },
                Err(_) => cut,
            }
        },
        _ => cut,
    }
}

proof fn level_exp_operation(
    c: CompilerView,
    cut: Cut,
    in_class: bool,
    e: &ExpressionNode,
) -> (cut2:
    Cut)
    requires
        sound(c, cut),
        plain_exp(e),
        e is RangeLiteral || e is Prefix || e is Infix || e is IndexCall,
    ensures
        same_debts(cut, cut2),
        exp_operation(c, in_class, e) matches Ok(c2) ==> moved(c, cut, c2, cut2, 1) && still(c, c2)
            && begun(cut, cut2),
    decreases e, 0int,
{
    reveal(exp_operation);
    match e {
        ExpressionNode::RangeLiteral { start, end } => {
            let cut1 = level_compile_exp(c, cut, in_class, start);
            match compile_exp(c, in_class, start) {
                Ok(c1) => {
                    let cut2 = level_compile_exp(c1, cut1, in_class, end);
                    match compile_exp(c1, in_class, end) {
                        Ok(c2) => {
                            lemma_moved_twice(c, cut, c1, cut1, 1int, c2, cut2, 1int);
                            lemma_begun(c, cut, c1, cut1, 1int, c2, cut2, 1int);
                            let cut3 = level_emit1(c2, cut2, OP_RANGE);
                            let c3 = c2.emit(OP_RANGE);
                            lemma_moved_twice(c, cut, c2, cut2, 2int, c3, cut3, effect0(OP_RANGE));
                            lemma_begun(c, cut, c2, cut2, 2int, c3, cut3, effect0(OP_RANGE));
                            cut3
                        },
                        Err(_) => cut,
                    }
                },
                Err(_) => cut,
            }
        },
        ExpressionNode::Prefix { ope, right } => {
            let cut1 = level_compile_exp(c, cut, in_class, right);
            match compile_exp(c, in_class, right) {
                Ok(c1) => {
                    let cut2 = level_emit_prefix(c1, cut1, ope@);
                    let c2 = emit_prefix(c1, ope@);
                    lemma_moved_twice(c, cut, c1, cut1, 1int, c2, cut2, 0int);
                    lemma_begun(c, cut, c1, cut1, 1int, c2, cut2, 0int);
                    cut2
                },
                Err(_) => cut,
            }
        },
        ExpressionNode::Infix { ope, left, right } => {
            let cut1 = level_compile_exp(c, cut, in_class, left);
            match compile_exp(c, in_class, left) {
                Ok(c1) => {
                    let cut2 = level_compile_exp(c1, cut1, in_class, right);
                    match compile_exp(c1, in_class, right) {
                        Ok(c2) => {
                            lemma_moved_twice(c, cut, c1, cut1, 1int, c2, cut2, 1int);
                            lemma_begun(c, cut, c1, cut1, 1int, c2, cut2, 1int);
                            let cut3 = level_emit_infix(c2, cut2, ope@);
                            let c3 = emit_infix(c2, ope@);
                            lemma_moved_twice(c, cut, c2, cut2, 2int, c3, cut3, -1int);
                            lemma_begun(c, cut, c2, cut2, 2int, c3, cut3, -1int);
                            cut3
                        },
                        Err(_) => cut,
                    }
                },
                Err(_) => cut,
            }
        },
        ExpressionNode::IndexCall { array, index } => {
            let cut1 = level_compile_exp(c, cut, in_class, array);
            match compile_exp(c, in_class, array) {
                Ok(c1) => {
                    let cut2 = level_compile_exp(c1, cut1, in_class, index);
                    match compile_exp(c1, in_class, index) {
                        Ok(c2) => {
                            lemma_moved_twice(c, cut, c1, cut1, 1int, c2, cut2, 1int);
                            lemma_begun(c, cut, c1, cut1, 1int, c2, cut2, 1int);
                            let cut3 = level_emit1(c2, cut2, OP_INDEX_CALL);
                            let c3 = c2.emit(OP_INDEX_CALL);
                            lemma_moved_twice(
                                c,
                                cut,
                                c2,
                                cut2,
                                2int,
                                c3,
                                cut3,
                                effect0(OP_INDEX_CALL),
                            );
                            lemma_begun(c, cut, c2, cut2, 2int, c3, cut3, effect0(OP_INDEX_CALL));
                            cut3
                        },
                        Err(_) => cut,
                    }
                },
                Err(_) => cut,
            }
        },
        _ => cut,
    }
}

proof fn level_exp_property(c: CompilerView, cut: Cut, in_class: bool, e: &ExpressionNode) -> (cut2:
    Cut)
    requires
        sound(c, cut),
        plain_exp(e),
        e is GetProperty || e is GetSuperProperty,
    ensures
        same_debts(cut, cut2),
        exp_property(c, in_class, e) matches Ok(c2) ==> moved(c, cut, c2, cut2, 1) && still(c, c2)
            && begun(cut, cut2),
    decreases e, 0int,
{
    reveal(exp_property);
    match e {
        ExpressionNode::GetProperty { left, right } => {
            let cut1 = level_compile_exp(c, cut, in_class, left);
            match compile_exp(c, in_class, left) {
                Ok(c1) => {
                    match identifier(right) {
                        Some(name) => {
                            let cut3 = level_emit_text(c1, cut1, OP_GET_PROP, name);
                            match c1.emit_text(OP_GET_PROP, name) {
                                Ok(c3) => {
                                    lemma_moved_twice(
                                        c,
                                        cut,
                                        c1,
                                        cut1,
                                        1int,
                                        c3,
                                        cut3,
                                        effect0(OP_GET_PROP),
                                    );
                                    lemma_begun(
                                        c,
                                        cut,
                                        c1,
                                        cut1,
                                        1int,
                                        c3,
                                        cut3,
                                        effect0(OP_GET_PROP),
                                    );
                                    cut3
                                },
                                Err(_) => cut,
                            }
                        },
                        None => cut,
                    }
                },
                Err(_) => cut,
            }
        },
        ExpressionNode::GetSuperProperty { left, right } => {
            let cut1 = level_load(c, cut, "this"@);
            match c.load("this"@) {
                Ok(c1) => {
                    match identifier(right) {
                        Some(name) => {
                            level_add_text(c1, cut1, name);
                            let cut3 = cut1;
                            match c1.add_text(name) {
                                Ok((c3, index)) => {
                                    lemma_moved_twice(c, cut, c1, cut1, 1int, c3, cut3, 0int);
                                    lemma_begun(c, cut, c1, cut1, 1int, c3, cut3, 0int);
                                    let cut4 = level_load(c3, cut3, "super"@);
                                    match c3.load("super"@) {
                                        Ok(c4) => {
                                            lemma_moved_twice(
                                                c,
                                                cut,
                                                c3,
                                                cut3,
                                                1int,
                                                c4,
                                                cut4,
                                                1int,
                                            );
                                            lemma_begun(c, cut, c3, cut3, 1int, c4, cut4, 1int);
                                            let cut5 = level_emit2(c4, cut4, OP_GET_SUPER, index);
                                            let c5 = c4.emit2(OP_GET_SUPER, index);
                                            lemma_moved_twice(
                                                c,
                                                cut,
                                                c4,
                                                cut4,
                                                2int,
                                                c5,
                                                cut5,
                                                effect1(OP_GET_SUPER, index),
                                            );
                                            lemma_begun(
                                                c,
                                                cut,
                                                c4,
                                                cut4,
                                                2int,
                                                c5,
                                                cut5,
                                                effect1(OP_GET_SUPER, index),
                                            );
                                            cut5
                                        },
                                        Err(_) => cut,
                                    }
                                },
                                Err(_) => cut,
                            }
                        },
                        None => cut,
                    }
                },
                Err(_) => cut,
            }
        },
        _ => cut,
    }
}

proof fn level_exp_invoke(c: CompilerView, cut: Cut, in_class: bool, e: &ExpressionNode) -> (cut2:
    Cut)
    requires
        sound(c, cut),
        plain_exp(e),
        e is InvokeMethod,
    ensures
        same_debts(cut, cut2),
        exp_invoke(c, in_class, e) matches Ok(c2) ==> moved(c, cut, c2, cut2, 1) && still(c, c2)
            && begun(cut, cut2),
    decreases e, 0int,
{
    reveal(exp_invoke);
    match e {
        ExpressionNode::InvokeMethod { left, right, arguments } => {
            let cut1 = level_compile_exp(c, cut, in_class, left);
            match compile_exp(c, in_class, left) {
                Ok(c1) => {
                    match identifier(right) {
                        Some(name) => {
                            if arguments@.len() > 255 {
                                cut
                            } else {
                                let cut4 = level_compile_exps(c1, cut1, in_class, arguments@, 0);
                                match compile_exps(c1, in_class, arguments@, 0) {
                                    Ok(c4) => {
                                        lemma_moved_twice(
                                            c,
                                            cut,
                                            c1,
                                            cut1,
                                            1int,
                                            c4,
                                            cut4,
                                            arguments@.len() as int,
                                        );
                                        lemma_begun(
                                            c,
                                            cut,
                                            c1,
                                            cut1,
                                            1int,
                                            c4,
                                            cut4,
                                            arguments@.len() as int,
                                        );
                                        let cut5 = level_emit_text3(
                                            c4,
                                            cut4,
                                            OP_INVOKE,
                                            name,
                                            arguments@.len() as u8,
                                        );
                                        match c4.emit_text(OP_INVOKE, name) {
                                            Ok(ct5) => {
                                                let c5 = ct5.emit(arguments@.len() as u8);
                                                lemma_moved_twice(
                                                    c,
                                                    cut,
                                                    c4,
                                                    cut4,
                                                    1int + arguments@.len() as int,
                                                    c5,
                                                    cut5,
                                                    effect2(OP_INVOKE, arguments@.len() as u8),
                                                );
                                                lemma_begun(
                                                    c,
                                                    cut,
                                                    c4,
                                                    cut4,
                                                    1int + arguments@.len() as int,
                                                    c5,
                                                    cut5,
                                                    effect2(OP_INVOKE, arguments@.len() as u8),
                                                );
                                                cut5
                                            },
                                            Err(_) => cut,
                                        }
                                    },
                                    Err(_) => cut,
                                }
                            }
                        },
                        None => cut,
                    }
                },
                Err(_) => cut,
            }
        },
        _ => cut,
    }
}

proof fn level_exp_super_invoke(
    c: CompilerView,
    cut: Cut,
    in_class: bool,
    e: &ExpressionNode,
) -> (cut2:
    Cut)
    requires
        sound(c, cut),
        plain_exp(e),
        e is InvokeSuperMethod,
    ensures
        same_debts(cut, cut2),
        exp_super_invoke(c, in_class, e) matches Ok(c2) ==> moved(c, cut, c2, cut2, 1) && still(c, c2)
            && begun(cut, cut2),
    decreases e, 0int,
{
    reveal(exp_super_invoke);
    match e {
        ExpressionNode::InvokeSuperMethod { left, right, arguments } => {
            let cut1 = level_load(c, cut, "this"@);
            match c.load("this"@) {
                Ok(c1) => {
                    match identifier(right) {
                        Some(name) => {
                            if arguments@.len() > 255 {
                                cut
                            } else {
                                let cut4 = level_compile_exps(c1, cut1, in_class, arguments@, 0);
                                match compile_exps(c1, in_class, arguments@, 0) {
                                    Ok(c4) => {
                                        lemma_moved_twice(
                                            c,
                                            cut,
                                            c1,
                                            cut1,
                                            1int,
                                            c4,
                                            cut4,
                                            arguments@.len() as int,
                                        );
                                        lemma_begun(
                                            c,
                                            cut,
                                            c1,
                                            cut1,
                                            1int,
                                            c4,
                                            cut4,
                                            arguments@.len() as int,
                                        );
                                        level_add_text(c4, cut4, name);
                                        let cut5 = cut4;
                                        match c4.add_text(name) {
                                            Ok((c5, index)) => {
                                                lemma_moved_twice(
                                                    c,
                                                    cut,
                                                    c4,
                                                    cut4,
                                                    1int + arguments@.len() as int,
                                                    c5,
                                                    cut5,
                                                    0int,
                                                );
                                                lemma_begun(
                                                    c,
                                                    cut,
                                                    c4,
                                                    cut4,
                                                    1int + arguments@.len() as int,
                                                    c5,
                                                    cut5,
                                                    0int,
                                                );
                                                let cut6 = level_load(c5, cut5, "super"@);
                                                match c5.load("super"@) {
                                                    Ok(c6) => {
                                                        lemma_moved_twice(
                                                            c,
                                                            cut,
                                                            c5,
                                                            cut5,
                                                            (1int + arguments@.len() as int),
                                                            c6,
                                                            cut6,
                                                            1int,
                                                        );
                                                        lemma_begun(
                                                            c,
                                                            cut,
                                                            c5,
                                                            cut5,
                                                            (1int + arguments@.len() as int),
                                                            c6,
                                                            cut6,
                                                            1int,
                                                        );
                                                        let cut7 = level_emit3(
                                                            c6,
                                                            cut6,
                                                            OP_SUPER_INVOKE,
                                                            index,
                                                            arguments@.len() as u8,
                                                        );
                                                        let c7 = c6.emit2(OP_SUPER_INVOKE, index).emit(arguments@.len() as u8);
                                                        lemma_moved_twice(
                                                            c,
                                                            cut,
                                                            c6,
                                                            cut6,
                                                            ((1int + arguments@.len() as int)) + 1int,
                                                            c7,
                                                            cut7,
                                                            effect2(
                                                                OP_SUPER_INVOKE,
                                                                arguments@.len() as u8,
                                                            ),
                                                        );
                                                        lemma_begun(
                                                            c,
                                                            cut,
                                                            c6,
                                                            cut6,
                                                            ((1int + arguments@.len() as int)) + 1int,
                                                            c7,
                                                            cut7,
                                                            effect2(
                                                                OP_SUPER_INVOKE,
                                                                arguments@.len() as u8,
                                                            ),
                                                        );
                                                        cut7
                                                    },
                                                    Err(_) => cut,
                                                }
                                            },
                                            Err(_) => cut,
                                        }
                                    },
                                    Err(_) => cut,
                                }
                            }
                        },
                        None => cut,
                    }
                },
                Err(_) => cut,
            }
        },
        _ => cut,
    }
}

proof fn level_exp_logical(c: CompilerView, cut: Cut, in_class: bool, e: &ExpressionNode) -> (cut2:
    Cut)
    requires
        sound(c, cut),
        plain_exp(e),
        e is Logical,
    ensures
        same_debts(cut, cut2),
        exp_logical(c, in_class, e) matches Ok(c2) ==> moved(c, cut, c2, cut2, 1) && still(c, c2)
            && begun(cut, cut2),
    decreases e, 0int,
{
    reveal(exp_logical);
    match e {
        ExpressionNode::Logical { ope, left, right } => {
            if ope@ == "and"@ {
                let cut1 = level_compile_exp(c, cut, in_class, left);
                match compile_exp(c, in_class, left) {
                    Ok(c1) => {
                        let cut2 = level_jump(c1, cut1, OP_JUMP_IF_FALSE);
                        let c2 = c1.emit_jump(OP_JUMP_IF_FALSE);
                        lemma_moved_twice(
                            c,
                            cut,
                            c1,
                            cut1,
                            1int,
                            c2,
                            cut2,
                            branch(OP_JUMP_IF_FALSE),
                        );
                        lemma_begun(c, cut, c1, cut1, 1int, c2, cut2, branch(OP_JUMP_IF_FALSE));
                        let cut3 = level_emit1(c2, cut2, OP_POP);
                        let c3 = c2.emit(OP_POP);
                        lemma_moved_twice(
                            c,
                            cut,
                            c2,
                            cut2,
                            1int + branch(OP_JUMP_IF_FALSE),
                            c3,
                            cut3,
                            effect0(OP_POP),
                        );
                        lemma_begun(
                            c,
                            cut,
                            c2,
                            cut2,
                            1int + branch(OP_JUMP_IF_FALSE),
                            c3,
                            cut3,
                            effect0(OP_POP),
                        );
                        let cut4 = level_compile_exp(c3, cut3, in_class, right);
                        match compile_exp(c3, in_class, right) {
                            Ok(c4) => {
                                lemma_moved_twice(
                                    c,
                                    cut,
                                    c3,
                                    cut3,
                                    (1int + branch(OP_JUMP_IF_FALSE)) + effect0(OP_POP),
                                    c4,
                                    cut4,
                                    1int,
                                );
                                lemma_begun(
                                    c,
                                    cut,
                                    c3,
                                    cut3,
                                    (1int + branch(OP_JUMP_IF_FALSE)) + effect0(OP_POP),
                                    c4,
                                    cut4,
                                    1int,
                                );
                                assert(cut4.waiting().contains(c1.here()));
                                assert(cut4.owed.last()[c1.here()] == cut1.height() + branch(OP_JUMP_IF_FALSE));
                                let cut5 = level_patch(c4, cut4, c2.here() - 2);
                                match c4.patch_jump(c2.here() - 2) {
                                    Ok(c5) => {
                                        lemma_moved_twice(
                                            c,
                                            cut,
                                            c4,
                                            cut4,
                                            ((1int + branch(OP_JUMP_IF_FALSE)) + effect0(OP_POP)) + 1int,
                                            c5,
                                            cut5,
                                            cut4.owed.last()[c1.here()] - cut4.height(),
                                        );
                                        lemma_begun(
                                            c,
                                            cut,
                                            c4,
                                            cut4,
                                            ((1int + branch(OP_JUMP_IF_FALSE)) + effect0(OP_POP)) + 1int,
                                            c5,
                                            cut5,
                                            cut4.owed.last()[c1.here()] - cut4.height(),
                                        );
                                        assert(
                                            moved(
                                                c,
                                                cut,
                                                c5,
                                                cut5,
                                                1int + branch(OP_JUMP_IF_FALSE),
                                            )
                                        );
                                        assert(cut5.waiting() =~= cut.waiting());
                                        assert(cut5.owed.last() =~= cut.owed.last());
                                        cut5
                                    },
                                    Err(_) => cut,
                                }
                            },
                            Err(_) => cut,
                        }
                    },
                    Err(_) => cut,
                }
            } else {
                let cut1 = level_compile_exp(c, cut, in_class, left);
                match compile_exp(c, in_class, left) {
                    Ok(c1) => {
                        let cut2 = level_jump(c1, cut1, OP_JUMP_IF_FALSE);
                        let c2 = c1.emit_jump(OP_JUMP_IF_FALSE);
                        lemma_moved_twice(
                            c,
                            cut,
                            c1,
                            cut1,
                            1int,
                            c2,
                            cut2,
                            branch(OP_JUMP_IF_FALSE),
                        );
                        lemma_begun(c, cut, c1, cut1, 1int, c2, cut2, branch(OP_JUMP_IF_FALSE));
                        let cut3 = level_jump(c2, cut2, OP_JUMP);
                        let c3 = c2.emit_jump(OP_JUMP);
                        lemma_moved_twice(
                            c,
                            cut,
                            c2,
                            cut2,
                            1int + branch(OP_JUMP_IF_FALSE),
                            c3,
                            cut3,
                            0int,
                        );
                        lemma_begun(
                            c,
                            cut,
                            c2,
                            cut2,
                            1int + branch(OP_JUMP_IF_FALSE),
                            c3,
                            cut3,
                            0int,
                        );
                        assert(cut3.waiting().contains(c1.here()));
                        assert(cut3.owed.last()[c1.here()] == cut1.height() + branch(OP_JUMP_IF_FALSE));
                        let cut4 = level_patch(c3, cut3, c2.here() - 2);
                        match c3.patch_jump(c2.here() - 2) {
                            Ok(c4) => {
                                lemma_moved_twice(
                                    c,
                                    cut,
                                    c3,
                                    cut3,
                                    (1int + branch(OP_JUMP_IF_FALSE)),
                                    c4,
                                    cut4,
                                    cut3.owed.last()[c1.here()] - cut3.height(),
                                );
                                lemma_begun(
                                    c,
                                    cut,
                                    c3,
                                    cut3,
                                    (1int + branch(OP_JUMP_IF_FALSE)),
                                    c4,
                                    cut4,
                                    cut3.owed.last()[c1.here()] - cut3.height(),
                                );
                                assert(moved(c, cut, c4, cut4, 1int + branch(OP_JUMP_IF_FALSE)));
                                let cut5 = level_emit1(c4, cut4, OP_POP);
                                let c5 = c4.emit(OP_POP);
                                lemma_moved_twice(
                                    c,
                                    cut,
                                    c4,
                                    cut4,
                                    1int + branch(OP_JUMP_IF_FALSE),
                                    c5,
                                    cut5,
                                    effect0(OP_POP),
                                );
                                lemma_begun(
                                    c,
                                    cut,
                                    c4,
                                    cut4,
                                    1int + branch(OP_JUMP_IF_FALSE),
                                    c5,
                                    cut5,
                                    effect0(OP_POP),
                                );
                                let cut6 = level_compile_exp(c5, cut5, in_class, right);
                                match compile_exp(c5, in_class, right) {
                                    Ok(c6) => {
                                        lemma_moved_twice(
                                            c,
                                            cut,
                                            c5,
                                            cut5,
                                            (1int + branch(OP_JUMP_IF_FALSE)) + effect0(OP_POP),
                                            c6,
                                            cut6,
                                            1int,
                                        );
                                        lemma_begun(
                                            c,
                                            cut,
                                            c5,
                                            cut5,
                                            (1int + branch(OP_JUMP_IF_FALSE)) + effect0(OP_POP),
                                            c6,
                                            cut6,
                                            1int,
                                        );
                                        assert(cut6.waiting().contains(c2.here()));
                                        assert(cut6.owed.last()[c2.here()] == cut2.height() + branch(OP_JUMP));
                                        let cut7 = level_patch(c6, cut6, c3.here() - 2);
                                        match c6.patch_jump(c3.here() - 2) {
                                            Ok(c7) => {
                                                lemma_moved_twice(
                                                    c,
                                                    cut,
                                                    c6,
                                                    cut6,
                                                    ((1int + branch(OP_JUMP_IF_FALSE)) + effect0(OP_POP)) + 1int,
                                                    c7,
                                                    cut7,
                                                    cut6.owed.last()[c2.here()] - cut6.height(),
                                                );
                                                lemma_begun(
                                                    c,
                                                    cut,
                                                    c6,
                                                    cut6,
                                                    ((1int + branch(OP_JUMP_IF_FALSE)) + effect0(OP_POP)) + 1int,
                                                    c7,
                                                    cut7,
                                                    cut6.owed.last()[c2.here()] - cut6.height(),
                                                );
                                                assert(
                                                    moved(
                                                        c,
                                                        cut,
                                                        c7,
                                                        cut7,
                                                        (1int + branch(OP_JUMP_IF_FALSE)) + branch(OP_JUMP),
                                                    )
                                                );
                                                assert(cut7.waiting() =~= cut.waiting());
                                                assert(cut7.owed.last() =~= cut.owed.last());
                                                cut7
                                            },
                                            Err(_) => cut,
                                        }
                                    },
                                    Err(_) => cut,
                                }
                            },
                            Err(_) => cut,
                        }
                    },
                    Err(_) => cut,
                }
            }
        },
        _ => cut,
    }
}

proof fn level_exp_assign(c: CompilerView, cut: Cut, in_class: bool, e: &ExpressionNode) -> (cut2:
    Cut)
    requires
        sound(c, cut),
        plain_exp(e),
        e is Assign,
    ensures
        same_debts(cut, cut2),
        exp_assign(c, in_class, e) matches Ok(c2) ==> moved(c, cut, c2, cut2, 1) && still(c, c2)
            && begun(cut, cut2),
    decreases e, 0int,
{
    reveal(exp_assign);
    match e {
        ExpressionNode::Assign { ope, left, right } => {
            match &**left {
                ExpressionNode::Identifer(name) => {
                    let cut1 = level_compile_exp(c, cut, in_class, right);
                    match compile_exp(c, in_class, right) {
                        Ok(c1) => {
                            let cut2 = level_store(c1, cut1, name@);
                            match c1.store(name@) {
                                Ok(c2) => {
                                    lemma_moved_twice(c, cut, c1, cut1, 1int, c2, cut2, 0int);
                                    lemma_begun(c, cut, c1, cut1, 1int, c2, cut2, 0int);
                                    cut2
                                },
                                Err(_) => cut,
                            }
                        },
                        Err(_) => cut,
                    }
                },
                ExpressionNode::SetProperty { left: object, right: property } => {
                    let cut1 = level_compile_exp(c, cut, in_class, object);
                    match compile_exp(c, in_class, object) {
                        Ok(c1) => {
                            match identifier(property) {
                                Some(name) => {
                                    level_add_text(c1, cut1, name);
                                    let cut3 = cut1;
                                    match c1.add_text(name) {
                                        Ok((c3, index)) => {
                                            lemma_moved_twice(
                                                c,
                                                cut,
                                                c1,
                                                cut1,
                                                1int,
                                                c3,
                                                cut3,
                                                0int,
                                            );
                                            lemma_begun(c, cut, c1, cut1, 1int, c3, cut3, 0int);
                                            let cut4 = level_compile_exp(c3, cut3, in_class, right);
                                            match compile_exp(c3, in_class, right) {
                                                Ok(c4) => {
                                                    lemma_moved_twice(
                                                        c,
                                                        cut,
                                                        c3,
                                                        cut3,
                                                        1int,
                                                        c4,
                                                        cut4,
                                                        1int,
                                                    );
                                                    lemma_begun(
                                                        c,
                                                        cut,
                                                        c3,
                                                        cut3,
                                                        1int,
                                                        c4,
                                                        cut4,
                                                        1int,
                                                    );
                                                    let cut5 = level_emit2(
                                                        c4,
                                                        cut4,
                                                        OP_SET_PROP,
                                                        index,
                                                    );
                                                    let c5 = c4.emit2(OP_SET_PROP, index);
                                                    lemma_moved_twice(
                                                        c,
                                                        cut,
                                                        c4,
                                                        cut4,
                                                        2int,
                                                        c5,
                                                        cut5,
                                                        effect1(OP_SET_PROP, index),
                                                    );
                                                    lemma_begun(
                                                        c,
                                                        cut,
                                                        c4,
                                                        cut4,
                                                        2int,
                                                        c5,
                                                        cut5,
                                                        effect1(OP_SET_PROP, index),
                                                    );
                                                    cut5
                                                },
                                                Err(_) => cut,
                                            }
                                        },
                                        Err(_) => cut,
                                    }
                                },
                                None => cut,
                            }
                        },
                        Err(_) => cut,
                    }
                },
                _ => cut,
            }
        },
        _ => cut,
    }
}

/// A plain expression compiles to code that is level and leaves one value
/// on the stack: from the height of the stack before it, the code leads to
/// that height and one.
pub proof fn level_compile_exp(
    c: CompilerView,
    cut: Cut,
    in_class: bool,
    e: &ExpressionNode,
) -> (cut2:
    Cut)
    requires
        sound(c, cut),
        plain_exp(e),
    ensures
        same_debts(cut, cut2),
        compile_exp(c, in_class, e) matches Ok(c2) ==> moved(c, cut, c2, cut2, 1) && still(c, c2)
            && begun(cut, cut2),
    decreases e, 1int,
{
    reveal(exp_sequence);
    reveal(exp_property);
    reveal(exp_invoke);
    reveal(exp_super_invoke);
    reveal(exp_logical);
    reveal(exp_assign);
    reveal(exp_operation);
    reveal(exp_atom);
    match e {
        ExpressionNode::ArrayLiteral(_) | ExpressionNode::FunCall { .. } => level_exp_sequence(
            c,
            cut,
            in_class,
            e,
        ),
        ExpressionNode::GetProperty { .. } | ExpressionNode::GetSuperProperty { .. } => level_exp_property(
            c,
            cut,
            in_class,
            e,
        ),
        ExpressionNode::InvokeMethod { .. } => level_exp_invoke(c, cut, in_class, e),
        ExpressionNode::InvokeSuperMethod { .. } => level_exp_super_invoke(c, cut, in_class, e),
        ExpressionNode::Logical { .. } => level_exp_logical(c, cut, in_class, e),
        ExpressionNode::Assign { .. } => level_exp_assign(c, cut, in_class, e),
        ExpressionNode::RangeLiteral { .. } | ExpressionNode::Prefix { .. } | ExpressionNode::Infix {
            ..
        } | ExpressionNode::IndexCall { .. } => level_exp_operation(c, cut, in_class, e),
        _ => level_exp_atom(c, cut, in_class, e),
    }
}

} // verus!
