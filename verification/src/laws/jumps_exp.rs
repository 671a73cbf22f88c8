//! Compiling an expression keeps the compilation tidy.
use vstd::prelude::*;
use super::jumps::{
    grows, lemma_add_text, lemma_emit1, lemma_emit2, lemma_emit3, lemma_emit_constant,
    lemma_emit_jump, lemma_emit_text, lemma_grows_twice, lemma_load, lemma_patch_jump,
    lemma_settled, lemma_store, tidy, Cut,
};
use crate::compiler::ast::ExpressionNode;
use crate::compiler::model::{
    compile_exp, compile_exps, emit_infix, emit_prefix, exp_assign, exp_atom, exp_invoke,
    exp_logical, exp_operation, exp_property, exp_sequence, exp_super_invoke, identifier,
    CompilerView,
};
use crate::vm::chunk::{
    OP_ADD, OP_ARRAY, OP_CALL, OP_CONSTANT, OP_DIVIDE, OP_EQUAL, OP_FALSE, OP_GET_PROP,
    OP_GET_SUPER, OP_GREATER, OP_INDEX_CALL, OP_INDEX_SET, OP_INVOKE, OP_JUMP, OP_JUMP_IF_FALSE,
    OP_LESS, OP_MULTIPLY, OP_NEGATIVE, OP_NOT, OP_NULL, OP_POP, OP_POW, OP_RANGE, OP_REM,
    OP_SET_PROP, OP_SUBTRACT, OP_SUPER_INVOKE, OP_TRUE,
};
use crate::vm::value::Value;

verus! {

/// Two instructions without operands, one after the other.
proof fn lemma_emit1_twice(c: CompilerView, cut: Cut, first: u8, second: u8) -> (cut2: Cut)
    requires
        tidy(c, cut),
        crate::vm::chunk::fixed_operands(first) == 0,
        crate::vm::chunk::fixed_operands(second) == 0,
    ensures
        cut2.pending == cut.pending,
        tidy(c.emit(first).emit(second), cut2),
        grows(c, cut, c.emit(first).emit(second), cut2),
{
    lemma_emit1(c, cut, first);
    let c1 = c.emit(first);
    let cut1 = cut.mark(c.here());
    lemma_emit1(c1, cut1, second);
    let cut2 = cut1.mark(c1.here());
    lemma_grows_twice(c, cut, c1, cut1, c1.emit(second), cut2);
    cut2
}

proof fn lemma_emit_infix(c: CompilerView, cut: Cut, ope: Seq<char>) -> (cut2: Cut)
    requires
        tidy(c, cut),
    ensures
        cut2.pending == cut.pending,
        tidy(emit_infix(c, ope), cut2),
        grows(c, cut, emit_infix(c, ope), cut2),
{
    reveal(emit_infix);
    if ope == "+"@ {
        lemma_emit1(c, cut, OP_ADD);
        cut.mark(c.here())
    } else if ope == "-"@ {
        lemma_emit1(c, cut, OP_SUBTRACT);
        cut.mark(c.here())
    } else if ope == "*"@ {
        lemma_emit1(c, cut, OP_MULTIPLY);
        cut.mark(c.here())
    } else if ope == "/"@ {
        lemma_emit1(c, cut, OP_DIVIDE);
        cut.mark(c.here())
    } else if ope == "^"@ {
        lemma_emit1(c, cut, OP_POW);
        cut.mark(c.here())
    } else if ope == "%"@ {
        lemma_emit1(c, cut, OP_REM);
        cut.mark(c.here())
    } else if ope == "!="@ {
        lemma_emit1_twice(c, cut, OP_EQUAL, OP_NOT)
    } else if ope == "=="@ {
        lemma_emit1(c, cut, OP_EQUAL);
        cut.mark(c.here())
    } else if ope == ">"@ {
        lemma_emit1(c, cut, OP_GREATER);
        cut.mark(c.here())
    } else if ope == ">="@ {
        lemma_emit1_twice(c, cut, OP_LESS, OP_NOT)
    } else if ope == "<"@ {
        lemma_emit1(c, cut, OP_LESS);
        cut.mark(c.here())
    } else if ope == "<="@ {
        lemma_emit1_twice(c, cut, OP_GREATER, OP_NOT)
    } else {
        cut
    }
}

proof fn lemma_emit_prefix(c: CompilerView, cut: Cut, ope: Seq<char>) -> (cut2: Cut)
    requires
        tidy(c, cut),
    ensures
        cut2.pending == cut.pending,
        tidy(emit_prefix(c, ope), cut2),
        grows(c, cut, emit_prefix(c, ope), cut2),
{
    reveal(emit_prefix);
    if ope == "-"@ {
        lemma_emit1(c, cut, OP_NEGATIVE);
        cut.mark(c.here())
    } else if ope == "!"@ {
        lemma_emit1(c, cut, OP_NOT);
        cut.mark(c.here())
    } else {
        cut
    }
}

/// A string constant and the instruction with two operands that names it.
proof fn lemma_emit_text3(c: CompilerView, cut: Cut, op: u8, text: Seq<char>, last: u8) -> (cut2:
    Cut)
    requires
        tidy(c, cut),
        crate::vm::chunk::fixed_operands(op) == 2,
        !crate::vm::chunk::is_jump(op),
    ensures
        cut2.pending == cut.pending,
        c.emit_text(op, text) matches Ok(c2) ==> tidy(c2.emit(last), cut2) && grows(
            c,
            cut,
            c2.emit(last),
            cut2,
        ),
{
    lemma_add_text(c, cut, text);
    match c.add_text(text) {
        Ok((c1, index)) => {
            lemma_emit3(c1, cut, op, index, last);
            lemma_grows_twice(c, cut, c1, cut, c1.emit2(op, index).emit(last), cut.mark(c.here()));
        },
        Err(_) => {},
    }
    cut.mark(c.here())
}

proof fn lemma_exp_atom(c: CompilerView, cut: Cut, in_class: bool, e: &ExpressionNode) -> (cut2:
    Cut)
    requires
        tidy(c, cut),
    ensures
        cut2.pending == cut.pending,
        exp_atom(c, in_class, e) matches Ok(c2) ==> tidy(c2, cut2) && grows(c, cut, c2, cut2),
{
    reveal(exp_atom);
    match e {
        ExpressionNode::Identifer(name) => {
            lemma_load(c, cut, name@);
            cut.mark(c.here())
        },
        ExpressionNode::StringLiteral(text) => {
            lemma_emit_text(c, cut, OP_CONSTANT, text@);
            cut.mark(c.here())
        },
        ExpressionNode::FloatLiteral(bits) => {
            lemma_emit_constant(c, cut, OP_CONSTANT, Value::Float(*bits));
            cut.mark(c.here())
        },
        ExpressionNode::IntegerLiteral(number) => {
            lemma_emit_constant(c, cut, OP_CONSTANT, Value::Integer(*number));
            cut.mark(c.here())
        },
        ExpressionNode::BooleanLiteral(truth) => {
            lemma_emit1(c, cut, OP_TRUE);
            lemma_emit1(c, cut, OP_FALSE);
            cut.mark(c.here())
        },
        ExpressionNode::NullLiteral => {
            lemma_emit1(c, cut, OP_NULL);
            cut.mark(c.here())
        },
        _ => {
            cut
        },
    }
}

/// Compiling expressions one after another keeps the compilation tidy.
pub proof fn lemma_compile_exps(
    c: CompilerView,
    cut: Cut,
    in_class: bool,
    es: Seq<ExpressionNode>,
    from: int,
) -> (cut2:
    Cut)
    requires
        tidy(c, cut),
    ensures
        cut2.pending == cut.pending,
        compile_exps(c, in_class, es, from) matches Ok(c2) ==> tidy(c2, cut2) && grows(
            c,
            cut,
            c2,
            cut2,
        ),
    decreases es, es.len() - from,
{
    if from < 0 || from >= es.len() {
        cut
    } else {
        let cut1 = lemma_compile_exp(c, cut, in_class, &es[from]);
        match compile_exp(c, in_class, &es[from]) {
            Ok(c1) => {
                let cut2 = lemma_compile_exps(c1, cut1, in_class, es, from + 1);
                match compile_exps(c1, in_class, es, from + 1) {
                    Ok(c2) => {
                        lemma_grows_twice(c, cut, c1, cut1, c2, cut2);
                    },
                    Err(_) => {},
                }
                cut2
            },
            Err(_) => cut,
        }
    }
}

proof fn lemma_exp_sequence(c: CompilerView, cut: Cut, in_class: bool, e: &ExpressionNode) -> (cut2:
    Cut)
    requires
        tidy(c, cut),
    ensures
        cut2.pending == cut.pending,
        exp_sequence(c, in_class, e) matches Ok(c2) ==> tidy(c2, cut2) && grows(c, cut, c2, cut2),
    decreases e, 0int,
{
    reveal(exp_sequence);
    match e {
        ExpressionNode::ArrayLiteral(items) => {
            let cut1 = lemma_compile_exps(c, cut, in_class, items@, 0);
            match compile_exps(c, in_class, items@, 0) {
                Ok(c1) => {
                    lemma_emit2(c1, cut1, OP_ARRAY, items@.len() as u8);
                    let cut2 = cut1.mark(c1.here());
                    lemma_grows_twice(
                        c,
                        cut,
                        c1,
                        cut1,
                        c1.emit2(OP_ARRAY, items@.len() as u8),
                        cut2,
                    );
                    cut2
                },
                Err(_) => cut,
            }
        },
        ExpressionNode::FunCall { function, arguments } => {
            let cut1 = lemma_compile_exp(c, cut, in_class, function);
            match compile_exp(c, in_class, function) {
                Ok(c1) => {
                    let cut2 = lemma_compile_exps(c1, cut1, in_class, arguments@, 0);
                    match compile_exps(c1, in_class, arguments@, 0) {
                        Ok(c2) => {
                            lemma_grows_twice(c, cut, c1, cut1, c2, cut2);
                            lemma_emit2(c2, cut2, OP_CALL, arguments@.len() as u8);
                            let cut3 = cut2.mark(c2.here());
                            lemma_grows_twice(
                                c,
                                cut,
                                c2,
                                cut2,
                                c2.emit2(OP_CALL, arguments@.len() as u8),
                                cut3,
                            );
                            cut3
                        },
                        Err(_) => cut,
                    }
                },
                Err(_) => cut,
            }
        },
        _ => cut,
    }
}

proof fn lemma_exp_operation(
    c: CompilerView,
    cut: Cut,
    in_class: bool,
    e: &ExpressionNode,
) -> (cut2:
    Cut)
    requires
        tidy(c, cut),
    ensures
        cut2.pending == cut.pending,
        exp_operation(c, in_class, e) matches Ok(c2) ==> tidy(c2, cut2) && grows(c, cut, c2, cut2),
    decreases e, 0int,
{
    reveal(exp_operation);
    match e {
        ExpressionNode::RangeLiteral { start, end } => {
            let cut1 = lemma_compile_exp(c, cut, in_class, start);
            match compile_exp(c, in_class, start) {
                Ok(c1) => {
                    let cut2 = lemma_compile_exp(c1, cut1, in_class, end);
                    match compile_exp(c1, in_class, end) {
                        Ok(c2) => {
                            lemma_grows_twice(c, cut, c1, cut1, c2, cut2);
                            lemma_emit1(c2, cut2, OP_RANGE);
                            let last = cut2.mark(c2.here());
                            lemma_grows_twice(c, cut, c2, cut2, c2.emit(OP_RANGE), last);
                            last
                        },
                        Err(_) => cut,
                    }
                },
                Err(_) => cut,
            }
        },
        ExpressionNode::Prefix { ope, right } => {
            let cut1 = lemma_compile_exp(c, cut, in_class, right);
            match compile_exp(c, in_class, right) {
                Ok(c1) => {
                    let last = lemma_emit_prefix(c1, cut1, ope@);
                    lemma_grows_twice(c, cut, c1, cut1, emit_prefix(c1, ope@), last);
                    last
                },
                Err(_) => cut,
            }
        },
        ExpressionNode::Infix { ope, left, right } => {
            let cut1 = lemma_compile_exp(c, cut, in_class, left);
            match compile_exp(c, in_class, left) {
                Ok(c1) => {
                    let cut2 = lemma_compile_exp(c1, cut1, in_class, right);
                    match compile_exp(c1, in_class, right) {
                        Ok(c2) => {
                            lemma_grows_twice(c, cut, c1, cut1, c2, cut2);
                            let last = lemma_emit_infix(c2, cut2, ope@);
                            lemma_grows_twice(c, cut, c2, cut2, emit_infix(c2, ope@), last);
                            last
                        },
                        Err(_) => cut,
                    }
                },
                Err(_) => cut,
            }
        },
        ExpressionNode::IndexCall { array, index } => {
            let cut1 = lemma_compile_exp(c, cut, in_class, array);
            match compile_exp(c, in_class, array) {
                Ok(c1) => {
                    let cut2 = lemma_compile_exp(c1, cut1, in_class, index);
                    match compile_exp(c1, in_class, index) {
                        Ok(c2) => {
                            lemma_grows_twice(c, cut, c1, cut1, c2, cut2);
                            lemma_emit1(c2, cut2, OP_INDEX_CALL);
                            let last = cut2.mark(c2.here());
                            lemma_grows_twice(c, cut, c2, cut2, c2.emit(OP_INDEX_CALL), last);
                            last
                        },
                        Err(_) => cut,
                    }
                },
                Err(_) => cut,
            }
        },
        _ => cut,
    }
}

proof fn lemma_exp_property(c: CompilerView, cut: Cut, in_class: bool, e: &ExpressionNode) -> (cut2:
    Cut)
    requires
        tidy(c, cut),
    ensures
        cut2.pending == cut.pending,
        exp_property(c, in_class, e) matches Ok(c2) ==> tidy(c2, cut2) && grows(c, cut, c2, cut2),
    decreases e, 0int,
{
    reveal(exp_property);
    match e {
        ExpressionNode::GetProperty { left, right } => {
            let cut1 = lemma_compile_exp(c, cut, in_class, left);
            match compile_exp(c, in_class, left) {
                Ok(c1) => {
                    match identifier(right) {
                        Some(name) => {
                            lemma_emit_text(c1, cut1, OP_GET_PROP, name);
                            let last = cut1.mark(c1.here());
                            match c1.emit_text(OP_GET_PROP, name) {
                                Ok(c2) => {
                                    lemma_grows_twice(c, cut, c1, cut1, c2, last);
                                },
                                Err(_) => {},
                            }
                            last
                        },
                        None => cut,
                    }
                },
                Err(_) => cut,
            }
        },
        ExpressionNode::GetSuperProperty { left, right } => {
            lemma_load(c, cut, "this"@);
            let cut1 = cut.mark(c.here());
            match c.load("this"@) {
                Ok(c1) => match identifier(right) {
                    Some(name) => {
                        lemma_add_text(c1, cut1, name);
                        match c1.add_text(name) {
                            Ok((c2, index)) => {
                                lemma_grows_twice(c, cut, c1, cut1, c2, cut1);
                                lemma_load(c2, cut1, "super"@);
                                let cut3 = cut1.mark(c2.here());
                                match c2.load("super"@) {
                                    Ok(c3) => {
                                        lemma_grows_twice(c, cut, c2, cut1, c3, cut3);
                                        lemma_emit2(c3, cut3, OP_GET_SUPER, index);
                                        let last = cut3.mark(c3.here());
                                        lemma_grows_twice(
                                            c,
                                            cut,
                                            c3,
                                            cut3,
                                            c3.emit2(OP_GET_SUPER, index),
                                            last,
                                        );
                                        last
                                    },
                                    Err(_) => cut,
                                }
                            },
                            Err(_) => cut,
                        }
                    },
                    None => cut,
                },
                Err(_) => cut,
            }
        },
        _ => cut,
    }
}

proof fn lemma_exp_invoke(c: CompilerView, cut: Cut, in_class: bool, e: &ExpressionNode) -> (cut2:
    Cut)
    requires
        tidy(c, cut),
    ensures
        cut2.pending == cut.pending,
        exp_invoke(c, in_class, e) matches Ok(c2) ==> tidy(c2, cut2) && grows(c, cut, c2, cut2),
    decreases e, 0int,
{
    reveal(exp_invoke);
    match e {
        ExpressionNode::InvokeMethod { left, right, arguments } => {
            let cut1 = lemma_compile_exp(c, cut, in_class, left);
            match compile_exp(c, in_class, left) {
                Ok(c1) => {
                    match identifier(right) {
                        Some(name) => {
                            let cut2 = lemma_compile_exps(c1, cut1, in_class, arguments@, 0);
                            match compile_exps(c1, in_class, arguments@, 0) {
                                Ok(c2) => {
                                    lemma_grows_twice(c, cut, c1, cut1, c2, cut2);
                                    let last = lemma_emit_text3(
                                        c2,
                                        cut2,
                                        OP_INVOKE,
                                        name,
                                        arguments@.len() as u8,
                                    );
                                    match c2.emit_text(OP_INVOKE, name) {
                                        Ok(c3) => {
                                            lemma_grows_twice(
                                                c,
                                                cut,
                                                c2,
                                                cut2,
                                                c3.emit(arguments@.len() as u8),
                                                last,
                                            );
                                        },
                                        Err(_) => {},
                                    }
                                    last
                                },
                                Err(_) => cut,
                            }
                        },
                        None => cut,
                    }
                },
                Err(_) => cut,
            }
        },
        _ => cut,
    }
}

proof fn lemma_exp_super_invoke(
    c: CompilerView,
    cut: Cut,
    in_class: bool,
    e: &ExpressionNode,
) -> (cut2:
    Cut)
    requires
        tidy(c, cut),
    ensures
        cut2.pending == cut.pending,
        exp_super_invoke(c, in_class, e) matches Ok(c2) ==> tidy(c2, cut2) && grows(c, cut, c2, cut2),
    decreases e, 0int,
{
    reveal(exp_super_invoke);
    match e {
        ExpressionNode::InvokeSuperMethod { left, right, arguments } => {
            lemma_load(c, cut, "this"@);
            let cut1 = cut.mark(c.here());
            match c.load("this"@) {
                Ok(c1) => match identifier(right) {
                    Some(name) => {
                        let cut2 = lemma_compile_exps(c1, cut1, in_class, arguments@, 0);
                        match compile_exps(c1, in_class, arguments@, 0) {
                            Ok(c2) => {
                                lemma_grows_twice(c, cut, c1, cut1, c2, cut2);
                                lemma_add_text(c2, cut2, name);
                                match c2.add_text(name) {
                                    Ok((c3, index)) => {
                                        lemma_grows_twice(c, cut, c2, cut2, c3, cut2);
                                        lemma_load(c3, cut2, "super"@);
                                        let cut4 = cut2.mark(c3.here());
                                        match c3.load("super"@) {
                                            Ok(c4) => {
                                                lemma_grows_twice(c, cut, c3, cut2, c4, cut4);
                                                lemma_emit3(
                                                    c4,
                                                    cut4,
                                                    OP_SUPER_INVOKE,
                                                    index,
                                                    arguments@.len() as u8,
                                                );
                                                let last = cut4.mark(c4.here());
                                                lemma_grows_twice(
                                                    c,
                                                    cut,
                                                    c4,
                                                    cut4,
                                                    c4.emit2(OP_SUPER_INVOKE, index).emit(
                                                        arguments@.len() as u8,
                                                    ),
                                                    last,
                                                );
                                                last
                                            },
                                            Err(_) => cut,
                                        }
                                    },
                                    Err(_) => cut,
                                }
                            },
                            Err(_) => cut,
                        }
                    },
                    None => cut,
                },
                Err(_) => cut,
            }
        },
        _ => cut,
    }
}

proof fn lemma_exp_logical(c: CompilerView, cut: Cut, in_class: bool, e: &ExpressionNode) -> (cut2:
    Cut)
    requires
        tidy(c, cut),
    ensures
        cut2.pending == cut.pending,
        exp_logical(c, in_class, e) matches Ok(c2) ==> tidy(c2, cut2) && grows(c, cut, c2, cut2),
    decreases e, 0int,
{
    reveal(exp_logical);
    match e {
        ExpressionNode::Logical { ope, left, right } => {
            if ope@ == "and"@ {
                let cut1 = lemma_compile_exp(c, cut, in_class, left);
                match compile_exp(c, in_class, left) {
                    Ok(c1) => {
                        lemma_emit_jump(c1, cut1, OP_JUMP_IF_FALSE);
                        let c2 = c1.emit_jump(OP_JUMP_IF_FALSE);
                        let cut2 = cut1.mark(c1.here()).wait_for(c1.here());
                        lemma_grows_twice(c, cut, c1, cut1, c2, cut2);
                        lemma_emit1(c2, cut2, OP_POP);
                        let c3 = c2.emit(OP_POP);
                        let cut3 = cut2.mark(c2.here());
                        lemma_grows_twice(c, cut, c2, cut2, c3, cut3);
                        let cut4 = lemma_compile_exp(c3, cut3, in_class, right);
                        match compile_exp(c3, in_class, right) {
                            Ok(c4) => {
                                lemma_grows_twice(c, cut, c3, cut3, c4, cut4);
                                lemma_settled(cut1, cut4, c1.here());
                                lemma_patch_jump(c4, cut4, c2.here() - 2);
                                match c4.patch_jump(c2.here() - 2) {
                                    Ok(c5) => {
                                        lemma_grows_twice(
                                            c,
                                            cut,
                                            c4,
                                            cut4,
                                            c5,
                                            cut4.settle(c1.here()),
                                        );
                                    },
                                    Err(_) => {},
                                }
                                cut4.settle(c1.here())
                            },
                            Err(_) => cut,
                        }
                    },
                    Err(_) => cut,
                }
            } else if ope@ == "or"@ {
                let cut1 = lemma_compile_exp(c, cut, in_class, left);
                match compile_exp(c, in_class, left) {
                    Ok(c1) => {
                        lemma_emit_jump(c1, cut1, OP_JUMP_IF_FALSE);
                        let c2 = c1.emit_jump(OP_JUMP_IF_FALSE);
                        let cut2 = cut1.mark(c1.here()).wait_for(c1.here());
                        lemma_grows_twice(c, cut, c1, cut1, c2, cut2);
                        lemma_emit_jump(c2, cut2, OP_JUMP);
                        let c3 = c2.emit_jump(OP_JUMP);
                        let cut3 = cut2.mark(c2.here()).wait_for(c2.here());
                        lemma_grows_twice(c, cut, c2, cut2, c3, cut3);
                        assert(cut3.waiting().contains(c1.here()));
                        lemma_patch_jump(c3, cut3, c2.here() - 2);
                        match c3.patch_jump(c2.here() - 2) {
                            Ok(c4) => {
                                let cut4 = cut3.settle(c1.here());
                                lemma_grows_twice(c, cut, c3, cut3, c4, cut4);
                                lemma_emit1(c4, cut4, OP_POP);
                                let c5 = c4.emit(OP_POP);
                                let cut5 = cut4.mark(c4.here());
                                lemma_grows_twice(c, cut, c4, cut4, c5, cut5);
                                let cut6 = lemma_compile_exp(c5, cut5, in_class, right);
                                match compile_exp(c5, in_class, right) {
                                    Ok(c6) => {
                                        lemma_grows_twice(c, cut, c5, cut5, c6, cut6);
                                        assert(cut6.pending =~= cut1.wait_for(c2.here()).pending) by {
                                            assert(cut2.waiting().insert(c2.here()).remove(
                                                c1.here(),
                                            ) =~= cut1.waiting().insert(c2.here()));
                                        }
                                        assert(!cut1.waiting().contains(c2.here()));
                                        lemma_settled(cut1, cut6, c2.here());
                                        lemma_patch_jump(c6, cut6, c3.here() - 2);
                                        match c6.patch_jump(c3.here() - 2) {
                                            Ok(c7) => {
                                                lemma_grows_twice(
                                                    c,
                                                    cut,
                                                    c6,
                                                    cut6,
                                                    c7,
                                                    cut6.settle(c2.here()),
                                                );
                                            },
                                            Err(_) => {},
                                        }
                                        cut6.settle(c2.here())
                                    },
                                    Err(_) => cut,
                                }
                            },
                            Err(_) => cut,
                        }
                    },
                    Err(_) => cut,
                }
            } else {
                cut
            }
        },
        _ => cut,
    }
}

proof fn lemma_exp_assign(c: CompilerView, cut: Cut, in_class: bool, e: &ExpressionNode) -> (cut2:
    Cut)
    requires
        tidy(c, cut),
    ensures
        cut2.pending == cut.pending,
        exp_assign(c, in_class, e) matches Ok(c2) ==> tidy(c2, cut2) && grows(c, cut, c2, cut2),
    decreases e, 0int,
{
    reveal(exp_assign);
    match e {
        ExpressionNode::Assign { ope, left, right } => {
            if ope@ == "="@ {
                match &**left {
                    ExpressionNode::Identifer(name) => {
                        let cut1 = lemma_compile_exp(c, cut, in_class, right);
                        match compile_exp(c, in_class, right) {
                            Ok(c1) => {
                                lemma_store(c1, cut1, name@);
                                let last = cut1.mark(c1.here());
                                match c1.store(name@) {
                                    Ok(c2) => {
                                        lemma_grows_twice(c, cut, c1, cut1, c2, last);
                                    },
                                    Err(_) => {},
                                }
                                last
                            },
                            Err(_) => cut,
                        }
                    },
                    ExpressionNode::SetProperty { left: object, right: property } => {
                        let cut1 = lemma_compile_exp(c, cut, in_class, object);
                        match compile_exp(c, in_class, object) {
                            Ok(c1) => {
                                match identifier(property) {
                                    Some(name) => {
                                        lemma_add_text(c1, cut1, name);
                                        match c1.add_text(name) {
                                            Ok((c2, index)) => {
                                                lemma_grows_twice(c, cut, c1, cut1, c2, cut1);
                                                let cut3 = lemma_compile_exp(
                                                    c2,
                                                    cut1,
                                                    in_class,
                                                    right,
                                                );
                                                match compile_exp(c2, in_class, right) {
                                                    Ok(c3) => {
                                                        lemma_grows_twice(
                                                            c,
                                                            cut,
                                                            c2,
                                                            cut1,
                                                            c3,
                                                            cut3,
                                                        );
                                                        lemma_emit2(c3, cut3, OP_SET_PROP, index);
                                                        let last = cut3.mark(c3.here());
                                                        lemma_grows_twice(
                                                            c,
                                                            cut,
                                                            c3,
                                                            cut3,
                                                            c3.emit2(OP_SET_PROP, index),
                                                            last,
                                                        );
                                                        last
                                                    },
                                                    Err(_) => cut,
                                                }
                                            },
                                            Err(_) => cut,
                                        }
                                    },
                                    None => cut,
                                }
                            },
                            Err(_) => cut,
                        }
                    },
                    ExpressionNode::IndexCall { array, index } => {
                        let cut1 = lemma_compile_exp(c, cut, in_class, array);
                        match compile_exp(c, in_class, array) {
                            Ok(c1) => {
                                let cut2 = lemma_compile_exp(c1, cut1, in_class, index);
                                match compile_exp(c1, in_class, index) {
                                    Ok(c2) => {
                                        lemma_grows_twice(c, cut, c1, cut1, c2, cut2);
                                        let cut3 = lemma_compile_exp(c2, cut2, in_class, right);
                                        match compile_exp(c2, in_class, right) {
                                            Ok(c3) => {
                                                lemma_grows_twice(c, cut, c2, cut2, c3, cut3);
                                                lemma_emit1(c3, cut3, OP_INDEX_SET);
                                                let last = cut3.mark(c3.here());
                                                lemma_grows_twice(
                                                    c,
                                                    cut,
                                                    c3,
                                                    cut3,
                                                    c3.emit(OP_INDEX_SET),
                                                    last,
                                                );
                                                last
                                            },
                                            Err(_) => cut,
                                        }
                                    },
                                    Err(_) => cut,
                                }
                            },
                            Err(_) => cut,
                        }
                    },
                    _ => cut,
                }
            } else {
                cut
            }
        },
        _ => cut,
    }
}

/// Compiling an expression keeps the compilation tidy: the current function
/// grows by whole instructions, every jump of which lands on a mark, and
/// nothing else changes its code.
pub proof fn lemma_compile_exp(
    c: CompilerView,
    cut: Cut,
    in_class: bool,
    e: &ExpressionNode,
) -> (cut2:
    Cut)
    requires
        tidy(c, cut),
    ensures
        cut2.pending == cut.pending,
        compile_exp(c, in_class, e) matches Ok(c2) ==> tidy(c2, cut2) && grows(c, cut, c2, cut2),
    decreases e, 1int,
{
    reveal(exp_sequence);
    reveal(exp_property);
    reveal(exp_invoke);
    reveal(exp_super_invoke);
    reveal(exp_logical);
    reveal(exp_assign);
    reveal(exp_operation);
    reveal(exp_atom);
    match e {
        ExpressionNode::ArrayLiteral(_) | ExpressionNode::FunCall { .. } => lemma_exp_sequence(
            c,
            cut,
            in_class,
            e,
        ),
        ExpressionNode::GetProperty { .. } | ExpressionNode::GetSuperProperty { .. } => lemma_exp_property(
            c,
            cut,
            in_class,
            e,
        ),
        ExpressionNode::InvokeMethod { .. } => lemma_exp_invoke(c, cut, in_class, e),
        ExpressionNode::InvokeSuperMethod { .. } => lemma_exp_super_invoke(c, cut, in_class, e),
        ExpressionNode::Logical { .. } => lemma_exp_logical(c, cut, in_class, e),
        ExpressionNode::Assign { .. } => lemma_exp_assign(c, cut, in_class, e),
        ExpressionNode::RangeLiteral { .. } | ExpressionNode::Prefix { .. } | ExpressionNode::Infix {
            ..
        } | ExpressionNode::IndexCall { .. } => lemma_exp_operation(c, cut, in_class, e),
        _ => lemma_exp_atom(c, cut, in_class, e),
    }
}

} // verus!
