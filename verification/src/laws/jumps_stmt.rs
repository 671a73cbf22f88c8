//! Compiling a statement keeps the compilation tidy, and so every jump of a
//! compiled script lands on an opcode boundary.
use vstd::prelude::*;
use super::jumps::{
    done_cut, frame_cut, grows, lemma_add_local, lemma_add_text, lemma_begin_scope, lemma_define,
    lemma_emit1, lemma_emit2, lemma_emit_jump, lemma_emit_loop, lemma_emit_text, lemma_end_scope,
    lemma_grows_twice, lemma_load, lemma_marked_grows, lemma_patch_jump, lemma_settled, tidy, Cut,
};
use super::jumps_exp::lemma_compile_exp;
use super::jumps_fun::{lemma_close_function, lemma_push_frame, outer};
use super::marks::{boundary, jumps_land, lemma_grow_tables, lemma_well_cut_lands};
use crate::compiler::ast::{ExpressionNode, StatementNode};
use crate::compiler::model::{
    add_params, bind_function, compile_exp, compile_function, compile_methods, compile_stmt,
    compile_stmts, declare_class, emit_return, emit_slot, find_local, identifier, inherit,
    stmt_class, stmt_for, stmt_if, stmt_simple, stmt_while, CompilerView,
};
use crate::compiler::object::FunctionType;
use crate::compiler::{compiled, finished};
use crate::vm::chunk::{
    OP_CLASS, OP_CONSTANT0, OP_COUNTUP, OP_DEFINE_GLOBAL, OP_GET_LOCAL, OP_INHERIT, OP_JUMP,
    OP_JUMP_IF_FALSE, OP_JUMP_IF_RANGE_END, OP_METHOD, OP_NULL, OP_POP, OP_PRINT, OP_RETURN,
};

verus! {

proof fn lemma_emit_slot(c: CompilerView, cut: Cut, op: u8, name: Seq<char>) -> (cut2: Cut)
    requires
        tidy(c, cut),
        op == OP_GET_LOCAL || op == OP_COUNTUP,
    ensures
        cut2.pending == cut.pending,
        tidy(emit_slot(c, op, name), cut2),
        grows(c, cut, emit_slot(c, op, name), cut2),
{
    reveal(emit_slot);
    match find_local(c.top().locals, name, c.top().locals.len() as int) {
        Some(slot) => {
            lemma_emit2(c, cut, op, slot as u8);
            cut.mark(c.here())
        },
        None => cut,
    }
}

proof fn lemma_declare_class(c: CompilerView, cut: Cut, name: Seq<char>) -> (cut2: Cut)
    requires
        tidy(c, cut),
    ensures
        cut2.pending == cut.pending,
        declare_class(c, name) matches Ok(c2) ==> tidy(c2, cut2) && grows(c, cut, c2, cut2),
{
    reveal(declare_class);
    lemma_add_text(c, cut, name);
    match c.add_text(name) {
        Ok((c1, index)) => {
            if c1.top().scope_depth > 0 {
                lemma_add_local(c1, cut, name);
                match c1.add_local(name) {
                    Ok(c2) => {
                        lemma_grows_twice(c, cut, c1, cut, c2, cut);
                        lemma_emit2(c2, cut, OP_CLASS, index);
                        let last = cut.mark(c2.here());
                        lemma_grows_twice(c, cut, c2, cut, c2.emit2(OP_CLASS, index), last);
                        last
                    },
                    Err(_) => cut,
                }
            } else {
                lemma_emit2(c1, cut, OP_CLASS, index);
                let c2 = c1.emit2(OP_CLASS, index);
                let cut2 = cut.mark(c1.here());
                lemma_grows_twice(c, cut, c1, cut, c2, cut2);
                lemma_emit2(c2, cut2, OP_DEFINE_GLOBAL, index);
                let last = cut2.mark(c2.here());
                lemma_grows_twice(c, cut, c2, cut2, c2.emit2(OP_DEFINE_GLOBAL, index), last);
                last
            }
        },
        Err(_) => cut,
    }
}

proof fn lemma_inherit(
    c: CompilerView,
    cut: Cut,
    name: Seq<char>,
    parent: &ExpressionNode,
) -> (cut2:
    Cut)
    requires
        tidy(c, cut),
    ensures
        cut2.pending == cut.pending,
        inherit(c, name, parent) matches Ok(c2) ==> tidy(c2, cut2) && grows(c, cut, c2, cut2),
{
    reveal(inherit);
    match identifier(parent) {
        Some(parent_name) => {
            lemma_load(c, cut, parent_name);
            let cut1 = cut.mark(c.here());
            match c.load(parent_name) {
                Ok(c1) => {
                    lemma_begin_scope(c1, cut1);
                    match c1.begin_scope() {
                        Ok(c2) => {
                            lemma_grows_twice(c, cut, c1, cut1, c2, cut1);
                            lemma_add_local(c2, cut1, "super"@);
                            match c2.add_local("super"@) {
                                Ok(c3) => {
                                    lemma_grows_twice(c, cut, c2, cut1, c3, cut1);
                                    lemma_load(c3, cut1, name);
                                    let cut4 = cut1.mark(c3.here());
                                    match c3.load(name) {
                                        Ok(c4) => {
                                            lemma_grows_twice(c, cut, c3, cut1, c4, cut4);
                                            lemma_emit1(c4, cut4, OP_INHERIT);
                                            let last = cut4.mark(c4.here());
                                            lemma_grows_twice(
                                                c,
                                                cut,
                                                c4,
                                                cut4,
                                                c4.emit(OP_INHERIT),
                                                last,
                                            );
                                            last
                                        },
                                        Err(_) => cut,
                                    }
                                },
                                Err(_) => cut,
                            }
                        },
                        Err(_) => cut,
                    }
                },
                Err(_) => cut,
            }
        },
        None => cut,
    }
}

proof fn lemma_bind_function(
    c: CompilerView,
    cut: Cut,
    function_type: FunctionType,
    name: Seq<char>,
) -> (cut2:
    Cut)
    requires
        tidy(c, cut),
    ensures
        cut2.pending == cut.pending,
        bind_function(c, function_type, name) matches Ok(c2) ==> tidy(c2, cut2) && grows(
            c,
            cut,
            c2,
            cut2,
        ),
{
    reveal(bind_function);
    match function_type {
        FunctionType::Method | FunctionType::Init => {
            lemma_emit_text(c, cut, OP_METHOD, name);
            cut.mark(c.here())
        },
        _ => lemma_define(c, cut, name),
    }
}

proof fn lemma_emit_return(c: CompilerView, cut: Cut, function_type: FunctionType) -> (cut2: Cut)
    requires
        tidy(c, cut),
    ensures
        cut2.pending == cut.pending,
        tidy(emit_return(c, function_type), cut2),
        grows(c, cut, emit_return(c, function_type), cut2),
{
    reveal(emit_return);
    match function_type {
        FunctionType::Init => {
            lemma_emit2(c, cut, OP_GET_LOCAL, 0);
            let c1 = c.emit2(OP_GET_LOCAL, 0);
            let cut1 = cut.mark(c.here());
            lemma_emit1(c1, cut1, OP_RETURN);
            let last = cut1.mark(c1.here());
            lemma_grows_twice(c, cut, c1, cut1, c1.emit(OP_RETURN), last);
            last
        },
        _ => {
            lemma_emit1(c, cut, OP_NULL);
            let c1 = c.emit(OP_NULL);
            let cut1 = cut.mark(c.here());
            lemma_emit1(c1, cut1, OP_RETURN);
            let last = cut1.mark(c1.here());
            lemma_grows_twice(c, cut, c1, cut1, c1.emit(OP_RETURN), last);
            last
        },
    }
}

proof fn lemma_add_params(c: CompilerView, cut: Cut, params: Seq<ExpressionNode>, from: int)
    requires
        tidy(c, cut),
    ensures
        add_params(c, params, from) matches Ok(c2) ==> tidy(c2, cut) && grows(c, cut, c2, cut),
    decreases params.len() - from,
{
    if 0 <= from < params.len() {
        match identifier(&params[from]) {
            Some(name) => {
                lemma_add_local(c, cut, name);
                match c.add_local(name) {
                    Ok(c1) => {
                        lemma_add_params(c1, cut, params, from + 1);
                        match add_params(c1, params, from + 1) {
                            Ok(c2) => {
                                lemma_grows_twice(c, cut, c1, cut, c2, cut);
                            },
                            Err(_) => {},
                        }
                    },
                    Err(_) => {},
                }
            },
            None => {},
        }
    }
}

/// Compiling a function keeps the compilation tidy: the function itself is
/// finished with all its jumps landing, and the enclosing function gains the
/// instructions that make and bind its closure.
pub proof fn lemma_compile_function(
    c: CompilerView,
    cut: Cut,
    in_class: bool,
    function_type: FunctionType,
    name: &ExpressionNode,
    params: Seq<ExpressionNode>,
    body: &StatementNode,
) -> (cut2: Cut)
    requires
        tidy(c, cut),
    ensures
        cut2.pending == cut.pending,
        compile_function(c, in_class, function_type, name, params, body) matches Ok(c2) ==> tidy(
            c2,
            cut2,
        ) && grows(c, cut, c2, cut2),
    decreases body, 2int,
{
    reveal(compile_function);
    match identifier(name) {
        Some(function_name) => {
            if params.len() > 255 {
                return cut;
            }
            lemma_push_frame(c, cut, function_name, function_type, params.len() as int);
            let c0 = c.push_frame(function_name, function_type, params.len() as int);
            let cut0 = cut.enter(params.len() as int);
            lemma_begin_scope(c0, cut0);
            match c0.begin_scope() {
                Ok(c1) => {
                    lemma_add_params(c1, cut0, params, 0);
                    match add_params(c1, params, 0) {
                        Ok(c2) => {
                            lemma_grows_twice(c0, cut0, c1, cut0, c2, cut0);
                            let cut3 = lemma_compile_stmt(c2, cut0, in_class, body);
                            match compile_stmt(c2, in_class, body) {
                                Ok(c3) => {
                                    lemma_grows_twice(c0, cut0, c2, cut0, c3, cut3);
                                    let cut4 = lemma_emit_return(c3, cut3, function_type);
                                    let c4 = emit_return(c3, function_type);
                                    lemma_grows_twice(c0, cut0, c3, cut3, c4, cut4);
                                    let cut5 = lemma_end_scope(c4, cut4);
                                    let c5 = c4.end_scope();
                                    lemma_grows_twice(c0, cut0, c4, cut4, c5, cut5);
                                    assert(cut5.waiting() =~= Set::<int>::empty());
                                    let cut6 = lemma_close_function(c5, cut5);
                                    match c5.close_function() {
                                        Ok(c6) => {
                                            assert(grows(c, cut, outer(c5), cut5.outer())) by {
                                                let top = c.frames.len() - 1;
                                                assert(outer(c5).frames[top] == c5.frames[top]);
                                                assert(cut5.frames[top] == cut0.frames[top]);
                                                assert(cut0.frames[top] == cut.frames[top]);
                                                assert(c0.frames[top] == c.frames[top]);
                                                assert forall|i: int|
                                                    0 <= i < c.frames.len() - 1 implies (
                                                #[trigger] cut5.outer().frames[i]) == cut.frames[i]
                                                    && outer(c5).frames[i].function.code
                                                    == c.frames[i].function.code by {
                                                    assert(cut5.frames[i] == cut0.frames[i]);
                                                    assert(cut0.frames[i] == cut.frames[i]);
                                                    assert(c0.frames[i] == c.frames[i]);
                                                }
                                            }
                                            lemma_grows_twice(
                                                c,
                                                cut,
                                                outer(c5),
                                                cut5.outer(),
                                                c6,
                                                cut6,
                                            );
                                            assert(cut6.pending =~= cut.pending);
                                            let cut7 = lemma_bind_function(
                                                c6,
                                                cut6,
                                                function_type,
                                                function_name,
                                            );
                                            match bind_function(c6, function_type, function_name) {
                                                Ok(c7) => {
                                                    lemma_grows_twice(c, cut, c6, cut6, c7, cut7);
                                                },
                                                Err(_) => {},
                                            }
                                            cut7
                                        },
                                        Err(_) => cut,
                                    }
                                },
                                Err(_) => cut,
                            }
                        },
                        Err(_) => cut,
                    }
                },
                Err(_) => cut,
            }
        },
        None => cut,
    }
}

/// Compiling the methods of a class keeps the compilation tidy.
pub proof fn lemma_compile_methods(
    c: CompilerView,
    cut: Cut,
    stmts: Seq<StatementNode>,
    from: int,
) -> (cut2:
    Cut)
    requires
        tidy(c, cut),
    ensures
        cut2.pending == cut.pending,
        compile_methods(c, stmts, from) matches Ok(c2) ==> tidy(c2, cut2) && grows(
            c,
            cut,
            c2,
            cut2,
        ),
    decreases stmts, stmts.len() - from,
{
    reveal(compile_function);
    if from < 0 || from >= stmts.len() {
        cut
    } else {
        match &stmts[from] {
            StatementNode::Fun { name, params, body } => match identifier(name) {
                Some(method_name) => {
                    let function_type = if method_name == "init"@ {
                        FunctionType::Init
                    } else {
                        FunctionType::Method
                    };
                    let cut1 = lemma_compile_function(
                        c,
                        cut,
                        true,
                        function_type,
                        name,
                        params@,
                        body,
                    );
                    match compile_function(c, true, function_type, name, params@, body) {
                        Ok(c1) => {
                            let cut2 = lemma_compile_methods(c1, cut1, stmts, from + 1);
                            match compile_methods(c1, stmts, from + 1) {
                                Ok(c2) => {
                                    lemma_grows_twice(c, cut, c1, cut1, c2, cut2);
                                },
                                Err(_) => {},
                            }
                            cut2
                        },
                        Err(_) => cut,
                    }
                },
                None => cut,
            },
            _ => cut,
        }
    }
}

/// Compiling statements one after another keeps the compilation tidy.
pub proof fn lemma_compile_stmts(
    c: CompilerView,
    cut: Cut,
    in_class: bool,
    stmts: Seq<StatementNode>,
    from: int,
) -> (cut2:
    Cut)
    requires
        tidy(c, cut),
    ensures
        cut2.pending == cut.pending,
        compile_stmts(c, in_class, stmts, from) matches Ok(c2) ==> tidy(c2, cut2) && grows(
            c,
            cut,
            c2,
            cut2,
        ),
    decreases stmts, stmts.len() - from,
{
    if from < 0 || from >= stmts.len() {
        cut
    } else {
        let cut1 = lemma_compile_stmt(c, cut, in_class, &stmts[from]);
        match compile_stmt(c, in_class, &stmts[from]) {
            Ok(c1) => {
                let cut2 = lemma_compile_stmts(c1, cut1, in_class, stmts, from + 1);
                match compile_stmts(c1, in_class, stmts, from + 1) {
                    Ok(c2) => {
                        lemma_grows_twice(c, cut, c1, cut1, c2, cut2);
                    },
                    Err(_) => {},
                }
                cut2
            },
            Err(_) => cut,
        }
    }
}

proof fn lemma_stmt_simple(c: CompilerView, cut: Cut, in_class: bool, s: &StatementNode) -> (cut2: Cut)
    requires
        tidy(c, cut),
    ensures
        cut2.pending == cut.pending,
        stmt_simple(c, in_class, s) matches Ok(c2) ==> tidy(c2, cut2) && grows(c, cut, c2, cut2),
    decreases s, 0int,
{
    reveal(stmt_simple);
    match s {
        StatementNode::Return { value } => {
            match value {
                Some(e) => {
                    let cut1 = lemma_compile_exp(c, cut, in_class, e);
                    match compile_exp(c, in_class, e) {
                        Ok(c1) => {
                            lemma_emit1(c1, cut1, OP_RETURN);
                            let last = cut1.mark(c1.here());
                            lemma_grows_twice(c, cut, c1, cut1, c1.emit(OP_RETURN), last);
                            last
                        },
                        Err(_) => cut,
                    }
                },
                None => {
                    lemma_emit1(c, cut, OP_NULL);
                    let c1 = c.emit(OP_NULL);
                    let cut1 = cut.mark(c.here());
                    lemma_emit1(c1, cut1, OP_RETURN);
                    let last = cut1.mark(c1.here());
                    lemma_grows_twice(c, cut, c1, cut1, c1.emit(OP_RETURN), last);
                    last
                },
            }
        },
        StatementNode::Var { name, value } => {
            let cut1 = lemma_compile_exp(c, cut, in_class, value);
            match compile_exp(c, in_class, value) {
                Ok(c1) => match identifier(name) {
                    Some(variable) => {
                        let last = lemma_define(c1, cut1, variable);
                        match c1.define(variable) {
                            Ok(c2) => {
                                lemma_grows_twice(c, cut, c1, cut1, c2, last);
                            },
                            Err(_) => {},
                        }
                        last
                    },
                    None => cut,
                },
                Err(_) => cut,
            }
        },
        StatementNode::Block { stmts } => {
            lemma_begin_scope(c, cut);
            match c.begin_scope() {
                Ok(c1) => {
                    let cut2 = lemma_compile_stmts(c1, cut, in_class, stmts@, 0);
                    match compile_stmts(c1, in_class, stmts@, 0) {
                        Ok(c2) => {
                            lemma_grows_twice(c, cut, c1, cut, c2, cut2);
                            let last = lemma_end_scope(c2, cut2);
                            lemma_grows_twice(c, cut, c2, cut2, c2.end_scope(), last);
                            last
                        },
                        Err(_) => cut,
                    }
                },
                Err(_) => cut,
            }
        },
        StatementNode::Print { expression } => {
            let cut1 = lemma_compile_exp(c, cut, in_class, expression);
            match compile_exp(c, in_class, expression) {
                Ok(c1) => {
                    lemma_emit1(c1, cut1, OP_PRINT);
                    let last = cut1.mark(c1.here());
                    lemma_grows_twice(c, cut, c1, cut1, c1.emit(OP_PRINT), last);
                    last
                },
                Err(_) => cut,
            }
        },
        StatementNode::ExpStmt { expression } => {
            let cut1 = lemma_compile_exp(c, cut, in_class, expression);
            match compile_exp(c, in_class, expression) {
                Ok(c1) => {
                    lemma_emit1(c1, cut1, OP_POP);
                    let last = cut1.mark(c1.here());
                    lemma_grows_twice(c, cut, c1, cut1, c1.emit(OP_POP), last);
                    last
                },
                Err(_) => cut,
            }
        },
        _ => cut,
    }
}

proof fn lemma_stmt_if(c: CompilerView, cut: Cut, in_class: bool, s: &StatementNode) -> (cut2: Cut)
    requires
        tidy(c, cut),
    ensures
        cut2.pending == cut.pending,
        stmt_if(c, in_class, s) matches Ok(c2) ==> tidy(c2, cut2) && grows(c, cut, c2, cut2),
    decreases s, 0int,
{
    reveal(stmt_if);
    match s {
        StatementNode::If { condition, consequence, alternative } => {
            let cut1 = lemma_compile_exp(c, cut, in_class, condition);
            match compile_exp(c, in_class, condition) {
                Ok(c1) => {
                    lemma_emit_jump(c1, cut1, OP_JUMP_IF_FALSE);
                    let c2 = c1.emit_jump(OP_JUMP_IF_FALSE);
                    let cut2 = cut1.mark(c1.here()).wait_for(c1.here());
                    lemma_grows_twice(c, cut, c1, cut1, c2, cut2);
                    lemma_emit1(c2, cut2, OP_POP);
                    let cp = c2.emit(OP_POP);
                    let cutp = cut2.mark(c2.here());
                    lemma_grows_twice(c, cut, c2, cut2, cp, cutp);
                    let cut3 = lemma_compile_stmt(cp, cutp, in_class, consequence);
                    match compile_stmt(cp, in_class, consequence) {
                        Ok(c3) => {
                            lemma_grows_twice(c, cut, cp, cutp, c3, cut3);
                            lemma_emit_jump(c3, cut3, OP_JUMP);
                            let c4 = c3.emit_jump(OP_JUMP);
                            let cut4 = cut3.mark(c3.here()).wait_for(c3.here());
                            lemma_grows_twice(c, cut, c3, cut3, c4, cut4);
                            assert(cut4.waiting().contains(c1.here()));
                            lemma_patch_jump(c4, cut4, c2.here() - 2);
                            match c4.patch_jump(c2.here() - 2) {
                                Ok(c5) => {
                                    let cut5 = cut4.settle(c1.here());
                                    lemma_grows_twice(c, cut, c4, cut4, c5, cut5);
                                    lemma_emit1(c5, cut5, OP_POP);
                                    let c5p = c5.emit(OP_POP);
                                    let cut5p = cut5.mark(c5.here());
                                    lemma_grows_twice(c, cut, c5, cut5, c5p, cut5p);
                                    assert(cut5p.pending =~= cut1.wait_for(c3.here()).pending) by {
                                        assert(cut3.waiting().insert(c3.here()).remove(
                                            c1.here(),
                                        ) =~= cut1.waiting().insert(c3.here()));
                                    }
                                    assert(!cut1.waiting().contains(c3.here()));
                                    match alternative {
                                        Some(otherwise) => {
                                            let cut6 = lemma_compile_stmt(
                                                c5p,
                                                cut5p,
                                                in_class,
                                                otherwise,
                                            );
                                            match compile_stmt(c5p, in_class, otherwise) {
                                                Ok(c6) => {
                                                    lemma_grows_twice(c, cut, c5p, cut5p, c6, cut6);
                                                    lemma_settled(cut1, cut6, c3.here());
                                                    lemma_patch_jump(c6, cut6, c4.here() - 2);
                                                    match c6.patch_jump(c4.here() - 2) {
                                                        Ok(c7) => {
                                                            lemma_grows_twice(
                                                                c,
                                                                cut,
                                                                c6,
                                                                cut6,
                                                                c7,
                                                                cut6.settle(c3.here()),
                                                            );
                                                        },
                                                        Err(_) => {},
                                                    }
                                                    cut6.settle(c3.here())
                                                },
                                                Err(_) => cut,
                                            }
                                        },
                                        None => {
                                            lemma_settled(cut1, cut5p, c3.here());
                                            lemma_patch_jump(c5p, cut5p, c4.here() - 2);
                                            match c5p.patch_jump(c4.here() - 2) {
                                                Ok(c7) => {
                                                    lemma_grows_twice(
                                                        c,
                                                        cut,
                                                        c5p,
                                                        cut5p,
                                                        c7,
                                                        cut5p.settle(c3.here()),
                                                    );
                                                },
                                                Err(_) => {},
                                            }
                                            cut5p.settle(c3.here())
                                        },
                                    }
                                },
                                Err(_) => cut,
                            }
                        },
                        Err(_) => cut,
                    }
                },
                Err(_) => cut,
            }
        },
        _ => cut,
    }
}

proof fn lemma_stmt_while(c: CompilerView, cut: Cut, in_class: bool, s: &StatementNode) -> (cut2: Cut)
    requires
        tidy(c, cut),
    ensures
        cut2.pending == cut.pending,
        stmt_while(c, in_class, s) matches Ok(c2) ==> tidy(c2, cut2) && grows(c, cut, c2, cut2),
    decreases s, 0int,
{
    reveal(stmt_while);
    match s {
        StatementNode::While { condition, consequence } => {
            let cut1 = lemma_compile_exp(c, cut, in_class, condition);
            match compile_exp(c, in_class, condition) {
                Ok(c1) => {
                    lemma_emit_jump(c1, cut1, OP_JUMP_IF_FALSE);
                    let c2 = c1.emit_jump(OP_JUMP_IF_FALSE);
                    let cut2 = cut1.mark(c1.here()).wait_for(c1.here());
                    lemma_grows_twice(c, cut, c1, cut1, c2, cut2);
                    lemma_emit1(c2, cut2, OP_POP);
                    let cp = c2.emit(OP_POP);
                    let cutp = cut2.mark(c2.here());
                    lemma_grows_twice(c, cut, c2, cut2, cp, cutp);
                    let cut3 = lemma_compile_stmt(cp, cutp, in_class, consequence);
                    match compile_stmt(cp, in_class, consequence) {
                        Ok(c3) => {
                            lemma_grows_twice(c, cut, cp, cutp, c3, cut3);
                            lemma_marked_grows(c, cut, c3, cut3, c.here());
                            lemma_emit_loop(c3, cut3, c.here());
                            match c3.emit_loop(c.here()) {
                                Ok(c4) => {
                                    let cut4 = cut3.mark(c3.here());
                                    lemma_grows_twice(c, cut, c3, cut3, c4, cut4);
                                    lemma_settled(cut1, cut4, c1.here());
                                    lemma_patch_jump(c4, cut4, c2.here() - 2);
                                    match c4.patch_jump(c2.here() - 2) {
                                        Ok(c5) => {
                                            let cut5 = cut4.settle(c1.here());
                                            lemma_grows_twice(c, cut, c4, cut4, c5, cut5);
                                            lemma_emit1(c5, cut5, OP_POP);
                                            let last = cut5.mark(c5.here());
                                            lemma_grows_twice(
                                                c,
                                                cut,
                                                c5,
                                                cut5,
                                                c5.emit(OP_POP),
                                                last,
                                            );
                                            last
                                        },
                                        Err(_) => cut,
                                    }
                                },
                                Err(_) => cut,
                            }
                        },
                        Err(_) => cut,
                    }
                },
                Err(_) => cut,
            }
        },
        _ => cut,
    }
}

proof fn lemma_stmt_for(c: CompilerView, cut: Cut, in_class: bool, s: &StatementNode) -> (cut2: Cut)
    requires
        tidy(c, cut),
    ensures
        cut2.pending == cut.pending,
        stmt_for(c, in_class, s) matches Ok(c2) ==> tidy(c2, cut2) && grows(c, cut, c2, cut2),
    decreases s, 0int,
{
    reveal(stmt_for);
    match s {
        StatementNode::For { name, range, consequence } => {
            lemma_begin_scope(c, cut);
            match c.begin_scope() {
                Ok(c1) => {
                    lemma_emit1(c1, cut, OP_CONSTANT0);
                    let c1e = c1.emit(OP_CONSTANT0);
                    let cut1e = cut.mark(c1.here());
                    lemma_grows_twice(c, cut, c1, cut, c1e, cut1e);
                    lemma_add_local(c1e, cut1e, "__range_counter__"@);
                    match c1e.add_local("__range_counter__"@) {
                        Ok(c2) => {
                            lemma_grows_twice(c, cut, c1e, cut1e, c2, cut1e);
                            let cut2s = lemma_emit_slot(
                                c2,
                                cut1e,
                                OP_GET_LOCAL,
                                "__range_counter__"@,
                            );
                            let c2s = emit_slot(c2, OP_GET_LOCAL, "__range_counter__"@);
                            lemma_grows_twice(c, cut, c2, cut1e, c2s, cut2s);
                            let cut3 = lemma_compile_exp(c2s, cut2s, in_class, range);
                            match compile_exp(c2s, in_class, range) {
                                Ok(c3) => {
                                    lemma_grows_twice(c, cut, c2s, cut2s, c3, cut3);
                                    lemma_grows_twice(c2, cut1e, c2s, cut2s, c3, cut3);
                                    lemma_emit_jump(c3, cut3, OP_JUMP_IF_RANGE_END);
                                    let c4 = c3.emit_jump(OP_JUMP_IF_RANGE_END);
                                    let cut4 = cut3.mark(c3.here()).wait_for(c3.here());
                                    lemma_grows_twice(c, cut, c3, cut3, c4, cut4);
                                    lemma_grows_twice(c2, cut1e, c3, cut3, c4, cut4);
                                    match identifier(name) {
                                        Some(variable) => {
                                            let cut4s = lemma_emit_slot(
                                                c4,
                                                cut4,
                                                OP_COUNTUP,
                                                "__range_counter__"@,
                                            );
                                            let c4s = emit_slot(
                                                c4,
                                                OP_COUNTUP,
                                                "__range_counter__"@,
                                            );
                                            lemma_grows_twice(c, cut, c4, cut4, c4s, cut4s);
                                            lemma_grows_twice(c2, cut1e, c4, cut4, c4s, cut4s);
                                            lemma_add_local(c4s, cut4s, variable);
                                            match c4s.add_local(variable) {
                                                Ok(c5) => {
                                                    lemma_grows_twice(
                                                        c,
                                                        cut,
                                                        c4s,
                                                        cut4s,
                                                        c5,
                                                        cut4s,
                                                    );
                                                    lemma_grows_twice(
                                                        c2,
                                                        cut1e,
                                                        c4s,
                                                        cut4s,
                                                        c5,
                                                        cut4s,
                                                    );
                                                    let cut6 = lemma_compile_stmt(
                                                        c5,
                                                        cut4s,
                                                        in_class,
                                                        consequence,
                                                    );
                                                    match compile_stmt(c5, in_class, consequence) {
                                                        Ok(c6) => {
                                                            lemma_grows_twice(
                                                                c,
                                                                cut,
                                                                c5,
                                                                cut4s,
                                                                c6,
                                                                cut6,
                                                            );
                                                            lemma_grows_twice(
                                                                c2,
                                                                cut1e,
                                                                c5,
                                                                cut4s,
                                                                c6,
                                                                cut6,
                                                            );
                                                            lemma_emit1(c6, cut6, OP_POP);
                                                            let c6p = c6.emit(OP_POP);
                                                            let cut6p = cut6.mark(c6.here());
                                                            lemma_grows_twice(
                                                                c,
                                                                cut,
                                                                c6,
                                                                cut6,
                                                                c6p,
                                                                cut6p,
                                                            );
                                                            lemma_grows_twice(
                                                                c2,
                                                                cut1e,
                                                                c6,
                                                                cut6,
                                                                c6p,
                                                                cut6p,
                                                            );
                                                            lemma_marked_grows(
                                                                c2,
                                                                cut1e,
                                                                c6p,
                                                                cut6p,
                                                                c2.here(),
                                                            );
                                                            lemma_emit_loop(c6p, cut6p, c2.here());
                                                            match c6p.emit_loop(c2.here()) {
                                                                Ok(c7) => {
                                                                    let cut7 = cut6p.mark(
                                                                        c6p.here(),
                                                                    );
                                                                    lemma_grows_twice(
                                                                        c,
                                                                        cut,
                                                                        c6p,
                                                                        cut6p,
                                                                        c7,
                                                                        cut7,
                                                                    );
                                                                    lemma_settled(
                                                                        cut3,
                                                                        cut7,
                                                                        c3.here(),
                                                                    );
                                                                    lemma_patch_jump(
                                                                        c7,
                                                                        cut7,
                                                                        c4.here() - 2,
                                                                    );
                                                                    match c7.patch_jump(
                                                                        c4.here() - 2,
                                                                    ) {
                                                                        Ok(c8) => {
                                                                            let cut8 = cut7.settle(
                                                                                c3.here(),
                                                                            );
                                                                            lemma_grows_twice(
                                                                                c,
                                                                                cut,
                                                                                c7,
                                                                                cut7,
                                                                                c8,
                                                                                cut8,
                                                                            );
                                                                            let last =
                                                                                lemma_end_scope(
                                                                                c8,
                                                                                cut8,
                                                                            );
                                                                            lemma_grows_twice(
                                                                                c,
                                                                                cut,
                                                                                c8,
                                                                                cut8,
                                                                                c8.end_scope(),
                                                                                last,
                                                                            );
                                                                            last
                                                                        },
                                                                        Err(_) => cut,
                                                                    }
                                                                },
                                                                Err(_) => cut,
                                                            }
                                                        },
                                                        Err(_) => cut,
                                                    }
                                                },
                                                Err(_) => cut,
                                            }
                                        },
                                        None => cut,
                                    }
                                },
                                Err(_) => cut,
                            }
                        },
                        Err(_) => cut,
                    }
                },
                Err(_) => cut,
            }
        },
        _ => cut,
    }
}

proof fn lemma_stmt_class(c: CompilerView, cut: Cut, in_class: bool, s: &StatementNode) -> (cut2: Cut)
    requires
        tidy(c, cut),
    ensures
        cut2.pending == cut.pending,
        stmt_class(c, in_class, s) matches Ok(c2) ==> tidy(c2, cut2) && grows(c, cut, c2, cut2),
    decreases s, 0int,
{
    reveal(stmt_class);
    match s {
        StatementNode::Class { name, body, super_class } => match identifier(name) {
            Some(class_name) => {
                let cut1 = lemma_declare_class(c, cut, class_name);
                match declare_class(c, class_name) {
                    Ok(c1) => {
                        let cut2 = match super_class {
                            Some(parent) => lemma_inherit(c1, cut1, class_name, parent),
                            None => cut1,
                        };
                        let inherited = match super_class {
                            Some(parent) => inherit(c1, class_name, parent),
                            None => Ok(c1),
                        };
                        match inherited {
                            Ok(c2) => {
                                lemma_grows_twice(c, cut, c1, cut1, c2, cut2);
                                lemma_load(c2, cut2, class_name);
                                let cut3 = cut2.mark(c2.here());
                                match c2.load(class_name) {
                                    Ok(c3) => {
                                        lemma_grows_twice(c, cut, c2, cut2, c3, cut3);
                                        match &**body {
                                            StatementNode::Block { stmts } => {
                                                let cut4 = lemma_compile_methods(
                                                    c3,
                                                    cut3,
                                                    stmts@,
                                                    0,
                                                );
                                                match compile_methods(c3, stmts@, 0) {
                                                    Ok(c4) => {
                                                        lemma_grows_twice(
                                                            c,
                                                            cut,
                                                            c3,
                                                            cut3,
                                                            c4,
                                                            cut4,
                                                        );
                                                        lemma_emit1(c4, cut4, OP_POP);
                                                        let c5 = c4.emit(OP_POP);
                                                        let cut5 = cut4.mark(c4.here());
                                                        lemma_grows_twice(
                                                            c,
                                                            cut,
                                                            c4,
                                                            cut4,
                                                            c5,
                                                            cut5,
                                                        );
                                                        if super_class.is_some() {
                                                            let last = lemma_end_scope(c5, cut5);
                                                            lemma_grows_twice(
                                                                c,
                                                                cut,
                                                                c5,
                                                                cut5,
                                                                c5.end_scope(),
                                                                last,
                                                            );
                                                            last
                                                        } else {
                                                            cut5
                                                        }
                                                    },
                                                    Err(_) => cut,
                                                }
                                            },
                                            _ => cut,
                                        }
                                    },
                                    Err(_) => cut,
                                }
                            },
                            Err(_) => cut,
                        }
                    },
                    Err(_) => cut,
                }
            },
            None => cut,
        },
        _ => cut,
    }
}

/// Compiling a statement keeps the compilation tidy: the current function
/// grows by whole instructions, every jump of which lands on a mark, and the
/// functions declared in the statement are finished with all their jumps
/// landing.
pub proof fn lemma_compile_stmt(
    c: CompilerView,
    cut: Cut,
    in_class: bool,
    s: &StatementNode,
) -> (cut2:
    Cut)
    requires
        tidy(c, cut),
    ensures
        cut2.pending == cut.pending,
        compile_stmt(c, in_class, s) matches Ok(c2) ==> tidy(c2, cut2) && grows(c, cut, c2, cut2),
    decreases s, 1int,
{
    reveal(stmt_class);
    reveal(stmt_for);
    reveal(stmt_if);
    reveal(stmt_while);
    reveal(stmt_simple);
    reveal(compile_function);
    match s {
        StatementNode::Class { .. } => lemma_stmt_class(c, cut, in_class, s),
        StatementNode::For { .. } => lemma_stmt_for(c, cut, in_class, s),
        StatementNode::Fun { name, params, body } => lemma_compile_function(
            c,
            cut,
            in_class,
            FunctionType::Function,
            name,
            params@,
            body,
        ),
        StatementNode::If { .. } => lemma_stmt_if(c, cut, in_class, s),
        StatementNode::While { .. } => lemma_stmt_while(c, cut, in_class, s),
        _ => lemma_stmt_simple(c, cut, in_class, s),
    }
}

/// In every function of a compiled script, every jump instruction goes to a
/// place within the code of the function that is an opcode boundary, and
/// the code ends on an opcode boundary.
pub proof fn lemma_jumps_land(stmts: Seq<StatementNode>)
    ensures
        compiled(stmts) matches Ok(script) ==> forall|f: int|
            0 <= f < script.functions.len() ==> jumps_land(
                #[trigger] script.functions[f],
                script.functions,
            ) && boundary(script.functions[f], script.functions, script.functions[f].code.len() as int),
{
    let c0 = CompilerView::root("__main__"@, FunctionType::Script, 0);
    let cut0 = Cut {
        frames: seq![Seq::<int>::empty()],
        done: Seq::empty(),
        pending: seq![Set::<int>::empty()],
        heights: seq![Seq::<int>::empty()],
        done_heights: Seq::empty(),
        done_now: Seq::empty(),
        now: seq![1int],
        owed: seq![Map::<int, int>::empty()],
    };
    assert(tidy(c0, cut0)) by {
        assert forall|i: int| 0 <= i < c0.frames.len() implies #[trigger] frame_cut(c0, cut0, i) by {}
    }
    let cut1 = lemma_compile_stmts(c0, cut0, false, stmts, 0);
    match compile_stmts(c0, false, stmts, 0) {
        Ok(c) => {
            let script = finished(c);
            assert forall|f: int| 0 <= f < script.functions.len() implies jumps_land(
                #[trigger] script.functions[f],
                script.functions,
            ) && boundary(
                script.functions[f],
                script.functions,
                script.functions[f].code.len() as int,
            ) by {
                if f < c.functions.len() {
                    assert(done_cut(c, cut1, f));
                    lemma_grow_tables(
                        c.functions[f].code,
                        c.functions[f].constants,
                        c.functions,
                        cut1.done[f],
                        Set::empty(),
                        c.functions[f].constants,
                        script.functions,
                    );
                    lemma_well_cut_lands(script.functions[f], script.functions, cut1.done[f]);
                } else {
                    let top = c.frames.len() - 1;
                    assert(c.frames.len() == 1);
                    assert(frame_cut(c, cut1, top));
                    assert(cut1.pending[top] =~= Set::<int>::empty());
                    lemma_grow_tables(
                        c.top().function.code,
                        c.top().function.constants,
                        c.functions,
                        cut1.top(),
                        Set::empty(),
                        c.top().function.constants,
                        script.functions,
                    );
                    lemma_well_cut_lands(script.functions[f], script.functions, cut1.top());
                }
            }
        },
        Err(_) => {},
    }
}

} // verus!
