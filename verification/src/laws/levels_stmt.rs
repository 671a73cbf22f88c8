//! A plain statement leaves the stack as it found it, but for the locals it
//! declares; and so every function of a plain script has level code.
use vstd::prelude::*;
use super::jumps::{frame_cut, lemma_marked_grows, Cut};
use super::jumps_fun::outer;
use super::levels::{branch, done_level, frame_level, has_height, level_code, sound};
use super::levels_exp::level_compile_exp;
use super::levels_fun::{
    level_add_params, level_bind_function, level_close_function, level_declare_class,
    level_emit_return, level_push_frame, level_slot_count, level_slot_get,
};
use super::levels_prim::{calm, 
    depths, depths_of, effect0, kept, lemma_begun, lemma_moved_twice, lemma_ordered,
    lemma_scope_closed, lemma_shifted_twice, level_add_local, level_begin_scope, level_define,
    level_emit1, level_end_scope, level_jump, level_load, level_loop, level_patch, moved, ordered,
    same_debts, shifted, still, surplus,
};
use super::marks::{lemma_grow_tables, well_cut};
use super::plain::{
    closed_stmt, lemma_plain_all_anywhere, lemma_plain_anywhere, plain_methods, plain_stmt,
    plain_stmts,
};
use crate::compiler::ast::{ExpressionNode, StatementNode};
use crate::compiler::model::{
    add_params, bind_function, compile_exp, compile_function, compile_methods, compile_stmt,
    compile_stmts, declare_class, emit_return, emit_slot, identifier, inherit, stmt_class,
    stmt_for, stmt_if, stmt_simple, stmt_while, CompilerView,
};
use crate::compiler::object::{FunctionType, FunctionView};
use crate::compiler::{compiled, finished};
use crate::vm::chunk::{
    OP_CONSTANT0, OP_COUNTUP, OP_GET_LOCAL, OP_INHERIT, OP_JUMP, OP_JUMP_IF_FALSE,
    OP_JUMP_IF_RANGE_END, OP_NULL, OP_POP, OP_PRINT, OP_RETURN,
};

verus! {

/// A function with plain body compiles to level code, and what it leaves in
/// the enclosing function takes nothing and leaves nothing on the stack but
/// the local that the function is bound to, if it is bound to one.
pub proof fn level_compile_function(
    c: CompilerView,
    cut: Cut,
    in_class: bool,
    function_type: FunctionType,
    name: &ExpressionNode,
    params: Seq<ExpressionNode>,
    body: &StatementNode,
) -> (cut2: Cut)
    requires
        sound(c, cut),
        ordered(c),
        plain_stmt(body, false),
    ensures
        same_debts(cut, cut2),
        compile_function(c, in_class, function_type, name, params, body) matches Ok(c2) ==> moved(
            c,
            cut,
            c2,
            cut2,
            0,
        ) && ((function_type is Method || function_type is Init || c.top().scope_depth == 0)
            ==> still(c, c2)),
    decreases body, 2int,
{
    reveal(compile_function);
    reveal(bind_function);
    match identifier(name) {
        Some(function_name) => {
            if params.len() > 255 {
                return cut;
            }
            let arity = params.len() as int;
            level_push_frame(c, cut, function_name, function_type, arity);
            let c0 = c.push_frame(function_name, function_type, arity);
            let cut0 = cut.enter(arity);
            level_begin_scope(c0, cut0);
            match c0.begin_scope() {
                Ok(c1) => {
                    assert(ordered(c1)) by {
                        assert forall|i: int| 0 <= i < depths(c1).len() implies #[trigger] depths(
                            c1,
                        )[i] <= c1.top().scope_depth by {
                            assert(depths(c1)[i] == depths(c0)[i]);
                        }
                    }
                    level_add_params(c1, cut0, params, 0);
                    match add_params(c1, params, 0) {
                        Ok(c2) => {
                            lemma_shifted_twice(c0, cut0, c1, cut0, 0, c2, cut0, -arity);
                            lemma_ordered(c1, c2);
                            lemma_plain_anywhere(body, c2.top().scope_depth == 0);
                            let cut3 = level_compile_stmt(c2, cut0, in_class, body);
                            match compile_stmt(c2, in_class, body) {
                                Ok(c3) => {
                                    lemma_shifted_twice(c0, cut0, c2, cut0, -arity, c3, cut3, 0);
                                    let cut4 = level_emit_return(c3, cut3, function_type);
                                    let c4 = emit_return(c3, function_type);
                                    lemma_shifted_twice(c0, cut0, c3, cut3, -arity, c4, cut4, 0);
                                    let cut5 = level_end_scope(c4, cut4);
                                    let c5 = c4.end_scope();
                                    lemma_shifted_twice(c0, cut0, c4, cut4, -arity, c5, cut5, 0);
                                    assert(cut5.waiting() =~= Set::<int>::empty());
                                    assert(cut5.owed.last() =~= Map::<int, int>::empty());
                                    let cut6 = level_close_function(c5, cut5);
                                    match c5.close_function() {
                                        Ok(c6) => {
                                            let top = c.frames.len() - 1;
                                            assert(outer(c5).frames[top] == c5.frames[top]);
                                            assert(c0.frames[top] == c.frames[top]);
                                            assert(cut5.frames[top] == cut0.frames[top]);
                                            assert(cut0.frames[top] == cut.frames[top]);
                                            assert(cut5.heights[top] == cut0.heights[top]);
                                            assert(cut0.heights[top] == cut.heights[top]);
                                            assert(cut5.now[top] == cut0.now[top]);
                                            assert(cut0.now[top] == cut.now[top]);
                                            assert(cut5.owed[top] == cut0.owed[top]);
                                            assert(cut5.pending[top] == cut0.pending[top]);
                                            assert(depths_of(c5, top) == depths_of(c0, top));
                                            assert(c5.frames[top].function.arity
                                                == c0.frames[top].function.arity);
                                            assert(depths(outer(c5)) =~= depths(c));
                                            assert(outer(c5).top() == c5.frames[top]);
                                            assert(cut5.outer().top() == cut5.frames[top]);
                                            assert(cut5.outer().height() == cut5.now[top]);
                                            assert(cut5.outer().heights.last()
                                                == cut5.heights[top]);
                                            assert(c5.frames[top].function.code
                                                == c0.frames[top].function.code);
                                            assert(outer(c5).here() == c.here());
                                            assert(sound(outer(c5), cut5.outer()));
                                            assert(surplus(outer(c5), cut5.outer()) == surplus(c, cut));
                                            assert(super::jumps::grows(c, cut, outer(c5), cut5.outer())) by {
                                                assert forall|i: int|
                                                    0 <= i < c.frames.len() - 1 implies (
                                                #[trigger] cut5.outer().frames[i]) == cut.frames[i]
                                                    && outer(c5).frames[i].function.code
                                                    == c.frames[i].function.code by {
                                                    assert(cut5.frames[i] == cut0.frames[i]);
                                                    assert(cut0.frames[i] == cut.frames[i]);
                                                    assert(c0.frames[i] == c.frames[i]);
                                                }
                                            }
                                            assert(shifted(c, cut, outer(c5), cut5.outer(), 0)) by {
                                                assert forall|i: int|
                                                    0 <= i < c.frames.len() - 1 implies (
                                                #[trigger] cut5.outer().frames[i]) == cut.frames[i]
                                                    && outer(c5).frames[i].function.code
                                                    == c.frames[i].function.code by {
                                                    assert(cut5.frames[i] == cut0.frames[i]);
                                                    assert(cut0.frames[i] == cut.frames[i]);
                                                    assert(c0.frames[i] == c.frames[i]);
                                                }
                                                assert forall|i: int|
                                                    0 <= i < c.frames.len() - 1 implies (
                                                #[trigger] cut5.outer().heights[i])
                                                    == cut.heights[i] && cut5.outer().now[i]
                                                    == cut.now[i] && cut5.outer().owed[i]
                                                    == cut.owed[i] && cut5.outer().pending[i]
                                                    == cut.pending[i] by {
                                                    assert(cut5.heights[i] == cut0.heights[i]);
                                                    assert(cut0.heights[i] == cut.heights[i]);
                                                }
                                                assert forall|i: int|
                                                    0 <= i < c.frames.len() - 1 implies (
                                                #[trigger] outer(c5).frames[i]).scope_depth
                                                    == c.frames[i].scope_depth && depths_of(
                                                    outer(c5),
                                                    i,
                                                ) == depths_of(c, i) && outer(
                                                    c5,
                                                ).frames[i].function.arity
                                                    == c.frames[i].function.arity by {
                                                    assert(c5.frames[i].scope_depth
                                                        == c0.frames[i].scope_depth);
                                                    assert(c0.frames[i] == c.frames[i]);
                                                    assert(depths_of(outer(c5), i) =~= depths_of(
                                                        c5,
                                                        i,
                                                    ));
                                                    assert(depths_of(c0, i) =~= depths_of(c, i));
                                                }
                                                assert(calm(c, outer(c5)));
                                                assert(outer(c5).top().function.arity
                                                    == c.top().function.arity);
                                                assert(surplus(outer(c5), cut5.outer())
                                                    == surplus(c, cut));
                                            }
                                            assert(still(c, outer(c5)));
                                            assert(kept(c, outer(c5)));
                                            lemma_shifted_twice(
                                                c,
                                                cut,
                                                outer(c5),
                                                cut5.outer(),
                                                0,
                                                c6,
                                                cut6,
                                                1,
                                            );
                                            assert(moved(c, cut, c6, cut6, 1));
                                            let cut7 = level_bind_function(
                                                c6,
                                                cut6,
                                                function_type,
                                                function_name,
                                            );
                                            match bind_function(c6, function_type, function_name) {
                                                Ok(c7) => {
                                                    lemma_moved_twice(
                                                        c,
                                                        cut,
                                                        c6,
                                                        cut6,
                                                        1,
                                                        c7,
                                                        cut7,
                                                        -1,
                                                    );
                                                    if function_type is Method
                                                        || function_type is Init {
                                                        super::levels_prim::level_emit_text(
                                                            c6,
                                                            cut6,
                                                            crate::vm::chunk::OP_METHOD,
                                                            function_name,
                                                        );
                                                    }
                                                },
                                                Err(_) => {},
                                            }
                                            cut7
                                        },
                                        Err(_) => cut,
                                    }
                                },
                                Err(_) => cut,
                            }
                        },
                        Err(_) => cut,
                    }
                },
                Err(_) => cut,
            }
        },
        None => cut,
    }
}

/// The methods of a class with plain bodies leave the stack as it is.
pub proof fn level_compile_methods(
    c: CompilerView,
    cut: Cut,
    stmts: Seq<StatementNode>,
    from: int,
) -> (cut2:
    Cut)
    requires
        sound(c, cut),
        ordered(c),
        plain_methods(stmts, from),
        0 <= from <= stmts.len(),
    ensures
        same_debts(cut, cut2),
        compile_methods(c, stmts, from) matches Ok(c2) ==> moved(c, cut, c2, cut2, 0) && still(
            c,
            c2,
        ),
    decreases stmts, stmts.len() - from,
{
    reveal(compile_function);
    if from >= stmts.len() {
        assert(kept(c, c));
        cut
    } else {
        match &stmts[from] {
            StatementNode::Fun { name, params, body } => match identifier(name) {
                Some(method_name) => {
                    let function_type = if method_name == "init"@ {
                        FunctionType::Init
                    } else {
                        FunctionType::Method
                    };
                    let cut1 = level_compile_function(
                        c,
                        cut,
                        true,
                        function_type,
                        name,
                        params@,
                        body,
                    );
                    match compile_function(c, true, function_type, name, params@, body) {
                        Ok(c1) => {
                            lemma_ordered(c, c1);
                            let cut2 = level_compile_methods(c1, cut1, stmts, from + 1);
                            match compile_methods(c1, stmts, from + 1) {
                                Ok(c2) => {
                                    lemma_moved_twice(c, cut, c1, cut1, 0, c2, cut2, 0);
                                },
                                Err(_) => {},
                            }
                            cut2
                        },
                        Err(_) => cut,
                    }
                },
                None => cut,
            },
            _ => cut,
        }
    }
}

/// Plain statements one after another leave the stack as it is, but for the
/// locals they declare.
pub proof fn level_compile_stmts(
    c: CompilerView,
    cut: Cut,
    in_class: bool,
    stmts: Seq<StatementNode>,
    from: int,
) -> (cut2:
    Cut)
    requires
        sound(c, cut),
        ordered(c),
        plain_stmts(stmts, from, c.top().scope_depth == 0),
        0 <= from <= stmts.len(),
    ensures
        same_debts(cut, cut2),
        compile_stmts(c, in_class, stmts, from) matches Ok(c2) ==> moved(c, cut, c2, cut2, 0),
    decreases stmts, stmts.len() - from,
{
    if from >= stmts.len() {
        assert(kept(c, c));
        cut
    } else {
        let cut1 = level_compile_stmt(c, cut, in_class, &stmts[from]);
        match compile_stmt(c, in_class, &stmts[from]) {
            Ok(c1) => {
                lemma_ordered(c, c1);
                let cut2 = level_compile_stmts(c1, cut1, in_class, stmts, from + 1);
                match compile_stmts(c1, in_class, stmts, from + 1) {
                    Ok(c2) => {
                        lemma_moved_twice(c, cut, c1, cut1, 0, c2, cut2, 0);
                    },
                    Err(_) => {},
                }
                cut2
            },
            Err(_) => cut,
        }
    }
}

proof fn level_stmt_simple(c: CompilerView, cut: Cut, in_class: bool, s: &StatementNode) -> (cut2: Cut)
    requires
        sound(c, cut),
        ordered(c),
        plain_stmt(s, c.top().scope_depth == 0),
        s is Return || s is Var || s is Block || s is Print || s is ExpStmt,
    ensures
        same_debts(cut, cut2),
        stmt_simple(c, in_class, s) matches Ok(c2) ==> moved(c, cut, c2, cut2, 0) && (closed_stmt(s)
            || c.top().scope_depth == 0 ==> still(c, c2)),
    decreases s, 0int,
{
    reveal(stmt_simple);
    match s {
        StatementNode::Return { value } => {
            match value {
                Some(e) => {
                    let cut1 = level_compile_exp(c, cut, in_class, e);
                    match compile_exp(c, in_class, e) {
                        Ok(c1) => {
                            let cut2 = level_emit1(c1, cut1, OP_RETURN);
                            let c2 = c1.emit(OP_RETURN);
                            lemma_moved_twice(c, cut, c1, cut1, 1int, c2, cut2, effect0(OP_RETURN));
                            lemma_begun(c, cut, c1, cut1, 1int, c2, cut2, effect0(OP_RETURN));
                            cut2
                        },
                        Err(_) => cut,
                    }
                },
                None => {
                    let cut1 = level_emit1(c, cut, OP_NULL);
                    let c1 = c.emit(OP_NULL);
                    let cut2 = level_emit1(c1, cut1, OP_RETURN);
                    let c2 = c1.emit(OP_RETURN);
                    lemma_moved_twice(
                        c,
                        cut,
                        c1,
                        cut1,
                        effect0(OP_NULL),
                        c2,
                        cut2,
                        effect0(OP_RETURN),
                    );
                    lemma_begun(c, cut, c1, cut1, effect0(OP_NULL), c2, cut2, effect0(OP_RETURN));
                    cut2
                },
            }
        },
        StatementNode::Var { name, value } => {
            let cut1 = level_compile_exp(c, cut, in_class, value);
            match compile_exp(c, in_class, value) {
                Ok(c1) => {
                    match identifier(name) {
                        Some(variable) => {
                            let cut3 = level_define(c1, cut1, variable);
                            match c1.define(variable) {
                                Ok(c3) => {
                                    lemma_moved_twice(c, cut, c1, cut1, 1int, c3, cut3, -1int);
                                    lemma_begun(c, cut, c1, cut1, 1int, c3, cut3, -1int);
                                    cut3
                                },
                                Err(_) => cut,
                            }
                        },
                        None => cut,
                    }
                },
                Err(_) => cut,
            }
        },
        StatementNode::Block { stmts } => {
            level_begin_scope(c, cut);
            match c.begin_scope() {
                Ok(c1) => {
                    assert(ordered(c1)) by {
                        assert forall|i: int| 0 <= i < depths(c1).len() implies #[trigger] depths(c1)[i] <= c1.top().scope_depth by {
                            assert(depths(c1)[i] == depths(c)[i]);
                        }
                    }
                    lemma_plain_all_anywhere(stmts@, 0, c1.top().scope_depth == 0);
                    let cut2 = level_compile_stmts(c1, cut, in_class, stmts@, 0);
                    match compile_stmts(c1, in_class, stmts@, 0) {
                        Ok(c2) => {
                            let cut3 = level_end_scope(c2, cut2);
                            let c3 = c2.end_scope();
                            lemma_scope_closed(c, cut, c1, c2, cut2, 0int, cut3);
                            cut3
                        },
                        Err(_) => cut,
                    }
                },
                Err(_) => cut,
            }
        },
        StatementNode::Print { expression } => {
            let cut1 = level_compile_exp(c, cut, in_class, expression);
            match compile_exp(c, in_class, expression) {
                Ok(c1) => {
                    let cut2 = level_emit1(c1, cut1, OP_PRINT);
                    let c2 = c1.emit(OP_PRINT);
                    lemma_moved_twice(c, cut, c1, cut1, 1int, c2, cut2, effect0(OP_PRINT));
                    lemma_begun(c, cut, c1, cut1, 1int, c2, cut2, effect0(OP_PRINT));
                    cut2
                },
                Err(_) => cut,
            }
        },
        StatementNode::ExpStmt { expression } => {
            let cut1 = level_compile_exp(c, cut, in_class, expression);
            match compile_exp(c, in_class, expression) {
                Ok(c1) => {
                    let cut2 = level_emit1(c1, cut1, OP_POP);
                    let c2 = c1.emit(OP_POP);
                    lemma_moved_twice(c, cut, c1, cut1, 1int, c2, cut2, effect0(OP_POP));
                    lemma_begun(c, cut, c1, cut1, 1int, c2, cut2, effect0(OP_POP));
                    cut2
                },
                Err(_) => cut,
            }
        },
        _ => cut,
    }
}

proof fn level_stmt_if(c: CompilerView, cut: Cut, in_class: bool, s: &StatementNode) -> (cut2: Cut)
    requires
        sound(c, cut),
        ordered(c),
        plain_stmt(s, c.top().scope_depth == 0),
        s is If,
    ensures
        same_debts(cut, cut2),
        stmt_if(c, in_class, s) matches Ok(c2) ==> moved(c, cut, c2, cut2, 0) && (closed_stmt(s)
            || c.top().scope_depth == 0 ==> still(c, c2)),
    decreases s, 0int,
{
    reveal(stmt_if);
    match s {
        StatementNode::If { condition, consequence, alternative } => {
            match alternative {
                Some(otherwise) => {
                    let cut1 = level_compile_exp(c, cut, in_class, condition);
                    match compile_exp(c, in_class, condition) {
                        Ok(c1) => {
                            let cut2 = level_jump(c1, cut1, OP_JUMP_IF_FALSE);
                            let c2 = c1.emit_jump(OP_JUMP_IF_FALSE);
                            lemma_moved_twice(
                                c,
                                cut,
                                c1,
                                cut1,
                                1int,
                                c2,
                                cut2,
                                branch(OP_JUMP_IF_FALSE),
                            );
                            lemma_begun(c, cut, c1, cut1, 1int, c2, cut2, branch(OP_JUMP_IF_FALSE));
                            let cut3 = level_emit1(c2, cut2, OP_POP);
                            let c3 = c2.emit(OP_POP);
                            lemma_moved_twice(
                                c,
                                cut,
                                c2,
                                cut2,
                                1int + branch(OP_JUMP_IF_FALSE),
                                c3,
                                cut3,
                                effect0(OP_POP),
                            );
                            lemma_begun(
                                c,
                                cut,
                                c2,
                                cut2,
                                1int + branch(OP_JUMP_IF_FALSE),
                                c3,
                                cut3,
                                effect0(OP_POP),
                            );
                            lemma_ordered(c, c3);
                            let cut4 = level_compile_stmt(c3, cut3, in_class, consequence);
                            match compile_stmt(c3, in_class, consequence) {
                                Ok(c4) => {
                                    lemma_moved_twice(
                                        c,
                                        cut,
                                        c3,
                                        cut3,
                                        (1int + branch(OP_JUMP_IF_FALSE)) + effect0(OP_POP),
                                        c4,
                                        cut4,
                                        0int,
                                    );
                                    lemma_begun(
                                        c,
                                        cut,
                                        c3,
                                        cut3,
                                        (1int + branch(OP_JUMP_IF_FALSE)) + effect0(OP_POP),
                                        c4,
                                        cut4,
                                        0int,
                                    );
                                    let cut5 = level_jump(c4, cut4, OP_JUMP);
                                    let c5 = c4.emit_jump(OP_JUMP);
                                    lemma_moved_twice(
                                        c,
                                        cut,
                                        c4,
                                        cut4,
                                        ((1int + branch(OP_JUMP_IF_FALSE)) + effect0(OP_POP)),
                                        c5,
                                        cut5,
                                        0int,
                                    );
                                    lemma_begun(
                                        c,
                                        cut,
                                        c4,
                                        cut4,
                                        ((1int + branch(OP_JUMP_IF_FALSE)) + effect0(OP_POP)),
                                        c5,
                                        cut5,
                                        0int,
                                    );
                                    assert(cut5.waiting().contains(c1.here()));
                                    assert(cut5.owed.last()[c1.here()] == cut1.height() + branch(OP_JUMP_IF_FALSE));
                                    let cut6 = level_patch(c5, cut5, c2.here() - 2);
                                    match c5.patch_jump(c2.here() - 2) {
                                        Ok(c6) => {
                                            lemma_moved_twice(
                                                c,
                                                cut,
                                                c5,
                                                cut5,
                                                (((1int + branch(OP_JUMP_IF_FALSE)) + effect0(OP_POP))),
                                                c6,
                                                cut6,
                                                cut5.owed.last()[c1.here()] - cut5.height(),
                                            );
                                            lemma_begun(
                                                c,
                                                cut,
                                                c5,
                                                cut5,
                                                (((1int + branch(OP_JUMP_IF_FALSE)) + effect0(OP_POP))),
                                                c6,
                                                cut6,
                                                cut5.owed.last()[c1.here()] - cut5.height(),
                                            );
                                            assert(
                                                moved(
                                                    c,
                                                    cut,
                                                    c6,
                                                    cut6,
                                                    1int + branch(OP_JUMP_IF_FALSE),
                                                )
                                            );
                                            let cut7 = level_emit1(c6, cut6, OP_POP);
                                            let c7 = c6.emit(OP_POP);
                                            lemma_moved_twice(
                                                c,
                                                cut,
                                                c6,
                                                cut6,
                                                1int + branch(OP_JUMP_IF_FALSE),
                                                c7,
                                                cut7,
                                                effect0(OP_POP),
                                            );
                                            lemma_begun(
                                                c,
                                                cut,
                                                c6,
                                                cut6,
                                                1int + branch(OP_JUMP_IF_FALSE),
                                                c7,
                                                cut7,
                                                effect0(OP_POP),
                                            );
                                            lemma_ordered(c, c7);
                                            let cut8 = level_compile_stmt(
                                                c7,
                                                cut7,
                                                in_class,
                                                otherwise,
                                            );
                                            match compile_stmt(c7, in_class, otherwise) {
                                                Ok(c8) => {
                                                    lemma_moved_twice(
                                                        c,
                                                        cut,
                                                        c7,
                                                        cut7,
                                                        (1int + branch(OP_JUMP_IF_FALSE)) + effect0(OP_POP),
                                                        c8,
                                                        cut8,
                                                        0int,
                                                    );
                                                    lemma_begun(
                                                        c,
                                                        cut,
                                                        c7,
                                                        cut7,
                                                        (1int + branch(OP_JUMP_IF_FALSE)) + effect0(OP_POP),
                                                        c8,
                                                        cut8,
                                                        0int,
                                                    );
                                                    assert(cut8.waiting().contains(c4.here()));
                                                    assert(cut8.owed.last()[c4.here()] == cut4.height() + branch(OP_JUMP));
                                                    let cut9 = level_patch(c8, cut8, c5.here() - 2);
                                                    match c8.patch_jump(c5.here() - 2) {
                                                        Ok(c9) => {
                                                            lemma_moved_twice(
                                                                c,
                                                                cut,
                                                                c8,
                                                                cut8,
                                                                ((1int + branch(OP_JUMP_IF_FALSE)) + effect0(OP_POP)),
                                                                c9,
                                                                cut9,
                                                                cut8.owed.last()[c4.here()] - cut8.height(),
                                                            );
                                                            lemma_begun(
                                                                c,
                                                                cut,
                                                                c8,
                                                                cut8,
                                                                ((1int + branch(OP_JUMP_IF_FALSE)) + effect0(OP_POP)),
                                                                c9,
                                                                cut9,
                                                                cut8.owed.last()[c4.here()] - cut8.height(),
                                                            );
                                                            assert(
                                                                moved(
                                                                    c,
                                                                    cut,
                                                                    c9,
                                                                    cut9,
                                                                    (((1int + branch(OP_JUMP_IF_FALSE)) + effect0(OP_POP))) + branch(OP_JUMP),
                                                                )
                                                            );
                                                            assert(cut9.waiting() =~= cut.waiting());
                                                            assert(cut9.owed.last() =~= cut.owed.last());
                                                            cut9
                                                        },
                                                        Err(_) => cut,
                                                    }
                                                },
                                                Err(_) => cut,
                                            }
                                        },
                                        Err(_) => cut,
                                    }
                                },
                                Err(_) => cut,
                            }
                        },
                        Err(_) => cut,
                    }
                },
                None => {
                    let cut1 = level_compile_exp(c, cut, in_class, condition);
                    match compile_exp(c, in_class, condition) {
                        Ok(c1) => {
                            let cut2 = level_jump(c1, cut1, OP_JUMP_IF_FALSE);
                            let c2 = c1.emit_jump(OP_JUMP_IF_FALSE);
                            lemma_moved_twice(
                                c,
                                cut,
                                c1,
                                cut1,
                                1int,
                                c2,
                                cut2,
                                branch(OP_JUMP_IF_FALSE),
                            );
                            lemma_begun(c, cut, c1, cut1, 1int, c2, cut2, branch(OP_JUMP_IF_FALSE));
                            let cut3 = level_emit1(c2, cut2, OP_POP);
                            let c3 = c2.emit(OP_POP);
                            lemma_moved_twice(
                                c,
                                cut,
                                c2,
                                cut2,
                                1int + branch(OP_JUMP_IF_FALSE),
                                c3,
                                cut3,
                                effect0(OP_POP),
                            );
                            lemma_begun(
                                c,
                                cut,
                                c2,
                                cut2,
                                1int + branch(OP_JUMP_IF_FALSE),
                                c3,
                                cut3,
                                effect0(OP_POP),
                            );
                            lemma_ordered(c, c3);
                            let cut4 = level_compile_stmt(c3, cut3, in_class, consequence);
                            match compile_stmt(c3, in_class, consequence) {
                                Ok(c4) => {
                                    lemma_moved_twice(
                                        c,
                                        cut,
                                        c3,
                                        cut3,
                                        (1int + branch(OP_JUMP_IF_FALSE)) + effect0(OP_POP),
                                        c4,
                                        cut4,
                                        0int,
                                    );
                                    lemma_begun(
                                        c,
                                        cut,
                                        c3,
                                        cut3,
                                        (1int + branch(OP_JUMP_IF_FALSE)) + effect0(OP_POP),
                                        c4,
                                        cut4,
                                        0int,
                                    );
                                    let cut5 = level_jump(c4, cut4, OP_JUMP);
                                    let c5 = c4.emit_jump(OP_JUMP);
                                    lemma_moved_twice(
                                        c,
                                        cut,
                                        c4,
                                        cut4,
                                        ((1int + branch(OP_JUMP_IF_FALSE)) + effect0(OP_POP)),
                                        c5,
                                        cut5,
                                        0int,
                                    );
                                    lemma_begun(
                                        c,
                                        cut,
                                        c4,
                                        cut4,
                                        ((1int + branch(OP_JUMP_IF_FALSE)) + effect0(OP_POP)),
                                        c5,
                                        cut5,
                                        0int,
                                    );
                                    assert(cut5.waiting().contains(c1.here()));
                                    assert(cut5.owed.last()[c1.here()] == cut1.height() + branch(OP_JUMP_IF_FALSE));
                                    let cut6 = level_patch(c5, cut5, c2.here() - 2);
                                    match c5.patch_jump(c2.here() - 2) {
                                        Ok(c6) => {
                                            lemma_moved_twice(
                                                c,
                                                cut,
                                                c5,
                                                cut5,
                                                (((1int + branch(OP_JUMP_IF_FALSE)) + effect0(OP_POP))),
                                                c6,
                                                cut6,
                                                cut5.owed.last()[c1.here()] - cut5.height(),
                                            );
                                            lemma_begun(
                                                c,
                                                cut,
                                                c5,
                                                cut5,
                                                (((1int + branch(OP_JUMP_IF_FALSE)) + effect0(OP_POP))),
                                                c6,
                                                cut6,
                                                cut5.owed.last()[c1.here()] - cut5.height(),
                                            );
                                            assert(
                                                moved(
                                                    c,
                                                    cut,
                                                    c6,
                                                    cut6,
                                                    1int + branch(OP_JUMP_IF_FALSE),
                                                )
                                            );
                                            let cut7 = level_emit1(c6, cut6, OP_POP);
                                            let c7 = c6.emit(OP_POP);
                                            lemma_moved_twice(
                                                c,
                                                cut,
                                                c6,
                                                cut6,
                                                1int + branch(OP_JUMP_IF_FALSE),
                                                c7,
                                                cut7,
                                                effect0(OP_POP),
                                            );
                                            lemma_begun(
                                                c,
                                                cut,
                                                c6,
                                                cut6,
                                                1int + branch(OP_JUMP_IF_FALSE),
                                                c7,
                                                cut7,
                                                effect0(OP_POP),
                                            );
                                            assert(cut7.waiting().contains(c4.here()));
                                            assert(cut7.owed.last()[c4.here()] == cut4.height() + branch(OP_JUMP));
                                            let cut8 = level_patch(c7, cut7, c5.here() - 2);
                                            match c7.patch_jump(c5.here() - 2) {
                                                Ok(c8) => {
                                                    lemma_moved_twice(
                                                        c,
                                                        cut,
                                                        c7,
                                                        cut7,
                                                        (1int + branch(OP_JUMP_IF_FALSE)) + effect0(OP_POP),
                                                        c8,
                                                        cut8,
                                                        cut7.owed.last()[c4.here()] - cut7.height(),
                                                    );
                                                    lemma_begun(
                                                        c,
                                                        cut,
                                                        c7,
                                                        cut7,
                                                        (1int + branch(OP_JUMP_IF_FALSE)) + effect0(OP_POP),
                                                        c8,
                                                        cut8,
                                                        cut7.owed.last()[c4.here()] - cut7.height(),
                                                    );
                                                    assert(
                                                        moved(
                                                            c,
                                                            cut,
                                                            c8,
                                                            cut8,
                                                            (((1int + branch(OP_JUMP_IF_FALSE)) + effect0(OP_POP))) + branch(OP_JUMP),
                                                        )
                                                    );
                                                    assert(cut8.waiting() =~= cut.waiting());
                                                    assert(cut8.owed.last() =~= cut.owed.last());
                                                    cut8
                                                },
                                                Err(_) => cut,
                                            }
                                        },
                                        Err(_) => cut,
                                    }
                                },
                                Err(_) => cut,
                            }
                        },
                        Err(_) => cut,
                    }
                },
            }
        },
        _ => cut,
    }
}

proof fn level_stmt_while(c: CompilerView, cut: Cut, in_class: bool, s: &StatementNode) -> (cut2: Cut)
    requires
        sound(c, cut),
        ordered(c),
        plain_stmt(s, c.top().scope_depth == 0),
        s is While,
    ensures
        same_debts(cut, cut2),
        stmt_while(c, in_class, s) matches Ok(c2) ==> moved(c, cut, c2, cut2, 0) && (closed_stmt(s)
            || c.top().scope_depth == 0 ==> still(c, c2)),
    decreases s, 0int,
{
    reveal(stmt_while);
    match s {
        StatementNode::While { condition, consequence } => {
            let cut1 = level_compile_exp(c, cut, in_class, condition);
            match compile_exp(c, in_class, condition) {
                Ok(c1) => {
                    let cut2 = level_jump(c1, cut1, OP_JUMP_IF_FALSE);
                    let c2 = c1.emit_jump(OP_JUMP_IF_FALSE);
                    lemma_moved_twice(c, cut, c1, cut1, 1int, c2, cut2, branch(OP_JUMP_IF_FALSE));
                    lemma_begun(c, cut, c1, cut1, 1int, c2, cut2, branch(OP_JUMP_IF_FALSE));
                    let cut3 = level_emit1(c2, cut2, OP_POP);
                    let c3 = c2.emit(OP_POP);
                    lemma_moved_twice(
                        c,
                        cut,
                        c2,
                        cut2,
                        1int + branch(OP_JUMP_IF_FALSE),
                        c3,
                        cut3,
                        effect0(OP_POP),
                    );
                    lemma_begun(
                        c,
                        cut,
                        c2,
                        cut2,
                        1int + branch(OP_JUMP_IF_FALSE),
                        c3,
                        cut3,
                        effect0(OP_POP),
                    );
                    lemma_ordered(c, c3);
                    let cut4 = level_compile_stmt(c3, cut3, in_class, consequence);
                    match compile_stmt(c3, in_class, consequence) {
                        Ok(c4) => {
                            lemma_moved_twice(
                                c,
                                cut,
                                c3,
                                cut3,
                                (1int + branch(OP_JUMP_IF_FALSE)) + effect0(OP_POP),
                                c4,
                                cut4,
                                0int,
                            );
                            lemma_begun(
                                c,
                                cut,
                                c3,
                                cut3,
                                (1int + branch(OP_JUMP_IF_FALSE)) + effect0(OP_POP),
                                c4,
                                cut4,
                                0int,
                            );
                            lemma_marked_grows(c, cut, c4, cut4, c.here());
                            assert(has_height(cut4.top(), cut4.heights.last(), cut4.height(), c4.here(), c.here(), cut4.height())) by {
                                let t = cut.top().len() as int;
                                assert(cut4.top()[t] == c.here());
                                assert(cut4.heights.last()[t] == cut.height());
                                assert(cut4.height() == cut.height());
                            }
                            let cut5 = level_loop(c4, cut4, c.here());
                            match c4.emit_loop(c.here()) {
                                Ok(c5) => {
                                    lemma_moved_twice(
                                        c,
                                        cut,
                                        c4,
                                        cut4,
                                        ((1int + branch(OP_JUMP_IF_FALSE)) + effect0(OP_POP)),
                                        c5,
                                        cut5,
                                        0int,
                                    );
                                    lemma_begun(
                                        c,
                                        cut,
                                        c4,
                                        cut4,
                                        ((1int + branch(OP_JUMP_IF_FALSE)) + effect0(OP_POP)),
                                        c5,
                                        cut5,
                                        0int,
                                    );
                                    assert(cut5.waiting().contains(c1.here()));
                                    assert(cut5.owed.last()[c1.here()] == cut1.height() + branch(OP_JUMP_IF_FALSE));
                                    let cut6 = level_patch(c5, cut5, c2.here() - 2);
                                    match c5.patch_jump(c2.here() - 2) {
                                        Ok(c6) => {
                                            lemma_moved_twice(
                                                c,
                                                cut,
                                                c5,
                                                cut5,
                                                (((1int + branch(OP_JUMP_IF_FALSE)) + effect0(OP_POP))),
                                                c6,
                                                cut6,
                                                cut5.owed.last()[c1.here()] - cut5.height(),
                                            );
                                            lemma_begun(
                                                c,
                                                cut,
                                                c5,
                                                cut5,
                                                (((1int + branch(OP_JUMP_IF_FALSE)) + effect0(OP_POP))),
                                                c6,
                                                cut6,
                                                cut5.owed.last()[c1.here()] - cut5.height(),
                                            );
                                            assert(
                                                moved(
                                                    c,
                                                    cut,
                                                    c6,
                                                    cut6,
                                                    1int + branch(OP_JUMP_IF_FALSE),
                                                )
                                            );
                                            let cut7 = level_emit1(c6, cut6, OP_POP);
                                            let c7 = c6.emit(OP_POP);
                                            lemma_moved_twice(
                                                c,
                                                cut,
                                                c6,
                                                cut6,
                                                1int + branch(OP_JUMP_IF_FALSE),
                                                c7,
                                                cut7,
                                                effect0(OP_POP),
                                            );
                                            lemma_begun(
                                                c,
                                                cut,
                                                c6,
                                                cut6,
                                                1int + branch(OP_JUMP_IF_FALSE),
                                                c7,
                                                cut7,
                                                effect0(OP_POP),
                                            );
                                            assert(cut7.waiting() =~= cut.waiting());
                                            assert(cut7.owed.last() =~= cut.owed.last());
                                            cut7
                                        },
                                        Err(_) => cut,
                                    }
                                },
                                Err(_) => cut,
                            }
                        },
                        Err(_) => cut,
                    }
                },
                Err(_) => cut,
            }
        },
        _ => cut,
    }
}

proof fn level_stmt_for(c: CompilerView, cut: Cut, in_class: bool, s: &StatementNode) -> (cut2: Cut)
    requires
        sound(c, cut),
        ordered(c),
        plain_stmt(s, c.top().scope_depth == 0),
        s is For,
    ensures
        same_debts(cut, cut2),
        stmt_for(c, in_class, s) matches Ok(c2) ==> moved(c, cut, c2, cut2, 0) && (closed_stmt(s)
            || c.top().scope_depth == 0 ==> still(c, c2)),
    decreases s, 0int,
{
    reveal(stmt_for);
    match s {
        StatementNode::For { name, range, consequence } => {
            level_begin_scope(c, cut);
            match c.begin_scope() {
                Ok(c1) => {
                    assert(ordered(c1)) by {
                        assert forall|i: int| 0 <= i < depths(c1).len() implies #[trigger] depths(c1)[i] <= c1.top().scope_depth by {
                            assert(depths(c1)[i] == depths(c)[i]);
                        }
                    }
                    let cut2 = level_emit1(c1, cut, OP_CONSTANT0);
                    let c2 = c1.emit(OP_CONSTANT0);
                    level_add_local(c2, cut2, "__range_counter__"@);
                    let cut3 = cut2;
                    match c2.add_local("__range_counter__"@) {
                        Ok(c3) => {
                            lemma_moved_twice(
                                c1,
                                cut,
                                c2,
                                cut2,
                                effect0(OP_CONSTANT0),
                                c3,
                                cut3,
                                -1int,
                            );
                            lemma_begun(
                                c1,
                                cut,
                                c2,
                                cut2,
                                effect0(OP_CONSTANT0),
                                c3,
                                cut3,
                                -1int,
                            );
                            let cut5 = level_slot_get(c3, cut3, "__range_counter__"@);
                            let c5 = emit_slot(c3, OP_GET_LOCAL, "__range_counter__"@);
                            lemma_moved_twice(
                                c1,
                                cut,
                                c3,
                                cut3,
                                effect0(OP_CONSTANT0) + -1int,
                                c5,
                                cut5,
                                1int,
                            );
                            lemma_begun(
                                c1,
                                cut,
                                c3,
                                cut3,
                                effect0(OP_CONSTANT0) + -1int,
                                c5,
                                cut5,
                                1int,
                            );
                            let cut6 = level_compile_exp(c5, cut5, in_class, range);
                            match compile_exp(c5, in_class, range) {
                                Ok(c6) => {
                                    lemma_moved_twice(
                                        c1,
                                        cut,
                                        c5,
                                        cut5,
                                        (effect0(OP_CONSTANT0) + -1int) + 1int,
                                        c6,
                                        cut6,
                                        1int,
                                    );
                                    lemma_begun(
                                        c1,
                                        cut,
                                        c5,
                                        cut5,
                                        (effect0(OP_CONSTANT0) + -1int) + 1int,
                                        c6,
                                        cut6,
                                        1int,
                                    );
                                    lemma_shifted_twice(c3, cut3, c5, cut5, 1int, c6, cut6, 1int);
                                    lemma_begun(c3, cut3, c5, cut5, 1int, c6, cut6, 1int);
                                    let cut7 = level_jump(c6, cut6, OP_JUMP_IF_RANGE_END);
                                    let c7 = c6.emit_jump(OP_JUMP_IF_RANGE_END);
                                    lemma_moved_twice(
                                        c1,
                                        cut,
                                        c6,
                                        cut6,
                                        ((effect0(OP_CONSTANT0) + -1int) + 1int) + 1int,
                                        c7,
                                        cut7,
                                        branch(OP_JUMP_IF_RANGE_END),
                                    );
                                    lemma_begun(
                                        c1,
                                        cut,
                                        c6,
                                        cut6,
                                        ((effect0(OP_CONSTANT0) + -1int) + 1int) + 1int,
                                        c7,
                                        cut7,
                                        branch(OP_JUMP_IF_RANGE_END),
                                    );
                                    lemma_shifted_twice(
                                        c3,
                                        cut3,
                                        c6,
                                        cut6,
                                        2int,
                                        c7,
                                        cut7,
                                        branch(OP_JUMP_IF_RANGE_END),
                                    );
                                    lemma_begun(
                                        c3,
                                        cut3,
                                        c6,
                                        cut6,
                                        2int,
                                        c7,
                                        cut7,
                                        branch(OP_JUMP_IF_RANGE_END),
                                    );
                                    match identifier(name) {
                                        Some(variable) => {
                                            let cut9 = level_slot_count(c7, cut7, "__range_counter__"@);
                                            let c9 = emit_slot(c7, OP_COUNTUP, "__range_counter__"@);
                                            lemma_moved_twice(
                                                c1,
                                                cut,
                                                c7,
                                                cut7,
                                                (((effect0(OP_CONSTANT0) + -1int) + 1int) + 1int) + branch(OP_JUMP_IF_RANGE_END),
                                                c9,
                                                cut9,
                                                0int,
                                            );
                                            lemma_begun(
                                                c1,
                                                cut,
                                                c7,
                                                cut7,
                                                (((effect0(OP_CONSTANT0) + -1int) + 1int) + 1int) + branch(OP_JUMP_IF_RANGE_END),
                                                c9,
                                                cut9,
                                                0int,
                                            );
                                            lemma_shifted_twice(
                                                c3,
                                                cut3,
                                                c7,
                                                cut7,
                                                2int + branch(OP_JUMP_IF_RANGE_END),
                                                c9,
                                                cut9,
                                                0int,
                                            );
                                            lemma_begun(
                                                c3,
                                                cut3,
                                                c7,
                                                cut7,
                                                2int + branch(OP_JUMP_IF_RANGE_END),
                                                c9,
                                                cut9,
                                                0int,
                                            );
                                            level_add_local(c9, cut9, variable);
                                            let cut10 = cut9;
                                            match c9.add_local(variable) {
                                                Ok(c10) => {
                                                    lemma_moved_twice(
                                                        c1,
                                                        cut,
                                                        c9,
                                                        cut9,
                                                        ((((effect0(OP_CONSTANT0) + -1int) + 1int) + 1int) + branch(OP_JUMP_IF_RANGE_END)),
                                                        c10,
                                                        cut10,
                                                        -1int,
                                                    );
                                                    lemma_begun(
                                                        c1,
                                                        cut,
                                                        c9,
                                                        cut9,
                                                        ((((effect0(OP_CONSTANT0) + -1int) + 1int) + 1int) + branch(OP_JUMP_IF_RANGE_END)),
                                                        c10,
                                                        cut10,
                                                        -1int,
                                                    );
                                                    lemma_shifted_twice(
                                                        c3,
                                                        cut3,
                                                        c9,
                                                        cut9,
                                                        (2int + branch(OP_JUMP_IF_RANGE_END)),
                                                        c10,
                                                        cut10,
                                                        -1int,
                                                    );
                                                    lemma_begun(
                                                        c3,
                                                        cut3,
                                                        c9,
                                                        cut9,
                                                        (2int + branch(OP_JUMP_IF_RANGE_END)),
                                                        c10,
                                                        cut10,
                                                        -1int,
                                                    );
                                                    lemma_ordered(c1, c10);
                                                    lemma_plain_anywhere(
                                                        consequence,
                                                        c10.top().scope_depth == 0,
                                                    );
                                                    let cut11 = level_compile_stmt(
                                                        c10,
                                                        cut10,
                                                        in_class,
                                                        consequence,
                                                    );
                                                    match compile_stmt(c10, in_class, consequence) {
                                                        Ok(c11) => {
                                                            lemma_moved_twice(
                                                                c1,
                                                                cut,
                                                                c10,
                                                                cut10,
                                                                (((((effect0(OP_CONSTANT0) + -1int) + 1int) + 1int) + branch(OP_JUMP_IF_RANGE_END))) + -1int,
                                                                c11,
                                                                cut11,
                                                                0int,
                                                            );
                                                            lemma_begun(
                                                                c1,
                                                                cut,
                                                                c10,
                                                                cut10,
                                                                (((((effect0(OP_CONSTANT0) + -1int) + 1int) + 1int) + branch(OP_JUMP_IF_RANGE_END))) + -1int,
                                                                c11,
                                                                cut11,
                                                                0int,
                                                            );
                                                            lemma_shifted_twice(
                                                                c3,
                                                                cut3,
                                                                c10,
                                                                cut10,
                                                                ((2int + branch(OP_JUMP_IF_RANGE_END))) + -1int,
                                                                c11,
                                                                cut11,
                                                                0int,
                                                            );
                                                            lemma_begun(
                                                                c3,
                                                                cut3,
                                                                c10,
                                                                cut10,
                                                                ((2int + branch(OP_JUMP_IF_RANGE_END))) + -1int,
                                                                c11,
                                                                cut11,
                                                                0int,
                                                            );
                                                            let cut12 = level_emit1(
                                                                c11,
                                                                cut11,
                                                                OP_POP,
                                                            );
                                                            let c12 = c11.emit(OP_POP);
                                                            lemma_moved_twice(
                                                                c1,
                                                                cut,
                                                                c11,
                                                                cut11,
                                                                ((((((effect0(OP_CONSTANT0) + -1int) + 1int) + 1int) + branch(OP_JUMP_IF_RANGE_END))) + -1int),
                                                                c12,
                                                                cut12,
                                                                effect0(OP_POP),
                                                            );
                                                            lemma_begun(
                                                                c1,
                                                                cut,
                                                                c11,
                                                                cut11,
                                                                ((((((effect0(OP_CONSTANT0) + -1int) + 1int) + 1int) + branch(OP_JUMP_IF_RANGE_END))) + -1int),
                                                                c12,
                                                                cut12,
                                                                effect0(OP_POP),
                                                            );
                                                            lemma_shifted_twice(
                                                                c3,
                                                                cut3,
                                                                c11,
                                                                cut11,
                                                                (((2int + branch(OP_JUMP_IF_RANGE_END))) + -1int),
                                                                c12,
                                                                cut12,
                                                                effect0(OP_POP),
                                                            );
                                                            lemma_begun(
                                                                c3,
                                                                cut3,
                                                                c11,
                                                                cut11,
                                                                (((2int + branch(OP_JUMP_IF_RANGE_END))) + -1int),
                                                                c12,
                                                                cut12,
                                                                effect0(OP_POP),
                                                            );
                                                            lemma_marked_grows(
                                                                c3,
                                                                cut3,
                                                                c12,
                                                                cut12,
                                                                c3.here(),
                                                            );
                                                            assert(has_height(cut12.top(), cut12.heights.last(), cut12.height(), c12.here(), c3.here(), cut12.height())) by {
                                                                let t = cut3.top().len() as int;
                                                                assert(cut12.top()[t] == c3.here());
                                                                assert(cut12.heights.last()[t] == cut3.height());
                                                                assert(cut12.height() == cut3.height());
                                                            }
                                                            let cut13 = level_loop(
                                                                c12,
                                                                cut12,
                                                                c3.here(),
                                                            );
                                                            match c12.emit_loop(c3.here()) {
                                                                Ok(c13) => {
                                                                    lemma_moved_twice(
                                                                        c1,
                                                                        cut,
                                                                        c12,
                                                                        cut12,
                                                                        (((((((effect0(OP_CONSTANT0) + -1int) + 1int) + 1int) + branch(OP_JUMP_IF_RANGE_END))) + -1int)) + effect0(OP_POP),
                                                                        c13,
                                                                        cut13,
                                                                        0int,
                                                                    );
                                                                    lemma_begun(
                                                                        c1,
                                                                        cut,
                                                                        c12,
                                                                        cut12,
                                                                        (((((((effect0(OP_CONSTANT0) + -1int) + 1int) + 1int) + branch(OP_JUMP_IF_RANGE_END))) + -1int)) + effect0(OP_POP),
                                                                        c13,
                                                                        cut13,
                                                                        0int,
                                                                    );
                                                                    lemma_shifted_twice(
                                                                        c3,
                                                                        cut3,
                                                                        c12,
                                                                        cut12,
                                                                        ((((2int + branch(OP_JUMP_IF_RANGE_END))) + -1int)) + effect0(OP_POP),
                                                                        c13,
                                                                        cut13,
                                                                        0int,
                                                                    );
                                                                    lemma_begun(
                                                                        c3,
                                                                        cut3,
                                                                        c12,
                                                                        cut12,
                                                                        ((((2int + branch(OP_JUMP_IF_RANGE_END))) + -1int)) + effect0(OP_POP),
                                                                        c13,
                                                                        cut13,
                                                                        0int,
                                                                    );
                                                                    assert(cut13.waiting().contains(c6.here()));
                                                                    assert(cut13.owed.last()[c6.here()] == cut6.height() + branch(OP_JUMP_IF_RANGE_END));
                                                                    let cut14 = level_patch(
                                                                        c13,
                                                                        cut13,
                                                                        c7.here() - 2,
                                                                    );
                                                                    match c13.patch_jump(c7.here() - 2) {
                                                                        Ok(c14) => {
                                                                            lemma_moved_twice(
                                                                                c1,
                                                                                cut,
                                                                                c13,
                                                                                cut13,
                                                                                ((((((((effect0(OP_CONSTANT0) + -1int) + 1int) + 1int) + branch(OP_JUMP_IF_RANGE_END))) + -1int)) + effect0(OP_POP)),
                                                                                c14,
                                                                                cut14,
                                                                                cut13.owed.last()[c6.here()] - cut13.height(),
                                                                            );
                                                                            lemma_begun(
                                                                                c1,
                                                                                cut,
                                                                                c13,
                                                                                cut13,
                                                                                ((((((((effect0(OP_CONSTANT0) + -1int) + 1int) + 1int) + branch(OP_JUMP_IF_RANGE_END))) + -1int)) + effect0(OP_POP)),
                                                                                c14,
                                                                                cut14,
                                                                                cut13.owed.last()[c6.here()] - cut13.height(),
                                                                            );
                                                                            assert(
                                                                                moved(
                                                                                    c1,
                                                                                    cut,
                                                                                    c14,
                                                                                    cut14,
                                                                                    (((effect0(OP_CONSTANT0) + -1int) + 1int) + 1int) + branch(OP_JUMP_IF_RANGE_END) - 1int,
                                                                                )
                                                                            );
                                                                            lemma_shifted_twice(
                                                                                c3,
                                                                                cut3,
                                                                                c13,
                                                                                cut13,
                                                                                (((((2int + branch(OP_JUMP_IF_RANGE_END))) + -1int)) + effect0(OP_POP)),
                                                                                c14,
                                                                                cut14,
                                                                                cut13.owed.last()[c6.here()] - cut13.height(),
                                                                            );
                                                                            lemma_begun(
                                                                                c3,
                                                                                cut3,
                                                                                c13,
                                                                                cut13,
                                                                                (((((2int + branch(OP_JUMP_IF_RANGE_END))) + -1int)) + effect0(OP_POP)),
                                                                                c14,
                                                                                cut14,
                                                                                cut13.owed.last()[c6.here()] - cut13.height(),
                                                                            );
                                                                            assert(cut14.waiting() =~= cut.waiting());
                                                                            assert(cut14.owed.last() =~= cut.owed.last());
                                                                            let cut15 = level_end_scope(
                                                                                c14,
                                                                                cut14,
                                                                            );
                                                                            let c15 = c14.end_scope();
                                                                            lemma_scope_closed(
                                                                                c,
                                                                                cut,
                                                                                c1,
                                                                                c14,
                                                                                cut14,
                                                                                (((effect0(OP_CONSTANT0) + -1int) + 1int) + 1int) + branch(OP_JUMP_IF_RANGE_END) - 1int,
                                                                                cut15,
                                                                            );
                                                                            lemma_shifted_twice(
                                                                                c3,
                                                                                cut3,
                                                                                c14,
                                                                                cut14,
                                                                                ((((((2int + branch(OP_JUMP_IF_RANGE_END))) + -1int)) + effect0(OP_POP))) + (cut13.owed.last()[c6.here()] - cut13.height()),
                                                                                c15,
                                                                                cut15,
                                                                                0int,
                                                                            );
                                                                            cut15
                                                                        },
                                                                        Err(_) => cut,
                                                                    }
                                                                },
                                                                Err(_) => cut,
                                                            }
                                                        },
                                                        Err(_) => cut,
                                                    }
                                                },
                                                Err(_) => cut,
                                            }
                                        },
                                        None => cut,
                                    }
                                },
                                Err(_) => cut,
                            }
                        },
                        Err(_) => cut,
                    }
                },
                Err(_) => cut,
            }
        },
        _ => cut,
    }
}

proof fn level_stmt_class(c: CompilerView, cut: Cut, in_class: bool, s: &StatementNode) -> (cut2: Cut)
    requires
        sound(c, cut),
        ordered(c),
        plain_stmt(s, c.top().scope_depth == 0),
        s is Class,
    ensures
        same_debts(cut, cut2),
        stmt_class(c, in_class, s) matches Ok(c2) ==> moved(c, cut, c2, cut2, 0) && (closed_stmt(s)
            || c.top().scope_depth == 0 ==> still(c, c2)),
    decreases s, 0int,
{
    reveal(stmt_class);
    reveal(inherit);
    match s {
        StatementNode::Class { name, body, super_class } => {
            match super_class {
                Some(parent) => {
                    match identifier(name) {
                        Some(class_name) => {
                            let cut2 = level_declare_class(c, cut, class_name);
                            match declare_class(c, class_name) {
                                Ok(c2) => {
                                    match identifier(parent) {
                                        Some(parent_name) => {
                                            if parent_name == class_name {
                                                cut
                                            } else {
                                                let cut5 = level_load(c2, cut2, parent_name);
                                                match c2.load(parent_name) {
                                                    Ok(c5) => {
                                                        lemma_moved_twice(
                                                            c,
                                                            cut,
                                                            c2,
                                                            cut2,
                                                            0int,
                                                            c5,
                                                            cut5,
                                                            1int,
                                                        );
                                                        lemma_ordered(c, c5);
                                                        level_begin_scope(c5, cut5);
                                                        match c5.begin_scope() {
                                                            Ok(c6) => {
                                                                assert(ordered(c6)) by {
                                                                    assert forall|i: int| 0 <= i < depths(c6).len() implies #[trigger] depths(c6)[i] <= c6.top().scope_depth by {
                                                                        assert(depths(c6)[i] == depths(c5)[i]);
                                                                    }
                                                                }
                                                                level_add_local(c6, cut5, "super"@);
                                                                let cut7 = cut5;
                                                                match c6.add_local("super"@) {
                                                                    Ok(c7) => {
                                                                        let cut8 = level_load(
                                                                            c7,
                                                                            cut7,
                                                                            class_name,
                                                                        );
                                                                        match c7.load(class_name) {
                                                                            Ok(c8) => {
                                                                                lemma_moved_twice(
                                                                                    c6,
                                                                                    cut5,
                                                                                    c7,
                                                                                    cut7,
                                                                                    -1int,
                                                                                    c8,
                                                                                    cut8,
                                                                                    1int,
                                                                                );
                                                                                let cut9 = level_emit1(
                                                                                    c8,
                                                                                    cut8,
                                                                                    OP_INHERIT,
                                                                                );
                                                                                let c9 = c8.emit(OP_INHERIT);
                                                                                lemma_moved_twice(
                                                                                    c6,
                                                                                    cut5,
                                                                                    c8,
                                                                                    cut8,
                                                                                    0int,
                                                                                    c9,
                                                                                    cut9,
                                                                                    effect0(
                                                                                        OP_INHERIT,
                                                                                    ),
                                                                                );
                                                                                let cut10 = level_load(
                                                                                    c9,
                                                                                    cut9,
                                                                                    class_name,
                                                                                );
                                                                                match c9.load(class_name) {
                                                                                    Ok(c10) => {
                                                                                        lemma_moved_twice(
                                                                                            c6,
                                                                                            cut5,
                                                                                            c9,
                                                                                            cut9,
                                                                                            effect0(OP_INHERIT),
                                                                                            c10,
                                                                                            cut10,
                                                                                            1int,
                                                                                        );
                                                                                        match &**body {
                                                                                            StatementNode::Block { stmts } => {
                                                                                                lemma_ordered(
                                                                                                    c6,
                                                                                                    c10,
                                                                                                );
                                                                                                let cut12 = level_compile_methods(
                                                                                                    c10,
                                                                                                    cut10,
                                                                                                    stmts@,
                                                                                                    0,
                                                                                                );
                                                                                                match compile_methods(c10, stmts@, 0) {
                                                                                                    Ok(c12) => {
                                                                                                        lemma_moved_twice(
                                                                                                            c6,
                                                                                                            cut5,
                                                                                                            c10,
                                                                                                            cut10,
                                                                                                            effect0(OP_INHERIT) + 1int,
                                                                                                            c12,
                                                                                                            cut12,
                                                                                                            0int,
                                                                                                        );
                                                                                                        let cut13 = level_emit1(
                                                                                                            c12,
                                                                                                            cut12,
                                                                                                            OP_POP,
                                                                                                        );
                                                                                                        let c13 = c12.emit(OP_POP);
                                                                                                        lemma_moved_twice(
                                                                                                            c6,
                                                                                                            cut5,
                                                                                                            c12,
                                                                                                            cut12,
                                                                                                            (effect0(OP_INHERIT) + 1int),
                                                                                                            c13,
                                                                                                            cut13,
                                                                                                            effect0(
                                                                                                                OP_POP,
                                                                                                            ),
                                                                                                        );
                                                                                                        let cut14 = level_end_scope(
                                                                                                            c13,
                                                                                                            cut13,
                                                                                                        );
                                                                                                        let c14 = c13.end_scope();
                                                                                                        lemma_ordered(
                                                                                                            c,
                                                                                                            c5,
                                                                                                        );
                                                                                                        lemma_scope_closed(
                                                                                                            c5,
                                                                                                            cut5,
                                                                                                            c6,
                                                                                                            c13,
                                                                                                            cut13,
                                                                                                            ((effect0(OP_INHERIT) + 1int)) + effect0(OP_POP),
                                                                                                            cut14,
                                                                                                        );
                                                                                                        lemma_moved_twice(
                                                                                                            c,
                                                                                                            cut,
                                                                                                            c5,
                                                                                                            cut5,
                                                                                                            1int,
                                                                                                            c14,
                                                                                                            cut14,
                                                                                                            ((effect0(OP_INHERIT) + 1int)) + effect0(OP_POP),
                                                                                                        );
                                                                                                        cut14
                                                                                                    },
                                                                                                    Err(_) => cut,
                                                                                                }
                                                                                            },
                                                                                            _ => cut,
                                                                                        }
                                                                                    },
                                                                                    Err(_) => cut,
                                                                                }
                                                                            },
                                                                            Err(_) => cut,
                                                                        }
                                                                    },
                                                                    Err(_) => cut,
                                                                }
                                                            },
                                                            Err(_) => cut,
                                                        }
                                                    },
                                                    Err(_) => cut,
                                                }
                                            }
                                        },
                                        None => cut,
                                    }
                                },
                                Err(_) => cut,
                            }
                        },
                        None => cut,
                    }
                },
                None => {
                    match identifier(name) {
                        Some(class_name) => {
                            let cut2 = level_declare_class(c, cut, class_name);
                            match declare_class(c, class_name) {
                                Ok(c2) => {
                                    let cut3 = level_load(c2, cut2, class_name);
                                    match c2.load(class_name) {
                                        Ok(c3) => {
                                            lemma_moved_twice(
                                                c,
                                                cut,
                                                c2,
                                                cut2,
                                                0int,
                                                c3,
                                                cut3,
                                                1int,
                                            );
                                            match &**body {
                                                StatementNode::Block { stmts } => {
                                                    lemma_ordered(c, c3);
                                                    let cut5 = level_compile_methods(
                                                        c3,
                                                        cut3,
                                                        stmts@,
                                                        0,
                                                    );
                                                    match compile_methods(c3, stmts@, 0) {
                                                        Ok(c5) => {
                                                            lemma_moved_twice(
                                                                c,
                                                                cut,
                                                                c3,
                                                                cut3,
                                                                1int,
                                                                c5,
                                                                cut5,
                                                                0int,
                                                            );
                                                            let cut6 = level_emit1(
                                                                c5,
                                                                cut5,
                                                                OP_POP,
                                                            );
                                                            let c6 = c5.emit(OP_POP);
                                                            lemma_moved_twice(
                                                                c,
                                                                cut,
                                                                c5,
                                                                cut5,
                                                                1int,
                                                                c6,
                                                                cut6,
                                                                effect0(OP_POP),
                                                            );
                                                            cut6
                                                        },
                                                        Err(_) => cut,
                                                    }
                                                },
                                                _ => cut,
                                            }
                                        },
                                        Err(_) => cut,
                                    }
                                },
                                Err(_) => cut,
                            }
                        },
                        None => cut,
                    }
                },
            }
        },
        _ => cut,
    }
}

/// The code of a plain statement is level, and it leaves above the locals
/// of the function what it found there: the height of the stack after the
/// statement is the height before it, and one more for each local that the
/// statement has declared.  A statement that declares nothing leaves the
/// locals and so the height as they were.
pub proof fn level_compile_stmt(c: CompilerView, cut: Cut, in_class: bool, s: &StatementNode) -> (cut2: Cut)
    requires
        sound(c, cut),
        ordered(c),
        plain_stmt(s, c.top().scope_depth == 0),
    ensures
        same_debts(cut, cut2),
        compile_stmt(c, in_class, s) matches Ok(c2) ==> moved(c, cut, c2, cut2, 0) && (closed_stmt(s)
            || c.top().scope_depth == 0 ==> still(c, c2)),
    decreases s, 1int,
{
    reveal(stmt_class);
    reveal(stmt_for);
    reveal(stmt_if);
    reveal(stmt_while);
    reveal(stmt_simple);
    reveal(compile_function);
    match s {
        StatementNode::Class { .. } => level_stmt_class(c, cut, in_class, s),
        StatementNode::For { .. } => level_stmt_for(c, cut, in_class, s),
        StatementNode::Fun { name, params, body } => level_compile_function(
            c,
            cut,
            in_class,
            FunctionType::Function,
            name,
            params@,
            body,
        ),
        StatementNode::If { .. } => level_stmt_if(c, cut, in_class, s),
        StatementNode::While { .. } => level_stmt_while(c, cut, in_class, s),
        _ => level_stmt_simple(c, cut, in_class, s),
    }
}

/// A function's code can be given heights: it is cut into instructions,
/// the first of which finds the callee and the arguments on the stack, and
/// every instruction hands on the height it was given, changed by what the
/// instruction does, to the next instruction and to where it jumps.
pub open spec fn has_levels(function: FunctionView, functions: Seq<FunctionView>) -> bool {
    exists|marks: Seq<int>, heights: Seq<int>, end: int|
        #![trigger level_code(function.code, marks, heights, end, Set::empty(), Map::empty(), 1 + function.arity)]
        well_cut(function.code, function.constants, functions, marks, Set::empty()) && level_code(
            function.code,
            marks,
            heights,
            end,
            Set::empty(),
            Map::empty(),
            1 + function.arity,
        )
}

/// The code of every function of a plain script can be given heights, and
/// the top-level code, which takes no arguments, starts at the height of
/// one: its slot 0.
pub proof fn lemma_stack_discipline(stmts: Seq<StatementNode>)
    requires
        plain_stmts(stmts, 0, true),
    ensures
        compiled(stmts) matches Ok(script) ==> 0 <= script.main < script.functions.len()
            && script.functions[script.main].arity == 0 && forall|f: int|
            0 <= f < script.functions.len() ==> has_levels(
                #[trigger] script.functions[f],
                script.functions,
            ),
{
    let c0 = CompilerView::root("__main__"@, FunctionType::Script, 0);
    let cut0 = Cut {
        frames: seq![Seq::<int>::empty()],
        done: Seq::empty(),
        pending: seq![Set::<int>::empty()],
        heights: seq![Seq::<int>::empty()],
        done_heights: Seq::empty(),
        done_now: Seq::empty(),
        now: seq![1int],
        owed: seq![Map::<int, int>::empty()],
    };
    assert(sound(c0, cut0)) by {
        assert forall|i: int| 0 <= i < c0.frames.len() implies #[trigger] frame_cut(c0, cut0, i) by {}
        assert forall|i: int| 0 <= i < c0.frames.len() implies #[trigger] frame_level(
            c0,
            cut0,
            i,
        ) by {}
    }
    assert(ordered(c0));
    let cut1 = level_compile_stmts(c0, cut0, false, stmts, 0);
    match compile_stmts(c0, false, stmts, 0) {
        Ok(c) => {
            let script = finished(c);
            assert(c.top().function.arity == c0.top().function.arity);
            assert(script.functions[script.main] == c.top().function);
            assert forall|f: int| 0 <= f < script.functions.len() implies has_levels(
                #[trigger] script.functions[f],
                script.functions,
            ) by {
                if f < c.functions.len() {
                    assert(super::jumps::done_cut(c, cut1, f));
                    assert(done_level(c, cut1, f));
                    lemma_grow_tables(
                        c.functions[f].code,
                        c.functions[f].constants,
                        c.functions,
                        cut1.done[f],
                        Set::empty(),
                        c.functions[f].constants,
                        script.functions,
                    );
                    assert(level_code(
                        script.functions[f].code,
                        cut1.done[f],
                        cut1.done_heights[f],
                        cut1.done_now[f],
                        Set::empty(),
                        Map::empty(),
                        1 + script.functions[f].arity,
                    ));
                } else {
                    let top = c.frames.len() - 1;
                    assert(c.frames.len() == 1);
                    assert(frame_cut(c, cut1, top));
                    assert(frame_level(c, cut1, top));
                    assert(cut1.pending[top] =~= Set::<int>::empty());
                    assert(cut1.owed[top] =~= Map::<int, int>::empty());
                    lemma_grow_tables(
                        c.top().function.code,
                        c.top().function.constants,
                        c.functions,
                        cut1.top(),
                        Set::empty(),
                        c.top().function.constants,
                        script.functions,
                    );
                    assert(level_code(
                        script.functions[f].code,
                        cut1.top(),
                        cut1.heights[top],
                        cut1.now[top],
                        Set::empty(),
                        Map::empty(),
                        1 + script.functions[f].arity,
                    ));
                }
            }
        },
        Err(_) => {},
    }
}

} // verus!
