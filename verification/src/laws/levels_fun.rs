//! What the pieces of a declaration do to the height of the stack.
use vstd::prelude::*;
use super::jumps::{done_cut, frame_cut, grows, tidy, Cut};
use super::jumps_fun::{lemma_close_function, lemma_pairs, lemma_push_frame, outer, pairs};
use super::levels::{done_level, frame_level, level, lemma_level_instruction, sound};
use super::levels_prim::{
    begun, calm, depths, depths_of, kept, lemma_begun, lemma_moved_twice, level_add_constant,
    level_add_local, level_add_text, level_define, level_emit1, level_emit2, level_emit_text, moved,
    ordered, rooted, same_debts, shifted, still, surplus,
};
use crate::compiler::ast::ExpressionNode;
use crate::compiler::model::{
    add_params, bind_function, declare_class, emit_return, emit_slot, find_local, identifier,
    CompilerView,
};
use crate::compiler::object::FunctionType;
use crate::vm::chunk::{
    OP_CLASS, OP_CLOSURE, OP_COUNTUP, OP_DEFINE_GLOBAL, OP_GET_LOCAL, OP_METHOD, OP_NULL,
    OP_RETURN,
};
use crate::vm::value::Value;

verus! {

/// Loading a local that exists pushes one value.
pub proof fn level_slot_get(c: CompilerView, cut: Cut, name: Seq<char>) -> (cut2: Cut)
    requires
        sound(c, cut),
        find_local(c.top().locals, name, c.top().locals.len() as int) is Some,
    ensures
        same_debts(cut, cut2),
        moved(c, cut, emit_slot(c, OP_GET_LOCAL, name), cut2, 1),
        still(c, emit_slot(c, OP_GET_LOCAL, name)),
        begun(cut, cut2),
{
    reveal(emit_slot);
    let slot = find_local(c.top().locals, name, c.top().locals.len() as int)->Some_0;
    level_emit2(c, cut, OP_GET_LOCAL, slot as u8)
}

/// Counting up a local leaves the height as it is.
pub proof fn level_slot_count(c: CompilerView, cut: Cut, name: Seq<char>) -> (cut2: Cut)
    requires
        sound(c, cut),
    ensures
        same_debts(cut, cut2),
        moved(c, cut, emit_slot(c, OP_COUNTUP, name), cut2, 0),
        still(c, emit_slot(c, OP_COUNTUP, name)),
        rooted(cut, cut2),
{
    reveal(emit_slot);
    match find_local(c.top().locals, name, c.top().locals.len() as int) {
        Some(slot) => level_emit2(c, cut, OP_COUNTUP, slot as u8),
        None => cut,
    }
}

/// The end of a function pushes the result and returns it.
pub proof fn level_emit_return(c: CompilerView, cut: Cut, function_type: FunctionType) -> (cut2:
    Cut)
    requires
        sound(c, cut),
    ensures
        same_debts(cut, cut2),
        moved(c, cut, emit_return(c, function_type), cut2, 0),
        still(c, emit_return(c, function_type)),
        begun(cut, cut2),
{
    reveal(emit_return);
    match function_type {
        FunctionType::Init => {
            let cut1 = level_emit2(c, cut, OP_GET_LOCAL, 0);
            let c1 = c.emit2(OP_GET_LOCAL, 0);
            let cut2 = level_emit1(c1, cut1, OP_RETURN);
            lemma_moved_twice(c, cut, c1, cut1, 1, c1.emit(OP_RETURN), cut2, -1);
            lemma_begun(c, cut, c1, cut1, 1, c1.emit(OP_RETURN), cut2, -1);
            cut2
        },
        _ => {
            let cut1 = level_emit1(c, cut, OP_NULL);
            let c1 = c.emit(OP_NULL);
            let cut2 = level_emit1(c1, cut1, OP_RETURN);
            lemma_moved_twice(c, cut, c1, cut1, 1, c1.emit(OP_RETURN), cut2, -1);
            lemma_begun(c, cut, c1, cut1, 1, c1.emit(OP_RETURN), cut2, -1);
            cut2
        },
    }
}

/// Declaring a class leaves the surplus as it is: inside a scope the class
/// becomes a local, at the top level a global.
pub proof fn level_declare_class(c: CompilerView, cut: Cut, name: Seq<char>) -> (cut2: Cut)
    requires
        sound(c, cut),
    ensures
        same_debts(cut, cut2),
        declare_class(c, name) matches Ok(c2) ==> moved(c, cut, c2, cut2, 0) && (
        c.top().scope_depth == 0 ==> still(c, c2)),
{
    reveal(declare_class);
    level_add_text(c, cut, name);
    match c.add_text(name) {
        Ok((c1, index)) => {
            if c1.top().scope_depth > 0 {
                level_add_local(c1, cut, name);
                match c1.add_local(name) {
                    Ok(c2) => {
                        lemma_moved_twice(c, cut, c1, cut, 0, c2, cut, -1);
                        let cut3 = level_emit2(c2, cut, OP_CLASS, index);
                        lemma_moved_twice(c, cut, c2, cut, -1, c2.emit2(OP_CLASS, index), cut3, 1);
                        cut3
                    },
                    Err(_) => cut,
                }
            } else {
                let cut2 = level_emit2(c1, cut, OP_CLASS, index);
                let c2 = c1.emit2(OP_CLASS, index);
                lemma_moved_twice(c, cut, c1, cut, 0, c2, cut2, 1);
                let cut3 = level_emit2(c2, cut2, OP_DEFINE_GLOBAL, index);
                lemma_moved_twice(
                    c,
                    cut,
                    c2,
                    cut2,
                    1,
                    c2.emit2(OP_DEFINE_GLOBAL, index),
                    cut3,
                    -1,
                );
                cut3
            }
        },
        Err(_) => cut,
    }
}

/// Binding a function takes its closure off the surplus.
pub proof fn level_bind_function(
    c: CompilerView,
    cut: Cut,
    function_type: FunctionType,
    name: Seq<char>,
) -> (cut2:
    Cut)
    requires
        sound(c, cut),
    ensures
        same_debts(cut, cut2),
        bind_function(c, function_type, name) matches Ok(c2) ==> moved(c, cut, c2, cut2, -1) && (
        function_type is Method || function_type is Init || c.top().scope_depth == 0 ==> still(
            c,
            c2,
        )),
{
    reveal(bind_function);
    match function_type {
        FunctionType::Method | FunctionType::Init => level_emit_text(c, cut, OP_METHOD, name),
        _ => level_define(c, cut, name),
    }
}

/// Each parameter takes one argument off the surplus.
pub proof fn level_add_params(c: CompilerView, cut: Cut, params: Seq<ExpressionNode>, from: int)
    requires
        sound(c, cut),
        0 <= from <= params.len(),
    ensures
        add_params(c, params, from) matches Ok(c2) ==> moved(
            c,
            cut,
            c2,
            cut,
            -(params.len() - from),
        ),
    decreases params.len() - from,
{
    if from < params.len() {
        match identifier(&params[from]) {
            Some(name) => {
                level_add_local(c, cut, name);
                match c.add_local(name) {
                    Ok(c1) => {
                        level_add_params(c1, cut, params, from + 1);
                        match add_params(c1, params, from + 1) {
                            Ok(c2) => {
                                lemma_moved_twice(
                                    c,
                                    cut,
                                    c1,
                                    cut,
                                    -1,
                                    c2,
                                    cut,
                                    -(params.len() - from - 1),
                                );
                            },
                            Err(_) => {},
                        }
                    },
                    Err(_) => {},
                }
            },
            None => {},
        }
    } else {
        assert(kept(c, c));
    }
}

/// A new frame starts level, at the height of a call of its function: the
/// callee and the arguments.
pub proof fn level_push_frame(
    c: CompilerView,
    cut: Cut,
    name: Seq<char>,
    function_type: FunctionType,
    arity: int,
)
    requires
        sound(c, cut),
    ensures
        sound(c.push_frame(name, function_type, arity), cut.enter(arity)),
        outer(c.push_frame(name, function_type, arity)) == c,
        surplus(c.push_frame(name, function_type, arity), cut.enter(arity)) == arity,
        ordered(c.push_frame(name, function_type, arity)),
        cut.enter(arity).waiting() == Set::<int>::empty(),
        cut.enter(arity).owed.last() == Map::<int, int>::empty(),
        cut.enter(arity).top().len() == 0,
{
    reveal(CompilerView::push_frame);
    lemma_push_frame(c, cut, name, function_type, arity);
    let c2 = c.push_frame(name, function_type, arity);
    let cut2 = cut.enter(arity);
    assert forall|i: int| 0 <= i < c2.frames.len() implies #[trigger] frame_level(c2, cut2, i) by {
        if i < c.frames.len() {
            assert(frame_level(c, cut, i));
            assert(c2.frames[i] == c.frames[i]);
            assert(cut2.heights[i] == cut.heights[i]);
        }
    }
    assert forall|j: int| 0 <= j < c2.functions.len() implies #[trigger] done_level(c2, cut2, j) by {
        assert(done_level(c, cut, j));
    }
}

/// Finishing a function: its code is level from the height of a call of it,
/// and the instruction that makes its closure pushes one value in the
/// enclosing function.
pub proof fn level_close_function(c: CompilerView, cut: Cut) -> (cut2: Cut)
    requires
        sound(c, cut),
        c.frames.len() >= 2,
        cut.waiting() =~= Set::<int>::empty(),
        cut.owed.last() =~= Map::<int, int>::empty(),
    ensures
        sound(outer(c), cut.outer()),
        same_debts(cut.outer(), cut2),
        c.close_function() matches Ok(c2) ==> shifted(outer(c), cut.outer(), c2, cut2, 1)
            && still(outer(c), c2),
{
    reveal(CompilerView::close_function);
    reveal(CompilerView::emit);
    let top = c.frames.len() - 1;
    let done = c.top();
    let functions2 = c.functions.push(done.function);
    let o0 = outer(c);
    let cut0 = cut.outer();
    let _ = lemma_close_function(c, cut);
    assert forall|i: int| 0 <= i < o0.frames.len() implies #[trigger] frame_level(o0, cut0, i) by {
        assert(frame_level(c, cut, i));
    }
    assert forall|j: int| 0 <= j < o0.functions.len() implies #[trigger] done_level(o0, cut0, j) by {
        assert(done_level(c, cut, j));
    }
    if c.functions.len() >= usize::MAX {
        return cut0;
    }
    let o1 = CompilerView { frames: c.frames.drop_last(), functions: functions2, ..c };
    let cut1 = Cut {
        done: cut.done.push(cut.top()),
        done_heights: cut.done_heights.push(cut.heights.last()),
        done_now: cut.done_now.push(cut.now.last()),
        ..cut.outer()
    };
    assert(tidy(o1, cut1)) by {
        assert forall|i: int| 0 <= i < o1.frames.len() implies #[trigger] frame_cut(o1, cut1, i) by {
            assert(frame_cut(c, cut, i));
            super::marks::lemma_grow_tables(
                c.frames[i].function.code,
                c.frames[i].function.constants,
                c.functions,
                cut.frames[i],
                cut.pending[i],
                c.frames[i].function.constants,
                functions2,
            );
        }
        assert forall|j: int| 0 <= j < o1.functions.len() implies #[trigger] done_cut(o1, cut1, j) by {
            if j < c.functions.len() {
                assert(done_cut(c, cut, j));
                super::marks::lemma_grow_tables(
                    c.functions[j].code,
                    c.functions[j].constants,
                    c.functions,
                    cut.done[j],
                    Set::empty(),
                    c.functions[j].constants,
                    functions2,
                );
            } else {
                assert(frame_cut(c, cut, top));
                assert(cut.pending[top] =~= Set::<int>::empty());
                super::marks::lemma_grow_tables(
                    done.function.code,
                    done.function.constants,
                    c.functions,
                    cut.top(),
                    Set::empty(),
                    done.function.constants,
                    functions2,
                );
            }
        }
    }
    assert(level(o1, cut1)) by {
        assert forall|i: int| 0 <= i < o1.frames.len() implies #[trigger] frame_level(o1, cut1, i) by {
            assert(frame_level(c, cut, i));
        }
        assert forall|j: int| 0 <= j < o1.functions.len() implies #[trigger] done_level(
            o1,
            cut1,
            j,
        ) by {
            if j < c.functions.len() {
                assert(done_level(c, cut, j));
            } else {
                assert(frame_level(c, cut, top));
                assert(cut.pending[top] =~= Set::<int>::empty());
                assert(cut.owed[top] =~= Map::<int, int>::empty());
            }
        }
    }
    let handle = c.functions.len() as usize;
    level_add_constant(o1, cut1, Value::Function(handle));
    match o1.add_constant(Value::Function(handle)) {
        Ok((o2, index)) => {
            let o3 = o2.emit2(OP_CLOSURE, index);
            let o4 = o3.emit_captures(done.upvalues, 0);
            lemma_pairs(o3, done.upvalues, 0);
            let bytes = seq![OP_CLOSURE, index] + pairs(done.upvalues, 0);
            assert(o4.top().function.code =~= o2.top().function.code + bytes);
            assert(frame_cut(c, cut, top));
            assert(frame_cut(o2, cut1, o2.frames.len() - 1));
            let code2 = o2.top().function.code + bytes;
            assert(code2[o2.here()] == OP_CLOSURE);
            assert(code2[o2.here() + 1] == index);
            assert(functions2[handle as int] == done.function);
            assert forall|i: int| 0 <= i < o2.frames.len() - 1 implies o4.frames[i]
                == #[trigger] o2.frames[i] by {
                assert(o3.frames[i] == o2.frames[i]);
            }
            let cut2 = lemma_level_instruction(o2, cut1, bytes, o4, false, cut1.height() + 1);
            assert(o2.here() == o0.here());
            assert(cut1.top() == cut0.top());
            assert(grows(o0, cut0, o4, cut2)) by {
                assert forall|i: int| 0 <= i < o0.frames.len() - 1 implies (
                #[trigger] cut2.frames[i]) == cut0.frames[i] && o4.frames[i].function.code
                    == o0.frames[i].function.code by {
                    assert(cut2.frames[i] == cut1.frames[i]);
                    assert(o2.frames[i] == o1.frames[i]);
                }
            }
            assert(depths(o4) =~= depths(o0));
            assert(calm(o0, o4)) by {
                assert forall|i: int| 0 <= i < o0.frames.len() - 1 implies (
                #[trigger] o4.frames[i]).scope_depth == o0.frames[i].scope_depth && depths_of(
                    o4,
                    i,
                ) == depths_of(o0, i) && o4.frames[i].function.arity
                    == o0.frames[i].function.arity by {
                    assert(o4.frames[i] == o2.frames[i]);
                    assert(o2.frames[i] == o1.frames[i]);
                }
            }
            assert forall|i: int| 0 <= i < o0.frames.len() - 1 implies (
            #[trigger] cut2.heights[i]) == cut0.heights[i] && cut2.now[i] == cut0.now[i]
                && cut2.owed[i] == cut0.owed[i] && cut2.pending[i] == cut0.pending[i] by {
                assert(cut2.heights[i] == cut1.heights[i]);
            }
            cut2
        },
        Err(_) => cut0,
    }
}

} // verus!
