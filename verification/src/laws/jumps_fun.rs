//! Starting and finishing the compilation of a function keeps the
//! compilation tidy.
use vstd::prelude::*;
use super::jumps::{
    done_cut, frame_cut, grows, lemma_add_constant, lemma_instruction, same_below, tidy, Cut,
};
use super::marks::lemma_grow_tables;
use crate::compiler::model::CompilerView;
use crate::compiler::object::FunctionType;
use crate::compiler::scope::Upvalue;
use crate::vm::chunk::OP_CLOSURE;
use crate::vm::value::Value;

verus! {

impl Cut {
    /// The cut of a compilation that has started one more function.
    pub open spec fn enter(self, arity: int) -> Cut {
        Cut {
            frames: self.frames.push(Seq::empty()),
            pending: self.pending.push(Set::empty()),
            heights: self.heights.push(Seq::empty()),
            owed: self.owed.push(Map::empty()),
            now: self.now.push(1 + arity),
            ..self
        }
    }

    /// The cut without the current function.
    pub open spec fn outer(self) -> Cut {
        Cut {
            frames: self.frames.drop_last(),
            pending: self.pending.drop_last(),
            heights: self.heights.drop_last(),
            owed: self.owed.drop_last(),
            now: self.now.drop_last(),
            ..self
        }
    }
}

/// The compilation without the current function.
pub open spec fn outer(c: CompilerView) -> CompilerView {
    CompilerView { frames: c.frames.drop_last(), ..c }
}

/// A new frame has no code, which is well cut by no marks.
pub proof fn lemma_push_frame(
    c: CompilerView,
    cut: Cut,
    name: Seq<char>,
    function_type: FunctionType,
    arity: int,
)
    requires
        tidy(c, cut),
    ensures
        tidy(c.push_frame(name, function_type, arity), cut.enter(arity)),
        outer(c.push_frame(name, function_type, arity)) == c,
        cut.enter(arity).outer().frames == cut.frames,
        cut.enter(arity).outer().pending == cut.pending,
        cut.enter(arity).outer().done == cut.done,
        cut.enter(arity).waiting() == Set::<int>::empty(),
{
    reveal(CompilerView::push_frame);
    let c2 = c.push_frame(name, function_type, arity);
    let cut2 = cut.enter(arity);
    assert forall|i: int| 0 <= i < c2.frames.len() implies #[trigger] frame_cut(c2, cut2, i) by {
        if i < c.frames.len() {
            assert(frame_cut(c, cut, i));
            assert(c2.frames[i] == c.frames[i]);
        }
    }
    assert forall|j: int| 0 <= j < c2.functions.len() implies #[trigger] done_cut(c2, cut2, j) by {
        assert(done_cut(c, cut, j));
    }
    assert(c2.frames.drop_last() =~= c.frames);
    assert(cut2.frames.drop_last() =~= cut.frames);
    assert(cut2.pending.drop_last() =~= cut.pending);
}

/// The pairs of bytes that describe the upvalues from position `from` on.
pub open spec fn pairs(upvalues: Seq<Upvalue>, from: int) -> Seq<u8>
    decreases upvalues.len() - from,
{
    if from < 0 || from >= upvalues.len() {
        Seq::empty()
    } else {
        seq![
            if upvalues[from].is_local {
                1u8
            } else {
                0u8
            },
            upvalues[from].index as u8,
        ] + pairs(upvalues, from + 1)
    }
}

pub proof fn lemma_pairs(c: CompilerView, upvalues: Seq<Upvalue>, from: int)
    requires
        c.frames.len() > 0,
        0 <= from <= upvalues.len(),
    ensures
        same_below(c, c.emit_captures(upvalues, from)),
        c.emit_captures(upvalues, from).top().function.code == c.top().function.code + pairs(
            upvalues,
            from,
        ),
        c.emit_captures(upvalues, from).top().function.constants == c.top().function.constants,
        c.emit_captures(upvalues, from).top().function.upvalue_count
            == c.top().function.upvalue_count,
        c.emit_captures(upvalues, from).top().upvalues == c.top().upvalues,
        c.emit_captures(upvalues, from).top().function.arity == c.top().function.arity,
        c.emit_captures(upvalues, from).top().locals == c.top().locals,
        c.emit_captures(upvalues, from).top().scope_depth == c.top().scope_depth,
        pairs(upvalues, from).len() == 2 * (upvalues.len() - from),
    decreases upvalues.len() - from,
{
    reveal(CompilerView::emit);
    if from < upvalues.len() {
        let first = if upvalues[from].is_local {
            1u8
        } else {
            0u8
        };
        let c1 = c.emit2(first, upvalues[from].index as u8);
        lemma_pairs(c1, upvalues, from + 1);
        let r = c.emit_captures(upvalues, from);
        assert(r == c1.emit_captures(upvalues, from + 1));
        assert(r.top().function.code =~= c.top().function.code + pairs(upvalues, from));
        assert forall|i: int| 0 <= i < c.frames.len() - 1 implies r.frames[i] == #[trigger] c.frames[i] by {
            assert(c1.frames[i] == c.frames[i]);
        }
    } else {
        assert(c.top().function.code + pairs(upvalues, from) =~= c.top().function.code);
    }
}

/// Finishing a function: its code is well cut with no jump pending, and
/// the instruction that makes its closure is one instruction of the
/// enclosing function.
pub proof fn lemma_close_function(c: CompilerView, cut: Cut) -> (cut2: Cut)
    requires
        tidy(c, cut),
        c.frames.len() >= 2,
        cut.waiting() =~= Set::<int>::empty(),
    ensures
        tidy(outer(c), cut.outer()),
        cut2.pending == cut.outer().pending,
        c.close_function() matches Ok(c2) ==> tidy(c2, cut2) && grows(
            outer(c),
            cut.outer(),
            c2,
            cut2,
        ),
{
    reveal(CompilerView::close_function);
    reveal(CompilerView::emit);
    let top = c.frames.len() - 1;
    let done = c.top();
    let functions2 = c.functions.push(done.function);
    let o0 = outer(c);
    let cut0 = cut.outer();
    assert forall|i: int| 0 <= i < o0.frames.len() implies #[trigger] frame_cut(o0, cut0, i) by {
        assert(frame_cut(c, cut, i));
    }
    assert forall|j: int| 0 <= j < o0.functions.len() implies #[trigger] done_cut(o0, cut0, j) by {
        assert(done_cut(c, cut, j));
    }
    let o1 = CompilerView { frames: c.frames.drop_last(), functions: functions2, ..c };
    let cut1 = Cut {
        done: cut.done.push(cut.top()),
        done_heights: cut.done_heights.push(cut.heights.last()),
        done_now: cut.done_now.push(cut.now.last()),
        ..cut.outer()
    };
    assert forall|i: int| 0 <= i < o1.frames.len() implies #[trigger] frame_cut(o1, cut1, i) by {
        assert(frame_cut(c, cut, i));
        lemma_grow_tables(
            c.frames[i].function.code,
            c.frames[i].function.constants,
            c.functions,
            cut.frames[i],
            cut.pending[i],
            c.frames[i].function.constants,
            functions2,
        );
    }
    assert forall|j: int| 0 <= j < o1.functions.len() implies #[trigger] done_cut(o1, cut1, j) by {
        if j < c.functions.len() {
            assert(done_cut(c, cut, j));
            lemma_grow_tables(
                c.functions[j].code,
                c.functions[j].constants,
                c.functions,
                cut.done[j],
                Set::empty(),
                c.functions[j].constants,
                functions2,
            );
        } else {
            assert(frame_cut(c, cut, top));
            assert(cut.pending[top] =~= Set::<int>::empty());
            lemma_grow_tables(
                done.function.code,
                done.function.constants,
                c.functions,
                cut.top(),
                Set::empty(),
                done.function.constants,
                functions2,
            );
        }
    }
    let handle = c.functions.len() as usize;
    lemma_add_constant(o1, cut1, Value::Function(handle));
    if c.functions.len() >= usize::MAX {
        return cut0;
    }
    match o1.add_constant(Value::Function(handle)) {
        Ok((o2, index)) => {
            let o3 = o2.emit2(OP_CLOSURE, index);
            let o4 = o3.emit_captures(done.upvalues, 0);
            lemma_pairs(o3, done.upvalues, 0);
            let bytes = seq![OP_CLOSURE, index] + pairs(done.upvalues, 0);
            assert(o4.top().function.code =~= o2.top().function.code + bytes);
            assert(frame_cut(c, cut, top));
            assert(frame_cut(o2, cut1, o2.frames.len() - 1));
            let code2 = o2.top().function.code + bytes;
            assert(code2[o2.here()] == OP_CLOSURE);
            assert(code2[o2.here() + 1] == index);
            assert(functions2[handle as int] == done.function);
            assert forall|i: int| 0 <= i < o2.frames.len() - 1 implies o4.frames[i]
                == #[trigger] o2.frames[i] by {
                assert(o3.frames[i] == o2.frames[i]);
            }
            lemma_instruction(o2, cut1, bytes, o4, false);
            let cut2 = cut1.mark(o2.here());
            assert(grows(o0, cut0, o4, cut2)) by {
                assert(grows(o2, cut1, o4, cut2));
                assert(o2.here() == o0.here());
                assert(cut1.top() == cut0.top());
                assert forall|i: int| 0 <= i < o0.frames.len() - 1 implies (
                #[trigger] cut2.frames[i]) == cut0.frames[i] && o4.frames[i].function.code
                    == o0.frames[i].function.code by {
                    assert(cut2.frames[i] == cut1.frames[i]);
                    assert(o2.frames[i] == o1.frames[i]);
                }
            }
            cut2
        },
        Err(_) => cut0,
    }
}

} // verus!
