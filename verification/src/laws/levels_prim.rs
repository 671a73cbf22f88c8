//! What each elementary step of the compiler does to the height of the
//! stack.
use vstd::prelude::*;
use super::jumps::{
    done_cut, frame_cut, grows, lemma_add_constant, lemma_add_local, lemma_add_text,
    lemma_begin_scope, lemma_counted, lemma_grows_twice, lemma_patch_jump, lemma_resolve_upvalue,
    lemma_same_code, marked, same_below, same_code, tidy, Cut,
};
use super::levels::{
    branch, cut_off, done_level, effect, falls, frame_level, has_height, keeps, level, level_at,
    lemma_level_instruction, pushes, sound,
};
use super::marks::{cut_at, destination, next_mark, width};
use crate::compiler::model::{find_local, CompilerView, FrameView};
use crate::vm::chunk::{
    be16, fixed_operands, is_jump, OP_ARRAY, OP_CALL, OP_CLOSE_UPVALUE, OP_CLOSURE,
    OP_DEFINE_GLOBAL, OP_GET_GLOBAL, OP_GET_LOCAL, OP_GET_UPVALUE, OP_INDEX_SET, OP_INVOKE,
    OP_JUMP, OP_LOOP, OP_POP, OP_SET_GLOBAL, OP_SET_LOCAL, OP_SET_UPVALUE, OP_SUPER_INVOKE,
};
use crate::vm::value::Value;

verus! {

/// What an instruction without operands does to the height of the stack.
pub open spec fn effect0(op: u8) -> int {
    if op == OP_INDEX_SET {
        -3
    } else if pushes(op) {
        1
    } else if keeps(op) {
        0
    } else {
        -1
    }
}

/// What an instruction with one operand does to the height of the stack.
pub open spec fn effect1(op: u8, operand: u8) -> int {
    if op == OP_CALL {
        -(operand as int)
    } else if op == OP_ARRAY {
        1 - operand as int
    } else {
        effect0(op)
    }
}

/// What an instruction with two operands that is not a jump does to the
/// height of the stack.
pub open spec fn effect2(op: u8, second: u8) -> int {
    if op == OP_INVOKE {
        -(second as int)
    } else if op == OP_SUPER_INVOKE {
        -(second as int) - 1
    } else {
        effect0(op)
    }
}

/// How many values the stack holds, at the end of the current function's
/// code, above the locals of the function.
pub open spec fn surplus(c: CompilerView, cut: Cut) -> int {
    cut.height() - c.top().locals.len()
}

/// The scope depths of the locals of the current function, in slot order.
pub open spec fn depths(c: CompilerView) -> Seq<int> {
    Seq::new(c.top().locals.len(), |i: int| c.top().locals[i].depth)
}

/// The scope depths of the locals of frame `i`, in slot order.
pub open spec fn depths_of(c: CompilerView, i: int) -> Seq<int> {
    Seq::new(c.frames[i].locals.len(), |k: int| c.frames[i].locals[k].depth)
}

/// The frames below the current one have in `c2` the scopes and the locals
/// they have in `c`.
pub open spec fn calm(c: CompilerView, c2: CompilerView) -> bool {
    forall|i: int|
        0 <= i < c.frames.len() - 1 ==> (#[trigger] c2.frames[i]).scope_depth
            == c.frames[i].scope_depth && depths_of(c2, i) == depths_of(c, i)
            && c2.frames[i].function.arity == c.frames[i].function.arity
}

/// No local of the current function lies deeper than the current scope.
pub open spec fn ordered(c: CompilerView) -> bool {
    forall|i: int| 0 <= i < depths(c).len() ==> #[trigger] depths(c)[i] <= c.top().scope_depth
}

/// The current function has in `c2` the scope and the locals it has in `c`.
pub open spec fn still(c: CompilerView, c2: CompilerView) -> bool {
    c2.top().scope_depth == c.top().scope_depth && depths(c2) == depths(c)
}

/// The current function has in `c2` the scope it has in `c` and the locals
/// it has in `c`, and perhaps more, all of the current scope.
pub open spec fn kept(c: CompilerView, c2: CompilerView) -> bool {
    &&& c2.top().scope_depth == c.top().scope_depth
    &&& depths(c).len() <= depths(c2).len()
    &&& forall|i: int| 0 <= i < depths(c).len() ==> depths(c2)[i] == #[trigger] depths(c)[i]
    &&& forall|i: int|
        depths(c).len() <= i < depths(c2).len() ==> #[trigger] depths(c2)[i]
            == c.top().scope_depth
}

/// From `c` to `c2` the current function has grown, the compilation is
/// still tidy and level, and the stack holds `rise` more values above the
/// locals; the other frames have kept their heights.
pub open spec fn moved(c: CompilerView, cut: Cut, c2: CompilerView, cut2: Cut, rise: int) -> bool {
    shifted(c, cut, c2, cut2, rise) && kept(c, c2)
}

/// As `moved`, but the scope and the locals of the current function may
/// have changed.
pub open spec fn shifted(c: CompilerView, cut: Cut, c2: CompilerView, cut2: Cut, rise: int) -> bool {
    &&& sound(c2, cut2)
    &&& grows(c, cut, c2, cut2)
    &&& surplus(c2, cut2) == surplus(c, cut) + rise
    &&& c2.top().function.arity == c.top().function.arity
    &&& calm(c, c2)
    &&& forall|k: int|
        0 <= k < cut.heights.last().len() ==> cut2.heights.last()[k]
            == #[trigger] cut.heights.last()[k]
    &&& forall|i: int|
        0 <= i < c.frames.len() - 1 ==> (#[trigger] cut2.heights[i]) == cut.heights[i]
            && cut2.now[i] == cut.now[i] && cut2.owed[i] == cut.owed[i] && cut2.pending[i]
            == cut.pending[i]
}

/// Since `cut` an instruction was appended to the current function, and the
/// first one has the height that the stack had at `cut`.
pub open spec fn begun(cut: Cut, cut2: Cut) -> bool {
    cut2.top().len() > cut.top().len() && cut2.heights.last().len() > cut.top().len()
        && cut2.heights.last()[cut.top().len() as int] == cut.height()
}

/// What has begun has begun for good.
pub proof fn lemma_begun(
    c: CompilerView,
    cut: Cut,
    c1: CompilerView,
    cut1: Cut,
    rise1: int,
    c2: CompilerView,
    cut2: Cut,
    rise2: int,
)
    requires
        sound(c, cut),
        sound(c1, cut1),
        shifted(c, cut, c1, cut1, rise1),
        shifted(c1, cut1, c2, cut2, rise2),
        begun(cut, cut1),
    ensures
        begun(cut, cut2),
{
    assert(frame_level(c1, cut1, c1.frames.len() - 1));
    assert(frame_level(c2, cut2, c2.frames.len() - 1));
    assert(cut1.heights.last()[cut.top().len() as int] == cut.height());
    assert(cut2.heights.last()[cut.top().len() as int] == cut1.heights.last()[cut.top().len() as int]);
}

/// The current function has in `c2` fewer locals than in `c`: those that
/// lie deeper than its scope in `c2` are gone.
pub open spec fn left(c: CompilerView, c2: CompilerView) -> bool {
    &&& depths(c2).len() <= depths(c).len()
    &&& forall|i: int| 0 <= i < depths(c2).len() ==> #[trigger] depths(c2)[i] == depths(c)[i]
    &&& forall|i: int|
        depths(c2).len() <= i < depths(c).len() ==> #[trigger] depths(c)[i]
            > c2.top().scope_depth
    &&& depths(c2).len() > 0 ==> depths(c2).last() <= c2.top().scope_depth
}

/// Shifting twice is shifting by the sum.
pub proof fn lemma_shifted_twice(
    c: CompilerView,
    cut: Cut,
    c1: CompilerView,
    cut1: Cut,
    rise1: int,
    c2: CompilerView,
    cut2: Cut,
    rise2: int,
)
    requires
        sound(c, cut),
        shifted(c, cut, c1, cut1, rise1),
        shifted(c1, cut1, c2, cut2, rise2),
    ensures
        shifted(c, cut, c2, cut2, rise1 + rise2),
{
    lemma_grows_twice(c, cut, c1, cut1, c2, cut2);
    assert forall|i: int| 0 <= i < c.frames.len() - 1 implies (#[trigger] cut2.heights[i])
        == cut.heights[i] && cut2.now[i] == cut.now[i] && cut2.owed[i] == cut.owed[i]
        && cut2.pending[i] == cut.pending[i] by {
        assert(cut1.heights[i] == cut.heights[i]);
        assert(cut2.heights[i] == cut1.heights[i]);
    }
    assert forall|i: int| 0 <= i < c.frames.len() - 1 implies (#[trigger] c2.frames[i]).scope_depth
        == c.frames[i].scope_depth && depths_of(c2, i) == depths_of(c, i)
        && c2.frames[i].function.arity == c.frames[i].function.arity by {
        assert(c1.frames[i].scope_depth == c.frames[i].scope_depth);
        assert(c2.frames[i].scope_depth == c1.frames[i].scope_depth);
    }
    assert(frame_level(c, cut, c.frames.len() - 1));
    assert(frame_level(c1, cut1, c1.frames.len() - 1));
    assert forall|k: int| 0 <= k < cut.heights.last().len() implies cut2.heights.last()[k]
        == #[trigger] cut.heights.last()[k] by {
        assert(cut1.heights.last()[k] == cut.heights.last()[k]);
        assert(cut2.heights.last()[k] == cut1.heights.last()[k]);
    }
}

/// The jumps that are pending in the current function, and what they owe,
/// are the same in both cuts.
pub open spec fn same_debts(cut: Cut, cut2: Cut) -> bool {
    cut2.waiting() == cut.waiting() && cut2.owed.last() == cut.owed.last()
}

/// Moving twice is moving by the sum.
pub proof fn lemma_moved_twice(
    c: CompilerView,
    cut: Cut,
    c1: CompilerView,
    cut1: Cut,
    rise1: int,
    c2: CompilerView,
    cut2: Cut,
    rise2: int,
)
    requires
        sound(c, cut),
        moved(c, cut, c1, cut1, rise1),
        moved(c1, cut1, c2, cut2, rise2),
    ensures
        moved(c, cut, c2, cut2, rise1 + rise2),
{
    lemma_shifted_twice(c, cut, c1, cut1, rise1, c2, cut2, rise2);
    assert(kept(c, c2)) by {
        assert forall|i: int| 0 <= i < depths(c).len() implies depths(c2)[i] == #[trigger] depths(
            c,
        )[i] by {
            assert(depths(c1)[i] == depths(c)[i]);
            assert(depths(c2)[i] == depths(c1)[i]);
        }
        assert forall|i: int| depths(c).len() <= i < depths(c2).len() implies #[trigger] depths(
            c2,
        )[i] == c.top().scope_depth by {
            if i < depths(c1).len() {
                assert(depths(c1)[i] == c.top().scope_depth);
                assert(depths(c2)[i] == depths(c1)[i]);
            }
        }
    }
}

/// A step that changes no code, no arity and no local of the current
/// function moves nothing.
pub proof fn lemma_level_quiet(c: CompilerView, cut: Cut, c2: CompilerView)
    requires
        sound(c, cut),
        tidy(c2, cut),
        grows(c, cut, c2, cut),
        c2.functions == c.functions,
        forall|i: int|
            0 <= i < c.frames.len() ==> (#[trigger] c2.frames[i]).function.code
                == c.frames[i].function.code && c2.frames[i].function.arity
                == c.frames[i].function.arity,
    ensures
        sound(c2, cut),
{
    assert forall|i: int| 0 <= i < c2.frames.len() implies #[trigger] frame_level(c2, cut, i) by {
        assert(frame_level(c, cut, i));
        assert(c2.frames[i].function.code == c.frames[i].function.code);
    }
    assert forall|j: int| 0 <= j < c2.functions.len() implies #[trigger] done_level(c2, cut, j) by {
        assert(done_level(c, cut, j));
    }
}

/// An instruction without operands moves the height by its effect.
pub proof fn level_emit1(c: CompilerView, cut: Cut, op: u8) -> (cut2: Cut)
    requires
        sound(c, cut),
        fixed_operands(op) == 0,
    ensures
        moved(c, cut, c.emit(op), cut2, effect0(op)),
        still(c, c.emit(op)),
        same_debts(cut, cut2),
        begun(cut, cut2),
{
    reveal(CompilerView::emit);
    assert(frame_cut(c, cut, c.frames.len() - 1));
    let c2 = c.emit(op);
    let bytes = seq![op];
    assert(c2.top().function.code =~= c.top().function.code + bytes);
    let code2 = c.top().function.code + bytes;
    assert(code2[c.here()] == op);
    lemma_level_instruction(c, cut, bytes, c2, false, cut.height() + effect0(op))
}

/// An instruction with one operand, other than a closure, moves the height
/// by its effect.
pub proof fn level_emit2(c: CompilerView, cut: Cut, op: u8, operand: u8) -> (cut2: Cut)
    requires
        sound(c, cut),
        fixed_operands(op) == 1,
        op != OP_CLOSURE,
    ensures
        moved(c, cut, c.emit2(op, operand), cut2, effect1(op, operand)),
        still(c, c.emit2(op, operand)),
        same_debts(cut, cut2),
        begun(cut, cut2),
{
    reveal(CompilerView::emit);
    assert(frame_cut(c, cut, c.frames.len() - 1));
    let c2 = c.emit2(op, operand);
    let bytes = seq![op, operand];
    assert(c2.top().function.code =~= c.top().function.code + bytes);
    let code2 = c.top().function.code + bytes;
    assert(code2[c.here()] == op);
    assert(code2[c.here() + 1] == operand);
    lemma_level_instruction(c, cut, bytes, c2, false, cut.height() + effect1(op, operand))
}

/// An instruction with two operands that is not a jump moves the height by
/// its effect.
pub proof fn level_emit3(c: CompilerView, cut: Cut, op: u8, first: u8, second: u8) -> (cut2: Cut)
    requires
        sound(c, cut),
        fixed_operands(op) == 2,
        !is_jump(op),
    ensures
        moved(c, cut, c.emit2(op, first).emit(second), cut2, effect2(op, second)),
        still(c, c.emit2(op, first).emit(second)),
        same_debts(cut, cut2),
        begun(cut, cut2),
{
    reveal(CompilerView::emit);
    assert(frame_cut(c, cut, c.frames.len() - 1));
    let c2 = c.emit2(op, first).emit(second);
    let bytes = seq![op, first, second];
    assert(c2.top().function.code =~= c.top().function.code + bytes);
    let code2 = c.top().function.code + bytes;
    assert(code2[c.here()] == op);
    assert(code2[c.here() + 2] == second);
    lemma_level_instruction(c, cut, bytes, c2, false, cut.height() + effect2(op, second))
}

/// A forward jump is left pending and owes the height it jumps with.  A
/// conditional jump moves the height by its effect; after an unconditional
/// one the code is cut off.
pub proof fn level_jump(c: CompilerView, cut: Cut, op: u8) -> (cut2: Cut)
    requires
        sound(c, cut),
        is_jump(op),
        op != OP_LOOP,
    ensures
        moved(c, cut, c.emit_jump(op), cut2, if op == OP_JUMP {
            0
        } else {
            branch(op)
        }),
        still(c, c.emit_jump(op)),
        begun(cut, cut2),
        c.emit_jump(op).here() == c.here() + 3,
        !cut.waiting().contains(c.here()),
        !cut.owed.last().contains_key(c.here()),
        cut2.waiting() == cut.waiting().insert(c.here()),
        cut2.owed.last() == cut.owed.last().insert(c.here(), cut.height() + branch(op)),
        op == OP_JUMP ==> cut_off(c.emit_jump(op), cut2),
{
    reveal(CompilerView::emit);
    reveal(CompilerView::emit_jump);
    assert(frame_cut(c, cut, c.frames.len() - 1));
    assert(frame_level(c, cut, c.frames.len() - 1));
    let c2 = c.emit_jump(op);
    let bytes = seq![op, 0xffu8, 0xffu8];
    assert(c2.top().function.code =~= c.top().function.code + bytes);
    let code2 = c.top().function.code + bytes;
    assert(code2[c.here()] == op);
    if cut.waiting().contains(c.here()) {
        assert(cut.top().contains(c.here()));
        let j = choose|j: int| 0 <= j < cut.top().len() && cut.top()[j] == c.here();
        assert(0 <= cut.top()[j] < c.top().function.code.len());
    }
    let after = if op == OP_JUMP {
        cut.height()
    } else {
        cut.height() + branch(op)
    };
    lemma_level_instruction(c, cut, bytes, c2, true, after)
}

/// Writing the distance of a pending jump whose owed height is the height
/// at the end of the code: the jump lands level.
pub proof fn level_patch(c: CompilerView, cut: Cut, site: int) -> (cut2: Cut)
    requires
        sound(c, cut),
        cut.waiting().contains(site - 1),
        cut.owed.last()[site - 1] == cut.height() || cut_off(c, cut),
    ensures
        cut2.waiting() == cut.waiting().remove(site - 1),
        cut2.owed.last() == cut.owed.last().remove(site - 1),
        c.patch_jump(site) matches Ok(c2) ==> moved(
            c,
            cut,
            c2,
            cut2,
            cut.owed.last()[site - 1] - cut.height(),
        ) && still(c, c2),
{
    reveal(CompilerView::patch_jump);
    let top = c.frames.len() - 1;
    let at = site - 1;
    let due = cut.owed.last()[at];
    let cut2 = cut.paid(at).reset(due);
    assert(frame_cut(c, cut, top));
    assert(frame_level(c, cut, top));
    lemma_patch_jump(c, cut, site);
    match c.patch_jump(site) {
        Ok(c2) => {
            let code = c.top().function.code;
            let code2 = c2.top().function.code;
            let marks = cut.top();
            let heights = cut.heights[top];
            let distance = c.here() - site - 2;
            let high = (distance / 256) as u8;
            let low = (distance % 256) as u8;
            assert(be16(high, low) == distance);
            assert(code2 == code.update(site, high).update(site + 1, low));
            assert(tidy(c2, cut2)) by {
                let tidy_cut = cut.settle(at);
                assert(cut2.frames == tidy_cut.frames);
                assert(cut2.pending == tidy_cut.pending);
                assert forall|i: int| 0 <= i < c2.frames.len() implies #[trigger] frame_cut(
                    c2,
                    cut2,
                    i,
                ) by {
                    assert(frame_cut(c2, tidy_cut, i));
                }
                assert forall|j: int| 0 <= j < c2.functions.len() implies #[trigger] done_cut(
                    c2,
                    cut2,
                    j,
                ) by {
                    assert(done_cut(c2, tidy_cut, j));
                }
            }
            assert(grows(c, cut, c2, cut2)) by {
                assert(grows(c, cut, c2, cut.settle(at)));
                assert(cut2.top() == cut.top());
            }
            let j = choose|j: int| 0 <= j < marks.len() && marks[j] == at;
            assert(marks.contains(at));
            assert(cut_at(code, c.top().function.constants, c.functions, marks, cut.waiting(), j));
            assert(level_at(code, marks, heights, cut.height(), cut.waiting(), cut.owed[top], j));
            assert(is_jump(code[at]) && code[at] != OP_LOOP);
            assert forall|i: int| 0 <= i < c2.frames.len() implies #[trigger] frame_level(
                c2,
                cut2,
                i,
            ) by {
                assert(frame_level(c, cut, i));
                if i < top {
                    assert(c2.frames[i] == c.frames[i]);
                } else {
                    assert forall|k: int| 0 <= k < marks.len() implies #[trigger] level_at(
                        code2,
                        marks,
                        heights,
                        due,
                        cut2.pending[i],
                        cut2.owed[i],
                        k,
                    ) by {
                        let here = marks[k];
                        assert(level_at(
                            code,
                            marks,
                            heights,
                            cut.height(),
                            cut.waiting(),
                            cut.owed[top],
                            k,
                        ));
                        assert(cut_at(
                            code,
                            c.top().function.constants,
                            c.functions,
                            marks,
                            cut.waiting(),
                            k,
                        ));
                        assert(0 <= here < code.len());
                        let span = width(code, c.top().function.constants, c.functions, here);
                        assert(here + span <= at || here >= at + 3 || here == at) by {
                            if k < j {
                                assert(next_mark(marks, code.len() as int, k) <= marks[j]) by {
                                    if k + 1 < j {
                                        assert(marks[k + 1] < marks[j]);
                                    }
                                }
                            } else if k > j {
                                assert(marks[j + 1] <= marks[k]) by {
                                    if k > j + 1 {
                                        assert(marks[j + 1] < marks[k]);
                                    }
                                }
                            }
                        }
                        assert(code2[here] == code[here]);
                        if here != at {
                            if span >= 2 {
                                assert(code2[here + 1] == code[here + 1]);
                            }
                            if span >= 3 {
                                assert(code2[here + 2] == code[here + 2]);
                            }
                            assert(effect(code2, here) == effect(code, here));
                            if is_jump(code[here]) {
                                assert(span == 3);
                                assert(destination(code2, here) == destination(code, here));
                                if !cut.waiting().contains(here) {
                                    let goal = destination(code, here);
                                    let want = heights[k] + branch(code[here]);
                                    if goal == code.len() && cut.height() == want {
                                        assert(!cut_off(c, cut)) by {
                                            if cut_off(c, cut) {
                                                assert(cut.top()[k] == here);
                                            }
                                        }
                                    } else {
                                        let t = choose|t: int|
                                            0 <= t < marks.len() && marks[t] == goal
                                                && #[trigger] heights[t] == want;
                                        assert(marks[t] == goal && heights[t] == want);
                                    }
                                }
                            }
                        } else {
                            assert(effect(code2, here) == effect(code, here));
                            assert(code2[at + 1] == high);
                            assert(code2[at + 2] == low);
                            assert(destination(code2, at) == code.len());
                        }
                        if k + 1 == marks.len() {
                            if falls(code[here]) {
                                assert(!cut_off(c, cut)) by {
                                    if cut_off(c, cut) {
                                        assert(cut.top().last() == here);
                                    }
                                }
                            }
                        }
                    }
                }
            }
            assert forall|f: int| 0 <= f < c2.functions.len() implies #[trigger] done_level(
                c2,
                cut2,
                f,
            ) by {
                assert(done_level(c, cut, f));
            }
        },
        Err(_) => {},
    }
    cut2
}

/// A jump back to a mark of the height that the stack has now keeps the
/// code level, and cuts it off.
pub proof fn level_loop(c: CompilerView, cut: Cut, start: int) -> (cut2: Cut)
    requires
        sound(c, cut),
        marked(c, cut, start),
        has_height(cut.top(), cut.heights.last(), cut.height(), c.here(), start, cut.height()),
    ensures
        same_debts(cut, cut2),
        c.emit_loop(start) matches Ok(c2) ==> moved(c, cut, c2, cut2, 0) && cut_off(c2, cut2)
            && still(c, c2),
{
    reveal(CompilerView::emit);
    reveal(CompilerView::emit_loop);
    assert(frame_cut(c, cut, c.frames.len() - 1));
    match c.emit_loop(start) {
        Ok(c2) => {
            let distance = c.here() + 3 - start;
            let high = (distance / 256) as u8;
            let low = (distance % 256) as u8;
            assert(be16(high, low) == distance);
            let bytes = seq![OP_LOOP, high, low];
            let code2 = c.top().function.code + bytes;
            assert(c2.top().function.code =~= code2);
            assert(code2[c.here()] == OP_LOOP);
            assert(code2[c.here() + 1] == high);
            assert(code2[c.here() + 2] == low);
            assert(destination(code2, c.here()) == start);
            if start == c.here() {
                assert(cut.top().push(c.here())[cut.top().len() as int] == start);
            } else {
                let j = choose|j: int| 0 <= j < cut.top().len() && cut.top()[j] == start;
                assert(cut.top().push(c.here())[j] == start);
            }
            lemma_level_instruction(c, cut, bytes, c2, false, cut.height())
        },
        Err(_) => cut,
    }
}

/// A new constant moves nothing.
pub proof fn level_add_constant(c: CompilerView, cut: Cut, value: Value)
    requires
        sound(c, cut),
    ensures
        c.add_constant(value) matches Ok((c2, index)) ==> moved(c, cut, c2, cut, 0) && still(
            c,
            c2,
        ) && same_below(c, c2) && c2.top().function.code == c.top().function.code
            && c2.top().function.constants == c.top().function.constants.push(value) && index
            == c.top().function.constants.len() && c2.top().upvalues == c.top().upvalues
            && c2.top().function.upvalue_count == c.top().function.upvalue_count
            && c2.top().function.arity == c.top().function.arity,
{
    reveal(CompilerView::add_constant);
    lemma_add_constant(c, cut, value);
    match c.add_constant(value) {
        Ok((c2, _)) => {
            assert forall|i: int| 0 <= i < c.frames.len() implies (
            #[trigger] c2.frames[i]).function.code == c.frames[i].function.code
                && c2.frames[i].function.arity == c.frames[i].function.arity by {
                if i < c.frames.len() - 1 {
                    assert(c2.frames[i] == c.frames[i]);
                }
            }
            lemma_level_quiet(c, cut, c2);
            assert(depths(c2) =~= depths(c));
        },
        Err(_) => {},
    }
}

/// A new string constant moves nothing.
pub proof fn level_add_text(c: CompilerView, cut: Cut, text: Seq<char>)
    requires
        sound(c, cut),
    ensures
        c.add_text(text) matches Ok((c2, index)) ==> moved(c, cut, c2, cut, 0) && still(c, c2),
{
    lemma_add_text(c, cut, text);
    match c.add_text(text) {
        Ok((c2, _)) => {
            assert forall|i: int| 0 <= i < c.frames.len() implies (
            #[trigger] c2.frames[i]).function.code == c.frames[i].function.code
                && c2.frames[i].function.arity == c.frames[i].function.arity by {
                if i < c.frames.len() - 1 {
                    assert(c2.frames[i] == c.frames[i]);
                }
            }
            reveal(CompilerView::add_text);
            reveal(CompilerView::add_constant);
            lemma_level_quiet(c, cut, c2);
            assert(depths(c2) =~= depths(c));
        },
        Err(_) => {},
    }
}

/// A constant and the instruction that names it.
pub proof fn level_emit_constant(c: CompilerView, cut: Cut, op: u8, value: Value) -> (cut2: Cut)
    requires
        sound(c, cut),
        fixed_operands(op) == 1,
        op != OP_CLOSURE,
        op != OP_CALL,
        op != OP_ARRAY,
    ensures
        same_debts(cut, cut2),
        c.emit_constant(op, value) matches Ok(c2) ==> moved(c, cut, c2, cut2, effect0(op))
            && still(c, c2) && begun(cut, cut2),
{
    level_add_constant(c, cut, value);
    match c.add_constant(value) {
        Ok((c1, index)) => {
            let cut2 = level_emit2(c1, cut, op, index);
            lemma_moved_twice(c, cut, c1, cut, 0, c1.emit2(op, index), cut2, effect0(op));
            cut2
        },
        Err(_) => cut,
    }
}

/// A string constant and the instruction that names it.
pub proof fn level_emit_text(c: CompilerView, cut: Cut, op: u8, text: Seq<char>) -> (cut2: Cut)
    requires
        sound(c, cut),
        fixed_operands(op) == 1,
        op != OP_CLOSURE,
        op != OP_CALL,
        op != OP_ARRAY,
    ensures
        same_debts(cut, cut2),
        c.emit_text(op, text) matches Ok(c2) ==> moved(c, cut, c2, cut2, effect0(op)) && still(
            c,
            c2,
        ) && begun(cut, cut2),
{
    level_add_text(c, cut, text);
    match c.add_text(text) {
        Ok((c1, index)) => {
            let cut2 = level_emit2(c1, cut, op, index);
            lemma_moved_twice(c, cut, c1, cut, 0, c1.emit2(op, index), cut2, effect0(op));
            cut2
        },
        Err(_) => cut,
    }
}

/// A string constant and the instruction with two operands that names it.
pub proof fn level_emit_text3(
    c: CompilerView,
    cut: Cut,
    op: u8,
    text: Seq<char>,
    last: u8,
) -> (cut2:
    Cut)
    requires
        sound(c, cut),
        fixed_operands(op) == 2,
        !is_jump(op),
    ensures
        same_debts(cut, cut2),
        c.emit_text(op, text) matches Ok(c2) ==> moved(
            c,
            cut,
            c2.emit(last),
            cut2,
            effect2(op, last),
        ) && still(c, c2.emit(last)) && begun(cut, cut2),
{
    level_add_text(c, cut, text);
    match c.add_text(text) {
        Ok((c1, index)) => {
            let cut2 = level_emit3(c1, cut, op, index, last);
            lemma_moved_twice(
                c,
                cut,
                c1,
                cut,
                0,
                c1.emit2(op, index).emit(last),
                cut2,
                effect2(op, last),
            );
            cut2
        },
        Err(_) => cut,
    }
}

/// The access to a variable is one instruction, of the effect of the one
/// that was chosen.
pub proof fn level_named_variable(
    c: CompilerView,
    cut: Cut,
    name: Seq<char>,
    local_op: u8,
    upvalue_op: u8,
    global_op: u8,
    rise: int,
) -> (cut2:
    Cut)
    requires
        sound(c, cut),
        fixed_operands(local_op) == 1 && local_op != OP_CLOSURE && local_op != OP_CALL && local_op
            != OP_ARRAY && effect0(local_op) == rise,
        fixed_operands(upvalue_op) == 1 && upvalue_op != OP_CLOSURE && upvalue_op != OP_CALL
            && upvalue_op != OP_ARRAY && effect0(upvalue_op) == rise,
        fixed_operands(global_op) == 1 && global_op != OP_CLOSURE && global_op != OP_CALL
            && global_op != OP_ARRAY && effect0(global_op) == rise,
    ensures
        same_debts(cut, cut2),
        c.named_variable(name, local_op, upvalue_op, global_op) matches Ok(c2) ==> moved(
            c,
            cut,
            c2,
            cut2,
            rise,
        ) && still(c, c2) && begun(cut, cut2),
{
    reveal(CompilerView::named_variable);
    match find_local(c.top().locals, name, c.top().locals.len() as int) {
        Some(slot) => level_emit2(c, cut, local_op, slot as u8),
        None => {
            lemma_counted(c, cut);
            lemma_resolve_upvalue(c, c.frames.len() - 1, name);
            match c.resolve_upvalue(c.frames.len() - 1, name) {
                Ok((c1, found)) => {
                    lemma_same_code(c, cut, c1);
                    lemma_level_quiet(c, cut, c1);
                    assert(c1.frames[c.frames.len() - 1].locals == c.frames[c.frames.len()
                        - 1].locals);
                    assert(depths(c1) =~= depths(c));
                    reveal(CompilerView::resolve_upvalue);
                    lemma_resolve_scope(c, c.frames.len() - 1, name);
                    assert(c1.top().scope_depth == c.top().scope_depth);
                    assert(calm(c, c1));
                    assert(moved(c, cut, c1, cut, 0));
                    match found {
                        Some(index) => {
                            let cut2 = level_emit2(c1, cut, upvalue_op, index);
                            lemma_moved_twice(
                                c,
                                cut,
                                c1,
                                cut,
                                0,
                                c1.emit2(upvalue_op, index),
                                cut2,
                                rise,
                            );
                            cut2
                        },
                        None => {
                            let cut2 = level_emit_text(c1, cut, global_op, name);
                            match c1.emit_text(global_op, name) {
                                Ok(c2) => {
                                    lemma_moved_twice(c, cut, c1, cut, 0, c2, cut2, rise);
                                },
                                Err(_) => {},
                            }
                            cut2
                        },
                    }
                },
                Err(_) => cut,
            }
        },
    }
}

/// Loading a variable pushes one value.
pub proof fn level_load(c: CompilerView, cut: Cut, name: Seq<char>) -> (cut2: Cut)
    requires
        sound(c, cut),
    ensures
        same_debts(cut, cut2),
        c.load(name) matches Ok(c2) ==> moved(c, cut, c2, cut2, 1) && still(c, c2) && begun(
            cut,
            cut2,
        ),
{
    level_named_variable(c, cut, name, OP_GET_LOCAL, OP_GET_UPVALUE, OP_GET_GLOBAL, 1)
}

/// Storing into a variable leaves the value on the stack.
pub proof fn level_store(c: CompilerView, cut: Cut, name: Seq<char>) -> (cut2: Cut)
    requires
        sound(c, cut),
    ensures
        same_debts(cut, cut2),
        c.store(name) matches Ok(c2) ==> moved(c, cut, c2, cut2, 0) && still(c, c2) && begun(
            cut,
            cut2,
        ),
{
    level_named_variable(c, cut, name, OP_SET_LOCAL, OP_SET_UPVALUE, OP_SET_GLOBAL, 0)
}

/// A local that is found is one of the locals looked at.
pub proof fn lemma_find_local(
    locals: Seq<crate::compiler::scope::LocalView>,
    name: Seq<char>,
    upto: int,
)
    requires
        upto <= locals.len(),
    ensures
        find_local(locals, name, upto) matches Some(slot) ==> 0 <= slot < upto && locals[slot].name
            == name,
    decreases upto,
{
    if upto > 0 && locals[upto - 1].name != name {
        lemma_find_local(locals, name, upto - 1);
    }
}

/// Resolving an upvalue leaves the scope of every frame and the depths of
/// its locals as they are.
proof fn lemma_resolve_scope(c: CompilerView, level: int, name: Seq<char>)
    requires
        0 <= level < c.frames.len(),
    ensures
        c.resolve_upvalue(level, name) matches Ok((c2, _)) ==> c2.frames.len() == c.frames.len()
            && forall|i: int|
            0 <= i < c.frames.len() ==> (#[trigger] c2.frames[i]).scope_depth
                == c.frames[i].scope_depth && depths_of(c2, i) == depths_of(c, i),
    decreases level,
{
    reveal(CompilerView::resolve_upvalue);
    reveal(CompilerView::add_upvalue);
    if level > 0 {
        let outer = c.frames[level - 1];
        match find_local(outer.locals, name, outer.locals.len() as int) {
            Some(slot) => {
                lemma_find_local(outer.locals, name, outer.locals.len() as int);
                let c1 = c.set_frame(level - 1, outer.capture(slot));
                assert forall|i: int| 0 <= i < c.frames.len() implies (
                #[trigger] c1.frames[i]).scope_depth == c.frames[i].scope_depth && depths_of(c1, i)
                    == depths_of(c, i) by {
                    assert(depths_of(c1, i) =~= depths_of(c, i));
                }
                match c1.add_upvalue(level, slot, true) {
                    Ok((c2, _)) => {
                        assert forall|i: int| 0 <= i < c.frames.len() implies (
                        #[trigger] c2.frames[i]).scope_depth == c.frames[i].scope_depth
                            && depths_of(c2, i) == depths_of(c, i) by {
                            assert(c1.frames[i].scope_depth == c.frames[i].scope_depth);
                            assert(depths_of(c2, i) =~= depths_of(c1, i));
                        }
                    },
                    Err(_) => {},
                }
            },
            None => {
                lemma_resolve_scope(c, level - 1, name);
                match c.resolve_upvalue(level - 1, name) {
                    Ok((c1, Some(index))) => match c1.add_upvalue(level, index as int, false) {
                        Ok((c2, _)) => {
                            assert forall|i: int| 0 <= i < c.frames.len() implies (
                            #[trigger] c2.frames[i]).scope_depth == c.frames[i].scope_depth
                                && depths_of(c2, i) == depths_of(c, i) by {
                                assert(c1.frames[i].scope_depth == c.frames[i].scope_depth);
                                assert(depths_of(c2, i) =~= depths_of(c1, i));
                            }
                        },
                        Err(_) => {},
                    },
                    _ => {},
                }
            },
        }
    }
}

/// Entering a scope moves nothing; the scope is one deeper.
pub proof fn level_begin_scope(c: CompilerView, cut: Cut)
    requires
        sound(c, cut),
    ensures
        c.begin_scope() matches Ok(c2) ==> shifted(c, cut, c2, cut, 0) && depths(c2) == depths(c)
            && c2.top().scope_depth == c.top().scope_depth + 1,
{
    reveal(CompilerView::begin_scope);
    lemma_begin_scope(c, cut);
    match c.begin_scope() {
        Ok(c2) => {
            lemma_level_quiet(c, cut, c2);
            assert(depths(c2) =~= depths(c));
        },
        Err(_) => {},
    }
}

/// Declaring a local takes the value on top of the stack for the local.
pub proof fn level_add_local(c: CompilerView, cut: Cut, name: Seq<char>)
    requires
        sound(c, cut),
    ensures
        c.add_local(name) matches Ok(c2) ==> moved(c, cut, c2, cut, -1) && find_local(
            c2.top().locals,
            name,
            c2.top().locals.len() as int,
        ) is Some && depths(c2) == depths(c).push(c.top().scope_depth),
{
    reveal(CompilerView::add_local);
    lemma_add_local(c, cut, name);
    match c.add_local(name) {
        Ok(c2) => {
            lemma_level_quiet(c, cut, c2);
            assert(depths(c2) =~= depths(c).push(c.top().scope_depth));
        },
        Err(_) => {},
    }
}

/// Binding the value on top of the stack to a name takes it off the
/// surplus, whether it becomes a local or a global.
pub proof fn level_define(c: CompilerView, cut: Cut, name: Seq<char>) -> (cut2: Cut)
    requires
        sound(c, cut),
    ensures
        same_debts(cut, cut2),
        c.define(name) matches Ok(c2) ==> moved(c, cut, c2, cut2, -1) && (c.top().scope_depth == 0
            ==> still(c, c2)),
{
    reveal(CompilerView::define);
    if c.top().scope_depth > 0 {
        level_add_local(c, cut, name);
        cut
    } else {
        level_emit_text(c, cut, OP_DEFINE_GLOBAL, name)
    }
}

/// Discarding locals pops one value for each: the surplus stays, and the
/// locals that lie deeper than the scope are gone.
proof fn level_discard(c: CompilerView, cut: Cut) -> (cut2: Cut)
    requires
        sound(c, cut),
    ensures
        same_debts(cut, cut2),
        shifted(c, cut, c.set_top(c.top().discard_locals()), cut2, 0),
        left(c, c.set_top(c.top().discard_locals())),
        c.set_top(c.top().discard_locals()).top().scope_depth == c.top().scope_depth,
    decreases c.top().locals.len(),
{
    reveal(CompilerView::emit);
    let frame = c.top();
    if frame.locals.len() > 0 && frame.locals.last().depth > frame.scope_depth {
        let op = if frame.locals.last().is_captured {
            OP_CLOSE_UPVALUE
        } else {
            OP_POP
        };
        let cut1 = level_emit1(c, cut, op);
        let c1 = c.emit(op);
        let next = FrameView { locals: frame.locals.drop_last(), ..frame.emit(op) };
        let c2 = c.set_top(next);
        assert(same_code(c1, c2)) by {
            assert forall|i: int| 0 <= i < c1.frames.len() implies (
            #[trigger] c2.frames[i]).function.upvalue_count == c2.frames[i].upvalues.len() by {
                assert(frame_cut(c1, cut1, i));
            }
        }
        lemma_same_code(c1, cut1, c2);
        lemma_level_quiet(c1, cut1, c2);
        assert(shifted(c1, cut1, c2, cut1, 1));
        lemma_shifted_twice(c, cut, c1, cut1, -1, c2, cut1, 1);
        let cut3 = level_discard(c2, cut1);
        let done = c.set_top(frame.discard_locals());
        assert(c2.set_top(c2.top().discard_locals()) =~= done) by {
            assert(c2.set_top(c2.top().discard_locals()).frames =~= done.frames);
        }
        lemma_shifted_twice(c, cut, c2, cut1, 0, done, cut3, 0);
        assert(left(c, done)) by {
            assert(depths(c2) =~= depths(c).drop_last());
            assert forall|i: int| 0 <= i < depths(done).len() implies #[trigger] depths(done)[i]
                == depths(c)[i] by {
                assert(depths(done)[i] == depths(c2)[i]);
            }
            assert forall|i: int| depths(done).len() <= i < depths(c).len() implies #[trigger] depths(
                c,
            )[i] > done.top().scope_depth by {
                if i < depths(c2).len() {
                    assert(depths(c2)[i] > done.top().scope_depth);
                }
            }
        }
        cut3
    } else {
        assert(c.set_top(frame.discard_locals()).frames =~= c.frames);
        assert(c.set_top(frame.discard_locals()) == c);
        cut
    }
}

/// Leaving a scope pops one value for each local of the scope: the surplus
/// stays, the scope is one less deep, and the locals that lay deeper are
/// gone.
pub proof fn level_end_scope(c: CompilerView, cut: Cut) -> (cut2: Cut)
    requires
        sound(c, cut),
    ensures
        same_debts(cut, cut2),
        shifted(c, cut, c.end_scope(), cut2, 0),
        left(c, c.end_scope()),
        c.end_scope().top().scope_depth == c.top().scope_depth - 1,
{
    reveal(CompilerView::end_scope);
    lemma_counted(c, cut);
    let c1 = c.set_top(FrameView { scope_depth: c.top().scope_depth - 1, ..c.top() });
    assert(same_code(c, c1)) by {
        assert forall|i: int| 0 <= i < c.frames.len() implies (
        #[trigger] c1.frames[i]).function.upvalue_count == c1.frames[i].upvalues.len() by {
            assert(c.frames[i].function.upvalue_count == c.frames[i].upvalues.len());
        }
    }
    lemma_same_code(c, cut, c1);
    lemma_level_quiet(c, cut, c1);
    assert(depths(c1) =~= depths(c));
    assert(shifted(c, cut, c1, cut, 0));
    let cut2 = level_discard(c1, cut);
    assert(c1.set_top(c1.top().discard_locals()).frames =~= c.end_scope().frames);
    lemma_shifted_twice(c, cut, c1, cut, 0, c.end_scope(), cut2, 0);
    cut2
}

/// A scope that is entered, filled and left leaves the locals as they were:
/// if from the entry of the scope to its end the compilation has moved by
/// `rise`, then over the whole it has moved by `rise` and the locals are
/// those of before.
pub proof fn lemma_scope_closed(
    c: CompilerView,
    cut: Cut,
    c1: CompilerView,
    c2: CompilerView,
    cut2: Cut,
    rise: int,
    cut3: Cut,
)
    requires
        sound(c, cut),
        ordered(c),
        shifted(c, cut, c1, cut, 0),
        depths(c1) == depths(c),
        c1.top().scope_depth == c.top().scope_depth + 1,
        moved(c1, cut, c2, cut2, rise),
        shifted(c2, cut2, c2.end_scope(), cut3, 0),
        left(c2, c2.end_scope()),
        c2.end_scope().top().scope_depth == c2.top().scope_depth - 1,
    ensures
        moved(c, cut, c2.end_scope(), cut3, rise),
        still(c, c2.end_scope()),
{
    let c3 = c2.end_scope();
    lemma_shifted_twice(c, cut, c1, cut, 0, c2, cut2, rise);
    lemma_shifted_twice(c, cut, c2, cut2, rise, c3, cut3, 0);
    let d = c.top().scope_depth;
    let n = depths(c).len();
    assert(depths(c3).len() == n) by {
        if depths(c3).len() > n {
            let i = depths(c3).len() - 1;
            assert(depths(c3)[i] == depths(c2)[i]);
            assert(depths(c2)[i] == c1.top().scope_depth);
        }
        if depths(c3).len() < n {
            let i = depths(c3).len() as int;
            assert(depths(c2)[i] > d);
            assert(depths(c2)[i] == depths(c1)[i]);
            assert(depths(c)[i] <= d);
        }
    }
    assert(depths(c3) =~= depths(c)) by {
        assert forall|i: int| 0 <= i < n implies depths(c3)[i] == depths(c)[i] by {
            assert(depths(c3)[i] == depths(c2)[i]);
            assert(depths(c2)[i] == depths(c1)[i]);
        }
    }
}

/// Since `cut` the current function has not grown and the height has not
/// changed, or it has begun to grow.
pub open spec fn rooted(cut: Cut, cut2: Cut) -> bool {
    (cut2.top().len() == cut.top().len() && cut2.height() == cut.height()) || begun(cut, cut2)
}

/// What is rooted and then begins has begun.
pub proof fn lemma_rooted_begun(
    c: CompilerView,
    cut: Cut,
    c1: CompilerView,
    cut1: Cut,
    rise1: int,
    c2: CompilerView,
    cut2: Cut,
    rise2: int,
)
    requires
        sound(c, cut),
        sound(c1, cut1),
        shifted(c, cut, c1, cut1, rise1),
        shifted(c1, cut1, c2, cut2, rise2),
        rooted(cut, cut1),
        begun(cut1, cut2),
    ensures
        begun(cut, cut2),
{
    if begun(cut, cut1) {
        lemma_begun(c, cut, c1, cut1, rise1, c2, cut2, rise2);
    }
}

/// Locals that are kept stay ordered.
pub proof fn lemma_ordered(c: CompilerView, c2: CompilerView)
    requires
        ordered(c),
        kept(c, c2),
    ensures
        ordered(c2),
{
    assert forall|i: int| 0 <= i < depths(c2).len() implies #[trigger] depths(c2)[i]
        <= c2.top().scope_depth by {
        if i < depths(c).len() {
            assert(depths(c2)[i] == depths(c)[i]);
        }
    }
}

} // verus!
