//! The height of the stack before every instruction.
//!
//! Within one call, what an instruction does to the height of the stack can
//! be read off the instruction.  A code is level if every instruction can be
//! given a height such that each instruction hands to the next, and each
//! jump to where it lands, the height it was given changed by what the
//! instruction does.  This module says so exactly and shows that the
//! instructions the compiler appends keep a code level.
use vstd::prelude::*;
use super::jumps::{frame_cut, grows, lemma_instruction, same_below, tidy, Cut};
use super::marks::{cut_at, destination, is_mark, width};
use crate::compiler::model::CompilerView;
use crate::vm::chunk::{
    is_jump, OP_ARRAY, OP_CALL, OP_CLASS, OP_CLOSURE, OP_CONSTANT, OP_CONSTANT0, OP_COUNTUP,
    OP_FALSE, OP_GET_GLOBAL, OP_GET_LOCAL, OP_GET_PROP, OP_GET_UPVALUE, OP_INDEX_SET, OP_INVOKE,
    OP_JUMP, OP_JUMP_IF_FALSE, OP_JUMP_IF_RANGE_END, OP_LOOP, OP_NEGATIVE, OP_NOT, OP_NULL,
    OP_SET_GLOBAL, OP_SET_LOCAL, OP_SET_UPVALUE, OP_SUPER_INVOKE, OP_TRUE,
};

verus! {

/// The instruction hands control to the instruction after it.
pub open spec fn falls(op: u8) -> bool {
    op != OP_JUMP && op != OP_LOOP
}

/// The instruction pushes one value and pops none.
pub open spec fn pushes(op: u8) -> bool {
    op == OP_CONSTANT || op == OP_NULL || op == OP_TRUE || op == OP_FALSE || op == OP_CONSTANT0
        || op == OP_GET_GLOBAL || op == OP_GET_LOCAL || op == OP_GET_UPVALUE || op == OP_CLASS
        || op == OP_CLOSURE
}

/// The instruction leaves the height of the stack as it is.
pub open spec fn keeps(op: u8) -> bool {
    op == OP_NEGATIVE || op == OP_NOT || op == OP_SET_GLOBAL || op == OP_SET_LOCAL || op
        == OP_SET_UPVALUE || op == OP_GET_PROP || op == OP_COUNTUP || op == OP_JUMP_IF_FALSE
        || op == OP_JUMP || op == OP_LOOP
}

/// By how much the instruction at `at` changes the height of the stack of
/// its call, once it is done and, if it is a call, the callee has returned.
pub open spec fn effect(code: Seq<u8>, at: int) -> int {
    let op = code[at];
    if op == OP_CALL {
        -(code[at + 1] as int)
    } else if op == OP_ARRAY {
        1 - code[at + 1] as int
    } else if op == OP_INVOKE {
        -(code[at + 2] as int)
    } else if op == OP_SUPER_INVOKE {
        -(code[at + 2] as int) - 1
    } else if op == OP_INDEX_SET {
        -3
    } else if pushes(op) {
        1
    } else if keeps(op) {
        0
    } else {
        -1
    }
}

/// By how much a jump instruction changes the height of the stack when it
/// jumps.
pub open spec fn branch(op: u8) -> int {
    if op == OP_JUMP_IF_RANGE_END {
        -1
    } else {
        0
    }
}

/// The height after the `k`-th instruction: that of the next, or that at
/// the end of the code.
pub open spec fn next_height(heights: Seq<int>, now: int, k: int) -> int {
    if k + 1 < heights.len() {
        heights[k + 1]
    } else {
        now
    }
}

/// The place `x` has the height `want`: it is a mark with that height, or
/// the end of the code with that height.
pub open spec fn has_height(marks: Seq<int>, heights: Seq<int>, now: int, len: int, x: int, want: int) -> bool {
    (x == len && now == want) || exists|t: int|
        0 <= t < marks.len() && marks[t] == x && #[trigger] heights[t] == want
}

/// The `k`-th instruction hands on the right height: to the next
/// instruction if it falls through, and to where it lands if it jumps; a
/// jump still pending owes its height.
pub open spec fn level_at(
    code: Seq<u8>,
    marks: Seq<int>,
    heights: Seq<int>,
    now: int,
    pending: Set<int>,
    owed: Map<int, int>,
    k: int,
) -> bool {
    let at = marks[k];
    &&& falls(code[at]) ==> next_height(heights, now, k) == heights[k] + effect(code, at)
    &&& is_jump(code[at]) ==> if pending.contains(at) {
        owed.contains_key(at) && owed[at] == heights[k] + branch(code[at])
    } else {
        has_height(
            marks,
            heights,
            now,
            code.len() as int,
            destination(code, at),
            heights[k] + branch(code[at]),
        )
    }
}

/// The code is level: every instruction has a height, the first one
/// `start`, and every instruction hands on the right height.
pub open spec fn level_code(
    code: Seq<u8>,
    marks: Seq<int>,
    heights: Seq<int>,
    now: int,
    pending: Set<int>,
    owed: Map<int, int>,
    start: int,
) -> bool {
    &&& heights.len() == marks.len()
    &&& marks.len() == 0 ==> now == start
    &&& marks.len() > 0 ==> heights[0] == start
    &&& forall|x: int| owed.contains_key(x) ==> pending.contains(x)
    &&& forall|k: int|
        0 <= k < marks.len() ==> #[trigger] level_at(code, marks, heights, now, pending, owed, k)
}

/// The code of frame `i` is level, from the height at which a call of its
/// function starts: the callee and its arguments.
pub open spec fn frame_level(c: CompilerView, cut: Cut, i: int) -> bool {
    level_code(
        c.frames[i].function.code,
        cut.frames[i],
        cut.heights[i],
        cut.now[i],
        cut.pending[i],
        cut.owed[i],
        1 + c.frames[i].function.arity,
    )
}

/// The code of the finished function `j` is level.
pub open spec fn done_level(c: CompilerView, cut: Cut, j: int) -> bool {
    level_code(
        c.functions[j].code,
        cut.done[j],
        cut.done_heights[j],
        cut.done_now[j],
        Set::empty(),
        Map::empty(),
        1 + c.functions[j].arity,
    )
}

/// All code of the compilation is level.
pub open spec fn level(c: CompilerView, cut: Cut) -> bool {
    &&& cut.heights.len() == c.frames.len()
    &&& cut.now.len() == c.frames.len()
    &&& cut.owed.len() == c.frames.len()
    &&& cut.done_heights.len() == c.functions.len()
    &&& cut.done_now.len() == c.functions.len()
    &&& forall|i: int| 0 <= i < c.frames.len() ==> #[trigger] frame_level(c, cut, i)
    &&& forall|j: int| 0 <= j < c.functions.len() ==> #[trigger] done_level(c, cut, j)
}

impl Cut {
    /// The height of the stack at the end of the current function's code.
    pub open spec fn height(self) -> int {
        self.now.last()
    }

    /// The cut after an instruction was appended at `at` that leaves the
    /// height `after`.
    pub open spec fn step(self, at: int, after: int) -> Cut {
        Cut {
            heights: self.heights.update(
                self.heights.len() - 1,
                self.heights.last().push(self.height()),
            ),
            now: self.now.update(self.now.len() - 1, after),
            ..self.mark(at)
        }
    }

    /// The cut with the height at the end of the code set to `after`.
    pub open spec fn reset(self, after: int) -> Cut {
        Cut { now: self.now.update(self.now.len() - 1, after), ..self }
    }

    /// The cut with the pending jump at `at` owing the height `height`.
    pub open spec fn owe(self, at: int, height: int) -> Cut {
        Cut {
            owed: self.owed.update(self.owed.len() - 1, self.owed.last().insert(at, height)),
            ..self.wait_for(at)
        }
    }

    /// The cut with the jump at `at` no longer pending.
    pub open spec fn paid(self, at: int) -> Cut {
        Cut {
            owed: self.owed.update(self.owed.len() - 1, self.owed.last().remove(at)),
            ..self.settle(at)
        }
    }
}

/// No jump lands at the end of the current function's code, and the last
/// instruction there does not fall through: whatever comes next can only be
/// reached by a jump that is still pending.
pub open spec fn cut_off(c: CompilerView, cut: Cut) -> bool {
    let code = c.top().function.code;
    &&& cut.top().len() > 0
    &&& !falls(code[cut.top().last()])
    &&& forall|k: int|
        0 <= k < cut.top().len() && is_jump(code[#[trigger] cut.top()[k]])
            && !cut.waiting().contains(cut.top()[k]) ==> destination(code, cut.top()[k])
            != code.len()
}

/// The compilation is tidy and level.
pub open spec fn sound(c: CompilerView, cut: Cut) -> bool {
    tidy(c, cut) && level(c, cut)
}

/// One whole instruction appended to the current function keeps the
/// compilation level.  If the instruction falls through it leaves the
/// height it should; a jump lands at its height or is left pending.
pub proof fn lemma_level_instruction(
    c: CompilerView,
    cut: Cut,
    bytes: Seq<u8>,
    c2: CompilerView,
    wait: bool,
    after: int,
) -> (cut2: Cut)
    requires
        sound(c, cut),
        bytes.len() >= 1,
        same_below(c, c2),
        c2.top().function.code == c.top().function.code + bytes,
        c.top().function.constants.len() <= c2.top().function.constants.len(),
        forall|i: int|
            0 <= i < c.top().function.constants.len() ==> c2.top().function.constants[i]
                == c.top().function.constants[i],
        c2.top().function.upvalue_count == c2.top().upvalues.len(),
        c2.top().function.arity == c.top().function.arity,
        bytes.len() == width(
            c.top().function.code + bytes,
            c2.top().function.constants,
            c.functions,
            c.here(),
        ),
        bytes[0] == OP_CLOSURE ==> bytes.len() >= 2 && bytes[1] < c2.top().function.constants.len()
            && c2.top().function.constants[bytes[1] as int] is Function
            && c2.top().function.constants[bytes[1] as int]->Function_0 < c.functions.len(),
        wait ==> is_jump(bytes[0]) && bytes[0] != OP_LOOP,
        !wait && is_jump(bytes[0]) ==> is_mark(
            cut.top().push(c.here()),
            c.here() + bytes.len(),
            destination(c.top().function.code + bytes, c.here()),
        ) && has_height(
            cut.top(),
            cut.heights.last(),
            cut.height(),
            c.here(),
            destination(c.top().function.code + bytes, c.here()),
            cut.height() + branch(bytes[0]),
        ),
        falls(bytes[0]) ==> after == cut.height() + effect(
            c.top().function.code + bytes,
            c.here(),
        ),
    ensures
        cut2 == if wait {
            cut.step(c.here(), after).owe(c.here(), cut.height() + branch(bytes[0]))
        } else {
            cut.step(c.here(), after)
        },
        sound(c2, cut2),
        grows(c, cut, c2, cut2),
        c2.here() == c.here() + bytes.len(),
        !falls(bytes[0]) ==> cut_off(c2, cut2),
        cut2.top().len() > cut.top().len(),
        cut2.heights.last().len() > cut.top().len(),
        cut2.heights.last()[cut.top().len() as int] == cut.height(),
        forall|k: int|
            0 <= k < cut.heights.last().len() ==> cut2.heights.last()[k]
                == #[trigger] cut.heights.last()[k],
{
    let stepped = cut.step(c.here(), after);
    let cut2 = if wait {
        stepped.owe(c.here(), cut.height() + branch(bytes[0]))
    } else {
        stepped
    };
    lemma_instruction(c, cut, bytes, c2, wait);
    let top = c.frames.len() - 1;
    let old = c.here();
    let code = c.top().function.code;
    let code2 = code + bytes;
    let marks = cut.top();
    let marks2 = marks.push(old);
    let heights = cut.heights[top];
    let heights2 = heights.push(cut.height());
    assert(frame_cut(c, cut, top));
    assert(frame_level(c, cut, top));
    assert(cut2.heights.last() == heights2);
    assert(heights2[marks.len() as int] == cut.height());
    assert(cut2.frames =~= cut.mark(old).frames);
    assert(cut2.pending =~= if wait {
        cut.mark(old).wait_for(old).pending
    } else {
        cut.mark(old).pending
    });
    assert(tidy(c2, cut2)) by {
        let tidy_cut = if wait {
            cut.mark(old).wait_for(old)
        } else {
            cut.mark(old)
        };
        assert forall|i: int| 0 <= i < c2.frames.len() implies #[trigger] frame_cut(c2, cut2, i) by {
            assert(frame_cut(c2, tidy_cut, i));
        }
        assert forall|j: int| 0 <= j < c2.functions.len() implies #[trigger] super::jumps::done_cut(
            c2,
            cut2,
            j,
        ) by {
            assert(super::jumps::done_cut(c2, tidy_cut, j));
        }
    }
    assert(grows(c, cut, c2, cut2)) by {
        assert(grows(c, cut, c2, cut.mark(old)));
        assert(cut2.top() == cut.mark(old).top());
    }
    assert forall|i: int| 0 <= i < c2.frames.len() implies #[trigger] frame_level(c2, cut2, i) by {
        assert(frame_level(c, cut, i));
        if i < top {
            assert(c2.frames[i] == c.frames[i]);
            assert(cut2.heights[i] == cut.heights[i]);
            assert(cut2.frames[i] == cut.frames[i]);
        } else {
            assert(cut2.frames[i] == marks2);
            assert(cut2.heights[i] == heights2);
            assert(cut2.now[i] == after);
            let pending2 = cut2.pending[i];
            let owed2 = cut2.owed[i];
            assert forall|k: int| 0 <= k < marks2.len() implies #[trigger] level_at(
                code2,
                marks2,
                heights2,
                after,
                pending2,
                owed2,
                k,
            ) by {
                if k < marks.len() {
                    let at = marks[k];
                    assert(level_at(
                        code,
                        marks,
                        heights,
                        cut.height(),
                        cut.pending[i],
                        cut.owed[i],
                        k,
                    ));
                    assert(cut_at(
                        code,
                        c.top().function.constants,
                        c.functions,
                        marks,
                        cut.pending[i],
                        k,
                    ));
                    assert(0 <= at < code.len());
                    assert(code2[at] == code[at]);
                    let ends = super::marks::next_mark(marks, old, k);
                    assert(ends <= old) by {
                        if k + 1 < marks.len() {
                            assert(marks[k + 1] < code.len());
                        }
                    }
                    assert(at + width(code, c.top().function.constants, c.functions, at) <= old);
                    if code[at] == OP_CALL || code[at] == OP_ARRAY {
                        assert(code2[at + 1] == code[at + 1]);
                    }
                    if code[at] == OP_INVOKE || code[at] == OP_SUPER_INVOKE {
                        assert(code2[at + 2] == code[at + 2]);
                    }
                    assert(effect(code2, at) == effect(code, at));
                    assert(next_height(heights2, after, k) == next_height(
                        heights,
                        cut.height(),
                        k,
                    ));
                    if is_jump(code[at]) {
                        assert(code2[at + 1] == code[at + 1]);
                        assert(code2[at + 2] == code[at + 2]);
                        assert(destination(code2, at) == destination(code, at));
                        if cut.pending[i].contains(at) {
                            assert(pending2.contains(at));
                            assert(at != old);
                            assert(owed2.contains_key(at) && owed2[at] == cut.owed[i][at]);
                        } else {
                            assert(!pending2.contains(at));
                            let goal = destination(code, at);
                            let want = heights[k] + branch(code[at]);
                            if goal == old && cut.height() == want {
                                assert(marks2[marks.len() as int] == goal);
                                assert(heights2[marks.len() as int] == want);
                            } else {
                                let t = choose|t: int|
                                    0 <= t < marks.len() && marks[t] == goal && #[trigger] heights[t]
                                        == want;
                                assert(marks2[t] == goal && heights2[t] == want);
                            }
                        }
                    }
                } else {
                    assert(marks2[k] == old);
                    assert(code2[old] == bytes[0]);
                    assert(heights2[k] == cut.height());
                    if is_jump(bytes[0]) {
                        if wait {
                            assert(pending2.contains(old));
                            assert(owed2.contains_key(old));
                        } else {
                            assert(!pending2.contains(old)) by {
                                if cut.pending[i].contains(old) {
                                    assert(marks.contains(old));
                                    let j = choose|j: int| 0 <= j < marks.len() && marks[j] == old;
                                    assert(0 <= marks[j] < code.len());
                                }
                            }
                            let goal = destination(code2, old);
                            let want = cut.height() + branch(bytes[0]);
                            if goal == old && cut.height() == want {
                                assert(marks2[marks.len() as int] == goal);
                                assert(heights2[marks.len() as int] == want);
                            } else {
                                let t = choose|t: int|
                                    0 <= t < marks.len() && marks[t] == goal && #[trigger] heights[t]
                                        == want;
                                assert(marks2[t] == goal && heights2[t] == want);
                            }
                        }
                    }
                }
            }
            if marks.len() > 0 {
                assert(heights2[0] == heights[0]);
            }
        }
    }
    assert forall|j: int| 0 <= j < c2.functions.len() implies #[trigger] done_level(c2, cut2, j) by {
        assert(done_level(c, cut, j));
    }
    if !falls(bytes[0]) {
        assert(cut2.top().last() == old);
        assert(code2[old] == bytes[0]);
        assert forall|k: int|
            0 <= k < cut2.top().len() && is_jump(code2[#[trigger] cut2.top()[k]])
                && !cut2.waiting().contains(cut2.top()[k]) implies destination(
            code2,
            cut2.top()[k],
        ) != code2.len() by {
            if k < marks.len() {
                let at = marks[k];
                assert(cut_at(
                    code,
                    c.top().function.constants,
                    c.functions,
                    marks,
                    cut.pending[top],
                    k,
                ));
                assert(0 <= at < code.len());
                assert(code2[at] == code[at]);
                let ends = super::marks::next_mark(marks, old, k);
                assert(ends <= old) by {
                    if k + 1 < marks.len() {
                        assert(marks[k + 1] < code.len());
                    }
                }
                assert(code2[at + 1] == code[at + 1]);
                assert(code2[at + 2] == code[at + 2]);
                assert(!cut.pending[top].contains(at));
                assert(is_mark(marks, old, destination(code, at)));
                if destination(code, at) != old {
                    let j = choose|j: int| 0 <= j < marks.len() && marks[j] == destination(
                        code,
                        at,
                    );
                    assert(0 <= marks[j] < code.len());
                }
            } else {
                assert(cut2.top()[k] == old);
            }
        }
    }
    cut2
}

} // verus!
