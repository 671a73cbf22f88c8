//! Every jump that the compiler emits lands within the code of its function,
//! on an opcode boundary.
//!
//! The proof follows the compiler: a compilation in progress is well cut, up
//! to the forward jumps whose distances are still to be written, and every
//! step of the compiler keeps it so.
use vstd::prelude::*;
use super::marks::{
    cut_at, destination, is_mark, lemma_append, lemma_grow_tables, lemma_patch, well_cut, width,
};
use crate::compiler::model::{CompilerView, FrameView};
use crate::vm::chunk::{be16, fixed_operands, is_jump, OP_CLOSURE, OP_LOOP};
use crate::vm::value::Value;

verus! {

/// How the code of a compilation is cut into instructions: the marks of each
/// frame's code and of each finished function's code, and for each frame the
/// marks of the forward jumps whose distances are still to be written.
pub struct Cut {
    pub frames: Seq<Seq<int>>,
    pub done: Seq<Seq<int>>,
    pub pending: Seq<Set<int>>,
    /// For each frame, the height of the stack before each instruction.
    pub heights: Seq<Seq<int>>,
    /// For each finished function, the same.
    pub done_heights: Seq<Seq<int>>,
    /// For each finished function, the height of the stack at the end of
    /// its code.
    pub done_now: Seq<int>,
    /// For each frame, the height of the stack at the end of the code.
    pub now: Seq<int>,
    /// For each frame and each pending jump, the height of the stack that
    /// the jump brings to where it will land.
    pub owed: Seq<Map<int, int>>,
}

impl Cut {
    pub open spec fn top(self) -> Seq<int> {
        self.frames.last()
    }

    pub open spec fn waiting(self) -> Set<int> {
        self.pending.last()
    }

    pub open spec fn mark(self, at: int) -> Cut {
        Cut { frames: self.frames.update(self.frames.len() - 1, self.top().push(at)), ..self }
    }

    pub open spec fn wait_for(self, at: int) -> Cut {
        Cut {
            pending: self.pending.update(self.pending.len() - 1, self.waiting().insert(at)),
            ..self
        }
    }

    pub open spec fn settle(self, at: int) -> Cut {
        Cut {
            pending: self.pending.update(self.pending.len() - 1, self.waiting().remove(at)),
            ..self
        }
    }
}

/// The code of frame `i` is well cut, its pending jumps are forward jumps,
/// and the frame counts its upvalues rightly.
pub open spec fn frame_cut(c: CompilerView, cut: Cut, i: int) -> bool {
    let frame = c.frames[i];
    &&& well_cut(
        frame.function.code,
        frame.function.constants,
        c.functions,
        cut.frames[i],
        cut.pending[i],
    )
    &&& frame.function.upvalue_count == frame.upvalues.len()
    &&& forall|x: int| #[trigger]
        cut.pending[i].contains(x) ==> is_jump(frame.function.code[x]) && frame.function.code[x]
            != OP_LOOP
}

/// The code of the finished function `j` is well cut, with no jump pending.
pub open spec fn done_cut(c: CompilerView, cut: Cut, j: int) -> bool {
    well_cut(c.functions[j].code, c.functions[j].constants, c.functions, cut.done[j], Set::empty())
}

/// The compilation is well cut by `cut`.
pub open spec fn tidy(c: CompilerView, cut: Cut) -> bool {
    &&& c.frames.len() > 0
    &&& cut.frames.len() == c.frames.len()
    &&& cut.pending.len() == c.frames.len()
    &&& cut.done.len() == c.functions.len()
    &&& forall|i: int| 0 <= i < c.frames.len() ==> #[trigger] frame_cut(c, cut, i)
    &&& forall|j: int| 0 <= j < c.functions.len() ==> #[trigger] done_cut(c, cut, j)
}

/// From `c` to `c2` the current function has only grown: its marks are still
/// marks, and where its code ended there is now a mark or still the end.
pub open spec fn grows(c: CompilerView, cut: Cut, c2: CompilerView, cut2: Cut) -> bool {
    &&& c2.frames.len() == c.frames.len()
    &&& forall|i: int|
        0 <= i < c.frames.len() - 1 ==> (#[trigger] cut2.frames[i]) == cut.frames[i]
            && c2.frames[i].function.code == c.frames[i].function.code
    &&& cut.top().len() <= cut2.top().len()
    &&& forall|k: int| 0 <= k < cut.top().len() ==> cut2.top()[k] == #[trigger] cut.top()[k]
    &&& cut2.top().len() == cut.top().len() ==> c2.here() == c.here()
    &&& cut2.top().len() > cut.top().len() ==> cut2.top()[cut.top().len() as int] == c.here()
        && c2.here() > c.here()
    &&& c2.here() >= c.here()
}

/// `x` is a mark of the current function, or the end of its code.
pub open spec fn marked(c: CompilerView, cut: Cut, x: int) -> bool {
    is_mark(cut.top(), c.here(), x)
}

/// A mark stays a mark while the function grows.
pub proof fn lemma_marked_grows(c: CompilerView, cut: Cut, c2: CompilerView, cut2: Cut, x: int)
    requires
        grows(c, cut, c2, cut2),
        marked(c, cut, x),
    ensures
        marked(c2, cut2, x),
{
    if x == c.here() {
        if cut2.top().len() > cut.top().len() {
            assert(cut2.top()[cut.top().len() as int] == x);
        }
    } else {
        let j = choose|j: int| 0 <= j < cut.top().len() && cut.top()[j] == x;
        assert(cut.top()[j] == x);
        assert(cut2.top()[j] == x);
    }
}

/// Growth composes.
pub proof fn lemma_grows_twice(
    c: CompilerView,
    cut: Cut,
    c1: CompilerView,
    cut1: Cut,
    c2: CompilerView,
    cut2: Cut,
)
    requires
        grows(c, cut, c1, cut1),
        grows(c1, cut1, c2, cut2),
        tidy(c1, cut1),
    ensures
        grows(c, cut, c2, cut2),
{
    assert forall|k: int| 0 <= k < cut.top().len() implies cut2.top()[k] == #[trigger] cut.top()[k] by {
        assert(cut1.top()[k] == cut.top()[k]);
        assert(cut2.top()[k] == cut1.top()[k]);
    }
    assert forall|i: int| 0 <= i < c.frames.len() - 1 implies (#[trigger] cut2.frames[i])
        == cut.frames[i] && c2.frames[i].function.code == c.frames[i].function.code by {
        assert(cut1.frames[i] == cut.frames[i]);
        assert(cut2.frames[i] == cut1.frames[i]);
    }
    if cut2.top().len() > cut.top().len() {
        if cut1.top().len() > cut.top().len() {
            assert(cut1.top()[cut.top().len() as int] == c.here());
            assert(cut2.top()[cut.top().len() as int] == cut1.top()[cut.top().len() as int]);
        }
    }
}

/// The frames below the current one are the same in `c2` as in `c`, and so
/// are the finished functions.
pub open spec fn same_below(c: CompilerView, c2: CompilerView) -> bool {
    &&& c2.frames.len() == c.frames.len()
    &&& c2.functions == c.functions
    &&& forall|i: int| 0 <= i < c.frames.len() - 1 ==> c2.frames[i] == #[trigger] c.frames[i]
}

/// One whole instruction appended to the current function keeps the
/// compilation tidy, with one more mark.  A forward jump may be left
/// pending.
pub proof fn lemma_instruction(
    c: CompilerView,
    cut: Cut,
    bytes: Seq<u8>,
    c2: CompilerView,
    wait: bool,
)
    requires
        tidy(c, cut),
        bytes.len() >= 1,
        same_below(c, c2),
        c2.top().function.code == c.top().function.code + bytes,
        c.top().function.constants.len() <= c2.top().function.constants.len(),
        forall|i: int|
            0 <= i < c.top().function.constants.len() ==> c2.top().function.constants[i]
                == c.top().function.constants[i],
        c2.top().function.upvalue_count == c2.top().upvalues.len(),
        bytes.len() == width(
            c.top().function.code + bytes,
            c2.top().function.constants,
            c.functions,
            c.here(),
        ),
        bytes[0] == OP_CLOSURE ==> bytes.len() >= 2 && bytes[1] < c2.top().function.constants.len()
            && c2.top().function.constants[bytes[1] as int] is Function
            && c2.top().function.constants[bytes[1] as int]->Function_0 < c.functions.len(),
        wait ==> is_jump(bytes[0]) && bytes[0] != OP_LOOP,
        !wait && is_jump(bytes[0]) ==> is_mark(
            cut.top().push(c.here()),
            c.here() + bytes.len(),
            destination(c.top().function.code + bytes, c.here()),
        ),
    ensures
        tidy(
            c2,
            if wait {
                cut.mark(c.here()).wait_for(c.here())
            } else {
                cut.mark(c.here())
            },
        ),
        grows(c, cut, c2, cut.mark(c.here())),
        c2.here() == c.here() + bytes.len(),
{
    let marked = cut.mark(c.here());
    let cut2 = if wait {
        marked.wait_for(c.here())
    } else {
        marked
    };
    let top = c.frames.len() - 1;
    assert(frame_cut(c, cut, top));
    let frame = c.top();
    let code2 = frame.function.code + bytes;
    assert(cut2.top() == cut.top().push(c.here()));
    assert(cut2.waiting() == if wait {
        cut.waiting().insert(c.here())
    } else {
        cut.waiting()
    });
    lemma_append(
        frame.function.code,
        frame.function.constants,
        c.functions,
        cut.top(),
        cut.waiting(),
        bytes,
        c2.top().function.constants,
        c.functions,
        cut2.waiting(),
    );
    assert forall|i: int| 0 <= i < c2.frames.len() implies #[trigger] frame_cut(c2, cut2, i) by {
        assert(frame_cut(c, cut, i));
        if i < top {
            assert(c2.frames[i] == c.frames[i]);
            assert(cut2.frames[i] == cut.frames[i]);
            assert(cut2.pending[i] == cut.pending[i]);
        } else {
            assert forall|x: int| #[trigger] cut2.pending[i].contains(x) implies is_jump(
                code2[x],
            ) && code2[x] != OP_LOOP by {
                if cut.pending[i].contains(x) {
                    assert(cut.top().contains(x));
                    let j = choose|j: int| 0 <= j < cut.top().len() && cut.top()[j] == x;
                    assert(0 <= cut.top()[j] < frame.function.code.len());
                    assert(code2[x] == frame.function.code[x]);
                } else {
                    assert(x == c.here());
                    assert(code2[x] == bytes[0]);
                }
            }
        }
    }
    assert forall|j: int| 0 <= j < c2.functions.len() implies #[trigger] done_cut(c2, cut2, j) by {
        assert(done_cut(c, cut, j));
    }
    assert(marked.top() == cut.top().push(c.here()));
}

/// An instruction without operands.
pub proof fn lemma_emit1(c: CompilerView, cut: Cut, op: u8)
    requires
        tidy(c, cut),
        fixed_operands(op) == 0,
    ensures
        tidy(c.emit(op), cut.mark(c.here())),
        grows(c, cut, c.emit(op), cut.mark(c.here())),
{
    reveal(CompilerView::emit);
    assert(frame_cut(c, cut, c.frames.len() - 1));
    let c2 = c.emit(op);
    assert(c2.top().function.code =~= c.top().function.code + seq![op]);
    lemma_instruction(c, cut, seq![op], c2, false);
}

/// An instruction with one operand, other than a closure.
pub proof fn lemma_emit2(c: CompilerView, cut: Cut, op: u8, operand: u8)
    requires
        tidy(c, cut),
        fixed_operands(op) == 1,
        op != OP_CLOSURE,
    ensures
        tidy(c.emit2(op, operand), cut.mark(c.here())),
        grows(c, cut, c.emit2(op, operand), cut.mark(c.here())),
{
    reveal(CompilerView::emit);
    assert(frame_cut(c, cut, c.frames.len() - 1));
    let c2 = c.emit2(op, operand);
    assert(c2.top().function.code =~= c.top().function.code + seq![op, operand]);
    lemma_instruction(c, cut, seq![op, operand], c2, false);
}

/// An instruction with two operands that is not a jump.
pub proof fn lemma_emit3(c: CompilerView, cut: Cut, op: u8, first: u8, second: u8)
    requires
        tidy(c, cut),
        fixed_operands(op) == 2,
        !is_jump(op),
    ensures
        tidy(c.emit2(op, first).emit(second), cut.mark(c.here())),
        grows(c, cut, c.emit2(op, first).emit(second), cut.mark(c.here())),
{
    reveal(CompilerView::emit);
    assert(frame_cut(c, cut, c.frames.len() - 1));
    let c2 = c.emit2(op, first).emit(second);
    assert(c2.top().function.code =~= c.top().function.code + seq![op, first, second]);
    lemma_instruction(c, cut, seq![op, first, second], c2, false);
}

/// A forward jump, whose distance is left pending.
pub proof fn lemma_emit_jump(c: CompilerView, cut: Cut, op: u8)
    requires
        tidy(c, cut),
        is_jump(op),
        op != OP_LOOP,
    ensures
        tidy(c.emit_jump(op), cut.mark(c.here()).wait_for(c.here())),
        grows(c, cut, c.emit_jump(op), cut.mark(c.here())),
        c.emit_jump(op).here() == c.here() + 3,
        !cut.waiting().contains(c.here()),
{
    reveal(CompilerView::emit);
    reveal(CompilerView::emit_jump);
    assert(frame_cut(c, cut, c.frames.len() - 1));
    let c2 = c.emit_jump(op);
    assert(c2.top().function.code =~= c.top().function.code + seq![op, 0xffu8, 0xffu8]);
    lemma_instruction(c, cut, seq![op, 0xffu8, 0xffu8], c2, true);
    if cut.waiting().contains(c.here()) {
        assert(cut.top().contains(c.here()));
        let j = choose|j: int| 0 <= j < cut.top().len() && cut.top()[j] == c.here();
        assert(0 <= cut.top()[j] < c.top().function.code.len());
    }
}

/// Writing the distance of a pending jump makes it land at the end of the
/// code.
pub proof fn lemma_patch_jump(c: CompilerView, cut: Cut, site: int)
    requires
        tidy(c, cut),
        cut.waiting().contains(site - 1),
    ensures
        c.patch_jump(site) matches Ok(c2) ==> tidy(c2, cut.settle(site - 1)) && grows(
            c,
            cut,
            c2,
            cut.settle(site - 1),
        ),
{
    reveal(CompilerView::patch_jump);
    let top = c.frames.len() - 1;
    assert(frame_cut(c, cut, top));
    match c.patch_jump(site) {
        Ok(c2) => {
            let frame = c.top();
            let code = frame.function.code;
            let distance = c.here() - site - 2;
            let high = (distance / 256) as u8;
            let low = (distance % 256) as u8;
            assert(be16(high, low) == distance);
            assert(cut.top().contains(site - 1));
            lemma_patch(
                code,
                frame.function.constants,
                c.functions,
                cut.top(),
                cut.waiting(),
                site - 1,
                high,
                low,
            );
            let cut2 = cut.settle(site - 1);
            assert(c2.top().function.code == code.update(site, high).update(site + 1, low));
            assert forall|i: int| 0 <= i < c2.frames.len() implies #[trigger] frame_cut(
                c2,
                cut2,
                i,
            ) by {
                assert(frame_cut(c, cut, i));
                if i < top {
                    assert(c2.frames[i] == c.frames[i]);
                } else {
                    assert forall|x: int| #[trigger] cut2.pending[i].contains(x) implies is_jump(
                        c2.frames[i].function.code[x],
                    ) && c2.frames[i].function.code[x] != OP_LOOP by {
                        assert(cut.pending[i].contains(x));
                        assert(cut.top().contains(x));
                        let j = choose|j: int| 0 <= j < cut.top().len() && cut.top()[j] == x;
                        let k = choose|k: int| 0 <= k < cut.top().len() && cut.top()[k] == site - 1;
                        assert(cut_at(
                            code,
                            frame.function.constants,
                            c.functions,
                            cut.top(),
                            cut.waiting(),
                            k,
                        ));
                        assert(x != site && x != site + 1) by {
                            if j < k {
                                assert(cut.top()[j] < cut.top()[k]);
                            } else if j > k {
                                assert(cut.top()[k + 1] <= cut.top()[j]) by {
                                    if j > k + 1 {
                                        assert(cut.top()[k + 1] < cut.top()[j]);
                                    }
                                }
                            }
                        }
                    }
                }
            }
            assert forall|j: int| 0 <= j < c2.functions.len() implies #[trigger] done_cut(
                c2,
                cut2,
                j,
            ) by {
                assert(done_cut(c, cut, j));
            }
        },
        Err(_) => {},
    }
}

/// A jump back to a mark.
pub proof fn lemma_emit_loop(c: CompilerView, cut: Cut, start: int)
    requires
        tidy(c, cut),
        marked(c, cut, start),
    ensures
        c.emit_loop(start) matches Ok(c2) ==> tidy(c2, cut.mark(c.here())) && grows(
            c,
            cut,
            c2,
            cut.mark(c.here()),
        ),
{
    reveal(CompilerView::emit);
    reveal(CompilerView::emit_loop);
    assert(frame_cut(c, cut, c.frames.len() - 1));
    match c.emit_loop(start) {
        Ok(c2) => {
            let distance = c.here() + 3 - start;
            let high = (distance / 256) as u8;
            let low = (distance % 256) as u8;
            assert(be16(high, low) == distance);
            let bytes = seq![OP_LOOP, high, low];
            let code2 = c.top().function.code + bytes;
            assert(c2.top().function.code =~= code2);
            assert(code2[c.here()] == OP_LOOP);
            assert(code2[c.here() + 1] == high);
            assert(code2[c.here() + 2] == low);
            assert(destination(code2, c.here()) == start);
            if start == c.here() {
                assert(cut.top().push(c.here())[cut.top().len() as int] == start);
            } else {
                let j = choose|j: int| 0 <= j < cut.top().len() && cut.top()[j] == start;
                assert(cut.top().push(c.here())[j] == start);
            }
            lemma_instruction(c, cut, bytes, c2, false);
        },
        Err(_) => {},
    }
}

/// A new constant changes no code.
pub proof fn lemma_add_constant(c: CompilerView, cut: Cut, value: Value)
    requires
        tidy(c, cut),
    ensures
        c.add_constant(value) matches Ok((c2, index)) ==> tidy(c2, cut) && grows(c, cut, c2, cut)
            && same_below(c, c2) && c2.top().function.code == c.top().function.code
            && c2.top().function.constants == c.top().function.constants.push(value) && index
            == c.top().function.constants.len() && c.top().function.constants.len() < 256
            && c2.top().function.arity == c.top().function.arity && c2.top().locals
            == c.top().locals && c2.top().upvalues == c.top().upvalues
            && c2.top().function.upvalue_count == c.top().function.upvalue_count,
{
    reveal(CompilerView::add_constant);
    let top = c.frames.len() - 1;
    match c.add_constant(value) {
        Ok((c2, index)) => {
            assert forall|i: int| 0 <= i < c2.frames.len() implies #[trigger] frame_cut(
                c2,
                cut,
                i,
            ) by {
                assert(frame_cut(c, cut, i));
                if i == top {
                    lemma_grow_tables(
                        c.top().function.code,
                        c.top().function.constants,
                        c.functions,
                        cut.top(),
                        cut.waiting(),
                        c2.top().function.constants,
                        c.functions,
                    );
                } else {
                    assert(c2.frames[i] == c.frames[i]);
                }
            }
            assert forall|j: int| 0 <= j < c2.functions.len() implies #[trigger] done_cut(
                c2,
                cut,
                j,
            ) by {
                assert(done_cut(c, cut, j));
            }
        },
        Err(_) => {},
    }
}

/// A new string constant changes no code.
pub proof fn lemma_add_text(c: CompilerView, cut: Cut, text: Seq<char>)
    requires
        tidy(c, cut),
    ensures
        c.add_text(text) matches Ok((c2, index)) ==> tidy(c2, cut) && grows(c, cut, c2, cut)
            && same_below(c, c2) && c2.top().function.code == c.top().function.code
            && c2.top().function.arity == c.top().function.arity && c2.top().locals
            == c.top().locals && c2.top().function.constants.len()
            == c.top().function.constants.len() + 1 && (forall|i: int|
            0 <= i < c.top().function.constants.len() ==> c2.top().function.constants[i]
                == c.top().function.constants[i]) && c2.top().upvalues == c.top().upvalues
            && c2.top().function.upvalue_count == c.top().function.upvalue_count,
{
    reveal(CompilerView::add_text);
    let c1 = CompilerView { strings: c.strings.push(text), ..c };
    assert forall|i: int| 0 <= i < c1.frames.len() implies #[trigger] frame_cut(c1, cut, i) by {
        assert(frame_cut(c, cut, i));
    }
    assert forall|j: int| 0 <= j < c1.functions.len() implies #[trigger] done_cut(c1, cut, j) by {
        assert(done_cut(c, cut, j));
    }
    lemma_add_constant(c1, cut, Value::String(c.strings.len() as usize));
}

/// A constant and the instruction that names it.
pub proof fn lemma_emit_constant(c: CompilerView, cut: Cut, op: u8, value: Value)
    requires
        tidy(c, cut),
        fixed_operands(op) == 1,
        op != OP_CLOSURE,
    ensures
        c.emit_constant(op, value) matches Ok(c2) ==> tidy(c2, cut.mark(c.here())) && grows(
            c,
            cut,
            c2,
            cut.mark(c.here()),
        ),
{
    lemma_add_constant(c, cut, value);
    match c.add_constant(value) {
        Ok((c1, index)) => {
            lemma_emit2(c1, cut, op, index);
            lemma_grows_twice(c, cut, c1, cut, c1.emit2(op, index), cut.mark(c.here()));
        },
        Err(_) => {},
    }
}

/// A string constant and the instruction that names it.
pub proof fn lemma_emit_text(c: CompilerView, cut: Cut, op: u8, text: Seq<char>)
    requires
        tidy(c, cut),
        fixed_operands(op) == 1,
        op != OP_CLOSURE,
    ensures
        c.emit_text(op, text) matches Ok(c2) ==> tidy(c2, cut.mark(c.here())) && grows(
            c,
            cut,
            c2,
            cut.mark(c.here()),
        ),
{
    lemma_add_text(c, cut, text);
    match c.add_text(text) {
        Ok((c1, index)) => {
            lemma_emit2(c1, cut, op, index);
            lemma_grows_twice(c, cut, c1, cut, c1.emit2(op, index), cut.mark(c.here()));
        },
        Err(_) => {},
    }
}

/// `c2` has the code and the constants of `c`, frame by frame, and the
/// finished functions of `c`.
pub open spec fn same_code(c: CompilerView, c2: CompilerView) -> bool {
    &&& c2.frames.len() == c.frames.len()
    &&& c2.functions == c.functions
    &&& forall|i: int|
        0 <= i < c.frames.len() ==> (#[trigger] c2.frames[i]).function.code
            == c.frames[i].function.code && c2.frames[i].function.constants
            == c.frames[i].function.constants && c2.frames[i].function.arity
            == c.frames[i].function.arity
    &&& forall|i: int|
        0 <= i < c.frames.len() ==> (#[trigger] c2.frames[i]).function.upvalue_count
            == c2.frames[i].upvalues.len()
}

/// What changes no code keeps the compilation tidy.
pub proof fn lemma_same_code(c: CompilerView, cut: Cut, c2: CompilerView)
    requires
        tidy(c, cut),
        same_code(c, c2),
    ensures
        tidy(c2, cut),
        grows(c, cut, c2, cut),
{
    assert forall|i: int| 0 <= i < c2.frames.len() implies #[trigger] frame_cut(c2, cut, i) by {
        assert(frame_cut(c, cut, i));
        assert(c2.frames[i].function.code == c.frames[i].function.code);
    }
    assert forall|j: int| 0 <= j < c2.functions.len() implies #[trigger] done_cut(c2, cut, j) by {
        assert(done_cut(c, cut, j));
    }
    assert(c2.frames[c2.frames.len() - 1].function.code == c.frames[c.frames.len()
        - 1].function.code);
}

pub proof fn lemma_same_code_twice(c: CompilerView, c1: CompilerView, c2: CompilerView)
    requires
        same_code(c, c1),
        same_code(c1, c2),
    ensures
        same_code(c, c2),
{
    assert forall|i: int| 0 <= i < c.frames.len() implies (#[trigger] c2.frames[i]).function.code
        == c.frames[i].function.code && c2.frames[i].function.constants
        == c.frames[i].function.constants && c2.frames[i].function.arity
        == c.frames[i].function.arity by {
        assert(c1.frames[i].function.code == c.frames[i].function.code);
    }
}

/// The frames of `c` count their upvalues rightly.
pub open spec fn counted(c: CompilerView) -> bool {
    forall|i: int|
        0 <= i < c.frames.len() ==> (#[trigger] c.frames[i]).function.upvalue_count
            == c.frames[i].upvalues.len()
}

pub proof fn lemma_add_upvalue(c: CompilerView, level: int, index: int, is_local: bool)
    requires
        0 <= level < c.frames.len(),
        counted(c),
    ensures
        c.add_upvalue(level, index, is_local) matches Ok((c2, _)) ==> same_code(c, c2) && (
        forall|i: int|
            0 <= i < c.frames.len() ==> (#[trigger] c2.frames[i]).locals == c.frames[i].locals),
{
    reveal(CompilerView::add_upvalue);
    match c.add_upvalue(level, index, is_local) {
        Ok((c2, _)) => {
            assert forall|i: int| 0 <= i < c.frames.len() implies (
            #[trigger] c2.frames[i]).function.upvalue_count == c2.frames[i].upvalues.len() by {
                assert(c.frames[i].function.upvalue_count == c.frames[i].upvalues.len());
            }
        },
        Err(_) => {},
    }
}

pub proof fn lemma_resolve_upvalue(c: CompilerView, level: int, name: Seq<char>)
    requires
        0 <= level < c.frames.len(),
        counted(c),
    ensures
        c.resolve_upvalue(level, name) matches Ok((c2, _)) ==> same_code(c, c2) && (forall|
            i: int,
        |
            level <= i < c.frames.len() ==> (#[trigger] c2.frames[i]).locals == c.frames[i].locals),
    decreases level,
{
    reveal(CompilerView::resolve_upvalue);
    if level <= 0 {
        assert forall|i: int| 0 <= i < c.frames.len() implies (
        #[trigger] c.frames[i]).function.upvalue_count == c.frames[i].upvalues.len() by {}
    } else {
        let outer = c.frames[level - 1];
        match crate::compiler::model::find_local(outer.locals, name, outer.locals.len() as int) {
            Some(slot) => {
                let c1 = c.set_frame(level - 1, outer.capture(slot));
                assert(same_code(c, c1)) by {
                    assert forall|i: int| 0 <= i < c.frames.len() implies (
                    #[trigger] c1.frames[i]).function.upvalue_count
                        == c1.frames[i].upvalues.len() by {
                        assert(c.frames[i].function.upvalue_count == c.frames[i].upvalues.len());
                    }
                }
                lemma_add_upvalue(c1, level, slot, true);
                match c1.add_upvalue(level, slot, true) {
                    Ok((c2, _)) => {
                        lemma_same_code_twice(c, c1, c2);
                    },
                    Err(_) => {},
                }
            },
            None => {
                lemma_resolve_upvalue(c, level - 1, name);
                match c.resolve_upvalue(level - 1, name) {
                    Ok((c1, Some(index))) => {
                        lemma_add_upvalue(c1, level, index as int, false);
                        match c1.add_upvalue(level, index as int, false) {
                            Ok((c2, _)) => {
                                lemma_same_code_twice(c, c1, c2);
                            },
                            Err(_) => {},
                        }
                    },
                    _ => {},
                }
            },
        }
    }
}

pub proof fn lemma_counted(c: CompilerView, cut: Cut)
    requires
        tidy(c, cut),
    ensures
        counted(c),
{
    assert forall|i: int| 0 <= i < c.frames.len() implies (
    #[trigger] c.frames[i]).function.upvalue_count == c.frames[i].upvalues.len() by {
        assert(frame_cut(c, cut, i));
    }
}

/// The access to a variable is one instruction with one operand.
pub proof fn lemma_named_variable(
    c: CompilerView,
    cut: Cut,
    name: Seq<char>,
    local_op: u8,
    upvalue_op: u8,
    global_op: u8,
)
    requires
        tidy(c, cut),
        fixed_operands(local_op) == 1 && local_op != OP_CLOSURE,
        fixed_operands(upvalue_op) == 1 && upvalue_op != OP_CLOSURE,
        fixed_operands(global_op) == 1 && global_op != OP_CLOSURE,
    ensures
        c.named_variable(name, local_op, upvalue_op, global_op) matches Ok(c2) ==> tidy(
            c2,
            cut.mark(c.here()),
        ) && grows(c, cut, c2, cut.mark(c.here())),
{
    reveal(CompilerView::named_variable);
    match crate::compiler::model::find_local(c.top().locals, name, c.top().locals.len() as int) {
        Some(slot) => {
            lemma_emit2(c, cut, local_op, slot as u8);
        },
        None => {
            lemma_counted(c, cut);
            lemma_resolve_upvalue(c, c.frames.len() - 1, name);
            match c.resolve_upvalue(c.frames.len() - 1, name) {
                Ok((c1, found)) => {
                    lemma_same_code(c, cut, c1);
                    match found {
                        Some(index) => {
                            lemma_emit2(c1, cut, upvalue_op, index);
                            lemma_grows_twice(
                                c,
                                cut,
                                c1,
                                cut,
                                c1.emit2(upvalue_op, index),
                                cut.mark(c.here()),
                            );
                        },
                        None => {
                            lemma_emit_text(c1, cut, global_op, name);
                            match c1.emit_text(global_op, name) {
                                Ok(c2) => {
                                    lemma_grows_twice(c, cut, c1, cut, c2, cut.mark(c.here()));
                                },
                                Err(_) => {},
                            }
                        },
                    }
                },
                Err(_) => {},
            }
        },
    }
}

/// Loading a variable is one instruction.
pub proof fn lemma_load(c: CompilerView, cut: Cut, name: Seq<char>)
    requires
        tidy(c, cut),
    ensures
        c.load(name) matches Ok(c2) ==> tidy(c2, cut.mark(c.here())) && grows(
            c,
            cut,
            c2,
            cut.mark(c.here()),
        ),
{
    lemma_named_variable(
        c,
        cut,
        name,
        crate::vm::chunk::OP_GET_LOCAL,
        crate::vm::chunk::OP_GET_UPVALUE,
        crate::vm::chunk::OP_GET_GLOBAL,
    );
}

/// Storing into a variable is one instruction.
pub proof fn lemma_store(c: CompilerView, cut: Cut, name: Seq<char>)
    requires
        tidy(c, cut),
    ensures
        c.store(name) matches Ok(c2) ==> tidy(c2, cut.mark(c.here())) && grows(
            c,
            cut,
            c2,
            cut.mark(c.here()),
        ),
{
    lemma_named_variable(
        c,
        cut,
        name,
        crate::vm::chunk::OP_SET_LOCAL,
        crate::vm::chunk::OP_SET_UPVALUE,
        crate::vm::chunk::OP_SET_GLOBAL,
    );
}

/// Entering a scope changes no code.
pub proof fn lemma_begin_scope(c: CompilerView, cut: Cut)
    requires
        tidy(c, cut),
    ensures
        c.begin_scope() matches Ok(c2) ==> tidy(c2, cut) && grows(c, cut, c2, cut),
{
    reveal(CompilerView::begin_scope);
    lemma_counted(c, cut);
    match c.begin_scope() {
        Ok(c2) => {
            assert(same_code(c, c2)) by {
                assert forall|i: int| 0 <= i < c.frames.len() implies (
                #[trigger] c2.frames[i]).function.upvalue_count
                    == c2.frames[i].upvalues.len() by {
                    assert(c.frames[i].function.upvalue_count == c.frames[i].upvalues.len());
                }
            }
            lemma_same_code(c, cut, c2);
        },
        Err(_) => {},
    }
}

/// Declaring a local changes no code.
pub proof fn lemma_add_local(c: CompilerView, cut: Cut, name: Seq<char>)
    requires
        tidy(c, cut),
    ensures
        c.add_local(name) matches Ok(c2) ==> tidy(c2, cut) && grows(c, cut, c2, cut),
{
    reveal(CompilerView::add_local);
    lemma_counted(c, cut);
    match c.add_local(name) {
        Ok(c2) => {
            assert(same_code(c, c2)) by {
                assert forall|i: int| 0 <= i < c.frames.len() implies (
                #[trigger] c2.frames[i]).function.upvalue_count
                    == c2.frames[i].upvalues.len() by {
                    assert(c.frames[i].function.upvalue_count == c.frames[i].upvalues.len());
                }
            }
            lemma_same_code(c, cut, c2);
        },
        Err(_) => {},
    }
}

/// Binding a value to a name is at most one instruction.
pub proof fn lemma_define(c: CompilerView, cut: Cut, name: Seq<char>) -> (cut2: Cut)
    requires
        tidy(c, cut),
    ensures
        cut2.pending == cut.pending,
        c.define(name) matches Ok(c2) ==> tidy(c2, cut2) && grows(c, cut, c2, cut2),
{
    reveal(CompilerView::define);
    if c.top().scope_depth > 0 {
        lemma_add_local(c, cut, name);
        cut
    } else {
        lemma_emit_text(c, cut, crate::vm::chunk::OP_DEFINE_GLOBAL, name);
        cut.mark(c.here())
    }
}

/// Discarding locals emits one instruction without operands for each.
proof fn lemma_discard(c: CompilerView, cut: Cut) -> (cut2: Cut)
    requires
        tidy(c, cut),
    ensures
        cut2.pending == cut.pending,
        tidy(c.set_top(c.top().discard_locals()), cut2),
        grows(c, cut, c.set_top(c.top().discard_locals()), cut2),
    decreases c.top().locals.len(),
{
    reveal(CompilerView::emit);
    let frame = c.top();
    if frame.locals.len() > 0 && frame.locals.last().depth > frame.scope_depth {
        let op = if frame.locals.last().is_captured {
            crate::vm::chunk::OP_CLOSE_UPVALUE
        } else {
            crate::vm::chunk::OP_POP
        };
        lemma_emit1(c, cut, op);
        let c1 = c.emit(op);
        let cut1 = cut.mark(c.here());
        let next = FrameView { locals: frame.locals.drop_last(), ..frame.emit(op) };
        let c2 = c.set_top(next);
        assert(same_code(c1, c2)) by {
            assert forall|i: int| 0 <= i < c1.frames.len() implies (
            #[trigger] c2.frames[i]).function.upvalue_count == c2.frames[i].upvalues.len() by {
                assert(frame_cut(c1, cut1, i));
            }
        }
        lemma_same_code(c1, cut1, c2);
        lemma_grows_twice(c, cut, c1, cut1, c2, cut1);
        let cut3 = lemma_discard(c2, cut1);
        assert(c2.set_top(c2.top().discard_locals()) =~= c.set_top(frame.discard_locals())) by {
            assert(c2.set_top(c2.top().discard_locals()).frames =~= c.set_top(
                frame.discard_locals(),
            ).frames);
        }
        lemma_grows_twice(c, cut, c2, cut1, c.set_top(frame.discard_locals()), cut3);
        cut3
    } else {
        assert(c.set_top(frame.discard_locals()).frames =~= c.frames);
        assert(c.set_top(frame.discard_locals()) == c);
        cut
    }
}

/// Leaving a scope emits one instruction without operands for each local
/// of the scope.
pub proof fn lemma_end_scope(c: CompilerView, cut: Cut) -> (cut2: Cut)
    requires
        tidy(c, cut),
    ensures
        cut2.pending == cut.pending,
        tidy(c.end_scope(), cut2),
        grows(c, cut, c.end_scope(), cut2),
{
    reveal(CompilerView::end_scope);
    lemma_counted(c, cut);
    let c1 = c.set_top(FrameView { scope_depth: c.top().scope_depth - 1, ..c.top() });
    assert(same_code(c, c1)) by {
        assert forall|i: int| 0 <= i < c.frames.len() implies (
        #[trigger] c1.frames[i]).function.upvalue_count == c1.frames[i].upvalues.len() by {
            assert(c.frames[i].function.upvalue_count == c.frames[i].upvalues.len());
        }
    }
    lemma_same_code(c, cut, c1);
    let cut2 = lemma_discard(c1, cut);
    assert(c1.set_top(c1.top().discard_locals()).frames =~= c.end_scope().frames);
    lemma_grows_twice(c, cut, c1, cut, c.end_scope(), cut2);
    cut2
}

/// Once the jump that was left pending at `at` is settled, the pending
/// jumps are those of before.
pub proof fn lemma_settled(before: Cut, after: Cut, at: int)
    requires
        before.pending.len() > 0,
        after.pending == before.wait_for(at).pending,
        !before.waiting().contains(at),
    ensures
        after.settle(at).pending == before.pending,
        after.waiting().contains(at),
{
    assert(after.waiting().remove(at) =~= before.waiting());
    assert(after.settle(at).pending =~= before.pending);
}

} // verus!
