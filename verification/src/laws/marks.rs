//! Where instructions start, and where jumps go.
//!
//! A function's code is cut into instructions by its marks: the offsets at
//! which instructions start, in order.  This module says when a sequence of
//! offsets is the cut of a code, when every jump lands on a mark, and how
//! both survive the growth of the code.
use vstd::prelude::*;
use crate::compiler::object::FunctionView;
use crate::vm::chunk::{be16, fixed_operands, is_jump, OP_CLOSURE, OP_LOOP};
use crate::vm::value::{constant_at, Value};

verus! {

/// Number of bytes of the instruction that starts at `at`: the opcode and
/// its operands, for a closure also the pairs that describe its upvalues.
pub open spec fn width(code: Seq<u8>, constants: Seq<Value>, functions: Seq<FunctionView>, at: int) -> int {
    if code[at] == OP_CLOSURE && at + 1 < code.len() {
        match constant_at(constants, code[at + 1] as int) {
            Value::Function(function) => if function < functions.len() {
                2 + 2 * functions[function as int].upvalue_count
            } else {
                2
            },
            _ => 2,
        }
    } else {
        1 + fixed_operands(code[at])
    }
}

/// `at` is reached by reading instructions one after another from `from`.
pub open spec fn aligned(
    code: Seq<u8>,
    constants: Seq<Value>,
    functions: Seq<FunctionView>,
    from: int,
    at: int,
) -> bool
    decreases at - from,
{
    if from >= at {
        from == at
    } else if from < 0 || from >= code.len() || width(code, constants, functions, from) <= 0
        || from + width(code, constants, functions, from) > at {
        false
    } else {
        aligned(code, constants, functions, from + width(code, constants, functions, from), at)
    }
}

/// `at` is an opcode boundary of the function: the start of an instruction,
/// or the end of the code.
pub open spec fn boundary(function: FunctionView, functions: Seq<FunctionView>, at: int) -> bool {
    0 <= at <= function.code.len() && aligned(
        function.code,
        function.constants,
        functions,
        0,
        at,
    )
}

/// Where the jump instruction at `at` goes: forward from the end of the
/// instruction, or back from there for a loop.
pub open spec fn destination(code: Seq<u8>, at: int) -> int {
    if code[at] == OP_LOOP {
        at + 3 - be16(code[at + 1], code[at + 2])
    } else {
        at + 3 + be16(code[at + 1], code[at + 2])
    }
}

/// Every jump instruction of the function goes to a place within the code
/// that is an opcode boundary.
pub open spec fn jumps_land(function: FunctionView, functions: Seq<FunctionView>) -> bool {
    forall|at: int|
        0 <= at < function.code.len() && #[trigger] boundary(function, functions, at) && is_jump(
            function.code[at],
        ) ==> at + 3 <= function.code.len() && boundary(
            function,
            functions,
            destination(function.code, at),
        )
}

/// The mark after the `k`-th: the next start, or the end of the code.
pub open spec fn next_mark(marks: Seq<int>, len: int, k: int) -> int {
    if k + 1 < marks.len() {
        marks[k + 1]
    } else {
        len
    }
}

/// `x` is one of the marks or the end of the code.
pub open spec fn is_mark(marks: Seq<int>, len: int, x: int) -> bool {
    x == len || marks.contains(x)
}

/// The instruction at the `k`-th mark ends at the next mark; if it makes a
/// closure, it names a function that exists; if it jumps, it lands on a
/// mark, unless its distance is still `pending`.
pub open spec fn cut_at(
    code: Seq<u8>,
    constants: Seq<Value>,
    functions: Seq<FunctionView>,
    marks: Seq<int>,
    pending: Set<int>,
    k: int,
) -> bool {
    let at = marks[k];
    &&& next_mark(marks, code.len() as int, k) == at + width(code, constants, functions, at)
    &&& width(code, constants, functions, at) >= 1
    &&& code[at] == OP_CLOSURE ==> at + 1 < code.len() && code[at + 1] < constants.len()
        && constants[code[at + 1] as int] is Function
        && constants[code[at + 1] as int]->Function_0 < functions.len()
    &&& is_jump(code[at]) ==> pending.contains(at) || is_mark(
        marks,
        code.len() as int,
        destination(code, at),
    )
}

/// `marks` cuts `code` into instructions, and every jump whose distance is
/// not `pending` lands on a mark.
pub open spec fn well_cut(
    code: Seq<u8>,
    constants: Seq<Value>,
    functions: Seq<FunctionView>,
    marks: Seq<int>,
    pending: Set<int>,
) -> bool {
    &&& forall|k: int| 0 <= k < marks.len() ==> 0 <= #[trigger] marks[k] < code.len()
    &&& forall|a: int, b: int| 0 <= a < b < marks.len() ==> marks[a] < marks[b]
    &&& marks.len() == 0 ==> code.len() == 0
    &&& marks.len() > 0 ==> marks[0] == 0
    &&& forall|k: int|
        0 <= k < marks.len() ==> #[trigger] cut_at(code, constants, functions, marks, pending, k)
    &&& forall|x: int| pending.contains(x) ==> marks.contains(x)
}

/// One more instruction at the end of a well-cut code leaves it well cut,
/// with one more mark.
pub proof fn lemma_append(
    code: Seq<u8>,
    constants: Seq<Value>,
    functions: Seq<FunctionView>,
    marks: Seq<int>,
    pending: Set<int>,
    bytes: Seq<u8>,
    constants2: Seq<Value>,
    functions2: Seq<FunctionView>,
    pending2: Set<int>,
)
    requires
        well_cut(code, constants, functions, marks, pending),
        bytes.len() >= 1,
        constants.len() <= constants2.len(),
        forall|i: int| 0 <= i < constants.len() ==> constants2[i] == constants[i],
        functions.len() <= functions2.len(),
        forall|i: int| 0 <= i < functions.len() ==> functions2[i] == functions[i],
        bytes.len() == width(code + bytes, constants2, functions2, code.len() as int),
        bytes[0] == OP_CLOSURE ==> bytes.len() >= 2 && bytes[1] < constants2.len()
            && constants2[bytes[1] as int] is Function && constants2[bytes[1] as int]->Function_0
            < functions2.len(),
        is_jump(bytes[0]) ==> pending2.contains(code.len() as int) || is_mark(
            marks.push(code.len() as int),
            (code + bytes).len() as int,
            destination(code + bytes, code.len() as int),
        ),
        forall|x: int| pending.contains(x) ==> pending2.contains(x),
        forall|x: int| pending2.contains(x) ==> pending.contains(x) || x == code.len(),
    ensures
        well_cut(code + bytes, constants2, functions2, marks.push(code.len() as int), pending2),
{
    let code2 = code + bytes;
    let marks2 = marks.push(code.len() as int);
    let old = code.len() as int;
    assert forall|k: int| 0 <= k < marks2.len() implies #[trigger] cut_at(
        code2,
        constants2,
        functions2,
        marks2,
        pending2,
        k,
    ) by {
        if k < marks.len() {
            let at = marks[k];
            assert(cut_at(code, constants, functions, marks, pending, k));
            assert(marks2[k] == at);
            assert(code2[at] == code[at]);
            let next = next_mark(marks, old, k);
            assert(next <= old) by {
                if k + 1 < marks.len() {
                    assert(marks[k + 1] < code.len());
                }
            }
            assert(next_mark(marks2, code2.len() as int, k) == next);
            if code[at] == OP_CLOSURE {
                assert(code2[at + 1] == code[at + 1]);
            }
            assert(width(code2, constants2, functions2, at) == width(
                code,
                constants,
                functions,
                at,
            ));
            if is_jump(code[at]) {
                assert(width(code, constants, functions, at) == 3);
                assert(code2[at + 1] == code[at + 1]);
                assert(code2[at + 2] == code[at + 2]);
                assert(destination(code2, at) == destination(code, at));
                if !pending.contains(at) {
                    let goal = destination(code, at);
                    if goal == old {
                        assert(marks2[marks.len() as int] == goal);
                    } else {
                        let j = choose|j: int| 0 <= j < marks.len() && marks[j] == goal;
                        assert(marks2[j] == goal);
                    }
                }
            }
        } else {
            assert(marks2[k] == old);
            assert(code2[old] == bytes[0]);
            if bytes[0] == OP_CLOSURE {
                assert(code2[old + 1] == bytes[1]);
            }
        }
    }
    assert forall|a: int, b: int| 0 <= a < b < marks2.len() implies marks2[a] < marks2[b] by {
        if b < marks.len() {
            assert(marks2[a] == marks[a] && marks2[b] == marks[b]);
        } else {
            assert(marks2[a] == marks[a]);
        }
    }
    assert forall|x: int| pending2.contains(x) implies marks2.contains(x) by {
        if pending.contains(x) {
            let j = choose|j: int| 0 <= j < marks.len() && marks[j] == x;
            assert(marks2[j] == x);
        } else {
            assert(marks2[marks.len() as int] == x);
        }
    }
    if marks.len() > 0 {
        assert(marks2[0] == marks[0]);
    }
}

/// A well-cut code stays well cut when constants or functions are added.
pub proof fn lemma_grow_tables(
    code: Seq<u8>,
    constants: Seq<Value>,
    functions: Seq<FunctionView>,
    marks: Seq<int>,
    pending: Set<int>,
    constants2: Seq<Value>,
    functions2: Seq<FunctionView>,
)
    requires
        well_cut(code, constants, functions, marks, pending),
        constants.len() <= constants2.len(),
        forall|i: int| 0 <= i < constants.len() ==> constants2[i] == constants[i],
        functions.len() <= functions2.len(),
        forall|i: int| 0 <= i < functions.len() ==> functions2[i] == functions[i],
    ensures
        well_cut(code, constants2, functions2, marks, pending),
{
    assert forall|k: int| 0 <= k < marks.len() implies #[trigger] cut_at(
        code,
        constants2,
        functions2,
        marks,
        pending,
        k,
    ) by {
        assert(cut_at(code, constants, functions, marks, pending, k));
    }
}

/// Writing the distance of the pending jump at `at`, so that it lands at the
/// end of the code, leaves the code well cut and the jump no longer pending.
pub proof fn lemma_patch(
    code: Seq<u8>,
    constants: Seq<Value>,
    functions: Seq<FunctionView>,
    marks: Seq<int>,
    pending: Set<int>,
    at: int,
    high: u8,
    low: u8,
)
    requires
        well_cut(code, constants, functions, marks, pending),
        marks.contains(at),
        is_jump(code[at]),
        code[at] != OP_LOOP,
        at + 3 + be16(high, low) == code.len(),
    ensures
        well_cut(
            code.update(at + 1, high).update(at + 2, low),
            constants,
            functions,
            marks,
            pending.remove(at),
        ),
{
    let code2 = code.update(at + 1, high).update(at + 2, low);
    let j = choose|j: int| 0 <= j < marks.len() && marks[j] == at;
    assert(cut_at(code, constants, functions, marks, pending, j));
    assert(width(code, constants, functions, at) == 3);
    assert(at + 3 <= code.len()) by {
        if j + 1 < marks.len() {
            assert(marks[j + 1] < code.len());
        }
    }
    assert forall|k: int| 0 <= k < marks.len() implies marks[k] != at + 1 && marks[k] != at + 2 by {
        if k < j {
            assert(marks[k] < marks[j]);
        } else if k > j {
            assert(marks[j + 1] <= marks[k]) by {
                if k > j + 1 {
                    assert(marks[j + 1] < marks[k]);
                }
            }
        }
    }
    assert forall|k: int| 0 <= k < marks.len() implies #[trigger] cut_at(
        code2,
        constants,
        functions,
        marks,
        pending.remove(at),
        k,
    ) by {
        let here = marks[k];
        assert(cut_at(code, constants, functions, marks, pending, k));
        assert(here != at + 1 && here != at + 2);
        assert(code2[here] == code[here]);
        if code[here] == OP_CLOSURE {
            assert(here != at);
            assert(here + 1 != at + 1);
            assert(here + 1 != at + 2) by {
                if here + 1 == at + 2 {
                    assert(marks[k] == at + 1);
                }
            }
            assert(code2[here + 1] == code[here + 1]);
        }
        assert(width(code2, constants, functions, here) == width(code, constants, functions, here));
        if is_jump(code[here]) {
            if here == at {
                assert(code2[at + 1] == high);
                assert(code2[at + 2] == low);
                assert(destination(code2, at) == code.len());
            } else {
                assert(width(code, constants, functions, here) == 3);
                assert(here + 3 <= at || here >= at + 3) by {
                    if k < j {
                        assert(next_mark(marks, code.len() as int, k) <= marks[j]) by {
                            if k + 1 < j {
                                assert(marks[k + 1] < marks[j]);
                            }
                        }
                    } else {
                        assert(marks[j + 1] <= marks[k]) by {
                            if k > j + 1 {
                                assert(marks[j + 1] < marks[k]);
                            }
                        }
                    }
                }
                assert(code2[here + 1] == code[here + 1]);
                assert(code2[here + 2] == code[here + 2]);
                assert(destination(code2, here) == destination(code, here));
            }
        }
    }
}

/// The marks of a well-cut code are its opcode boundaries: `x` is reached
/// from the `k`-th mark exactly if it is that mark or a later one, or the
/// end of the code.
pub proof fn lemma_marks_are_aligned(
    code: Seq<u8>,
    constants: Seq<Value>,
    functions: Seq<FunctionView>,
    marks: Seq<int>,
    pending: Set<int>,
    k: int,
    x: int,
)
    requires
        well_cut(code, constants, functions, marks, pending),
        0 <= k <= marks.len(),
    ensures
        aligned(
            code,
            constants,
            functions,
            if k < marks.len() {
                marks[k]
            } else {
                code.len() as int
            },
            x,
        ) <==> (x == code.len() || exists|j: int| k <= j < marks.len() && marks[j] == x),
    decreases marks.len() - k,
{
    let from = if k < marks.len() {
        marks[k]
    } else {
        code.len() as int
    };
    if k < marks.len() {
        lemma_marks_are_aligned(code, constants, functions, marks, pending, k + 1, x);
        assert(cut_at(code, constants, functions, marks, pending, k));
        let next = next_mark(marks, code.len() as int, k);
        if x == from {
            assert(marks[k] == x);
        } else if x < from {
            assert(!aligned(code, constants, functions, from, x));
            if exists|j: int| k <= j < marks.len() && marks[j] == x {
                let j = choose|j: int| k <= j < marks.len() && marks[j] == x;
                if j > k {
                    assert(marks[k] < marks[j]);
                }
            }
        } else {
            assert(aligned(code, constants, functions, from, x) == aligned(
                code,
                constants,
                functions,
                next,
                x,
            ));
            if exists|j: int| k <= j < marks.len() && marks[j] == x {
                let j = choose|j: int| k <= j < marks.len() && marks[j] == x;
                assert(j != k);
                assert(k + 1 <= j < marks.len() && marks[j] == x);
            }
            if exists|j: int| k + 1 <= j < marks.len() && marks[j] == x {
                let j = choose|j: int| k + 1 <= j < marks.len() && marks[j] == x;
                assert(k <= j < marks.len() && marks[j] == x);
            }
        }
    } else {
        if x > from {
            assert(!aligned(code, constants, functions, from, x));
        }
    }
}

/// In a well-cut function with no jump pending, every jump lands within the
/// code on an opcode boundary, and the code ends on one.
pub proof fn lemma_well_cut_lands(
    function: FunctionView,
    functions: Seq<FunctionView>,
    marks: Seq<int>,
)
    requires
        well_cut(function.code, function.constants, functions, marks, Set::empty()),
    ensures
        jumps_land(function, functions),
        boundary(function, functions, function.code.len() as int),
{
    let code = function.code;
    assert forall|at: int|
        0 <= at < code.len() && #[trigger] boundary(function, functions, at) && is_jump(
            code[at],
        ) implies at + 3 <= code.len() && boundary(function, functions, destination(code, at)) by {
        assert(marks.len() > 0);
        lemma_marks_are_aligned(code, function.constants, functions, marks, Set::empty(), 0, at);
        let j = choose|j: int| 0 <= j < marks.len() && marks[j] == at;
        assert(cut_at(code, function.constants, functions, marks, Set::empty(), j));
        assert(width(code, function.constants, functions, at) == 3);
        if j + 1 < marks.len() {
            assert(marks[j + 1] < code.len());
        }
        let goal = destination(code, at);
        assert(is_mark(marks, code.len() as int, goal));
        lemma_marks_are_aligned(code, function.constants, functions, marks, Set::empty(), 0, goal);
        if goal != code.len() {
            let g = choose|g: int| 0 <= g < marks.len() && marks[g] == goal;
            assert(0 <= g < marks.len() && marks[g] == goal);
        }
    }
    lemma_marks_are_aligned(
        code,
        function.constants,
        functions,
        marks,
        Set::empty(),
        0,
        code.len() as int,
    );
    if marks.len() == 0 {
        assert(code.len() == 0);
    }
}

} // verus!
