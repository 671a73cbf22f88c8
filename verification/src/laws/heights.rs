//! The stack discipline: while a plain script runs, the stack of every call
//! in progress has the height that the compiler counted on.
//!
//! The heights that the compiler's code is level by are those of the
//! machine.  An instruction that stays within its call changes the height of
//! the stack by its effect; a call starts the callee at the height of one
//! and the number of its arguments; a return leaves the result where the
//! callee stood.  So a machine whose calls all stand at a place with the
//! height of their stack is such a machine again after every step.
use vstd::prelude::*;
use super::cells::lemma_close_keeps_cells;
use super::levels::{branch, effect, falls, has_height, level_at, level_code};
use super::levels_stmt::{has_levels, lemma_stack_discipline};
use super::plain::plain_stmts;
use crate::compiler::ast::StatementNode;
use crate::compiler::compiled;
use super::marks::{cut_at, destination, well_cut, width};
use crate::compiler::functions_view;
use crate::vm::arith::{
    concat, deliver, numeric, op_add, op_binary, op_compare, op_equal, op_negative, op_not,
    op_print, resume_bool, resume_float, resume_text,
};
use crate::vm::basic::{
    proceed, op_array, op_constant, op_countup, op_define_global, op_get_global, op_get_local,
    op_index_call, op_index_set, op_jump, op_jump_if_false, op_jump_if_range_end, op_literal,
    op_loop, op_pop, op_range, op_set_global, op_set_local,
};
use crate::vm::calls::{
    call_bound, call_value, capture_all, cell_of, enter, instantiate, invoke_from_class, op_call,
    op_close_upvalue, op_closure, op_get_upvalue, op_invoke, op_return, op_set_upvalue,
    op_super_invoke,
};
use crate::vm::chunk::{
    is_jump, OP_ADD, OP_ARRAY, OP_CALL, OP_CLASS, OP_CLOSE_UPVALUE, OP_CLOSURE, OP_CONSTANT,
    OP_CONSTANT0, OP_COUNTUP, OP_DEFINE_GLOBAL, OP_DIVIDE, OP_EQUAL, OP_FALSE, OP_GET_GLOBAL,
    OP_GET_LOCAL, OP_GET_PROP, OP_GET_SUPER, OP_GET_UPVALUE, OP_GREATER, OP_INDEX_CALL,
    OP_INDEX_SET, OP_INHERIT, OP_INVOKE, OP_JUMP, OP_JUMP_IF_FALSE, OP_JUMP_IF_RANGE_END, OP_LESS,
    OP_LOOP, OP_METHOD, OP_MULTIPLY, OP_NEGATIVE, OP_NOT, OP_NULL, OP_POP, OP_POW, OP_PRINT,
    OP_RANGE, OP_REM, OP_RETURN, OP_SET_GLOBAL, OP_SET_LOCAL, OP_SET_PROP, OP_SET_UPVALUE,
    OP_SUBTRACT, OP_SUPER_INVOKE, OP_TRUE,
};
use crate::vm::frame::CallFrame;
use crate::vm::machine::{Code, Fault, FloatOp, Machine, PieceView, Signal, Step};
use crate::vm::natives::{call_native, native};
use crate::vm::objects::{
    bind, op_class, op_get_prop, op_get_super, op_inherit, op_method, op_set_prop,
};
use crate::vm::ordering::Order;
use crate::vm::reaches;
use crate::vm::step::{execute, step};
use crate::vm::value::{NativeFunction, Timestamp, Value, STACK_LEN};

verus! {

/// The opcode that was read last: the byte before the instruction pointer.
pub open spec fn opcode(code: Code, f: usize, m: Machine) -> u8 {
    code[f as int].chunk.code@[m.frame().ip - 1]
}

/// The signal hands work to the host whose answer will be pushed.
pub open spec fn asks(signal: Signal) -> int {
    match signal {
        Signal::Float(_, _, _) | Signal::Text => 1,
        _ => 0,
    }
}

/// If the step has stayed within the call and execution goes on, it has
/// changed the height of the stack by `rise`, counting the answer that the
/// host still owes.
pub open spec fn rises(m: Machine, result: Step, rise: int) -> bool {
    result matches Ok((after, signal)) ==> (after.frames.len() == m.frames.len() && !(signal is Done)
        ==> after.stack.len() + asks(signal) == m.stack.len() + rise)
}

/// The stack has not outgrown its limit.
pub open spec fn fits(m: Machine, result: Step) -> bool {
    result matches Ok((after, _)) ==> after.stack.len() <= m.stack.len() || after.stack.len()
        <= STACK_LEN
}

/// The step has ended no call.
pub open spec fn holds(m: Machine, result: Step) -> bool {
    result matches Ok((after, _)) ==> after.frames.len() >= m.frames.len()
}

/// The step has started no call and ended none.
pub open spec fn stays(m: Machine, result: Step) -> bool {
    result matches Ok((after, _)) ==> after.frames.len() == m.frames.len()
}

/// The step has left the frames as they were.
pub open spec fn within(m: Machine, result: Step) -> bool {
    result matches Ok((after, _)) ==> after.frames == m.frames
}

/// If the step has stayed within the call, it has left the frames as they
/// were.
pub open spec fn steady(m: Machine, result: Step) -> bool {
    result matches Ok((after, _)) ==> (after.frames.len() == m.frames.len() ==> after.frames
        == m.frames)
}

/// The closures that there were are as they were.
pub open spec fn lasting(m: Machine, result: Step) -> bool {
    result matches Ok((after, _)) ==> m.closures.len() <= after.closures.len() && forall|c: int|
        0 <= c < m.closures.len() ==> #[trigger] after.closures[c] == m.closures[c]
}

/// If the step has stayed within the call and execution goes on, the frame
/// is the same but for the instruction pointer, which stands behind the
/// instruction that was read up to `m`, or where that instruction jumps.
/// The frames below are as they were.
pub open spec fn goes(code: Code, f: usize, m: Machine, result: Step) -> bool {
    let text = code[f as int].chunk.code@;
    let at = m.frame().ip - 1;
    result matches Ok((after, signal)) ==> (after.frames.len() == m.frames.len() && !(signal is Done)
        ==> after.frame().sp == m.frame().sp && after.frame().closure == m.frame().closure
        && below(m, after) && ((falls(text[at]) && after.frame().ip == at + width(
        text,
        code[f as int].chunk.constants@,
        functions_view(code),
        at,
    )) || (is_jump(text[at]) && after.frame().ip == destination(text, at))))
}

/// The frames below the topmost frame of `m` are frames of `after`, as they
/// were.
pub open spec fn below(m: Machine, after: Machine) -> bool {
    forall|i: int| 0 <= i < m.frames.len() - 1 ==> #[trigger] after.frames[i] == m.frames[i]
}

/// If the step has started a call, the stack has lost `popped` values and
/// a new frame stands above the frames of `m`, of which the topmost waits
/// at `ip`.  The new frame runs a closure of as many parameters as there
/// are arguments, from its first instruction, and has its slot 0 below the
/// `argc` topmost values.
pub open spec fn enters(code: Code, m: Machine, result: Step, argc: int, popped: int, ip: int) -> bool {
    result matches Ok((after, signal)) ==> (after.frames.len() > m.frames.len() ==> {
        let callee = after.frames.last();
        &&& signal == Signal::Continue
        &&& after.stack.len() == m.stack.len() - popped
        &&& after.frames.len() == m.frames.len() + 1
        &&& below(m, after)
        &&& m.frames.len() > 0 ==> after.frames[m.frames.len() - 1] == (CallFrame {
            ip: ip as usize,
            ..m.frame()
        })
        &&& callee.sp == after.stack.len() - argc - 1
        &&& callee.ip == 0
        &&& callee.closure < after.closures.len()
        &&& after.closures[callee.closure as int].function < code.len()
        &&& code[after.closures[callee.closure as int].function as int].arity == argc
    })
}

proof fn height_capture_all(code: Code, f: usize, m: Machine, count: int, cells: Seq<usize>)
    requires
        m.frames.len() > 0,
        f < code.len(),
        cells.len() <= count,
    ensures
        capture_all(code, f, m, count, cells) matches Ok((after, _)) ==> after.stack == m.stack
            && after.frames.len() == m.frames.len() && after.frame().sp == m.frame().sp
            && after.frame().closure == m.frame().closure && after.frame().ip == m.frame().ip + 2
            * (count - cells.len()) && after.closures == m.closures && below(m, after),
    decreases count - cells.len(),
{
    assert(code[f as int].chunk.code.len() == code[f as int].chunk.code@.len());
    reveal(Machine::push);
    reveal(Machine::read_byte);
    reveal(Machine::capture);
    if cells.len() < count {
        match m.read_byte(code, f) {
            Err(_) => {},
            Ok((m1, is_local)) => match m1.read_byte(code, f) {
                Err(_) => {},
                Ok((m2, index)) => {
                    if is_local == 1 {
                        if !(m2.frames.len() == 0 || m2.frame().sp + index > usize::MAX) {
                            let (m3, cell) = m2.capture((m2.frame().sp + index) as usize);
                            height_capture_all(code, f, m3, count, cells.push(cell));
                        }
                    } else {
                        match cell_of(m2, index as int) {
                            Err(_) => {},
                            Ok(cell) => {
                                height_capture_all(code, f, m2, count, cells.push(cell));
                            },
                        }
                    }
                },
            },
        }
    }
}

proof fn height_enter(code: Code, m: Machine, closure: usize, argc: int)
    ensures
        m.stack.len() <= usize::MAX ==> enters(
            code,
            m,
            proceed(enter(code, m, closure, argc)),
            argc,
            0,
            m.frame().ip as int,
        ),
        enter(code, m, closure, argc) matches Ok(after) ==> after.stack == m.stack
            && after.closures == m.closures && after.frames.len() == m.frames.len() + 1,
{
    reveal(enter);
    reveal(Machine::push);
    reveal(Machine::push_frame);
}

proof fn height_numeric(m: Machine, op: FloatOp, a: Value, b: Value)
    ensures
        rises(m, numeric(m, op, a, b), 1),
        within(m, numeric(m, op, a, b)),
        lasting(m, numeric(m, op, a, b)),
        fits(m, numeric(m, op, a, b)),
        holds(m, numeric(m, op, a, b)),
{
    reveal(numeric);
    reveal(Machine::push);
}

proof fn height_deliver(m: Machine, pieces: Seq<PieceView>)
    ensures
        rises(m, deliver(m, pieces), 1),
        within(m, deliver(m, pieces)),
        lasting(m, deliver(m, pieces)),
        fits(m, deliver(m, pieces)),
        holds(m, deliver(m, pieces)),
{
    reveal(deliver);
    reveal(Machine::push);
    reveal(Machine::alloc_string);
}

proof fn height_concat(code: Code, m: Machine, a: Value, b: Value)
    ensures
        rises(m, concat(code, m, a, b), 1),
        within(m, concat(code, m, a, b)),
        lasting(m, concat(code, m, a, b)),
        fits(m, concat(code, m, a, b)),
        holds(m, concat(code, m, a, b)),
{
    reveal(concat);
    reveal(Machine::push);
    height_deliver(
        m,
        m.render(code, a, crate::vm::render::RENDER_DEPTH as nat) + m.render(
            code,
            b,
            crate::vm::render::RENDER_DEPTH as nat,
        ),
    );
}

proof fn height_bind(m: Machine, class: usize, text: Seq<char>)
    ensures
        rises(m, bind(m, class, text), 0),
        within(m, bind(m, class, text)),
        lasting(m, bind(m, class, text)),
        fits(m, bind(m, class, text)),
        holds(m, bind(m, class, text)),
{
    reveal(bind);
    reveal(Machine::push);
    reveal(Machine::set_slot);
    reveal(Machine::alloc_bound);
}

proof fn height_native(
    code: Code,
    m: Machine,
    function: NativeFunction,
    args: Seq<Value>,
    clock: Timestamp,
)
    ensures
        rises(m, native(code, m, function, args, clock), 1),
        within(m, native(code, m, function, args, clock)),
        lasting(m, native(code, m, function, args, clock)),
        fits(m, native(code, m, function, args, clock)),
        holds(m, native(code, m, function, args, clock)),
{
    reveal(native);
    reveal(Machine::push);
    reveal(Machine::alloc_array);
    if args.len() == 1 {
        height_deliver(m, m.render(code, args[0], crate::vm::render::RENDER_DEPTH as nat));
    }
}

proof fn height_call_native(
    code: Code,
    m: Machine,
    function: NativeFunction,
    argc: int,
    clock: Timestamp,
)
    ensures
        rises(m, call_native(code, m, function, argc, clock), -argc),
        within(m, call_native(code, m, function, argc, clock)),
        lasting(m, call_native(code, m, function, argc, clock)),
        fits(m, call_native(code, m, function, argc, clock)),
        holds(m, call_native(code, m, function, argc, clock)),
{
    reveal(call_native);
    reveal(Machine::drop);
    match m.drop(argc + 1) {
        Ok(m1) => {
            height_native(code, m1, function, m.stack.skip(m.stack.len() - argc), clock);
        },
        Err(_) => {},
    }
}

proof fn height_instantiate(code: Code, m: Machine, callee: Value, argc: int)
    ensures
        rises(m, instantiate(code, m, callee, argc), -argc),
        m.stack.len() <= usize::MAX ==> enters(code, m, instantiate(code, m, callee, argc), argc, 0, m.frame().ip as int),
        steady(m, instantiate(code, m, callee, argc)),
        lasting(m, instantiate(code, m, callee, argc)),
        fits(m, instantiate(code, m, callee, argc)),
        holds(m, instantiate(code, m, callee, argc)),
{
    reveal(instantiate);
    reveal(Machine::push);
    reveal(Machine::set_slot);
    reveal(Machine::alloc_instance);
    match m.class(callee) {
        Ok(class) => {
            let (m1, instance) = m.alloc_instance(class);
            match m1.set_slot(m.stack.len() - argc - 1, instance) {
                Ok(m2) => {
                    match m2.method_called(class, "init"@) {
                        Some(Value::Closure(init)) => {
                            height_enter(code, m2, init, argc);
                        },
                        _ => {},
                    }
                },
                Err(_) => {},
            }
        },
        Err(_) => {},
    }
}

proof fn height_call_bound(code: Code, m: Machine, handle: usize, argc: int)
    ensures
        rises(m, call_bound(code, m, handle, argc), -argc),
        m.stack.len() <= usize::MAX ==> enters(code, m, call_bound(code, m, handle, argc), argc, 0, m.frame().ip as int),
        steady(m, call_bound(code, m, handle, argc)),
        lasting(m, call_bound(code, m, handle, argc)),
        fits(m, call_bound(code, m, handle, argc)),
        holds(m, call_bound(code, m, handle, argc)),
{
    reveal(call_bound);
    reveal(Machine::set_slot);
    if handle < m.bound_methods.len() {
        match m.set_slot(m.stack.len() - argc - 1, m.bound_methods[handle as int].reciever) {
            Ok(m1) => {
                height_enter(code, m1, m.bound_methods[handle as int].method, argc);
            },
            Err(_) => {},
        }
    }
}

proof fn height_call_value(code: Code, m: Machine, callee: Value, argc: int, clock: Timestamp)
    ensures
        rises(m, call_value(code, m, callee, argc, clock), -argc),
        m.stack.len() <= usize::MAX ==> enters(code, m, call_value(code, m, callee, argc, clock), argc, 0, m.frame().ip as int),
        steady(m, call_value(code, m, callee, argc, clock)),
        lasting(m, call_value(code, m, callee, argc, clock)),
        fits(m, call_value(code, m, callee, argc, clock)),
        holds(m, call_value(code, m, callee, argc, clock)),
{
    reveal(call_value);
    match callee {
        Value::Closure(handle) => {
            height_enter(code, m, handle, argc);
        },
        Value::Native(function) => {
            height_call_native(code, m, function, argc, clock);
        },
        Value::Class(_) => {
            height_instantiate(code, m, callee, argc);
        },
        Value::BoundMethod(handle) => {
            height_call_bound(code, m, handle, argc);
        },
        _ => {},
    }
}

proof fn height_invoke_from_class(code: Code, m: Machine, class: usize, text: Seq<char>, argc: int)
    ensures
        rises(m, invoke_from_class(code, m, class, text, argc), -argc),
        m.stack.len() <= usize::MAX ==> enters(code, m, invoke_from_class(code, m, class, text, argc), argc, 0, m.frame().ip as int),
        steady(m, invoke_from_class(code, m, class, text, argc)),
        lasting(m, invoke_from_class(code, m, class, text, argc)),
        fits(m, invoke_from_class(code, m, class, text, argc)),
        holds(m, invoke_from_class(code, m, class, text, argc)),
{
    reveal(invoke_from_class);
    match m.method_called(class, text) {
        Some(Value::Closure(method)) => {
            height_enter(code, m, method, argc);
        },
        _ => {},
    }
}

proof fn height_op_constant(code: Code, f: usize, m: Machine)
    requires
        m.frames.len() > 0,
        f < code.len(),
        1 <= m.frame().ip <= code[f as int].chunk.code@.len(),
        opcode(code, f, m) == OP_CONSTANT,
    ensures
        rises(m, op_constant(code, f, m), effect(code[f as int].chunk.code@, m.frame().ip - 1)),
        goes(code, f, m, op_constant(code, f, m)),
        lasting(m, op_constant(code, f, m)),
        fits(m, op_constant(code, f, m)),
        holds(m, op_constant(code, f, m)),
        stays(m, op_constant(code, f, m)),
{
    assert(code[f as int].chunk.code.len() == code[f as int].chunk.code@.len());
    reveal(op_constant);
    reveal(Machine::push);
    reveal(Machine::read_byte);
    reveal(Machine::read_constant);
}

proof fn height_op_define_global(code: Code, f: usize, m: Machine)
    requires
        m.frames.len() > 0,
        f < code.len(),
        1 <= m.frame().ip <= code[f as int].chunk.code@.len(),
        opcode(code, f, m) == OP_DEFINE_GLOBAL,
    ensures
        rises(
            m,
            op_define_global(code, f, m),
            effect(code[f as int].chunk.code@, m.frame().ip - 1),
        ),
        goes(code, f, m, op_define_global(code, f, m)),
        lasting(m, op_define_global(code, f, m)),
        fits(m, op_define_global(code, f, m)),
        holds(m, op_define_global(code, f, m)),
        stays(m, op_define_global(code, f, m)),
{
    assert(code[f as int].chunk.code.len() == code[f as int].chunk.code@.len());
    reveal(op_define_global);
    reveal(Machine::pop);
    reveal(Machine::read_byte);
    reveal(Machine::read_constant);
    reveal(Machine::read_string);
    reveal(Machine::define_global);
}

proof fn height_op_get_global(code: Code, f: usize, m: Machine)
    requires
        m.frames.len() > 0,
        f < code.len(),
        1 <= m.frame().ip <= code[f as int].chunk.code@.len(),
        opcode(code, f, m) == OP_GET_GLOBAL,
    ensures
        rises(m, op_get_global(code, f, m), effect(code[f as int].chunk.code@, m.frame().ip - 1)),
        goes(code, f, m, op_get_global(code, f, m)),
        lasting(m, op_get_global(code, f, m)),
        fits(m, op_get_global(code, f, m)),
        holds(m, op_get_global(code, f, m)),
        stays(m, op_get_global(code, f, m)),
{
    assert(code[f as int].chunk.code.len() == code[f as int].chunk.code@.len());
    reveal(op_get_global);
    reveal(Machine::push);
    reveal(Machine::read_byte);
    reveal(Machine::read_constant);
    reveal(Machine::read_string);
}

proof fn height_op_set_global(code: Code, f: usize, m: Machine)
    requires
        m.frames.len() > 0,
        f < code.len(),
        1 <= m.frame().ip <= code[f as int].chunk.code@.len(),
        opcode(code, f, m) == OP_SET_GLOBAL,
    ensures
        rises(m, op_set_global(code, f, m), effect(code[f as int].chunk.code@, m.frame().ip - 1)),
        goes(code, f, m, op_set_global(code, f, m)),
        lasting(m, op_set_global(code, f, m)),
        fits(m, op_set_global(code, f, m)),
        holds(m, op_set_global(code, f, m)),
        stays(m, op_set_global(code, f, m)),
{
    assert(code[f as int].chunk.code.len() == code[f as int].chunk.code@.len());
    reveal(op_set_global);
    reveal(Machine::read_byte);
    reveal(Machine::read_constant);
    reveal(Machine::read_string);
    reveal(Machine::define_global);
}

proof fn height_op_get_local(code: Code, f: usize, m: Machine)
    requires
        m.frames.len() > 0,
        f < code.len(),
        1 <= m.frame().ip <= code[f as int].chunk.code@.len(),
        opcode(code, f, m) == OP_GET_LOCAL,
    ensures
        rises(m, op_get_local(code, f, m), effect(code[f as int].chunk.code@, m.frame().ip - 1)),
        goes(code, f, m, op_get_local(code, f, m)),
        lasting(m, op_get_local(code, f, m)),
        fits(m, op_get_local(code, f, m)),
        holds(m, op_get_local(code, f, m)),
        stays(m, op_get_local(code, f, m)),
{
    assert(code[f as int].chunk.code.len() == code[f as int].chunk.code@.len());
    reveal(op_get_local);
    reveal(Machine::push);
    reveal(Machine::read_byte);
}

proof fn height_op_set_local(code: Code, f: usize, m: Machine)
    requires
        m.frames.len() > 0,
        f < code.len(),
        1 <= m.frame().ip <= code[f as int].chunk.code@.len(),
        opcode(code, f, m) == OP_SET_LOCAL,
    ensures
        rises(m, op_set_local(code, f, m), effect(code[f as int].chunk.code@, m.frame().ip - 1)),
        goes(code, f, m, op_set_local(code, f, m)),
        lasting(m, op_set_local(code, f, m)),
        fits(m, op_set_local(code, f, m)),
        holds(m, op_set_local(code, f, m)),
        stays(m, op_set_local(code, f, m)),
{
    assert(code[f as int].chunk.code.len() == code[f as int].chunk.code@.len());
    reveal(op_set_local);
    reveal(Machine::set_slot);
    reveal(Machine::read_byte);
}

proof fn height_op_countup(code: Code, f: usize, m: Machine)
    requires
        m.frames.len() > 0,
        f < code.len(),
        1 <= m.frame().ip <= code[f as int].chunk.code@.len(),
        opcode(code, f, m) == OP_COUNTUP,
    ensures
        rises(m, op_countup(code, f, m), effect(code[f as int].chunk.code@, m.frame().ip - 1)),
        goes(code, f, m, op_countup(code, f, m)),
        lasting(m, op_countup(code, f, m)),
        fits(m, op_countup(code, f, m)),
        holds(m, op_countup(code, f, m)),
        stays(m, op_countup(code, f, m)),
{
    assert(code[f as int].chunk.code.len() == code[f as int].chunk.code@.len());
    reveal(op_countup);
    reveal(Machine::set_slot);
    reveal(Machine::read_byte);
}

proof fn height_op_jump_if_false(code: Code, f: usize, m: Machine)
    requires
        m.frames.len() > 0,
        f < code.len(),
        1 <= m.frame().ip <= code[f as int].chunk.code@.len(),
        opcode(code, f, m) == OP_JUMP_IF_FALSE,
    ensures
        rises(
            m,
            op_jump_if_false(code, f, m),
            effect(code[f as int].chunk.code@, m.frame().ip - 1),
        ),
        goes(code, f, m, op_jump_if_false(code, f, m)),
        lasting(m, op_jump_if_false(code, f, m)),
        fits(m, op_jump_if_false(code, f, m)),
        holds(m, op_jump_if_false(code, f, m)),
        stays(m, op_jump_if_false(code, f, m)),
{
    assert(code[f as int].chunk.code.len() == code[f as int].chunk.code@.len());
    reveal(op_jump_if_false);
    reveal(Machine::read_byte);
    reveal(Machine::read_jump);
    reveal(Machine::jump);
}

proof fn height_op_jump(code: Code, f: usize, m: Machine)
    requires
        m.frames.len() > 0,
        f < code.len(),
        1 <= m.frame().ip <= code[f as int].chunk.code@.len(),
        opcode(code, f, m) == OP_JUMP,
    ensures
        rises(m, op_jump(code, f, m), effect(code[f as int].chunk.code@, m.frame().ip - 1)),
        goes(code, f, m, op_jump(code, f, m)),
        lasting(m, op_jump(code, f, m)),
        fits(m, op_jump(code, f, m)),
        holds(m, op_jump(code, f, m)),
        stays(m, op_jump(code, f, m)),
{
    assert(code[f as int].chunk.code.len() == code[f as int].chunk.code@.len());
    reveal(op_jump);
    reveal(Machine::read_byte);
    reveal(Machine::read_jump);
    reveal(Machine::jump);
}

proof fn height_op_loop(code: Code, f: usize, m: Machine)
    requires
        m.frames.len() > 0,
        f < code.len(),
        1 <= m.frame().ip <= code[f as int].chunk.code@.len(),
        opcode(code, f, m) == OP_LOOP,
    ensures
        rises(m, op_loop(code, f, m), effect(code[f as int].chunk.code@, m.frame().ip - 1)),
        goes(code, f, m, op_loop(code, f, m)),
        lasting(m, op_loop(code, f, m)),
        fits(m, op_loop(code, f, m)),
        holds(m, op_loop(code, f, m)),
        stays(m, op_loop(code, f, m)),
{
    assert(code[f as int].chunk.code.len() == code[f as int].chunk.code@.len());
    reveal(op_loop);
    reveal(Machine::read_byte);
    reveal(Machine::read_jump);
    reveal(Machine::jump);
}

proof fn height_op_jump_if_range_end(code: Code, f: usize, m: Machine)
    requires
        m.frames.len() > 0,
        f < code.len(),
        1 <= m.frame().ip <= code[f as int].chunk.code@.len(),
        opcode(code, f, m) == OP_JUMP_IF_RANGE_END,
    ensures
        rises(
            m,
            op_jump_if_range_end(code, f, m),
            effect(code[f as int].chunk.code@, m.frame().ip - 1),
        ),
        goes(code, f, m, op_jump_if_range_end(code, f, m)),
        lasting(m, op_jump_if_range_end(code, f, m)),
        fits(m, op_jump_if_range_end(code, f, m)),
        holds(m, op_jump_if_range_end(code, f, m)),
        stays(m, op_jump_if_range_end(code, f, m)),
{
    assert(code[f as int].chunk.code.len() == code[f as int].chunk.code@.len());
    reveal(op_jump_if_range_end);
    reveal(Machine::push);
    reveal(Machine::pop);
    reveal(Machine::read_byte);
    reveal(Machine::read_jump);
    reveal(Machine::jump);
}

proof fn height_op_array(code: Code, f: usize, m: Machine)
    requires
        m.frames.len() > 0,
        f < code.len(),
        1 <= m.frame().ip <= code[f as int].chunk.code@.len(),
        opcode(code, f, m) == OP_ARRAY,
    ensures
        rises(m, op_array(code, f, m), effect(code[f as int].chunk.code@, m.frame().ip - 1)),
        goes(code, f, m, op_array(code, f, m)),
        lasting(m, op_array(code, f, m)),
        fits(m, op_array(code, f, m)),
        holds(m, op_array(code, f, m)),
        stays(m, op_array(code, f, m)),
{
    assert(code[f as int].chunk.code.len() == code[f as int].chunk.code@.len());
    reveal(op_array);
    reveal(Machine::push);
    reveal(Machine::drop);
    reveal(Machine::read_byte);
    reveal(Machine::alloc_array);
}

proof fn height_op_class(code: Code, f: usize, m: Machine)
    requires
        m.frames.len() > 0,
        f < code.len(),
        1 <= m.frame().ip <= code[f as int].chunk.code@.len(),
        opcode(code, f, m) == OP_CLASS,
    ensures
        rises(m, op_class(code, f, m), effect(code[f as int].chunk.code@, m.frame().ip - 1)),
        goes(code, f, m, op_class(code, f, m)),
        lasting(m, op_class(code, f, m)),
        fits(m, op_class(code, f, m)),
        holds(m, op_class(code, f, m)),
        stays(m, op_class(code, f, m)),
{
    assert(code[f as int].chunk.code.len() == code[f as int].chunk.code@.len());
    reveal(op_class);
    reveal(Machine::push);
    reveal(Machine::read_byte);
    reveal(Machine::read_constant);
    reveal(Machine::read_string);
    reveal(Machine::alloc_class);
}

proof fn height_op_set_prop(code: Code, f: usize, m: Machine)
    requires
        m.frames.len() > 0,
        f < code.len(),
        1 <= m.frame().ip <= code[f as int].chunk.code@.len(),
        opcode(code, f, m) == OP_SET_PROP,
    ensures
        rises(m, op_set_prop(code, f, m), effect(code[f as int].chunk.code@, m.frame().ip - 1)),
        goes(code, f, m, op_set_prop(code, f, m)),
        lasting(m, op_set_prop(code, f, m)),
        fits(m, op_set_prop(code, f, m)),
        holds(m, op_set_prop(code, f, m)),
        stays(m, op_set_prop(code, f, m)),
{
    assert(code[f as int].chunk.code.len() == code[f as int].chunk.code@.len());
    reveal(op_set_prop);
    reveal(Machine::push);
    reveal(Machine::drop);
    reveal(Machine::read_byte);
    reveal(Machine::read_constant);
    reveal(Machine::read_string);
    reveal(Machine::set_field);
}

proof fn height_op_method(code: Code, f: usize, m: Machine)
    requires
        m.frames.len() > 0,
        f < code.len(),
        1 <= m.frame().ip <= code[f as int].chunk.code@.len(),
        opcode(code, f, m) == OP_METHOD,
    ensures
        rises(m, op_method(code, f, m), effect(code[f as int].chunk.code@, m.frame().ip - 1)),
        goes(code, f, m, op_method(code, f, m)),
        lasting(m, op_method(code, f, m)),
        fits(m, op_method(code, f, m)),
        holds(m, op_method(code, f, m)),
        stays(m, op_method(code, f, m)),
{
    assert(code[f as int].chunk.code.len() == code[f as int].chunk.code@.len());
    reveal(op_method);
    reveal(Machine::drop);
    reveal(Machine::read_byte);
    reveal(Machine::read_constant);
    reveal(Machine::read_string);
    reveal(Machine::set_method);
}

proof fn height_op_get_upvalue(code: Code, f: usize, m: Machine)
    requires
        m.frames.len() > 0,
        f < code.len(),
        1 <= m.frame().ip <= code[f as int].chunk.code@.len(),
        opcode(code, f, m) == OP_GET_UPVALUE,
    ensures
        rises(m, op_get_upvalue(code, f, m), effect(code[f as int].chunk.code@, m.frame().ip - 1)),
        goes(code, f, m, op_get_upvalue(code, f, m)),
        lasting(m, op_get_upvalue(code, f, m)),
        fits(m, op_get_upvalue(code, f, m)),
        holds(m, op_get_upvalue(code, f, m)),
        stays(m, op_get_upvalue(code, f, m)),
{
    assert(code[f as int].chunk.code.len() == code[f as int].chunk.code@.len());
    reveal(op_get_upvalue);
    reveal(Machine::push);
    reveal(Machine::read_byte);
}

proof fn height_op_set_upvalue(code: Code, f: usize, m: Machine)
    requires
        m.frames.len() > 0,
        f < code.len(),
        1 <= m.frame().ip <= code[f as int].chunk.code@.len(),
        opcode(code, f, m) == OP_SET_UPVALUE,
    ensures
        rises(m, op_set_upvalue(code, f, m), effect(code[f as int].chunk.code@, m.frame().ip - 1)),
        goes(code, f, m, op_set_upvalue(code, f, m)),
        lasting(m, op_set_upvalue(code, f, m)),
        fits(m, op_set_upvalue(code, f, m)),
        holds(m, op_set_upvalue(code, f, m)),
        stays(m, op_set_upvalue(code, f, m)),
{
    assert(code[f as int].chunk.code.len() == code[f as int].chunk.code@.len());
    reveal(op_set_upvalue);
    reveal(Machine::set_slot);
    reveal(Machine::read_byte);
    reveal(Machine::write_cell);
}

proof fn height_op_pop(code: Code, f: usize, m: Machine)
    requires
        m.frames.len() > 0,
        f < code.len(),
        1 <= m.frame().ip <= code[f as int].chunk.code@.len(),
        opcode(code, f, m) == OP_POP,
    ensures
        rises(m, op_pop(m), effect(code[f as int].chunk.code@, m.frame().ip - 1)),
        goes(code, f, m, op_pop(m)),
        lasting(m, op_pop(m)),
        fits(m, op_pop(m)),
        holds(m, op_pop(m)),
        stays(m, op_pop(m)),
{
    assert(code[f as int].chunk.code.len() == code[f as int].chunk.code@.len());
    reveal(op_pop);
    reveal(Machine::drop);
}

proof fn height_op_index_call(code: Code, f: usize, m: Machine)
    requires
        m.frames.len() > 0,
        f < code.len(),
        1 <= m.frame().ip <= code[f as int].chunk.code@.len(),
        opcode(code, f, m) == OP_INDEX_CALL,
    ensures
        rises(m, op_index_call(m), effect(code[f as int].chunk.code@, m.frame().ip - 1)),
        goes(code, f, m, op_index_call(m)),
        lasting(m, op_index_call(m)),
        fits(m, op_index_call(m)),
        holds(m, op_index_call(m)),
        stays(m, op_index_call(m)),
{
    assert(code[f as int].chunk.code.len() == code[f as int].chunk.code@.len());
    reveal(op_index_call);
    reveal(Machine::push);
    reveal(Machine::pop);
}

proof fn height_op_index_set(code: Code, f: usize, m: Machine)
    requires
        m.frames.len() > 0,
        f < code.len(),
        1 <= m.frame().ip <= code[f as int].chunk.code@.len(),
        opcode(code, f, m) == OP_INDEX_SET,
    ensures
        rises(m, op_index_set(m), effect(code[f as int].chunk.code@, m.frame().ip - 1)),
        goes(code, f, m, op_index_set(m)),
        lasting(m, op_index_set(m)),
        fits(m, op_index_set(m)),
        holds(m, op_index_set(m)),
        stays(m, op_index_set(m)),
{
    assert(code[f as int].chunk.code.len() == code[f as int].chunk.code@.len());
    reveal(op_index_set);
    reveal(Machine::pop);
    reveal(Machine::set_item);
}

proof fn height_op_range(code: Code, f: usize, m: Machine)
    requires
        m.frames.len() > 0,
        f < code.len(),
        1 <= m.frame().ip <= code[f as int].chunk.code@.len(),
        opcode(code, f, m) == OP_RANGE,
    ensures
        rises(m, op_range(m), effect(code[f as int].chunk.code@, m.frame().ip - 1)),
        goes(code, f, m, op_range(m)),
        lasting(m, op_range(m)),
        fits(m, op_range(m)),
        holds(m, op_range(m)),
        stays(m, op_range(m)),
{
    assert(code[f as int].chunk.code.len() == code[f as int].chunk.code@.len());
    reveal(op_range);
    reveal(Machine::push);
    reveal(Machine::pop);
    reveal(Machine::alloc_array);
}

proof fn height_op_negative(code: Code, f: usize, m: Machine)
    requires
        m.frames.len() > 0,
        f < code.len(),
        1 <= m.frame().ip <= code[f as int].chunk.code@.len(),
        opcode(code, f, m) == OP_NEGATIVE,
    ensures
        rises(m, op_negative(m), effect(code[f as int].chunk.code@, m.frame().ip - 1)),
        goes(code, f, m, op_negative(m)),
        lasting(m, op_negative(m)),
        fits(m, op_negative(m)),
        holds(m, op_negative(m)),
        stays(m, op_negative(m)),
{
    assert(code[f as int].chunk.code.len() == code[f as int].chunk.code@.len());
    reveal(op_negative);
    reveal(Machine::push);
    reveal(Machine::pop);
}

proof fn height_op_not(code: Code, f: usize, m: Machine)
    requires
        m.frames.len() > 0,
        f < code.len(),
        1 <= m.frame().ip <= code[f as int].chunk.code@.len(),
        opcode(code, f, m) == OP_NOT,
    ensures
        rises(m, op_not(m), effect(code[f as int].chunk.code@, m.frame().ip - 1)),
        goes(code, f, m, op_not(m)),
        lasting(m, op_not(m)),
        fits(m, op_not(m)),
        holds(m, op_not(m)),
        stays(m, op_not(m)),
{
    assert(code[f as int].chunk.code.len() == code[f as int].chunk.code@.len());
    reveal(op_not);
    reveal(Machine::push);
    reveal(Machine::pop);
}

proof fn height_op_inherit(code: Code, f: usize, m: Machine)
    requires
        m.frames.len() > 0,
        f < code.len(),
        1 <= m.frame().ip <= code[f as int].chunk.code@.len(),
        opcode(code, f, m) == OP_INHERIT,
    ensures
        rises(m, op_inherit(m), effect(code[f as int].chunk.code@, m.frame().ip - 1)),
        goes(code, f, m, op_inherit(m)),
        lasting(m, op_inherit(m)),
        fits(m, op_inherit(m)),
        holds(m, op_inherit(m)),
        stays(m, op_inherit(m)),
{
    assert(code[f as int].chunk.code.len() == code[f as int].chunk.code@.len());
    reveal(op_inherit);
    reveal(Machine::drop);
    reveal(Machine::inherit);
}

proof fn height_op_equal(code: Code, f: usize, m: Machine)
    requires
        m.frames.len() > 0,
        f < code.len(),
        1 <= m.frame().ip <= code[f as int].chunk.code@.len(),
        opcode(code, f, m) == OP_EQUAL,
    ensures
        rises(m, op_equal(code, m), effect(code[f as int].chunk.code@, m.frame().ip - 1)),
        goes(code, f, m, op_equal(code, m)),
        lasting(m, op_equal(code, m)),
        fits(m, op_equal(code, m)),
        holds(m, op_equal(code, m)),
        stays(m, op_equal(code, m)),
{
    assert(code[f as int].chunk.code.len() == code[f as int].chunk.code@.len());
    reveal(op_equal);
    reveal(Machine::push);
    reveal(Machine::pop);
}

proof fn height_op_print(code: Code, f: usize, m: Machine)
    requires
        m.frames.len() > 0,
        f < code.len(),
        1 <= m.frame().ip <= code[f as int].chunk.code@.len(),
        opcode(code, f, m) == OP_PRINT,
    ensures
        rises(m, op_print(code, m), effect(code[f as int].chunk.code@, m.frame().ip - 1)),
        goes(code, f, m, op_print(code, m)),
        lasting(m, op_print(code, m)),
        fits(m, op_print(code, m)),
        holds(m, op_print(code, m)),
        stays(m, op_print(code, m)),
{
    assert(code[f as int].chunk.code.len() == code[f as int].chunk.code@.len());
    reveal(op_print);
    reveal(Machine::push);
    reveal(Machine::pop);
}

proof fn height_op_literal(code: Code, f: usize, m: Machine, value: Value)
    requires
        m.frames.len() > 0,
        f < code.len(),
        1 <= m.frame().ip <= code[f as int].chunk.code@.len(),
        opcode(code, f, m) == OP_NULL || opcode(code, f, m) == OP_TRUE
            || opcode(code, f, m) == OP_FALSE || opcode(code, f, m) == OP_CONSTANT0,
    ensures
        rises(m, op_literal(m, value), effect(code[f as int].chunk.code@, m.frame().ip - 1)),
        goes(code, f, m, op_literal(m, value)),
        lasting(m, op_literal(m, value)),
        fits(m, op_literal(m, value)),
        holds(m, op_literal(m, value)),
        stays(m, op_literal(m, value)),
{
    assert(code[f as int].chunk.code.len() == code[f as int].chunk.code@.len());
    reveal(op_literal);
    reveal(Machine::push);
}

proof fn height_op_compare(code: Code, f: usize, m: Machine, want: Order)
    requires
        m.frames.len() > 0,
        f < code.len(),
        1 <= m.frame().ip <= code[f as int].chunk.code@.len(),
        opcode(code, f, m) == OP_GREATER || opcode(code, f, m) == OP_LESS,
    ensures
        rises(m, op_compare(code, m, want), effect(code[f as int].chunk.code@, m.frame().ip - 1)),
        goes(code, f, m, op_compare(code, m, want)),
        lasting(m, op_compare(code, m, want)),
        fits(m, op_compare(code, m, want)),
        holds(m, op_compare(code, m, want)),
        stays(m, op_compare(code, m, want)),
{
    assert(code[f as int].chunk.code.len() == code[f as int].chunk.code@.len());
    reveal(op_compare);
    reveal(Machine::push);
    reveal(Machine::pop);
}

proof fn height_op_binary(code: Code, f: usize, m: Machine, op: FloatOp)
    requires
        m.frames.len() > 0,
        f < code.len(),
        1 <= m.frame().ip <= code[f as int].chunk.code@.len(),
        opcode(code, f, m) == OP_SUBTRACT || opcode(code, f, m) == OP_MULTIPLY
            || opcode(code, f, m) == OP_DIVIDE || opcode(code, f, m) == OP_REM
            || opcode(code, f, m) == OP_POW,
    ensures
        rises(m, op_binary(m, op), effect(code[f as int].chunk.code@, m.frame().ip - 1)),
        goes(code, f, m, op_binary(m, op)),
        lasting(m, op_binary(m, op)),
        fits(m, op_binary(m, op)),
        holds(m, op_binary(m, op)),
        stays(m, op_binary(m, op)),
{
    assert(code[f as int].chunk.code.len() == code[f as int].chunk.code@.len());
    reveal(op_binary);
    reveal(Machine::pop);
    match m.pop() {
        Ok((m1, b)) => match m1.pop() {
            Ok((m2, a)) => {
                height_numeric(m2, op, a, b);
            },
            Err(_) => {},
        },
        Err(_) => {},
    }
}

proof fn height_op_add(code: Code, f: usize, m: Machine)
    requires
        m.frames.len() > 0,
        f < code.len(),
        1 <= m.frame().ip <= code[f as int].chunk.code@.len(),
        opcode(code, f, m) == OP_ADD,
    ensures
        rises(m, op_add(code, m), effect(code[f as int].chunk.code@, m.frame().ip - 1)),
        goes(code, f, m, op_add(code, m)),
        lasting(m, op_add(code, m)),
        fits(m, op_add(code, m)),
        holds(m, op_add(code, m)),
        stays(m, op_add(code, m)),
{
    assert(code[f as int].chunk.code.len() == code[f as int].chunk.code@.len());
    reveal(op_add);
    reveal(Machine::pop);
    match m.pop() {
        Ok((m1, b)) => match m1.pop() {
            Ok((m2, a)) => {
                height_numeric(m2, FloatOp::Add, a, b);
                height_concat(code, m2, a, b);
            },
            Err(_) => {},
        },
        Err(_) => {},
    }
}

proof fn height_op_get_prop(code: Code, f: usize, m: Machine)
    requires
        m.frames.len() > 0,
        f < code.len(),
        1 <= m.frame().ip <= code[f as int].chunk.code@.len(),
        opcode(code, f, m) == OP_GET_PROP,
    ensures
        rises(m, op_get_prop(code, f, m), effect(code[f as int].chunk.code@, m.frame().ip - 1)),
        goes(code, f, m, op_get_prop(code, f, m)),
        lasting(m, op_get_prop(code, f, m)),
        fits(m, op_get_prop(code, f, m)),
        holds(m, op_get_prop(code, f, m)),
        stays(m, op_get_prop(code, f, m)),
{
    assert(code[f as int].chunk.code.len() == code[f as int].chunk.code@.len());
    reveal(op_get_prop);
    reveal(Machine::set_slot);
    reveal(Machine::read_byte);
    reveal(Machine::read_constant);
    reveal(Machine::read_string);
    match m.read_string(code, f) {
        Ok((m1, name)) => match m.peek(0) {
            Ok(receiver) => match m1.instance(receiver) {
                Ok(instance) => {
                    height_bind(m1, m1.instances[instance as int].class, m1.strings[name as int]);
                },
                Err(_) => {},
            },
            Err(_) => {},
        },
        Err(_) => {},
    }
}

proof fn height_op_get_super(code: Code, f: usize, m: Machine)
    requires
        m.frames.len() > 0,
        f < code.len(),
        1 <= m.frame().ip <= code[f as int].chunk.code@.len(),
        opcode(code, f, m) == OP_GET_SUPER,
    ensures
        rises(m, op_get_super(code, f, m), effect(code[f as int].chunk.code@, m.frame().ip - 1)),
        goes(code, f, m, op_get_super(code, f, m)),
        lasting(m, op_get_super(code, f, m)),
        fits(m, op_get_super(code, f, m)),
        holds(m, op_get_super(code, f, m)),
        stays(m, op_get_super(code, f, m)),
{
    assert(code[f as int].chunk.code.len() == code[f as int].chunk.code@.len());
    reveal(op_get_super);
    reveal(Machine::pop);
    reveal(Machine::read_byte);
    reveal(Machine::read_constant);
    reveal(Machine::read_string);
    match m.pop() {
        Ok((m1, above)) => match m1.read_string(code, f) {
            Ok((m2, name)) => match m2.class(above) {
                Ok(class) => {
                    height_bind(m2, class, m2.strings[name as int]);
                },
                Err(_) => {},
            },
            Err(_) => {},
        },
        Err(_) => {},
    }
}

proof fn height_op_call(code: Code, f: usize, m: Machine, clock: Timestamp)
    requires
        m.frames.len() > 0,
        f < code.len(),
        1 <= m.frame().ip <= code[f as int].chunk.code@.len(),
        opcode(code, f, m) == OP_CALL,
    ensures
        rises(m, op_call(code, f, m, clock), effect(code[f as int].chunk.code@, m.frame().ip - 1)),
        goes(code, f, m, op_call(code, f, m, clock)),
        lasting(m, op_call(code, f, m, clock)),
        fits(m, op_call(code, f, m, clock)),
        holds(m, op_call(code, f, m, clock)),
        m.stack.len() <= usize::MAX ==> enters(code, m, op_call(code, f, m, clock), code[f as int].chunk.code@[m.frame().ip as int] as int, 0, m.frame().ip + 1),
{
    assert(code[f as int].chunk.code.len() == code[f as int].chunk.code@.len());
    reveal(op_call);
    reveal(Machine::read_byte);
    match m.read_byte(code, f) {
        Ok((m1, argc)) => match m1.peek(argc as int) {
            Ok(callee) => {
                height_call_value(code, m1, callee, argc as int, clock);
            },
            Err(_) => {},
        },
        Err(_) => {},
    }
}

proof fn height_op_invoke(code: Code, f: usize, m: Machine, clock: Timestamp)
    requires
        m.frames.len() > 0,
        f < code.len(),
        1 <= m.frame().ip <= code[f as int].chunk.code@.len(),
        opcode(code, f, m) == OP_INVOKE,
    ensures
        rises(
            m,
            op_invoke(code, f, m, clock),
            effect(code[f as int].chunk.code@, m.frame().ip - 1),
        ),
        goes(code, f, m, op_invoke(code, f, m, clock)),
        lasting(m, op_invoke(code, f, m, clock)),
        fits(m, op_invoke(code, f, m, clock)),
        holds(m, op_invoke(code, f, m, clock)),
        m.stack.len() <= usize::MAX ==> enters(code, m, op_invoke(code, f, m, clock), code[f as int].chunk.code@[m.frame().ip + 1] as int, 0, m.frame().ip + 2),
{
    assert(code[f as int].chunk.code.len() == code[f as int].chunk.code@.len());
    reveal(op_invoke);
    reveal(Machine::set_slot);
    reveal(Machine::read_byte);
    reveal(Machine::read_constant);
    reveal(Machine::read_string);
    match m.read_string(code, f) {
        Ok((m1, name)) => match m1.read_byte(code, f) {
            Ok((m2, argc)) => match m2.peek(argc as int) {
                Ok(receiver) => match m2.instance(receiver) {
                    Ok(instance) => match m2.field(instance, name) {
                        Some(field) => match m2.set_slot(m2.stack.len() - argc - 1, field) {
                            Ok(m3) => {
                                height_call_value(code, m3, field, argc as int, clock);
                            },
                            Err(_) => {},
                        },
                        None => {
                            height_invoke_from_class(
                                code,
                                m2,
                                m2.instances[instance as int].class,
                                m2.strings[name as int],
                                argc as int,
                            );
                        },
                    },
                    Err(_) => {},
                },
                Err(_) => {},
            },
            Err(_) => {},
        },
        Err(_) => {},
    }
}

proof fn height_op_super_invoke(code: Code, f: usize, m: Machine)
    requires
        m.frames.len() > 0,
        f < code.len(),
        1 <= m.frame().ip <= code[f as int].chunk.code@.len(),
        opcode(code, f, m) == OP_SUPER_INVOKE,
    ensures
        rises(m, op_super_invoke(code, f, m), effect(code[f as int].chunk.code@, m.frame().ip - 1)),
        goes(code, f, m, op_super_invoke(code, f, m)),
        lasting(m, op_super_invoke(code, f, m)),
        fits(m, op_super_invoke(code, f, m)),
        holds(m, op_super_invoke(code, f, m)),
        m.stack.len() <= usize::MAX ==> enters(code, m, op_super_invoke(code, f, m), code[f as int].chunk.code@[m.frame().ip + 1] as int, 1, m.frame().ip + 2),
{
    assert(code[f as int].chunk.code.len() == code[f as int].chunk.code@.len());
    reveal(op_super_invoke);
    reveal(Machine::pop);
    reveal(Machine::read_byte);
    reveal(Machine::read_constant);
    reveal(Machine::read_string);
    match m.read_string(code, f) {
        Ok((m1, name)) => match m1.read_byte(code, f) {
            Ok((m2, argc)) => match m2.pop() {
                Ok((m3, above)) => match m3.class(above) {
                    Ok(class) => {
                        height_invoke_from_class(
                            code,
                            m3,
                            class,
                            m3.strings[name as int],
                            argc as int,
                        );
                    },
                    Err(_) => {},
                },
                Err(_) => {},
            },
            Err(_) => {},
        },
        Err(_) => {},
    }
}

proof fn height_op_close_upvalue(code: Code, f: usize, m: Machine)
    requires
        m.frames.len() > 0,
        f < code.len(),
        1 <= m.frame().ip <= code[f as int].chunk.code@.len(),
        opcode(code, f, m) == OP_CLOSE_UPVALUE,
    ensures
        rises(m, op_close_upvalue(m), effect(code[f as int].chunk.code@, m.frame().ip - 1)),
        goes(code, f, m, op_close_upvalue(m)),
        lasting(m, op_close_upvalue(m)),
        fits(m, op_close_upvalue(m)),
        holds(m, op_close_upvalue(m)),
        stays(m, op_close_upvalue(m)),
{
    assert(code[f as int].chunk.code.len() == code[f as int].chunk.code@.len());
    reveal(op_close_upvalue);
    reveal(Machine::drop);
    if m.stack.len() > 0 {
        lemma_close_keeps_cells(m, (m.stack.len() - 1) as usize);
    }
}

proof fn height_op_closure(code: Code, f: usize, m: Machine)
    requires
        m.frames.len() > 0,
        f < code.len(),
        1 <= m.frame().ip <= code[f as int].chunk.code@.len(),
        opcode(code, f, m) == OP_CLOSURE,
    ensures
        rises(m, op_closure(code, f, m), effect(code[f as int].chunk.code@, m.frame().ip - 1)),
        goes(code, f, m, op_closure(code, f, m)),
        lasting(m, op_closure(code, f, m)),
        fits(m, op_closure(code, f, m)),
        holds(m, op_closure(code, f, m)),
        stays(m, op_closure(code, f, m)),
{
    assert(code[f as int].chunk.code.len() == code[f as int].chunk.code@.len());
    reveal(op_closure);
    reveal(Machine::push);
    reveal(Machine::read_byte);
    reveal(Machine::read_constant);
    reveal(Machine::alloc_closure);
    match m.read_constant(code, f) {
        Ok((m1, Value::Function(function))) => {
            if function < code.len() && code[function as int].upvalue_count >= 0 {
                height_capture_all(
                    code,
                    f,
                    m1,
                    code[function as int].upvalue_count as int,
                    Seq::empty(),
                );
            }
        },
        _ => {},
    }
}

/// The instruction may start a call.
pub open spec fn calls(op: u8) -> bool {
    op == OP_CALL || op == OP_INVOKE || op == OP_SUPER_INVOKE
}

/// Only an instruction that may start a call has started one.
pub open spec fn starts(m: Machine, result: Step, op: u8) -> bool {
    result matches Ok((after, _)) ==> (after.frames.len() > m.frames.len() ==> calls(op))
}

/// Number of arguments of the call instruction that was read last.
pub open spec fn arguments(code: Code, f: usize, m: Machine) -> int {
    if opcode(code, f, m) == OP_CALL {
        code[f as int].chunk.code@[m.frame().ip as int] as int
    } else {
        code[f as int].chunk.code@[m.frame().ip + 1] as int
    }
}

/// Number of values that a call instruction takes off the stack before the
/// call starts: the superclass, for a call through it.
pub open spec fn taken(op: u8) -> int {
    if op == OP_SUPER_INVOKE {
        1
    } else {
        0
    }
}

/// An instruction other than a return changes the height of the stack by
/// its effect, if it stays within the call, and starts a call only as a call
/// instruction does.
proof fn height_execute(code: Code, f: usize, m: Machine, op: u8, clock: Timestamp)
    requires
        m.frames.len() > 0,
        f < code.len(),
        1 <= m.frame().ip <= code[f as int].chunk.code@.len(),
        opcode(code, f, m) == op,
        op != OP_RETURN,
    ensures
        rises(
            m,
            execute(code, f, m, op, clock),
            effect(code[f as int].chunk.code@, m.frame().ip - 1),
        ),
        goes(code, f, m, execute(code, f, m, op, clock)),
        lasting(m, execute(code, f, m, op, clock)),
        fits(m, execute(code, f, m, op, clock)),
        holds(m, execute(code, f, m, op, clock)),
        starts(m, execute(code, f, m, op, clock), op),
        m.stack.len() <= usize::MAX ==> enters(
            code,
            m,
            execute(code, f, m, op, clock),
            arguments(code, f, m),
            taken(op),
            m.frame().ip - 1 + width(
                code[f as int].chunk.code@,
                code[f as int].chunk.constants@,
                functions_view(code),
                m.frame().ip - 1,
            ),
        ),
{
    if op == OP_CONSTANT {
        height_op_constant(code, f, m);
    }     else if op == OP_NEGATIVE {
        height_op_negative(code, f, m);
    }     else if op == OP_ADD {
        height_op_add(code, f, m);
    }     else if op == OP_SUBTRACT {
        height_op_binary(code, f, m, FloatOp::Subtract);
    }     else if op == OP_MULTIPLY {
        height_op_binary(code, f, m, FloatOp::Multiply);
    }     else if op == OP_DIVIDE {
        height_op_binary(code, f, m, FloatOp::Divide);
    }     else if op == OP_REM {
        height_op_binary(code, f, m, FloatOp::Remainder);
    }     else if op == OP_POW {
        height_op_binary(code, f, m, FloatOp::Power);
    }     else if op == OP_NULL {
        height_op_literal(code, f, m, Value::Null);
    }     else if op == OP_TRUE {
        height_op_literal(code, f, m, Value::Boolean(true));
    }     else if op == OP_FALSE {
        height_op_literal(code, f, m, Value::Boolean(false));
    }     else if op == OP_CONSTANT0 {
        height_op_literal(code, f, m, Value::Integer(0));
    }     else if op == OP_NOT {
        height_op_not(code, f, m);
    }     else if op == OP_GREATER {
        height_op_compare(code, f, m, Order::Greater);
    }     else if op == OP_LESS {
        height_op_compare(code, f, m, Order::Less);
    }     else if op == OP_EQUAL {
        height_op_equal(code, f, m);
    }     else if op == OP_PRINT {
        height_op_print(code, f, m);
    }     else if op == OP_POP {
        height_op_pop(code, f, m);
    }     else if op == OP_DEFINE_GLOBAL {
        height_op_define_global(code, f, m);
    }     else if op == OP_GET_GLOBAL {
        height_op_get_global(code, f, m);
    }     else if op == OP_SET_GLOBAL {
        height_op_set_global(code, f, m);
    }     else if op == OP_GET_LOCAL {
        height_op_get_local(code, f, m);
    }     else if op == OP_SET_LOCAL {
        height_op_set_local(code, f, m);
    }     else if op == OP_JUMP_IF_FALSE {
        height_op_jump_if_false(code, f, m);
    }     else if op == OP_JUMP {
        height_op_jump(code, f, m);
    }     else if op == OP_LOOP {
        height_op_loop(code, f, m);
    }     else if op == OP_CALL {
        height_op_call(code, f, m, clock);
    }     else if op == OP_ARRAY {
        height_op_array(code, f, m);
    }     else if op == OP_INDEX_CALL {
        height_op_index_call(code, f, m);
    }     else if op == OP_INDEX_SET {
        height_op_index_set(code, f, m);
    }     else if op == OP_CLOSURE {
        height_op_closure(code, f, m);
    }     else if op == OP_CLOSE_UPVALUE {
        height_op_close_upvalue(code, f, m);
    }     else if op == OP_GET_UPVALUE {
        height_op_get_upvalue(code, f, m);
    }     else if op == OP_SET_UPVALUE {
        height_op_set_upvalue(code, f, m);
    }     else if op == OP_CLASS {
        height_op_class(code, f, m);
    }     else if op == OP_GET_PROP {
        height_op_get_prop(code, f, m);
    }     else if op == OP_SET_PROP {
        height_op_set_prop(code, f, m);
    }     else if op == OP_METHOD {
        height_op_method(code, f, m);
    }     else if op == OP_INVOKE {
        height_op_invoke(code, f, m, clock);
    }     else if op == OP_INHERIT {
        height_op_inherit(code, f, m);
    }     else if op == OP_SUPER_INVOKE {
        height_op_super_invoke(code, f, m);
    }     else if op == OP_GET_SUPER {
        height_op_get_super(code, f, m);
    }     else if op == OP_JUMP_IF_RANGE_END {
        height_op_jump_if_range_end(code, f, m);
    }     else if op == OP_COUNTUP {
        height_op_countup(code, f, m);
    }     else if op == OP_RANGE {
        height_op_range(code, f, m);
    }
}

/// The machine once it has read the opcode at the instruction pointer.
pub open spec fn fetched(m: Machine) -> Machine {
    m.set_ip((m.frame().ip + 1) as usize)
}

/// What an instruction does to the height of the stack of its call is what
/// the compiler counts on: a step that stays within the call changes the
/// height by the effect of the instruction at the instruction pointer, and
/// goes on behind that instruction or where it jumps.  Where the step asks
/// the host for a value, the effect is reached once the host has answered.
/// A step that starts a call leaves the caller behind the call instruction
/// and gives the callee a frame whose slot 0 is the callee or the receiver,
/// below the arguments.
pub proof fn lemma_step_height(code: Code, m: Machine, clock: Timestamp)
    requires
        m.running(code) matches Some(f) && m.frame().ip < code[f as int].chunk.code@.len()
            && code[f as int].chunk.code@[m.frame().ip as int] != OP_RETURN,
    ensures
        rises(
            m,
            step(code, m, clock),
            effect(code[m.running(code)->Some_0 as int].chunk.code@, m.frame().ip as int),
        ),
        goes(code, m.running(code)->Some_0, fetched(m), step(code, m, clock)),
        lasting(m, step(code, m, clock)),
        fits(m, step(code, m, clock)),
        holds(m, step(code, m, clock)),
        starts(
            m,
            step(code, m, clock),
            code[m.running(code)->Some_0 as int].chunk.code@[m.frame().ip as int],
        ),
        m.stack.len() <= usize::MAX ==> enters(
            code,
            fetched(m),
            step(code, m, clock),
            arguments(code, m.running(code)->Some_0, fetched(m)),
            taken(code[m.running(code)->Some_0 as int].chunk.code@[m.frame().ip as int]),
            m.frame().ip + width(
                code[m.running(code)->Some_0 as int].chunk.code@,
                code[m.running(code)->Some_0 as int].chunk.constants@,
                functions_view(code),
                m.frame().ip as int,
            ),
        ),
{
    reveal(Machine::read_byte);
    let f = m.running(code)->Some_0;
    assert(code[f as int].chunk.code.len() == code[f as int].chunk.code@.len());
    match m.read_byte(code, f) {
        Ok((m1, op)) => {
            height_execute(code, f, m1, op, clock);
        },
        Err(_) => {},
    }
}

/// The place `ip` of function `f` has the height `height`, in some way of
/// giving heights to the code of `f` that makes it level.
pub open spec fn stands(code: Code, f: usize, ip: int, height: int) -> bool {
    exists|marks: Seq<int>, heights: Seq<int>, end: int|
        #![trigger level_code(code[f as int]@.code, marks, heights, end, Set::empty(), Map::empty(), 1 + code[f as int]@.arity)]
        well_cut(
            code[f as int]@.code,
            code[f as int]@.constants,
            functions_view(code),
            marks,
            Set::empty(),
        ) && level_code(
            code[f as int]@.code,
            marks,
            heights,
            end,
            Set::empty(),
            Map::empty(),
            1 + code[f as int]@.arity,
        ) && has_height(marks, heights, end, code[f as int]@.code.len() as int, ip, height)
}

/// The height of the stack above the base of frame `i`: up to the top of
/// the stack for the topmost frame, with `owing` values still to come from
/// the host, and for a frame that waits for a call to return, up to where
/// the result of the call will stand.
pub open spec fn height_of(m: Machine, i: int, owing: int) -> int {
    if i == m.frames.len() - 1 {
        m.stack.len() + owing - m.frames[i].sp
    } else {
        m.frames[i + 1].sp + 1 - m.frames[i].sp
    }
}

/// Frame `i` runs a function at a place that has the height of the stack
/// above the frame's base.
pub open spec fn frame_on_level(code: Code, m: Machine, i: int, owing: int) -> bool {
    let frame = m.frames[i];
    &&& frame.closure < m.closures.len()
    &&& m.closures[frame.closure as int].function < code.len()
    &&& stands(
        code,
        m.closures[frame.closure as int].function,
        frame.ip as int,
        height_of(m, i, owing),
    )
}

/// Every call in progress is on level: the stack has, above the base of
/// each frame, the height that the compiler counted on for the place at
/// which the frame stands.
pub open spec fn on_levels(code: Code, m: Machine, owing: int) -> bool {
    &&& m.stack.len() <= STACK_LEN
    &&& forall|i: int| 0 <= i < m.frames.len() ==> #[trigger] frame_on_level(code, m, i, owing)
}

/// The code of every function can be given heights that make it level.
pub open spec fn leveled(code: Code) -> bool {
    forall|f: usize| f < code.len() ==> #[trigger] stands(code, f, 0, 1 + code[f as int]@.arity)
}

/// A step keeps every call on level: if the code of every function is
/// level and every call in progress stands at a place with the height of
/// its stack, then so it is after the step, whether the step stays within
/// the call, starts a call or returns from one.  After a step that asks the
/// host for a value, the answer is still to come.
pub proof fn lemma_step_keeps_levels(code: Code, m: Machine, clock: Timestamp)
    requires
        leveled(code),
        on_levels(code, m, 0),
    ensures
        step(code, m, clock) matches Ok((after, signal)) ==> !(signal is Done) ==> on_levels(
            code,
            after,
            asks(signal),
        ),
{
    match step(code, m, clock) {
        Ok((after, signal)) => {
            if !(signal is Done) {
                let top = m.frames.len() - 1;
                assert(frame_on_level(code, m, top, 0));
                let f = m.running(code)->Some_0;
                let text = code[f as int].chunk.code@;
                let at = m.frame().ip as int;
                reveal(Machine::read_byte);
                assert(code[f as int].chunk.code.len() == text.len());
                assert(at < text.len());
                if text[at] == OP_RETURN {
                    lemma_return_keeps_levels(code, m, clock);
                } else {
                    lemma_step_height(code, m, clock);
                    let (marks, heights, end) = choose|marks: Seq<int>, heights: Seq<int>, end: int|
                        #![trigger level_code(code[f as int]@.code, marks, heights, end, Set::empty(), Map::empty(), 1 + code[f as int]@.arity)]
                        well_cut(
                            code[f as int]@.code,
                            code[f as int]@.constants,
                            functions_view(code),
                            marks,
                            Set::empty(),
                        ) && level_code(
                            code[f as int]@.code,
                            marks,
                            heights,
                            end,
                            Set::empty(),
                            Map::empty(),
                            1 + code[f as int]@.arity,
                        ) && has_height(
                            marks,
                            heights,
                            end,
                            code[f as int]@.code.len() as int,
                            at,
                            height_of(m, top, 0),
                        );
                    let k = choose|k: int|
                        0 <= k < marks.len() && marks[k] == at && #[trigger] heights[k] == height_of(
                            m,
                            top,
                            0,
                        );
                    assert(level_at(text, marks, heights, end, Set::empty(), Map::empty(), k));
                    assert(cut_at(
                        text,
                        code[f as int].chunk.constants@,
                        functions_view(code),
                        marks,
                        Set::empty(),
                        k,
                    ));
                    assert(is_jump(text[at]) ==> branch(text[at]) == effect(text, at));
                    let next = at + width(
                        text,
                        code[f as int].chunk.constants@,
                        functions_view(code),
                        at,
                    );
                    if k + 1 < marks.len() {
                        assert(heights[k + 1] == heights[k] + effect(text, at) || !falls(text[at]));
                    }
                    assert(falls(text[at]) ==> has_height(
                        marks,
                        heights,
                        end,
                        text.len() as int,
                        next,
                        heights[k] + effect(text, at),
                    ));
                    if after.frames.len() == m.frames.len() {
                        assert(after.closures[m.frame().closure as int] == m.closures[m.frame().closure as int]);
                        assert(has_height(
                            marks,
                            heights,
                            end,
                            text.len() as int,
                            after.frame().ip as int,
                            height_of(after, top, asks(signal)),
                        ));
                        assert(stands(
                            code,
                            f,
                            after.frame().ip as int,
                            height_of(after, top, asks(signal)),
                        ));
                        assert forall|i: int| 0 <= i < after.frames.len() implies #[trigger] frame_on_level(
                            code,
                            after,
                            i,
                            asks(signal),
                        ) by {
                            if i < top {
                                assert(frame_on_level(code, m, i, 0));
                                assert(after.frames[i] == fetched(m).frames[i]);
                                assert(after.closures[m.frames[i].closure as int] == m.closures[m.frames[i].closure as int]);
                            }
                        }
                    } else {
                        assert(after.frames.len() == m.frames.len() + 1);
                        let callee = after.frames.last();
                        let g = after.closures[callee.closure as int].function;
                        assert(stands(code, g, 0, 1 + code[g as int]@.arity));
                        assert(after.closures[m.frame().closure as int] == m.closures[m.frame().closure as int]);
                        assert(falls(text[at]));
                        assert(stands(code, f, next, height_of(after, top, 0)));
                        assert forall|i: int| 0 <= i < after.frames.len() implies #[trigger] frame_on_level(
                            code,
                            after,
                            i,
                            asks(signal),
                        ) by {
                            if i < top {
                                assert(frame_on_level(code, m, i, 0));
                                assert(after.frames[i] == fetched(m).frames[i]);
                                assert(after.closures[m.frames[i].closure as int] == m.closures[m.frames[i].closure as int]);
                            }
                        }
                    }
                }
            }
        },
        Err(_) => {},
    }
}

/// A return keeps every call on level: the caller finds the result where
/// it counted on it.
proof fn lemma_return_keeps_levels(code: Code, m: Machine, clock: Timestamp)
    requires
        on_levels(code, m, 0),
        m.running(code) matches Some(f) && m.frame().ip < code[f as int].chunk.code@.len()
            && code[f as int].chunk.code@[m.frame().ip as int] == OP_RETURN,
    ensures
        step(code, m, clock) matches Ok((after, signal)) ==> !(signal is Done) ==> on_levels(
            code,
            after,
            asks(signal),
        ),
{
    reveal(Machine::read_byte);
    let f = m.running(code)->Some_0;
    assert(code[f as int].chunk.code.len() == code[f as int].chunk.code@.len());
    let m1 = fetched(m);
    lemma_return_height(m1);
    match op_return(m1) {
        Ok((after, signal)) => {
            if !(signal is Done) {
                let top = m.frames.len() - 1;
                assert forall|i: int| 0 <= i < after.frames.len() implies #[trigger] frame_on_level(
                    code,
                    after,
                    i,
                    asks(signal),
                ) by {
                    assert(frame_on_level(code, m, i, 0));
                    assert(after.frames[i] == m.frames[i]);
                    if i < after.frames.len() - 1 {
                        assert(after.frames[i + 1] == m.frames[i + 1]);
                    } else {
                        assert(m1.frames[i + 1].sp == m.frames[i + 1].sp);
                    }
                }
            }
        },
        Err(_) => {},
    }
}

/// Every call is on level for as long as the machine goes on: what holds
/// before a run of steps holds after it.
pub proof fn lemma_run_keeps_levels(code: Code, from: Machine, to: Machine, count: nat)
    requires
        leveled(code),
        on_levels(code, from, 0),
        reaches(code, from, to, count),
    ensures
        on_levels(code, to, 0),
    decreases count,
{
    if count > 0 {
        let (mid, clock) = choose|mid: Machine, clock: Timestamp|
            reaches(code, from, mid, (count - 1) as nat) && #[trigger] step(code, mid, clock)
                == Ok::<_, Fault>((to, Signal::Continue));
        lemma_run_keeps_levels(code, from, mid, (count - 1) as nat);
        lemma_step_keeps_levels(code, mid, clock);
    }
}

/// The answer of the host keeps every call on level: it is the value that
/// was still to come.
pub proof fn lemma_answer_keeps_levels(
    code: Code,
    m: Machine,
    bits: u64,
    truth: bool,
    text: Seq<char>,
)
    requires
        on_levels(code, m, 1),
    ensures
        resume_float(m, bits) matches Ok((after, _)) ==> on_levels(code, after, 0),
        resume_bool(m, truth) matches Ok((after, _)) ==> on_levels(code, after, 0),
        resume_text(m, text) matches Ok((after, _)) ==> on_levels(code, after, 0),
{
    lemma_answer_height(m, bits, truth, text);
    match resume_float(m, bits) {
        Ok((after, _)) => {
            assert forall|i: int| 0 <= i < after.frames.len() implies #[trigger] frame_on_level(
                code,
                after,
                i,
                0,
            ) by {
                assert(frame_on_level(code, m, i, 1));
            }
        },
        Err(_) => {},
    }
    match resume_bool(m, truth) {
        Ok((after, _)) => {
            assert forall|i: int| 0 <= i < after.frames.len() implies #[trigger] frame_on_level(
                code,
                after,
                i,
                0,
            ) by {
                assert(frame_on_level(code, m, i, 1));
            }
        },
        Err(_) => {},
    }
    match resume_text(m, text) {
        Ok((after, _)) => {
            assert forall|i: int| 0 <= i < after.frames.len() implies #[trigger] frame_on_level(
                code,
                after,
                i,
                0,
            ) by {
                assert(frame_on_level(code, m, i, 1));
            }
        },
        Err(_) => {},
    }
}

/// A machine that is about to run a script whose functions have level code
/// has its one call on level, before and after the built-in functions are
/// bound.
pub proof fn lemma_boot_on_levels(code: Code, strings: Seq<Seq<char>>, main: usize)
    requires
        leveled(code),
        main < code.len(),
        code[main as int]@.arity == 0,
    ensures
        on_levels(code, Machine::boot(strings, main), 0),
        on_levels(code, Machine::boot(strings, main).with_natives(), 0),
{
    let m = Machine::boot(strings, main);
    assert(stands(code, main, 0, 1 + code[main as int]@.arity));
    assert(frame_on_level(code, m, 0, 0));
    assert(frame_on_level(code, m.with_natives(), 0, 0));
}

/// The functions of a compiled plain script have level code, and the
/// machine that is about to run the script has its one call on level: with
/// `lemma_step_keeps_levels` and `lemma_answer_keeps_levels`, every call is
/// on level for as long as the script runs.
pub proof fn lemma_plain_script_runs_level(
    stmts: Seq<StatementNode>,
    code: Code,
    strings: Seq<Seq<char>>,
)
    requires
        plain_stmts(stmts, 0, true),
        code.len() <= usize::MAX,
        compiled(stmts) matches Ok(script) && script.functions == functions_view(code),
    ensures
        leveled(code),
        compiled(stmts) matches Ok(script) && on_levels(
            code,
            Machine::boot(strings, script.main as usize).with_natives(),
            0,
        ),
{
    lemma_stack_discipline(stmts);
    let script = compiled(stmts)->Ok_0;
    assert(script.functions.len() == code.len());
    assert(script.functions[script.main] == code[script.main]@);
    assert forall|g: usize| g < code.len() implies #[trigger] stands(
        code,
        g,
        0,
        1 + code[g as int]@.arity,
    ) by {
        let f = g as int;
        assert(has_levels(script.functions[f], script.functions));
        assert(script.functions[f] == code[f]@);
        let (marks, heights, end) = choose|marks: Seq<int>, heights: Seq<int>, end: int|
            #![trigger level_code(script.functions[f].code, marks, heights, end, Set::empty(), Map::empty(), 1 + script.functions[f].arity)]
            well_cut(
                script.functions[f].code,
                script.functions[f].constants,
                script.functions,
                marks,
                Set::empty(),
            ) && level_code(
                script.functions[f].code,
                marks,
                heights,
                end,
                Set::empty(),
                Map::empty(),
                1 + script.functions[f].arity,
            );
        assert(has_height(
            marks,
            heights,
            end,
            code[f]@.code.len() as int,
            0,
            1 + code[f]@.arity,
        ));
    }
    lemma_boot_on_levels(code, strings, script.main as usize);
}

/// The answer of the host is the value that the step had still to push.
pub proof fn lemma_answer_height(m: Machine, bits: u64, truth: bool, text: Seq<char>)
    ensures
        resume_float(m, bits) matches Ok((after, _)) ==> after.frames == m.frames
            && after.closures == m.closures && after.stack.len() == m.stack.len() + 1
            && after.stack.len() <= STACK_LEN,
        resume_bool(m, truth) matches Ok((after, _)) ==> after.frames == m.frames
            && after.closures == m.closures && after.stack.len() == m.stack.len() + 1
            && after.stack.len() <= STACK_LEN,
        resume_text(m, text) matches Ok((after, _)) ==> after.frames == m.frames
            && after.closures == m.closures && after.stack.len() == m.stack.len() + 1
            && after.stack.len() <= STACK_LEN,
{
    reveal(resume_float);
    reveal(resume_bool);
    reveal(resume_text);
    reveal(Machine::push);
    reveal(Machine::alloc_string);
}

/// A return takes the frame of the callee away and leaves the result where
/// the callee stood: for the caller the call has replaced the callee and its
/// arguments by one value.
pub proof fn lemma_return_height(m: Machine)
    ensures
        op_return(m) matches Ok((after, signal)) ==> after.frames == m.frames.drop_last()
            && after.closures == m.closures && (signal == Signal::Continue ==> after.stack.len()
            == m.frame().sp + 1 && after.stack.len() <= STACK_LEN),
        op_return(m) matches Ok((_, signal)) ==> signal == Signal::Continue || signal is Done,
{
    reveal(op_return);
    reveal(Machine::push);
    reveal(Machine::pop);
    reveal(Machine::drop);
    match m.pop() {
        Ok((m1, result)) => {
            if m1.frames.len() > 0 {
                lemma_close_keeps_cells(
                    Machine { frames: m1.frames.drop_last(), ..m1 },
                    m1.frame().sp,
                );
            }
        },
        Err(_) => {},
    }
}

} // verus!
