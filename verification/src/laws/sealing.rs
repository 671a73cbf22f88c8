//! No closed upvalue cell ever opens again.
use vstd::prelude::*;
use crate::vm::arith::{
    concat, deliver, numeric, op_add, op_binary, op_compare, op_equal, op_negative, op_not,
    op_print, resume_bool, resume_float, resume_text,
};
use crate::vm::basic::{
    op_array, op_constant, op_countup, op_define_global, op_get_global, op_get_local,
    op_index_call, op_index_set, op_jump, op_jump_if_false, op_jump_if_range_end, op_literal,
    op_loop, op_pop, op_range, op_set_global, op_set_local,
};
use crate::vm::calls::{
    call_bound, call_value, capture_all, enter, instantiate, invoke_from_class, op_call,
    op_close_upvalue, op_closure, op_get_upvalue, op_invoke, op_return, op_set_upvalue,
    op_super_invoke,
};
use crate::vm::machine::{Code, FloatOp, Machine, PieceView};
use crate::vm::natives::{call_native, native};
use crate::vm::objects::{
    bind, op_class, op_get_prop, op_get_super, op_inherit, op_method, op_set_prop,
};
use crate::vm::ordering::Order;
use crate::vm::step::{execute, step};
use crate::vm::value::{NativeFunction, Timestamp, Value};
use super::cells::lemma_close_keeps_cells;

verus! {

/// Every cell of `before` is a cell of `after`, and those that are closed in
/// `before` are closed in `after`.
pub open spec fn sealed(before: Machine, after: Machine) -> bool {
    &&& before.upvalues.len() <= after.upvalues.len()
    &&& forall|h: int|
        0 <= h < before.upvalues.len() && !(#[trigger] before.upvalues[h]).is_open()
            ==> !after.upvalues[h].is_open()
}

proof fn seals_close(m: Machine, from_slot: usize)
    ensures
        sealed(m, m.close_upvalues(from_slot)),
        m.close_upvalues(from_slot).stack == m.stack,
        m.close_upvalues(from_slot).frames == m.frames,
{
    lemma_close_keeps_cells(m, from_slot);
}

proof fn seals_capture(m: Machine, slot: usize)
    ensures
        sealed(m, m.capture(slot).0),
        m.capture(slot).0.frames == m.frames,
        m.capture(slot).0.closures == m.closures,
{
    reveal(Machine::capture);
}

proof fn seals_capture_all(code: Code, f: usize, m: Machine, count: int, cells: Seq<usize>)
    ensures
        capture_all(code, f, m, count, cells) matches Ok((after, _)) ==> sealed(m, after),
    decreases count - cells.len(),
{
    reveal(Machine::push);
    reveal(Machine::read_byte);
    if cells.len() < count {
        match m.read_byte(code, f) {
            Err(_) => {},
            Ok((m1, is_local)) => match m1.read_byte(code, f) {
                Err(_) => {},
                Ok((m2, index)) => {
                    if is_local == 1 {
                        if !(m2.frames.len() == 0 || m2.frame().sp + index > usize::MAX) {
                            let (m3, cell) = m2.capture((m2.frame().sp + index) as usize);
                            seals_capture(m2, (m2.frame().sp + index) as usize);
                            seals_capture_all(code, f, m3, count, cells.push(cell));
                        }
                    } else {
                        match crate::vm::calls::cell_of(m2, index as int) {
                            Err(_) => {},
                            Ok(cell) => {
                                seals_capture_all(code, f, m2, count, cells.push(cell));
                            },
                        }
                    }
                },
            },
        }
    }
}

proof fn seals_numeric(m: Machine, op: FloatOp, a: Value, b: Value)
    ensures
        numeric(m, op, a, b) matches Ok((after, _)) ==> sealed(m, after),
{
    reveal(numeric);
    reveal(Machine::push);
}

proof fn seals_deliver(m: Machine, pieces: Seq<PieceView>)
    ensures
        deliver(m, pieces) matches Ok((after, _)) ==> sealed(m, after),
{
    reveal(deliver);
    reveal(Machine::push);
    reveal(Machine::alloc_string);
}

proof fn seals_concat(code: Code, m: Machine, a: Value, b: Value)
    ensures
        concat(code, m, a, b) matches Ok((after, _)) ==> sealed(m, after),
{
    reveal(concat);
    reveal(Machine::push);
    seals_deliver(
        m,
        m.render(code, a, crate::vm::render::RENDER_DEPTH as nat) + m.render(
            code,
            b,
            crate::vm::render::RENDER_DEPTH as nat,
        ),
    );
}

proof fn seals_bind(m: Machine, class: usize, text: Seq<char>)
    ensures
        bind(m, class, text) matches Ok((after, _)) ==> sealed(m, after),
{
    reveal(bind);
    reveal(Machine::push);
    reveal(Machine::set_slot);
    reveal(Machine::alloc_bound);
}

proof fn seals_enter(code: Code, m: Machine, closure: usize, argc: int)
    ensures
        enter(code, m, closure, argc) matches Ok(after) ==> sealed(m, after),
{
    reveal(enter);
    reveal(Machine::push);
    reveal(Machine::push_frame);
}

proof fn seals_native(
    code: Code,
    m: Machine,
    function: NativeFunction,
    args: Seq<Value>,
    clock: Timestamp,
)
    ensures
        native(code, m, function, args, clock) matches Ok((after, _)) ==> sealed(m, after),
{
    reveal(native);
    reveal(Machine::push);
    reveal(Machine::alloc_array);
    if args.len() == 1 {
        seals_deliver(m, m.render(code, args[0], crate::vm::render::RENDER_DEPTH as nat));
    }
}

proof fn seals_call_native(
    code: Code,
    m: Machine,
    function: NativeFunction,
    argc: int,
    clock: Timestamp,
)
    ensures
        call_native(code, m, function, argc, clock) matches Ok((after, _)) ==> sealed(m, after),
{
    reveal(call_native);
    reveal(Machine::drop);
    match m.drop(argc + 1) {
        Ok(m1) => {
            seals_native(code, m1, function, m.stack.skip(m.stack.len() - argc), clock);
        },
        Err(_) => {},
    }
}

proof fn seals_instantiate(code: Code, m: Machine, callee: Value, argc: int)
    ensures
        instantiate(code, m, callee, argc) matches Ok((after, _)) ==> sealed(m, after),
{
    reveal(instantiate);
    reveal(Machine::push);
    reveal(Machine::set_slot);
    reveal(Machine::alloc_instance);
    match m.class(callee) {
        Ok(class) => {
            let (m1, instance) = m.alloc_instance(class);
            match m1.set_slot(m.stack.len() - argc - 1, instance) {
                Ok(m2) => {
                    match m2.method_called(class, "init"@) {
                        Some(Value::Closure(init)) => {
                            seals_enter(code, m2, init, argc);
                        },
                        _ => {},
                    }
                },
                Err(_) => {},
            }
        },
        Err(_) => {},
    }
}

proof fn seals_call_bound(code: Code, m: Machine, handle: usize, argc: int)
    ensures
        call_bound(code, m, handle, argc) matches Ok((after, _)) ==> sealed(m, after),
{
    reveal(call_bound);
    reveal(Machine::set_slot);
    if handle < m.bound_methods.len() {
        match m.set_slot(m.stack.len() - argc - 1, m.bound_methods[handle as int].reciever) {
            Ok(m1) => {
                seals_enter(code, m1, m.bound_methods[handle as int].method, argc);
            },
            Err(_) => {},
        }
    }
}

proof fn seals_call_value(code: Code, m: Machine, callee: Value, argc: int, clock: Timestamp)
    ensures
        call_value(code, m, callee, argc, clock) matches Ok((after, _)) ==> sealed(m, after),
{
    reveal(call_value);
    match callee {
        Value::Closure(handle) => {
            seals_enter(code, m, handle, argc);
        },
        Value::Native(function) => {
            seals_call_native(code, m, function, argc, clock);
        },
        Value::Class(_) => {
            seals_instantiate(code, m, callee, argc);
        },
        Value::BoundMethod(handle) => {
            seals_call_bound(code, m, handle, argc);
        },
        _ => {},
    }
}

proof fn seals_invoke_from_class(code: Code, m: Machine, class: usize, text: Seq<char>, argc: int)
    ensures
        invoke_from_class(code, m, class, text, argc) matches Ok((after, _)) ==> sealed(m, after),
{
    reveal(invoke_from_class);
    match m.method_called(class, text) {
        Some(Value::Closure(method)) => {
            seals_enter(code, m, method, argc);
        },
        _ => {},
    }
}

proof fn seals_op_constant(code: Code, f: usize, m: Machine)
    ensures
        op_constant(code, f, m) matches Ok((after, _)) ==> sealed(m, after),
{
    reveal(op_constant);
    reveal(Machine::push);
    reveal(Machine::read_byte);
    reveal(Machine::read_constant);
}

proof fn seals_op_define_global(code: Code, f: usize, m: Machine)
    ensures
        op_define_global(code, f, m) matches Ok((after, _)) ==> sealed(m, after),
{
    reveal(op_define_global);
    reveal(Machine::pop);
    reveal(Machine::read_byte);
    reveal(Machine::read_constant);
    reveal(Machine::read_string);
    reveal(Machine::define_global);
}

proof fn seals_op_get_global(code: Code, f: usize, m: Machine)
    ensures
        op_get_global(code, f, m) matches Ok((after, _)) ==> sealed(m, after),
{
    reveal(op_get_global);
    reveal(Machine::push);
    reveal(Machine::read_byte);
    reveal(Machine::read_constant);
    reveal(Machine::read_string);
}

proof fn seals_op_set_global(code: Code, f: usize, m: Machine)
    ensures
        op_set_global(code, f, m) matches Ok((after, _)) ==> sealed(m, after),
{
    reveal(op_set_global);
    reveal(Machine::read_byte);
    reveal(Machine::read_constant);
    reveal(Machine::read_string);
    reveal(Machine::define_global);
}

proof fn seals_op_get_local(code: Code, f: usize, m: Machine)
    ensures
        op_get_local(code, f, m) matches Ok((after, _)) ==> sealed(m, after),
{
    reveal(op_get_local);
    reveal(Machine::push);
    reveal(Machine::read_byte);
}

proof fn seals_op_set_local(code: Code, f: usize, m: Machine)
    ensures
        op_set_local(code, f, m) matches Ok((after, _)) ==> sealed(m, after),
{
    reveal(op_set_local);
    reveal(Machine::set_slot);
    reveal(Machine::read_byte);
}

proof fn seals_op_countup(code: Code, f: usize, m: Machine)
    ensures
        op_countup(code, f, m) matches Ok((after, _)) ==> sealed(m, after),
{
    reveal(op_countup);
    reveal(Machine::set_slot);
    reveal(Machine::read_byte);
}

proof fn seals_op_jump_if_false(code: Code, f: usize, m: Machine)
    ensures
        op_jump_if_false(code, f, m) matches Ok((after, _)) ==> sealed(m, after),
{
    reveal(op_jump_if_false);
    reveal(Machine::read_byte);
    reveal(Machine::read_jump);
    reveal(Machine::jump);
}

proof fn seals_op_jump(code: Code, f: usize, m: Machine)
    ensures
        op_jump(code, f, m) matches Ok((after, _)) ==> sealed(m, after),
{
    reveal(op_jump);
    reveal(Machine::read_byte);
    reveal(Machine::read_jump);
    reveal(Machine::jump);
}

proof fn seals_op_loop(code: Code, f: usize, m: Machine)
    ensures
        op_loop(code, f, m) matches Ok((after, _)) ==> sealed(m, after),
{
    reveal(op_loop);
    reveal(Machine::read_byte);
    reveal(Machine::read_jump);
    reveal(Machine::jump);
}

proof fn seals_op_jump_if_range_end(code: Code, f: usize, m: Machine)
    ensures
        op_jump_if_range_end(code, f, m) matches Ok((after, _)) ==> sealed(m, after),
{
    reveal(op_jump_if_range_end);
    reveal(Machine::push);
    reveal(Machine::pop);
    reveal(Machine::read_byte);
    reveal(Machine::read_jump);
    reveal(Machine::jump);
}

proof fn seals_op_array(code: Code, f: usize, m: Machine)
    ensures
        op_array(code, f, m) matches Ok((after, _)) ==> sealed(m, after),
{
    reveal(op_array);
    reveal(Machine::push);
    reveal(Machine::drop);
    reveal(Machine::read_byte);
    reveal(Machine::alloc_array);
}

proof fn seals_op_class(code: Code, f: usize, m: Machine)
    ensures
        op_class(code, f, m) matches Ok((after, _)) ==> sealed(m, after),
{
    reveal(op_class);
    reveal(Machine::push);
    reveal(Machine::read_byte);
    reveal(Machine::read_constant);
    reveal(Machine::read_string);
    reveal(Machine::alloc_class);
}

proof fn seals_op_set_prop(code: Code, f: usize, m: Machine)
    ensures
        op_set_prop(code, f, m) matches Ok((after, _)) ==> sealed(m, after),
{
    reveal(op_set_prop);
    reveal(Machine::push);
    reveal(Machine::drop);
    reveal(Machine::read_byte);
    reveal(Machine::read_constant);
    reveal(Machine::read_string);
    reveal(Machine::set_field);
}

proof fn seals_op_method(code: Code, f: usize, m: Machine)
    ensures
        op_method(code, f, m) matches Ok((after, _)) ==> sealed(m, after),
{
    reveal(op_method);
    reveal(Machine::drop);
    reveal(Machine::read_byte);
    reveal(Machine::read_constant);
    reveal(Machine::read_string);
    reveal(Machine::set_method);
}

proof fn seals_op_get_upvalue(code: Code, f: usize, m: Machine)
    ensures
        op_get_upvalue(code, f, m) matches Ok((after, _)) ==> sealed(m, after),
{
    reveal(op_get_upvalue);
    reveal(Machine::push);
    reveal(Machine::read_byte);
}

proof fn seals_op_set_upvalue(code: Code, f: usize, m: Machine)
    ensures
        op_set_upvalue(code, f, m) matches Ok((after, _)) ==> sealed(m, after),
{
    reveal(op_set_upvalue);
    reveal(Machine::set_slot);
    reveal(Machine::read_byte);
    reveal(Machine::write_cell);
}

proof fn seals_op_pop(m: Machine)
    ensures
        op_pop(m) matches Ok((after, _)) ==> sealed(m, after),
{
    reveal(op_pop);
    reveal(Machine::drop);
}

proof fn seals_op_index_call(m: Machine)
    ensures
        op_index_call(m) matches Ok((after, _)) ==> sealed(m, after),
{
    reveal(op_index_call);
    reveal(Machine::push);
    reveal(Machine::pop);
}

proof fn seals_op_index_set(m: Machine)
    ensures
        op_index_set(m) matches Ok((after, _)) ==> sealed(m, after),
{
    reveal(op_index_set);
    reveal(Machine::pop);
    reveal(Machine::set_item);
}

proof fn seals_op_range(m: Machine)
    ensures
        op_range(m) matches Ok((after, _)) ==> sealed(m, after),
{
    reveal(op_range);
    reveal(Machine::push);
    reveal(Machine::pop);
    reveal(Machine::alloc_array);
}

proof fn seals_op_negative(m: Machine)
    ensures
        op_negative(m) matches Ok((after, _)) ==> sealed(m, after),
{
    reveal(op_negative);
    reveal(Machine::push);
    reveal(Machine::pop);
}

proof fn seals_op_not(m: Machine)
    ensures
        op_not(m) matches Ok((after, _)) ==> sealed(m, after),
{
    reveal(op_not);
    reveal(Machine::push);
    reveal(Machine::pop);
}

proof fn seals_op_inherit(m: Machine)
    ensures
        op_inherit(m) matches Ok((after, _)) ==> sealed(m, after),
{
    reveal(op_inherit);
    reveal(Machine::drop);
    reveal(Machine::inherit);
}

proof fn seals_op_literal(m: Machine, value: Value)
    ensures
        op_literal(m, value) matches Ok((after, _)) ==> sealed(m, after),
{
    reveal(op_literal);
    reveal(Machine::push);
}

proof fn seals_op_compare(code: Code, m: Machine, want: Order)
    ensures
        op_compare(code, m, want) matches Ok((after, _)) ==> sealed(m, after),
{
    reveal(op_compare);
    reveal(Machine::push);
    reveal(Machine::pop);
}

proof fn seals_op_equal(code: Code, m: Machine)
    ensures
        op_equal(code, m) matches Ok((after, _)) ==> sealed(m, after),
{
    reveal(op_equal);
    reveal(Machine::push);
    reveal(Machine::pop);
}

proof fn seals_op_print(code: Code, m: Machine)
    ensures
        op_print(code, m) matches Ok((after, _)) ==> sealed(m, after),
{
    reveal(op_print);
    reveal(Machine::push);
    reveal(Machine::pop);
}

proof fn seals_op_binary(m: Machine, op: FloatOp)
    ensures
        op_binary(m, op) matches Ok((after, _)) ==> sealed(m, after),
{
    reveal(op_binary);
    reveal(Machine::pop);
    match m.pop() {
        Ok((m1, b)) => match m1.pop() {
            Ok((m2, a)) => {
                seals_numeric(m2, op, a, b);
            },
            Err(_) => {},
        },
        Err(_) => {},
    }
}

proof fn seals_op_add(code: Code, m: Machine)
    ensures
        op_add(code, m) matches Ok((after, _)) ==> sealed(m, after),
{
    reveal(op_add);
    reveal(Machine::pop);
    match m.pop() {
        Ok((m1, b)) => match m1.pop() {
            Ok((m2, a)) => {
                seals_numeric(m2, FloatOp::Add, a, b);
                seals_concat(code, m2, a, b);
            },
            Err(_) => {},
        },
        Err(_) => {},
    }
}

proof fn seals_op_get_prop(code: Code, f: usize, m: Machine)
    ensures
        op_get_prop(code, f, m) matches Ok((after, _)) ==> sealed(m, after),
{
    reveal(op_get_prop);
    reveal(Machine::set_slot);
    reveal(Machine::read_byte);
    reveal(Machine::read_constant);
    reveal(Machine::read_string);
    match m.read_string(code, f) {
        Ok((m1, name)) => match m.peek(0) {
            Ok(receiver) => match m1.instance(receiver) {
                Ok(instance) => {
                    seals_bind(m1, m1.instances[instance as int].class, m1.strings[name as int]);
                },
                Err(_) => {},
            },
            Err(_) => {},
        },
        Err(_) => {},
    }
}

proof fn seals_op_get_super(code: Code, f: usize, m: Machine)
    ensures
        op_get_super(code, f, m) matches Ok((after, _)) ==> sealed(m, after),
{
    reveal(op_get_super);
    reveal(Machine::pop);
    reveal(Machine::read_byte);
    reveal(Machine::read_constant);
    reveal(Machine::read_string);
    match m.pop() {
        Ok((m1, above)) => match m1.read_string(code, f) {
            Ok((m2, name)) => match m2.class(above) {
                Ok(class) => {
                    seals_bind(m2, class, m2.strings[name as int]);
                },
                Err(_) => {},
            },
            Err(_) => {},
        },
        Err(_) => {},
    }
}

proof fn seals_op_call(code: Code, f: usize, m: Machine, clock: Timestamp)
    ensures
        op_call(code, f, m, clock) matches Ok((after, _)) ==> sealed(m, after),
{
    reveal(op_call);
    reveal(Machine::read_byte);
    match m.read_byte(code, f) {
        Ok((m1, argc)) => match m1.peek(argc as int) {
            Ok(callee) => {
                seals_call_value(code, m1, callee, argc as int, clock);
            },
            Err(_) => {},
        },
        Err(_) => {},
    }
}

proof fn seals_op_invoke(code: Code, f: usize, m: Machine, clock: Timestamp)
    ensures
        op_invoke(code, f, m, clock) matches Ok((after, _)) ==> sealed(m, after),
{
    reveal(op_invoke);
    reveal(Machine::set_slot);
    reveal(Machine::read_byte);
    reveal(Machine::read_constant);
    reveal(Machine::read_string);
    match m.read_string(code, f) {
        Ok((m1, name)) => match m1.read_byte(code, f) {
            Ok((m2, argc)) => match m2.peek(argc as int) {
                Ok(receiver) => match m2.instance(receiver) {
                    Ok(instance) => match m2.field(instance, name) {
                        Some(field) => match m2.set_slot(m2.stack.len() - argc - 1, field) {
                            Ok(m3) => {
                                seals_call_value(code, m3, field, argc as int, clock);
                            },
                            Err(_) => {},
                        },
                        None => {
                            seals_invoke_from_class(
                                code,
                                m2,
                                m2.instances[instance as int].class,
                                m2.strings[name as int],
                                argc as int,
                            );
                        },
                    },
                    Err(_) => {},
                },
                Err(_) => {},
            },
            Err(_) => {},
        },
        Err(_) => {},
    }
}

proof fn seals_op_super_invoke(code: Code, f: usize, m: Machine)
    ensures
        op_super_invoke(code, f, m) matches Ok((after, _)) ==> sealed(m, after),
{
    reveal(op_super_invoke);
    reveal(Machine::pop);
    reveal(Machine::read_byte);
    reveal(Machine::read_constant);
    reveal(Machine::read_string);
    match m.read_string(code, f) {
        Ok((m1, name)) => match m1.read_byte(code, f) {
            Ok((m2, argc)) => match m2.pop() {
                Ok((m3, above)) => match m3.class(above) {
                    Ok(class) => {
                        seals_invoke_from_class(
                            code,
                            m3,
                            class,
                            m3.strings[name as int],
                            argc as int,
                        );
                    },
                    Err(_) => {},
                },
                Err(_) => {},
            },
            Err(_) => {},
        },
        Err(_) => {},
    }
}

proof fn seals_op_return(m: Machine)
    ensures
        op_return(m) matches Ok((after, _)) ==> sealed(m, after),
{
    reveal(op_return);
    reveal(Machine::push);
    reveal(Machine::pop);
    reveal(Machine::drop);
    match m.pop() {
        Ok((m1, result)) => {
            if m1.frames.len() > 0 {
                seals_close(Machine { frames: m1.frames.drop_last(), ..m1 }, m1.frame().sp);
            }
        },
        Err(_) => {},
    }
}

proof fn seals_op_close_upvalue(m: Machine)
    ensures
        op_close_upvalue(m) matches Ok((after, _)) ==> sealed(m, after),
{
    reveal(op_close_upvalue);
    reveal(Machine::drop);
    if m.stack.len() > 0 {
        seals_close(m, (m.stack.len() - 1) as usize);
    }
}

proof fn seals_op_closure(code: Code, f: usize, m: Machine)
    ensures
        op_closure(code, f, m) matches Ok((after, _)) ==> sealed(m, after),
{
    reveal(op_closure);
    reveal(Machine::push);
    reveal(Machine::read_byte);
    reveal(Machine::read_constant);
    reveal(Machine::alloc_closure);
    match m.read_constant(code, f) {
        Ok((m1, Value::Function(function))) => {
            if function < code.len() {
                seals_capture_all(
                    code,
                    f,
                    m1,
                    code[function as int].upvalue_count as int,
                    Seq::empty(),
                );
            }
        },
        _ => {},
    }
}

proof fn seals_execute(code: Code, f: usize, m: Machine, op: u8, clock: Timestamp)
    ensures
        execute(code, f, m, op, clock) matches Ok((after, _)) ==> sealed(m, after),
{
    seals_op_return(m);
    seals_op_constant(code, f, m);
    seals_op_negative(m);
    seals_op_add(code, m);
    seals_op_binary(m, FloatOp::Subtract);
    seals_op_binary(m, FloatOp::Multiply);
    seals_op_binary(m, FloatOp::Divide);
    seals_op_binary(m, FloatOp::Remainder);
    seals_op_binary(m, FloatOp::Power);
    seals_op_literal(m, Value::Null);
    seals_op_literal(m, Value::Boolean(true));
    seals_op_literal(m, Value::Boolean(false));
    seals_op_literal(m, Value::Integer(0));
    seals_op_not(m);
    seals_op_compare(code, m, Order::Greater);
    seals_op_compare(code, m, Order::Less);
    seals_op_equal(code, m);
    seals_op_print(code, m);
    seals_op_pop(m);
    seals_op_define_global(code, f, m);
    seals_op_get_global(code, f, m);
    seals_op_set_global(code, f, m);
    seals_op_get_local(code, f, m);
    seals_op_set_local(code, f, m);
    seals_op_jump_if_false(code, f, m);
    seals_op_jump(code, f, m);
    seals_op_loop(code, f, m);
    seals_op_call(code, f, m, clock);
    seals_op_array(code, f, m);
    seals_op_index_call(m);
    seals_op_index_set(m);
    seals_op_closure(code, f, m);
    seals_op_close_upvalue(m);
    seals_op_get_upvalue(code, f, m);
    seals_op_set_upvalue(code, f, m);
    seals_op_class(code, f, m);
    seals_op_get_prop(code, f, m);
    seals_op_set_prop(code, f, m);
    seals_op_method(code, f, m);
    seals_op_invoke(code, f, m, clock);
    seals_op_inherit(m);
    seals_op_super_invoke(code, f, m);
    seals_op_get_super(code, f, m);
    seals_op_jump_if_range_end(code, f, m);
    seals_op_countup(code, f, m);
    seals_op_range(m);
}

/// An upvalue cell is closed at most once: whatever step the machine takes,
/// the cells that were closed before it are closed after it.
pub proof fn lemma_step_seals(code: Code, m: Machine, clock: Timestamp)
    ensures
        step(code, m, clock) matches Ok((after, _)) ==> sealed(m, after),
{
    reveal(Machine::read_byte);
    if m.frames.len() > 0 {
        match m.running(code) {
            Some(f) => match m.read_byte(code, f) {
                Ok((m1, op)) => {
                    seals_execute(code, f, m1, op, clock);
                },
                Err(_) => {},
            },
            None => {},
        }
    }
}

/// Nor does an answer of the host open a closed cell.
pub proof fn lemma_resume_seals(m: Machine, bits: u64, truth: bool, text: Seq<char>)
    ensures
        resume_float(m, bits) matches Ok((after, _)) ==> sealed(m, after),
        resume_bool(m, truth) matches Ok((after, _)) ==> sealed(m, after),
        resume_text(m, text) matches Ok((after, _)) ==> sealed(m, after),
{
    reveal(resume_float);
    reveal(resume_bool);
    reveal(resume_text);
    reveal(Machine::push);
    reveal(Machine::alloc_string);
}

} // verus!
