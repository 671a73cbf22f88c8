//! One step of the machine: fetch, decode, dispatch.
use vstd::prelude::*;
use super::arith::{op_add, op_binary, op_compare, op_equal, op_negative, op_not, op_print};
use super::basic::{
    op_array, op_constant, op_countup, op_define_global, op_get_global, op_get_local, op_index_call,
    op_index_set, op_jump, op_jump_if_false, op_jump_if_range_end, op_literal, op_loop, op_pop,
    op_range, op_set_global, op_set_local,
};
use super::calls::{
    op_call, op_close_upvalue, op_closure, op_get_upvalue, op_invoke, op_return, op_set_upvalue,
    op_super_invoke,
};
use super::chunk::{
    OP_ADD, OP_ARRAY, OP_CALL, OP_CLASS, OP_CLOSE_UPVALUE, OP_CLOSURE, OP_CONSTANT, OP_CONSTANT0,
    OP_COUNTUP, OP_DEFINE_GLOBAL, OP_DIVIDE, OP_EQUAL, OP_FALSE, OP_GET_GLOBAL, OP_GET_LOCAL,
    OP_GET_PROP, OP_GET_SUPER, OP_GET_UPVALUE, OP_GREATER, OP_INDEX_CALL, OP_INDEX_SET, OP_INHERIT,
    OP_INVOKE, OP_JUMP, OP_JUMP_IF_FALSE, OP_JUMP_IF_RANGE_END, OP_LESS, OP_LOOP, OP_METHOD,
    OP_MULTIPLY, OP_NEGATIVE, OP_NOT, OP_NULL, OP_POP, OP_POW, OP_PRINT, OP_RANGE, OP_REM,
    OP_RETURN, OP_SET_GLOBAL, OP_SET_LOCAL, OP_SET_PROP, OP_SET_UPVALUE, OP_SUBTRACT,
    OP_SUPER_INVOKE, OP_TRUE,
};
use super::machine::{Code, Fault, FloatOp, Machine, Outcome, Pending, Signal, Step};
use super::objects::{op_class, op_get_prop, op_get_super, op_inherit, op_method, op_set_prop};
use super::ordering::Order;
use super::state::State;
use super::value::{Timestamp, Value};
use crate::compiler::object::FunctionObject;

verus! {

/// What the instruction with opcode `op` does, its opcode already read, in
/// the function `f`.  `clock` is what the clock reads if the instruction
/// looks at it.  An unknown opcode ends execution.
pub open spec fn execute(code: Code, f: usize, m: Machine, op: u8, clock: Timestamp) -> Step {
    if op == OP_RETURN {
        op_return(m)
    } else if op == OP_CONSTANT {
        op_constant(code, f, m)
    } else if op == OP_NEGATIVE {
        op_negative(m)
    } else if op == OP_ADD {
        op_add(code, m)
    } else if op == OP_SUBTRACT {
        op_binary(m, FloatOp::Subtract)
    } else if op == OP_MULTIPLY {
        op_binary(m, FloatOp::Multiply)
    } else if op == OP_DIVIDE {
        op_binary(m, FloatOp::Divide)
    } else if op == OP_REM {
        op_binary(m, FloatOp::Remainder)
    } else if op == OP_POW {
        op_binary(m, FloatOp::Power)
    } else if op == OP_NULL {
        op_literal(m, Value::Null)
    } else if op == OP_TRUE {
        op_literal(m, Value::Boolean(true))
    } else if op == OP_FALSE {
        op_literal(m, Value::Boolean(false))
    } else if op == OP_CONSTANT0 {
        op_literal(m, Value::Integer(0))
    } else if op == OP_NOT {
        op_not(m)
    } else if op == OP_GREATER {
        op_compare(code, m, Order::Greater)
    } else if op == OP_LESS {
        op_compare(code, m, Order::Less)
    } else if op == OP_EQUAL {
        op_equal(code, m)
    } else if op == OP_PRINT {
        op_print(code, m)
    } else if op == OP_POP {
        op_pop(m)
    } else if op == OP_DEFINE_GLOBAL {
        op_define_global(code, f, m)
    } else if op == OP_GET_GLOBAL {
        op_get_global(code, f, m)
    } else if op == OP_SET_GLOBAL {
        op_set_global(code, f, m)
    } else if op == OP_GET_LOCAL {
        op_get_local(code, f, m)
    } else if op == OP_SET_LOCAL {
        op_set_local(code, f, m)
    } else if op == OP_JUMP_IF_FALSE {
        op_jump_if_false(code, f, m)
    } else if op == OP_JUMP {
        op_jump(code, f, m)
    } else if op == OP_LOOP {
        op_loop(code, f, m)
    } else if op == OP_CALL {
        op_call(code, f, m, clock)
    } else if op == OP_ARRAY {
        op_array(code, f, m)
    } else if op == OP_INDEX_CALL {
        op_index_call(m)
    } else if op == OP_INDEX_SET {
        op_index_set(m)
    } else if op == OP_CLOSURE {
        op_closure(code, f, m)
    } else if op == OP_CLOSE_UPVALUE {
        op_close_upvalue(m)
    } else if op == OP_GET_UPVALUE {
        op_get_upvalue(code, f, m)
    } else if op == OP_SET_UPVALUE {
        op_set_upvalue(code, f, m)
    } else if op == OP_CLASS {
        op_class(code, f, m)
    } else if op == OP_GET_PROP {
        op_get_prop(code, f, m)
    } else if op == OP_SET_PROP {
        op_set_prop(code, f, m)
    } else if op == OP_METHOD {
        op_method(code, f, m)
    } else if op == OP_INVOKE {
        op_invoke(code, f, m, clock)
    } else if op == OP_INHERIT {
        op_inherit(m)
    } else if op == OP_SUPER_INVOKE {
        op_super_invoke(code, f, m)
    } else if op == OP_GET_SUPER {
        op_get_super(code, f, m)
    } else if op == OP_JUMP_IF_RANGE_END {
        op_jump_if_range_end(code, f, m)
    } else if op == OP_COUNTUP {
        op_countup(code, f, m)
    } else if op == OP_RANGE {
        op_range(m)
    } else {
        Ok((m, Signal::Done(Outcome::CompileError)))
    }
}

/// One step: the next instruction of the current frame is read and done.
/// Execution is over when there is no frame or the code has run out.
pub open spec fn step(code: Code, m: Machine, clock: Timestamp) -> Step {
    if m.pending != Pending::Nothing {
        Err(Fault::HostOutOfTurn)
    } else if m.frames.len() == 0 {
        Ok((m, Signal::Done(Outcome::End)))
    } else {
        match m.running(code) {
            None => Err(Fault::DanglingReference),
            Some(f) => match m.read_byte(code, f) {
                Err(_) => Ok((m, Signal::Done(Outcome::End))),
                Ok((m1, op)) => execute(code, f, m1, op, clock),
            },
        }
    }
}

impl State {
    /// Does the instruction with opcode `op`.
    pub fn execute(&mut self, code: &Vec<FunctionObject>, f: usize, op: u8) -> (r: Result<
        Signal,
        Fault,
    >)
        requires
            old(self).wf(),
        ensures
            final(self).wf(),
            match r {
                Ok(signal) => execute(code@, f, old(self)@, op, final(self).clock) == Ok::<_, Fault>(
                    (final(self)@, signal),
                ),
                Err(e) => execute(code@, f, old(self)@, op, final(self).clock) == Err::<
                    (Machine, Signal),
                    _,
                >(e) && old(self)@.spared(final(self)@),
            },
    {
        if op == OP_RETURN {
            self.op_return()
        } else if op == OP_CONSTANT {
            self.op_constant(code, f)
        } else if op == OP_NEGATIVE {
            self.op_negative()
        } else if op == OP_ADD {
            self.op_add(code)
        } else if op == OP_SUBTRACT {
            self.op_binary(FloatOp::Subtract)
        } else if op == OP_MULTIPLY {
            self.op_binary(FloatOp::Multiply)
        } else if op == OP_DIVIDE {
            self.op_binary(FloatOp::Divide)
        } else if op == OP_REM {
            self.op_binary(FloatOp::Remainder)
        } else if op == OP_POW {
            self.op_binary(FloatOp::Power)
        } else if op == OP_NULL {
            self.op_literal(Value::Null)
        } else if op == OP_TRUE {
            self.op_literal(Value::Boolean(true))
        } else if op == OP_FALSE {
            self.op_literal(Value::Boolean(false))
        } else if op == OP_CONSTANT0 {
            self.op_literal(Value::Integer(0))
        } else if op == OP_NOT {
            self.op_not()
        } else if op == OP_GREATER {
            self.op_compare(code, Order::Greater)
        } else if op == OP_LESS {
            self.op_compare(code, Order::Less)
        } else if op == OP_EQUAL {
            self.op_equal(code)
        } else if op == OP_PRINT {
            self.op_print(code)
        } else if op == OP_POP {
            self.op_pop()
        } else if op == OP_DEFINE_GLOBAL {
            self.op_define_global(code, f)
        } else if op == OP_GET_GLOBAL {
            self.op_get_global(code, f)
        } else if op == OP_SET_GLOBAL {
            self.op_set_global(code, f)
        } else if op == OP_GET_LOCAL {
            self.op_get_local(code, f)
        } else if op == OP_SET_LOCAL {
            self.op_set_local(code, f)
        } else if op == OP_JUMP_IF_FALSE {
            self.op_jump_if_false(code, f)
        } else if op == OP_JUMP {
            self.op_jump(code, f)
        } else if op == OP_LOOP {
            self.op_loop(code, f)
        } else if op == OP_CALL {
            self.op_call(code, f)
        } else if op == OP_ARRAY {
            self.op_array(code, f)
        } else if op == OP_INDEX_CALL {
            self.op_index_call()
        } else if op == OP_INDEX_SET {
            self.op_index_set()
        } else if op == OP_CLOSURE {
            self.op_closure(code, f)
        } else if op == OP_CLOSE_UPVALUE {
            self.op_close_upvalue()
        } else if op == OP_GET_UPVALUE {
            self.op_get_upvalue(code, f)
        } else if op == OP_SET_UPVALUE {
            self.op_set_upvalue(code, f)
        } else if op == OP_CLASS {
            self.op_class(code, f)
        } else if op == OP_GET_PROP {
            self.op_get_prop(code, f)
        } else if op == OP_SET_PROP {
            self.op_set_prop(code, f)
        } else if op == OP_METHOD {
            self.op_method(code, f)
        } else if op == OP_INVOKE {
            self.op_invoke(code, f)
        } else if op == OP_INHERIT {
            self.op_inherit()
        } else if op == OP_SUPER_INVOKE {
            self.op_super_invoke(code, f)
        } else if op == OP_GET_SUPER {
            self.op_get_super(code, f)
        } else if op == OP_JUMP_IF_RANGE_END {
            self.op_jump_if_range_end(code, f)
        } else if op == OP_COUNTUP {
            self.op_countup(code, f)
        } else if op == OP_RANGE {
            self.op_range()
        } else {
            Ok(Signal::Done(Outcome::CompileError))
        }
    }

    /// Takes one step.
    pub fn step(&mut self, code: &Vec<FunctionObject>) -> (r: Result<Signal, Fault>)
        requires
            old(self).wf(),
        ensures
            final(self).wf(),
            match r {
                Ok(signal) => step(code@, old(self)@, final(self).clock) == Ok::<_, Fault>(
                    (final(self)@, signal),
                ),
                Err(e) => step(code@, old(self)@, final(self).clock) == Err::<(Machine, Signal), _>(
                    e,
                ) && old(self)@.spared(final(self)@),
            },
    {
        match self.pending {
            Pending::Nothing => {},
            _ => {
                return Err(Fault::HostOutOfTurn);
            },
        }
        if self.frames.len() == 0 {
            return Ok(Signal::Done(Outcome::End));
        }
        let f: usize = match self.running(code) {
            Some(f) => f,
            None => {
                return Err(Fault::DanglingReference);
            },
        };
        match self.read_byte(code, f) {
            Err(_) => Ok(Signal::Done(Outcome::End)),
            Ok(op) => self.execute(code, f, op),
        }
    }
}

} // verus!
