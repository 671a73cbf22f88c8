//! The instructions that move values between the stack, the constants, the
//! variables and the arrays, and the jumps.
use vstd::prelude::*;
use super::machine::{Code, Fault, Machine, Signal, Step};
use super::state::State;
use super::value::Value;
use crate::compiler::object::FunctionObject;

verus! {

/// The step that goes on with the next instruction, if nothing failed.
pub open spec fn proceed(result: Result<Machine, Fault>) -> Step {
    match result {
        Ok(m) => Ok((m, Signal::Continue)),
        Err(e) => Err(e),
    }
}

/// Pushes the constant that the operand names.
#[verifier::opaque]
pub open spec fn op_constant(code: Code, f: usize, m: Machine) -> Step {
    match m.read_constant(code, f) {
        Err(e) => Err(e),
        Ok((m1, value)) => proceed(m1.push(value)),
    }
}

/// Pushes a value that the instruction itself stands for.
#[verifier::opaque]
pub open spec fn op_literal(m: Machine, value: Value) -> Step {
    proceed(m.push(value))
}

/// Drops the top of the stack.
#[verifier::opaque]
pub open spec fn op_pop(m: Machine) -> Step {
    proceed(m.drop(1))
}

/// Pops a value and binds the global that the operand names to it.
#[verifier::opaque]
pub open spec fn op_define_global(code: Code, f: usize, m: Machine) -> Step {
    match m.read_string(code, f) {
        Err(e) => Err(e),
        Ok((m1, name)) => match m1.pop() {
            Err(e) => Err(e),
            Ok((m2, value)) => Ok((m2.define_global(name, value), Signal::Continue)),
        },
    }
}

/// Pushes the value of the global that the operand names.
#[verifier::opaque]
pub open spec fn op_get_global(code: Code, f: usize, m: Machine) -> Step {
    match m.read_string(code, f) {
        Err(e) => Err(e),
        Ok((m1, name)) => match m1.global(name) {
            Err(e) => Err(e),
            Ok(value) => proceed(m1.push(value)),
        },
    }
}

/// Binds the global that the operand names to the top of the stack, which
/// stays.
#[verifier::opaque]
pub open spec fn op_set_global(code: Code, f: usize, m: Machine) -> Step {
    match m.read_string(code, f) {
        Err(e) => Err(e),
        Ok((m1, name)) => match m1.peek(0) {
            Err(e) => Err(e),
            Ok(value) => Ok((m1.define_global(name, value), Signal::Continue)),
        },
    }
}

/// Pushes the local in the slot that the operand names.
#[verifier::opaque]
pub open spec fn op_get_local(code: Code, f: usize, m: Machine) -> Step {
    match m.read_byte(code, f) {
        Err(e) => Err(e),
        Ok((m1, index)) => match m1.slot(m1.frame().sp + index) {
            Err(e) => Err(e),
            Ok(value) => proceed(m1.push(value)),
        },
    }
}

/// Writes the top of the stack, which stays, into the local that the operand
/// names.
#[verifier::opaque]
pub open spec fn op_set_local(code: Code, f: usize, m: Machine) -> Step {
    match m.read_byte(code, f) {
        Err(e) => Err(e),
        Ok((m1, index)) => match m1.peek(0) {
            Err(e) => Err(e),
            Ok(value) => proceed(m1.set_slot(m1.frame().sp + index, value)),
        },
    }
}

/// Adds one to the integer in the local that the operand names.
#[verifier::opaque]
pub open spec fn op_countup(code: Code, f: usize, m: Machine) -> Step {
    match m.read_byte(code, f) {
        Err(e) => Err(e),
        Ok((m1, index)) => match m1.slot(m1.frame().sp + index) {
            Err(e) => Err(e),
            Ok(Value::Integer(count)) => if count == i64::MAX {
                Err(Fault::IntegerOverflow)
            } else {
                proceed(m1.set_slot(m1.frame().sp + index, Value::Integer((count + 1) as i64)))
            },
            Ok(_) => Err(Fault::NotAnInteger),
        },
    }
}

/// Jumps forward if the top of the stack, which stays, is falsy.
#[verifier::opaque]
pub open spec fn op_jump_if_false(code: Code, f: usize, m: Machine) -> Step {
    match m.read_jump(code, f) {
        Err(e) => Err(e),
        Ok((m1, distance)) => match m1.peek(0) {
            Err(e) => Err(e),
            Ok(value) => if value.falsy() {
                proceed(m1.jump(distance as int))
            } else {
                Ok((m1, Signal::Continue))
            },
        },
    }
}

/// Jumps forward.
#[verifier::opaque]
pub open spec fn op_jump(code: Code, f: usize, m: Machine) -> Step {
    match m.read_jump(code, f) {
        Err(e) => Err(e),
        Ok((m1, distance)) => proceed(m1.jump(distance as int)),
    }
}

/// Jumps back.
#[verifier::opaque]
pub open spec fn op_loop(code: Code, f: usize, m: Machine) -> Step {
    match m.read_jump(code, f) {
        Err(e) => Err(e),
        Ok((m1, distance)) => proceed(m1.jump(-(distance as int))),
    }
}

/// The item of `items` at `index`; `null` outside the array.
pub open spec fn item_at(items: Seq<Value>, index: i64) -> Value {
    if 0 <= index < items.len() {
        items[index as int]
    } else {
        Value::Null
    }
}

/// Pops an array and an index.  Inside the array, pushes the item there;
/// outside, pushes `null` and jumps forward.
#[verifier::opaque]
pub open spec fn op_jump_if_range_end(code: Code, f: usize, m: Machine) -> Step {
    match m.pop() {
        Err(e) => Err(e),
        Ok((m1, range)) => match m1.pop() {
            Err(e) => Err(e),
            Ok((m2, Value::Integer(index))) => match m2.read_jump(code, f) {
                Err(e) => Err(e),
                Ok((m3, distance)) => match m3.array(range) {
                    Err(e) => Err(e),
                    Ok(items) => match m3.push(item_at(items, index)) {
                        Err(e) => Err(e),
                        Ok(m4) => if 0 <= index < items.len() {
                            Ok((m4, Signal::Continue))
                        } else {
                            proceed(m4.jump(distance as int))
                        },
                    },
                },
            },
            Ok(_) => Err(Fault::NotAnInteger),
        },
    }
}

/// Collects as many of the topmost values as the operand says into a new
/// array and pushes it in their place.
#[verifier::opaque]
pub open spec fn op_array(code: Code, f: usize, m: Machine) -> Step {
    match m.read_byte(code, f) {
        Err(e) => Err(e),
        Ok((m1, count)) => match m1.drop(count as int) {
            Err(e) => Err(e),
            Ok(m2) => {
                let (m3, array) = m2.alloc_array(m1.stack.skip(m1.stack.len() - count));
                proceed(m3.push(array))
            },
        },
    }
}

/// Pops an index and an array and pushes the item there, `null` outside the
/// array.
#[verifier::opaque]
pub open spec fn op_index_call(m: Machine) -> Step {
    match m.pop() {
        Err(e) => Err(e),
        Ok((m1, Value::Integer(index))) => match m1.pop() {
            Err(e) => Err(e),
            Ok((m2, array)) => match m2.array(array) {
                Err(e) => Err(e),
                Ok(items) => proceed(m2.push(item_at(items, index))),
            },
        },
        Ok(_) => Err(Fault::NotAnInteger),
    }
}

/// Pops a value, an index and an array and writes the value into the array.
#[verifier::opaque]
pub open spec fn op_index_set(m: Machine) -> Step {
    match m.pop() {
        Err(e) => Err(e),
        Ok((m1, value)) => match m1.pop() {
            Err(e) => Err(e),
            Ok((m2, Value::Integer(index))) => match m2.pop() {
                Err(e) => Err(e),
                Ok((m3, Value::Array(array))) => match m3.array(Value::Array(array)) {
                    Err(e) => Err(e),
                    Ok(items) => if 0 <= index < items.len() {
                        Ok((m3.set_item(array, index as int, value), Signal::Continue))
                    } else {
                        Err(Fault::IndexOutOfRange)
                    },
                },
                Ok(_) => Err(Fault::NotAnArray),
            },
            Ok(_) => Err(Fault::NotAnInteger),
        },
    }
}

/// The integers from `start` to `end`, both included.
pub open spec fn range_items(start: i64, end: i64) -> Seq<Value> {
    if start > end {
        Seq::empty()
    } else {
        Seq::new((end - start + 1) as nat, |k: int| Value::Integer((start + k) as i64))
    }
}

/// Pops the end and the start of a range and pushes the array of its
/// integers.
#[verifier::opaque]
pub open spec fn op_range(m: Machine) -> Step {
    match m.pop() {
        Err(e) => Err(e),
        Ok((m1, Value::Integer(end))) => match m1.pop() {
            Err(e) => Err(e),
            Ok((m2, Value::Integer(start))) => {
                let (m3, array) = m2.alloc_array(range_items(start, end));
                proceed(m3.push(array))
            },
            Ok(_) => Err(Fault::NotAnInteger),
        },
        Ok(_) => Err(Fault::NotAnInteger),
    }
}

/// Builds the array of the integers from `start` to `end`, both included.
pub fn integers(start: i64, end: i64) -> (r: Vec<Value>)
    ensures
        r@ == range_items(start, end),
{
    let mut items: Vec<Value> = Vec::new();
    if start > end {
        return items;
    }
    let mut next: i64 = start;
    while next < end
        invariant
            start <= next <= end,
            items@ == Seq::new((next - start) as nat, |k: int| Value::Integer((start + k) as i64)),
        decreases end - next,
    {
        items.push(Value::Integer(next));
        assert(items@ =~= Seq::new(
            (next + 1 - start) as nat,
            |k: int| Value::Integer((start + k) as i64),
        ));
        next += 1;
    }
    items.push(Value::Integer(end));
    assert(items@ =~= range_items(start, end));
    items
}

fn item_of(items: &Vec<Value>, index: i64) -> (r: Value)
    ensures
        r == item_at(items@, index),
{
    if index >= 0 && (index as u64) < (items.len() as u64) {
        items[index as usize]
    } else {
        Value::Null
    }
}

impl State {
    /// Pushes the constant that the operand names.
    pub fn op_constant(&mut self, code: &Vec<FunctionObject>, f: usize) -> (r: Result<Signal, Fault>)
        requires
            old(self).wf(),
        ensures
            final(self).wf(),
            match r {
                Ok(signal) => op_constant(code@, f, old(self)@) == Ok::<_, Fault>((final(self)@, signal)),
                Err(e) => op_constant(code@, f, old(self)@) == Err::<(Machine, Signal), _>(e)
                    && old(self)@.spared(final(self)@),
            },
    {
        reveal(op_constant);
        let value: Value = self.read_constant(code, f)?;
        self.push(value)?;
        Ok(Signal::Continue)
    }

    /// Pushes `value`.
    pub fn op_literal(&mut self, value: Value) -> (r: Result<Signal, Fault>)
        requires
            old(self).wf(),
        ensures
            final(self).wf(),
            match r {
                Ok(signal) => op_literal(old(self)@, value) == Ok::<_, Fault>((final(self)@, signal)),
                Err(e) => op_literal(old(self)@, value) == Err::<(Machine, Signal), _>(e)
                    && old(self)@.spared(final(self)@),
            },
    {
        reveal(op_literal);
        self.push(value)?;
        Ok(Signal::Continue)
    }

    /// Drops the top of the stack.
    pub fn op_pop(&mut self) -> (r: Result<Signal, Fault>)
        requires
            old(self).wf(),
        ensures
            final(self).wf(),
            match r {
                Ok(signal) => op_pop(old(self)@) == Ok::<_, Fault>((final(self)@, signal)),
                Err(e) => op_pop(old(self)@) == Err::<(Machine, Signal), _>(e)
                    && old(self)@.spared(final(self)@),
            },
    {
        reveal(op_pop);
        self.drop(1)?;
        Ok(Signal::Continue)
    }

    /// Pops a value and binds a global to it.
    pub fn op_define_global(&mut self, code: &Vec<FunctionObject>, f: usize) -> (r: Result<Signal, Fault>)
        requires
            old(self).wf(),
        ensures
            final(self).wf(),
            match r {
                Ok(signal) => op_define_global(code@, f, old(self)@) == Ok::<_, Fault>((final(self)@, signal)),
                Err(e) => op_define_global(code@, f, old(self)@) == Err::<(Machine, Signal), _>(e)
                    && old(self)@.spared(final(self)@),
            },
    {
        reveal(op_define_global);
        reveal(Machine::pop);
        let name: usize = self.read_string(code, f)?;
        let value: Value = self.pop()?;
        self.define_global(name, value);
        Ok(Signal::Continue)
    }

    /// Pushes the value of a global.
    pub fn op_get_global(&mut self, code: &Vec<FunctionObject>, f: usize) -> (r: Result<Signal, Fault>)
        requires
            old(self).wf(),
        ensures
            final(self).wf(),
            match r {
                Ok(signal) => op_get_global(code@, f, old(self)@) == Ok::<_, Fault>((final(self)@, signal)),
                Err(e) => op_get_global(code@, f, old(self)@) == Err::<(Machine, Signal), _>(e)
                    && old(self)@.spared(final(self)@),
            },
    {
        reveal(op_get_global);
        let name: usize = self.read_string(code, f)?;
        let value: Value = self.global(name)?;
        self.push(value)?;
        Ok(Signal::Continue)
    }

    /// Binds a global to the top of the stack.
    pub fn op_set_global(&mut self, code: &Vec<FunctionObject>, f: usize) -> (r: Result<Signal, Fault>)
        requires
            old(self).wf(),
        ensures
            final(self).wf(),
            match r {
                Ok(signal) => op_set_global(code@, f, old(self)@) == Ok::<_, Fault>((final(self)@, signal)),
                Err(e) => op_set_global(code@, f, old(self)@) == Err::<(Machine, Signal), _>(e)
                    && old(self)@.spared(final(self)@),
            },
    {
        reveal(op_set_global);
        let name: usize = self.read_string(code, f)?;
        let value: Value = self.peek(0)?;
        self.define_global(name, value);
        Ok(Signal::Continue)
    }

    /// Pushes a local.
    pub fn op_get_local(&mut self, code: &Vec<FunctionObject>, f: usize) -> (r: Result<Signal, Fault>)
        requires
            old(self).wf(),
        ensures
            final(self).wf(),
            match r {
                Ok(signal) => op_get_local(code@, f, old(self)@) == Ok::<_, Fault>((final(self)@, signal)),
                Err(e) => op_get_local(code@, f, old(self)@) == Err::<(Machine, Signal), _>(e)
                    && old(self)@.spared(final(self)@),
            },
    {
        reveal(op_get_local);
        reveal(Machine::read_byte);
        let index: u8 = self.read_byte(code, f)?;
        let base: usize = self.frames[self.frames.len() - 1].sp;
        let depth: usize = self.stack.len();
        if base >= depth || index as usize >= depth - base {
            return Err(Fault::StackUnderflow);
        }
        let place: usize = base + index as usize;
        let value: Value = self.slot(place)?;
        self.push(value)?;
        Ok(Signal::Continue)
    }

    /// Writes the top of the stack into a local.
    pub fn op_set_local(&mut self, code: &Vec<FunctionObject>, f: usize) -> (r: Result<Signal, Fault>)
        requires
            old(self).wf(),
        ensures
            final(self).wf(),
            match r {
                Ok(signal) => op_set_local(code@, f, old(self)@) == Ok::<_, Fault>((final(self)@, signal)),
                Err(e) => op_set_local(code@, f, old(self)@) == Err::<(Machine, Signal), _>(e)
                    && old(self)@.spared(final(self)@),
            },
    {
        reveal(op_set_local);
        reveal(Machine::read_byte);
        reveal(Machine::set_slot);
        let index: u8 = self.read_byte(code, f)?;
        let value: Value = self.peek(0)?;
        let base: usize = self.frames[self.frames.len() - 1].sp;
        let depth: usize = self.stack.len();
        if base >= depth || index as usize >= depth - base {
            return Err(Fault::StackUnderflow);
        }
        self.set_slot(base + index as usize, value)?;
        Ok(Signal::Continue)
    }

    /// Adds one to the integer in a local.
    pub fn op_countup(&mut self, code: &Vec<FunctionObject>, f: usize) -> (r: Result<Signal, Fault>)
        requires
            old(self).wf(),
        ensures
            final(self).wf(),
            match r {
                Ok(signal) => op_countup(code@, f, old(self)@) == Ok::<_, Fault>((final(self)@, signal)),
                Err(e) => op_countup(code@, f, old(self)@) == Err::<(Machine, Signal), _>(e)
                    && old(self)@.spared(final(self)@),
            },
    {
        reveal(op_countup);
        reveal(Machine::read_byte);
        let index: u8 = self.read_byte(code, f)?;
        let base: usize = self.frames[self.frames.len() - 1].sp;
        let depth: usize = self.stack.len();
        if base >= depth || index as usize >= depth - base {
            return Err(Fault::StackUnderflow);
        }
        let place: usize = base + index as usize;
        match self.slot(place)? {
            Value::Integer(count) => {
                if count == i64::MAX {
                    return Err(Fault::IntegerOverflow);
                }
                self.set_slot(place, Value::Integer(count + 1))?;
                Ok(Signal::Continue)
            },
            _ => Err(Fault::NotAnInteger),
        }
    }

    /// Jumps forward if the top of the stack is falsy.
    pub fn op_jump_if_false(&mut self, code: &Vec<FunctionObject>, f: usize) -> (r: Result<Signal, Fault>)
        requires
            old(self).wf(),
        ensures
            final(self).wf(),
            match r {
                Ok(signal) => op_jump_if_false(code@, f, old(self)@) == Ok::<_, Fault>((final(self)@, signal)),
                Err(e) => op_jump_if_false(code@, f, old(self)@) == Err::<(Machine, Signal), _>(e)
                    && old(self)@.spared(final(self)@),
            },
    {
        reveal(op_jump_if_false);
        let distance: usize = self.read_jump(code, f)?;
        let value: Value = self.peek(0)?;
        if value.is_falsy() {
            self.jump_forward(distance)?;
        }
        Ok(Signal::Continue)
    }

    /// Jumps forward.
    pub fn op_jump(&mut self, code: &Vec<FunctionObject>, f: usize) -> (r: Result<Signal, Fault>)
        requires
            old(self).wf(),
        ensures
            final(self).wf(),
            match r {
                Ok(signal) => op_jump(code@, f, old(self)@) == Ok::<_, Fault>((final(self)@, signal)),
                Err(e) => op_jump(code@, f, old(self)@) == Err::<(Machine, Signal), _>(e)
                    && old(self)@.spared(final(self)@),
            },
    {
        reveal(op_jump);
        let distance: usize = self.read_jump(code, f)?;
        self.jump_forward(distance)?;
        Ok(Signal::Continue)
    }

    /// Jumps back.
    pub fn op_loop(&mut self, code: &Vec<FunctionObject>, f: usize) -> (r: Result<Signal, Fault>)
        requires
            old(self).wf(),
        ensures
            final(self).wf(),
            match r {
                Ok(signal) => op_loop(code@, f, old(self)@) == Ok::<_, Fault>((final(self)@, signal)),
                Err(e) => op_loop(code@, f, old(self)@) == Err::<(Machine, Signal), _>(e)
                    && old(self)@.spared(final(self)@),
            },
    {
        reveal(op_loop);
        let distance: usize = self.read_jump(code, f)?;
        self.jump_back(distance)?;
        Ok(Signal::Continue)
    }

    /// Takes the next item of a range, or leaves the loop.
    pub fn op_jump_if_range_end(&mut self, code: &Vec<FunctionObject>, f: usize) -> (r: Result<Signal, Fault>)
        requires
            old(self).wf(),
        ensures
            final(self).wf(),
            match r {
                Ok(signal) => op_jump_if_range_end(code@, f, old(self)@) == Ok::<_, Fault>((final(self)@, signal)),
                Err(e) => op_jump_if_range_end(code@, f, old(self)@) == Err::<(Machine, Signal), _>(e)
                    && old(self)@.spared(final(self)@),
            },
    {
        reveal(op_jump_if_range_end);
        reveal(Machine::pop);
        reveal(Machine::read_jump);
        reveal(Machine::read_byte);
        let range: Value = self.pop()?;
        let index: i64 = match self.pop()? {
            Value::Integer(index) => index,
            _ => {
                return Err(Fault::NotAnInteger);
            },
        };
        let distance: usize = self.read_jump(code, f)?;
        let handle: usize = self.array(range)?;
        let inside: bool = index >= 0 && (index as u64) < (self.arrays[handle].len() as u64);
        let item: Value = item_of(&self.arrays[handle], index);
        self.push(item)?;
        if !inside {
            self.jump_forward(distance)?;
        }
        Ok(Signal::Continue)
    }

    /// Collects the topmost values into a new array.
    pub fn op_array(&mut self, code: &Vec<FunctionObject>, f: usize) -> (r: Result<Signal, Fault>)
        requires
            old(self).wf(),
        ensures
            final(self).wf(),
            match r {
                Ok(signal) => op_array(code@, f, old(self)@) == Ok::<_, Fault>((final(self)@, signal)),
                Err(e) => op_array(code@, f, old(self)@) == Err::<(Machine, Signal), _>(e)
                    && old(self)@.spared(final(self)@),
            },
    {
        reveal(op_array);
        reveal(Machine::read_byte);
        reveal(Machine::drop);
        let count: u8 = self.read_byte(code, f)?;
        let depth: usize = self.stack.len();
        if count as usize > depth {
            return Err(Fault::StackUnderflow);
        }
        let items: Vec<Value> = self.stack.get_slice(depth - count as usize);
        self.drop(count as usize)?;
        let array: Value = self.alloc_array(items);
        self.push(array)?;
        Ok(Signal::Continue)
    }

    /// Reads an item of an array.
    pub fn op_index_call(&mut self) -> (r: Result<Signal, Fault>)
        requires
            old(self).wf(),
        ensures
            final(self).wf(),
            match r {
                Ok(signal) => op_index_call(old(self)@) == Ok::<_, Fault>((final(self)@, signal)),
                Err(e) => op_index_call(old(self)@) == Err::<(Machine, Signal), _>(e)
                    && old(self)@.spared(final(self)@),
            },
    {
        reveal(op_index_call);
        reveal(Machine::pop);
        let index: i64 = match self.pop()? {
            Value::Integer(index) => index,
            _ => {
                return Err(Fault::NotAnInteger);
            },
        };
        let array: Value = self.pop()?;
        let handle: usize = self.array(array)?;
        let item: Value = item_of(&self.arrays[handle], index);
        self.push(item)?;
        Ok(Signal::Continue)
    }

    /// Writes an item of an array.
    pub fn op_index_set(&mut self) -> (r: Result<Signal, Fault>)
        requires
            old(self).wf(),
        ensures
            final(self).wf(),
            match r {
                Ok(signal) => op_index_set(old(self)@) == Ok::<_, Fault>((final(self)@, signal)),
                Err(e) => op_index_set(old(self)@) == Err::<(Machine, Signal), _>(e)
                    && old(self)@.spared(final(self)@),
            },
    {
        reveal(op_index_set);
        reveal(Machine::pop);
        let value: Value = self.pop()?;
        let index: i64 = match self.pop()? {
            Value::Integer(index) => index,
            _ => {
                return Err(Fault::NotAnInteger);
            },
        };
        let array: Value = self.pop()?;
        match array {
            Value::Array(_) => {},
            _ => {
                return Err(Fault::NotAnArray);
            },
        }
        let handle: usize = self.array(array)?;
        if index >= 0 && (index as u64) < (self.arrays[handle].len() as u64) {
            self.set_item(handle, index as usize, value);
            Ok(Signal::Continue)
        } else {
            Err(Fault::IndexOutOfRange)
        }
    }

    /// Builds the array of the integers of a range.
    pub fn op_range(&mut self) -> (r: Result<Signal, Fault>)
        requires
            old(self).wf(),
        ensures
            final(self).wf(),
            match r {
                Ok(signal) => op_range(old(self)@) == Ok::<_, Fault>((final(self)@, signal)),
                Err(e) => op_range(old(self)@) == Err::<(Machine, Signal), _>(e)
                    && old(self)@.spared(final(self)@),
            },
    {
        reveal(op_range);
        let end: i64 = match self.pop()? {
            Value::Integer(end) => end,
            _ => {
                return Err(Fault::NotAnInteger);
            },
        };
        let start: i64 = match self.pop()? {
            Value::Integer(start) => start,
            _ => {
                return Err(Fault::NotAnInteger);
            },
        };
        let array: Value = self.alloc_array(integers(start, end));
        self.push(array)?;
        Ok(Signal::Continue)
    }

}

} // verus!
