//! Calls and returns, closures and their upvalues, and method invocation.
use vstd::prelude::*;
use super::basic::proceed;
use super::frame::CallFrame;
use super::machine::{ClosureView, Code, Fault, Machine, Outcome, Signal, Step};
use super::natives::call_native;
use super::state::State;
use super::value::{Timestamp, Value, STACK_LEN};
use crate::compiler::object::{ClosureObject, FunctionObject};

verus! {

/// Starts a call of the closure `closure` on the `argc` topmost values: a
/// new frame whose slot 0 is the value below the arguments.
#[verifier::opaque]
pub open spec fn enter(code: Code, m: Machine, closure: usize, argc: int) -> Result<Machine, Fault> {
    if argc < 0 || argc >= m.stack.len() {
        Err(Fault::StackUnderflow)
    } else if closure >= m.closures.len() || m.closures[closure as int].function >= code.len() {
        Err(Fault::DanglingReference)
    } else if code[m.closures[closure as int].function as int].arity != argc {
        Err(Fault::ArityMismatch)
    } else {
        m.push_frame(CallFrame { closure, ip: 0, sp: (m.stack.len() - argc - 1) as usize })
    }
}

/// Calls a class: a new instance takes the place of the class below the
/// arguments, and the initializer, if the class has one, is called on it.
#[verifier::opaque]
pub open spec fn instantiate(code: Code, m: Machine, callee: Value, argc: int) -> Step {
    if argc < 0 || argc >= m.stack.len() {
        Err(Fault::StackUnderflow)
    } else {
        match m.class(callee) {
            Err(e) => Err(e),
            Ok(class) => {
                let (m1, instance) = m.alloc_instance(class);
                match m1.set_slot(m.stack.len() - argc - 1, instance) {
                    Err(e) => Err(e),
                    Ok(m2) => match m2.method_called(class, "init"@) {
                        Some(Value::Closure(init)) => proceed(enter(code, m2, init, argc)),
                        Some(_) => Err(Fault::NotCallable),
                        None => if argc == 0 {
                            Ok((m2, Signal::Continue))
                        } else {
                            Err(Fault::ArityMismatch)
                        },
                    },
                }
            },
        }
    }
}

/// Calls a bound method: the receiver takes the place of the callee below
/// the arguments, and the method is called.
#[verifier::opaque]
pub open spec fn call_bound(code: Code, m: Machine, handle: usize, argc: int) -> Step {
    if handle >= m.bound_methods.len() {
        Err(Fault::DanglingReference)
    } else if argc < 0 || argc >= m.stack.len() {
        Err(Fault::StackUnderflow)
    } else {
        match m.set_slot(m.stack.len() - argc - 1, m.bound_methods[handle as int].reciever) {
            Err(e) => Err(e),
            Ok(m1) => proceed(enter(code, m1, m.bound_methods[handle as int].method, argc)),
        }
    }
}

/// Calls `callee` on the `argc` topmost values.
#[verifier::opaque]
pub open spec fn call_value(code: Code, m: Machine, callee: Value, argc: int, clock: Timestamp) -> Step {
    match callee {
        Value::Closure(handle) => proceed(enter(code, m, handle, argc)),
        Value::Native(function) => call_native(code, m, function, argc, clock),
        Value::Class(_) => instantiate(code, m, callee, argc),
        Value::BoundMethod(handle) => call_bound(code, m, handle, argc),
        _ => Err(Fault::NotCallable),
    }
}

/// Calls the value below as many arguments as the operand says.
#[verifier::opaque]
pub open spec fn op_call(code: Code, f: usize, m: Machine, clock: Timestamp) -> Step {
    match m.read_byte(code, f) {
        Err(e) => Err(e),
        Ok((m1, argc)) => match m1.peek(argc as int) {
            Err(e) => Err(e),
            Ok(callee) => call_value(code, m1, callee, argc as int, clock),
        },
    }
}

/// Calls the method `text` of `class` on the receiver and arguments on the
/// stack.
#[verifier::opaque]
pub open spec fn invoke_from_class(code: Code, m: Machine, class: usize, text: Seq<char>, argc: int) -> Step {
    match m.method_called(class, text) {
        None => Err(Fault::UndefinedMethod),
        Some(Value::Closure(method)) => proceed(enter(code, m, method, argc)),
        Some(_) => Err(Fault::NotCallable),
    }
}

/// Calls a property of the instance below the arguments: a field of that
/// name if the instance has one, else the method of that name.
#[verifier::opaque]
pub open spec fn op_invoke(code: Code, f: usize, m: Machine, clock: Timestamp) -> Step {
    match m.read_string(code, f) {
        Err(e) => Err(e),
        Ok((m1, name)) => match m1.read_byte(code, f) {
            Err(e) => Err(e),
            Ok((m2, argc)) => match m2.peek(argc as int) {
                Err(e) => Err(e),
                Ok(receiver) => match m2.instance(receiver) {
                    Err(e) => Err(e),
                    Ok(instance) => match m2.field(instance, name) {
                        Some(field) => match m2.set_slot(m2.stack.len() - argc - 1, field) {
                            Err(e) => Err(e),
                            Ok(m3) => call_value(code, m3, field, argc as int, clock),
                        },
                        None => invoke_from_class(
                            code,
                            m2,
                            m2.instances[instance as int].class,
                            m2.strings[name as int],
                            argc as int,
                        ),
                    },
                },
            },
        },
    }
}

/// Pops the superclass and calls its method, of the name that the operand
/// gives, on the receiver and arguments below.
#[verifier::opaque]
pub open spec fn op_super_invoke(code: Code, f: usize, m: Machine) -> Step {
    match m.read_string(code, f) {
        Err(e) => Err(e),
        Ok((m1, name)) => match m1.read_byte(code, f) {
            Err(e) => Err(e),
            Ok((m2, argc)) => match m2.pop() {
                Err(e) => Err(e),
                Ok((m3, above)) => match m3.class(above) {
                    Err(e) => Err(e),
                    Ok(class) => invoke_from_class(
                        code,
                        m3,
                        class,
                        m3.strings[name as int],
                        argc as int,
                    ),
                },
            },
        },
    }
}

/// Pops the result and the frame, closes the cells of the frame's slots and
/// cuts the stack down to the frame's base.  If that was the last frame the
/// script has returned; else the result is pushed for the caller.
#[verifier::opaque]
pub open spec fn op_return(m: Machine) -> Step {
    match m.pop() {
        Err(e) => Err(e),
        Ok((m1, result)) => if m1.frames.len() == 0 {
            Err(Fault::TruncatedCode)
        } else {
            let m2 = (Machine { frames: m1.frames.drop_last(), ..m1 }).close_upvalues(
                m1.frame().sp,
            );
            match m2.drop(m2.stack.len() - m1.frame().sp) {
                Err(e) => Err(e),
                Ok(m3) => if m3.frames.len() == 0 {
                    Ok((m3, Signal::Done(Outcome::Returned)))
                } else {
                    proceed(m3.push(result))
                },
            }
        },
    }
}

/// The cell that the closure of the current frame holds at `index`.
pub open spec fn cell_of(m: Machine, index: int) -> Result<usize, Fault> {
    if m.frames.len() > 0 && m.frame().closure < m.closures.len() && 0 <= index
        < m.closures[m.frame().closure as int].upvalues.len() {
        Ok(m.closures[m.frame().closure as int].upvalues[index])
    } else {
        Err(Fault::DanglingReference)
    }
}

/// Pushes what the upvalue that the operand names reads as.
#[verifier::opaque]
pub open spec fn op_get_upvalue(code: Code, f: usize, m: Machine) -> Step {
    match m.read_byte(code, f) {
        Err(e) => Err(e),
        Ok((m1, index)) => match cell_of(m1, index as int) {
            Err(e) => Err(e),
            Ok(cell) => match m1.read_cell(cell) {
                Err(e) => Err(e),
                Ok(value) => proceed(m1.push(value)),
            },
        },
    }
}

/// Writes the top of the stack, which stays, through the upvalue that the
/// operand names.
#[verifier::opaque]
pub open spec fn op_set_upvalue(code: Code, f: usize, m: Machine) -> Step {
    match m.read_byte(code, f) {
        Err(e) => Err(e),
        Ok((m1, index)) => match m1.peek(0) {
            Err(e) => Err(e),
            Ok(value) => match cell_of(m1, index as int) {
                Err(e) => Err(e),
                Ok(cell) => proceed(m1.write_cell(cell, value)),
            },
        },
    }
}

/// Closes the cells of the topmost slot and drops it.
#[verifier::opaque]
pub open spec fn op_close_upvalue(m: Machine) -> Step {
    if m.stack.len() == 0 {
        Err(Fault::StackUnderflow)
    } else {
        proceed(m.close_upvalues((m.stack.len() - 1) as usize).drop(1))
    }
}

/// Reads pairs of operands until `cells` holds `count` cells.  A pair names
/// a slot of the current frame, whose open cell is taken or made, or an
/// upvalue of the current closure, whose cell is shared.
pub open spec fn capture_all(
    code: Code,
    f: usize,
    m: Machine,
    count: int,
    cells: Seq<usize>,
) -> Result<
    (Machine, Seq<usize>),
    Fault,
>
    decreases count - cells.len(),
{
    if cells.len() >= count {
        Ok((m, cells))
    } else {
        match m.read_byte(code, f) {
            Err(e) => Err(e),
            Ok((m1, is_local)) => match m1.read_byte(code, f) {
                Err(e) => Err(e),
                Ok((m2, index)) => if is_local == 1 {
                    if m2.frames.len() == 0 || m2.frame().sp + index > usize::MAX {
                        Err(Fault::StackUnderflow)
                    } else {
                        let (m3, cell) = m2.capture((m2.frame().sp + index) as usize);
                        capture_all(code, f, m3, count, cells.push(cell))
                    }
                } else {
                    match cell_of(m2, index as int) {
                        Err(e) => Err(e),
                        Ok(cell) => capture_all(code, f, m2, count, cells.push(cell)),
                    }
                },
            },
        }
    }
}

/// Gathers the cells that are still missing, makes the closure of
/// `function` with them and pushes it.
pub open spec fn close_over(code: Code, f: usize, m: Machine, function: usize, cells: Seq<usize>) -> Step {
    match capture_all(code, f, m, code[function as int].upvalue_count as int, cells) {
        Err(e) => Err(e),
        Ok((m1, all)) => {
            let (m2, closure) = m1.alloc_closure(ClosureView { function, upvalues: all });
            proceed(m2.push(closure))
        },
    }
}

/// Makes a closure of the function that the operand names, with the cells
/// that the pairs of operands after it name, and pushes it.
#[verifier::opaque]
pub open spec fn op_closure(code: Code, f: usize, m: Machine) -> Step {
    match m.read_constant(code, f) {
        Err(e) => Err(e),
        Ok((m1, Value::Function(function))) => if function >= code.len() {
            Err(Fault::BadConstant)
        } else {
            close_over(code, f, m1, function, Seq::empty())
        },
        Ok(_) => Err(Fault::BadConstant),
    }
}

impl State {
    /// Starts a call of a closure on the `argc` topmost values.  Where the
    /// call cannot start, the machine is as it was.
    pub fn enter(&mut self, code: &Vec<FunctionObject>, closure: usize, argc: usize) -> (r: Result<
        (),
        Fault,
    >)
        requires
            old(self).wf(),
        ensures
            final(self).wf(),
            match r {
                Ok(()) => enter(code@, old(self)@, closure, argc as int) == Ok::<_, Fault>(
                    final(self)@,
                ),
                Err(e) => enter(code@, old(self)@, closure, argc as int) == Err::<Machine, _>(e)
                    && final(self)@ == old(self)@,
            },
    {
        reveal(enter);
        let depth: usize = self.stack.len();
        if argc >= depth {
            return Err(Fault::StackUnderflow);
        }
        if closure >= self.closures.len() || self.closures[closure].function >= code.len() {
            return Err(Fault::DanglingReference);
        }
        let arity: i32 = code[self.closures[closure].function].arity;
        if arity < 0 || arity as usize != argc {
            return Err(Fault::ArityMismatch);
        }
        self.push_frame(CallFrame::new(closure, 0, depth - argc - 1))
    }

    fn instantiate(&mut self, code: &Vec<FunctionObject>, callee: Value, argc: usize) -> (r: Result<
        Signal,
        Fault,
    >)
        requires
            old(self).wf(),
        ensures
            final(self).wf(),
            match r {
                Ok(signal) => instantiate(code@, old(self)@, callee, argc as int) == Ok::<_, Fault>(
                    (final(self)@, signal),
                ),
                Err(e) => instantiate(code@, old(self)@, callee, argc as int) == Err::<
                    (Machine, Signal),
                    _,
                >(e) && old(self)@.spared(final(self)@),
            },
    {
        reveal(instantiate);
        reveal(Machine::alloc_instance);
        reveal(Machine::set_slot);
        let depth: usize = self.stack.len();
        if argc >= depth {
            return Err(Fault::StackUnderflow);
        }
        let class: usize = self.class(callee)?;
        let instance: Value = self.alloc_instance(class);
        self.set_slot(depth - argc - 1, instance)?;
        match self.method_called(class, &String::from_str("init")) {
            Some(Value::Closure(init)) => {
                self.enter(code, init, argc)?;
                Ok(Signal::Continue)
            },
            Some(_) => Err(Fault::NotCallable),
            None => {
                if argc == 0 {
                    Ok(Signal::Continue)
                } else {
                    Err(Fault::ArityMismatch)
                }
            },
        }
    }

    fn call_bound(&mut self, code: &Vec<FunctionObject>, handle: usize, argc: usize) -> (r: Result<
        Signal,
        Fault,
    >)
        requires
            old(self).wf(),
        ensures
            final(self).wf(),
            match r {
                Ok(signal) => call_bound(code@, old(self)@, handle, argc as int) == Ok::<_, Fault>(
                    (final(self)@, signal),
                ),
                Err(e) => call_bound(code@, old(self)@, handle, argc as int) == Err::<
                    (Machine, Signal),
                    _,
                >(e) && old(self)@.spared(final(self)@),
            },
    {
        reveal(call_bound);
        if handle >= self.bound_methods.len() {
            return Err(Fault::DanglingReference);
        }
        let depth: usize = self.stack.len();
        if argc >= depth {
            return Err(Fault::StackUnderflow);
        }
        let bound = self.bound_methods[handle];
        self.set_slot(depth - argc - 1, bound.reciever)?;
        self.enter(code, bound.method, argc)?;
        Ok(Signal::Continue)
    }

    /// Calls `callee` on the `argc` topmost values.  A call that faults has
    /// started no call and spared what there was; the call of a closure or
    /// of a value that cannot be called leaves the whole machine as it was.
    pub fn call_value(&mut self, code: &Vec<FunctionObject>, callee: Value, argc: usize) -> (r:
        Result<Signal, Fault>)
        requires
            old(self).wf(),
        ensures
            final(self).wf(),
            match r {
                Ok(signal) => call_value(code@, old(self)@, callee, argc as int, final(self).clock)
                    == Ok::<_, Fault>((final(self)@, signal)),
                Err(e) => call_value(code@, old(self)@, callee, argc as int, final(self).clock)
                    == Err::<(Machine, Signal), _>(e) && old(self)@.spared(final(self)@) && (
                callee is Closure || !(callee is Native || callee is Class
                    || callee is BoundMethod) ==> final(self)@ == old(self)@),
            },
    {
        reveal(call_value);
        match callee {
            Value::Closure(handle) => {
                self.enter(code, handle, argc)?;
                Ok(Signal::Continue)
            },
            Value::Native(function) => self.call_native(code, function, argc),
            Value::Class(_) => self.instantiate(code, callee, argc),
            Value::BoundMethod(handle) => self.call_bound(code, handle, argc),
            _ => Err(Fault::NotCallable),
        }
    }

    /// Calls the value below the arguments.
    pub fn op_call(&mut self, code: &Vec<FunctionObject>, f: usize) -> (r: Result<Signal, Fault>)
        requires
            old(self).wf(),
        ensures
            final(self).wf(),
            match r {
                Ok(signal) => op_call(code@, f, old(self)@, final(self).clock) == Ok::<_, Fault>(
                    (final(self)@, signal),
                ),
                Err(e) => op_call(code@, f, old(self)@, final(self).clock) == Err::<
                    (Machine, Signal),
                    _,
                >(e) && old(self)@.spared(final(self)@),
            },
    {
        reveal(op_call);
        let argc: u8 = self.read_byte(code, f)?;
        let callee: Value = self.peek(argc as usize)?;
        self.call_value(code, callee, argc as usize)
    }

    /// Calls the method `text` of `class`.
    pub fn invoke_from_class(
        &mut self,
        code: &Vec<FunctionObject>,
        class: usize,
        text: &String,
        argc: usize,
    ) -> (r:
        Result<Signal, Fault>)
        requires
            old(self).wf(),
            class < old(self)@.classes.len(),
        ensures
            final(self).wf(),
            match r {
                Ok(signal) => invoke_from_class(code@, old(self)@, class, text@, argc as int)
                    == Ok::<_, Fault>((final(self)@, signal)),
                Err(e) => invoke_from_class(code@, old(self)@, class, text@, argc as int) == Err::<
                    (Machine, Signal),
                    _,
                >(e) && old(self)@.spared(final(self)@),
            },
    {
        reveal(invoke_from_class);
        match self.method_called(class, text) {
            None => Err(Fault::UndefinedMethod),
            Some(Value::Closure(method)) => {
                self.enter(code, method, argc)?;
                Ok(Signal::Continue)
            },
            Some(_) => Err(Fault::NotCallable),
        }
    }

    /// Calls a property of the instance below the arguments.
    pub fn op_invoke(&mut self, code: &Vec<FunctionObject>, f: usize) -> (r: Result<Signal, Fault>)
        requires
            old(self).wf(),
        ensures
            final(self).wf(),
            match r {
                Ok(signal) => op_invoke(code@, f, old(self)@, final(self).clock) == Ok::<_, Fault>(
                    (final(self)@, signal),
                ),
                Err(e) => op_invoke(code@, f, old(self)@, final(self).clock) == Err::<
                    (Machine, Signal),
                    _,
                >(e) && old(self)@.spared(final(self)@),
            },
    {
        reveal(op_invoke);
        reveal(Machine::read_byte);
        let name: usize = self.read_string(code, f)?;
        let argc: u8 = self.read_byte(code, f)?;
        let receiver: Value = self.peek(argc as usize)?;
        let instance: usize = self.instance(receiver)?;
        match self.field(instance, name) {
            Some(field) => {
                let depth: usize = self.stack.len();
                self.set_slot(depth - argc as usize - 1, field)?;
                self.call_value(code, field, argc as usize)
            },
            None => {
                let class: usize = self.instances[instance].class;
                let text = self.strings[name].clone();
                self.invoke_from_class(code, class, &text, argc as usize)
            },
        }
    }

    /// Calls a method of the superclass.
    pub fn op_super_invoke(&mut self, code: &Vec<FunctionObject>, f: usize) -> (r: Result<
        Signal,
        Fault,
    >)
        requires
            old(self).wf(),
        ensures
            final(self).wf(),
            match r {
                Ok(signal) => op_super_invoke(code@, f, old(self)@) == Ok::<_, Fault>(
                    (final(self)@, signal),
                ),
                Err(e) => op_super_invoke(code@, f, old(self)@) == Err::<(Machine, Signal), _>(e)
                    && old(self)@.spared(final(self)@),
            },
    {
        reveal(op_super_invoke);
        reveal(Machine::read_byte);
        reveal(Machine::pop);
        let name: usize = self.read_string(code, f)?;
        let argc: u8 = self.read_byte(code, f)?;
        let above: Value = self.pop()?;
        let class: usize = self.class(above)?;
        let text = self.strings[name].clone();
        self.invoke_from_class(code, class, &text, argc as usize)
    }

    /// Returns from the current call.
    pub fn op_return(&mut self) -> (r: Result<Signal, Fault>)
        requires
            old(self).wf(),
        ensures
            final(self).wf(),
            match r {
                Ok(signal) => op_return(old(self)@) == Ok::<_, Fault>((final(self)@, signal)),
                Err(e) => op_return(old(self)@) == Err::<(Machine, Signal), _>(e)
                    && old(self)@.spared(final(self)@),
            },
    {
        reveal(op_return);
        reveal(Machine::drop);
        reveal(Machine::push);
        let result: Value = self.pop()?;
        let ghost popped = self@;
        let calls: usize = self.frames.len();
        if calls == 0 {
            return Err(Fault::TruncatedCode);
        }
        let base: usize = self.frames[calls - 1].sp;
        let depth: usize = self.stack.len();
        proof {
            crate::laws::cells::lemma_close_keeps_cells(
                Machine { frames: popped.frames.drop_last(), ..popped },
                base,
            );
        }
        if base > depth {
            return Err(Fault::StackUnderflow);
        }
        if calls > 1 && base >= STACK_LEN {
            return Err(Fault::StackOverflow);
        }
        let _ = self.frames.pop();
        assert(self@ == (Machine { frames: popped.frames.drop_last(), ..popped }));
        self.close_upvalues(base);
        self.drop(depth - base)?;
        if self.frames.len() == 0 {
            Ok(Signal::Done(Outcome::Returned))
        } else {
            self.push(result)?;
            Ok(Signal::Continue)
        }
    }

    fn cell_of(&self, index: usize) -> (r: Result<usize, Fault>)
        ensures
            r == cell_of(self@, index as int),
    {
        let depth: usize = self.frames.len();
        if depth == 0 {
            return Err(Fault::DanglingReference);
        }
        let closure: usize = self.frames[depth - 1].closure;
        if closure >= self.closures.len() {
            return Err(Fault::DanglingReference);
        }
        if index >= self.closures[closure].upvalues.len() {
            return Err(Fault::DanglingReference);
        }
        Ok(self.closures[closure].upvalues[index])
    }

    /// Pushes what an upvalue reads as.
    pub fn op_get_upvalue(&mut self, code: &Vec<FunctionObject>, f: usize) -> (r: Result<
        Signal,
        Fault,
    >)
        requires
            old(self).wf(),
        ensures
            final(self).wf(),
            match r {
                Ok(signal) => op_get_upvalue(code@, f, old(self)@) == Ok::<_, Fault>(
                    (final(self)@, signal),
                ),
                Err(e) => op_get_upvalue(code@, f, old(self)@) == Err::<(Machine, Signal), _>(e)
                    && old(self)@.spared(final(self)@),
            },
    {
        reveal(op_get_upvalue);
        let index: u8 = self.read_byte(code, f)?;
        let cell: usize = self.cell_of(index as usize)?;
        let value: Value = self.read_cell(cell)?;
        self.push(value)?;
        Ok(Signal::Continue)
    }

    /// Writes the top of the stack through an upvalue.
    pub fn op_set_upvalue(&mut self, code: &Vec<FunctionObject>, f: usize) -> (r: Result<
        Signal,
        Fault,
    >)
        requires
            old(self).wf(),
        ensures
            final(self).wf(),
            match r {
                Ok(signal) => op_set_upvalue(code@, f, old(self)@) == Ok::<_, Fault>(
                    (final(self)@, signal),
                ),
                Err(e) => op_set_upvalue(code@, f, old(self)@) == Err::<(Machine, Signal), _>(e)
                    && old(self)@.spared(final(self)@),
            },
    {
        reveal(op_set_upvalue);
        let index: u8 = self.read_byte(code, f)?;
        let value: Value = self.peek(0)?;
        let cell: usize = self.cell_of(index as usize)?;
        self.write_cell(cell, value)?;
        Ok(Signal::Continue)
    }

    /// Closes the cells of the topmost slot and drops it.
    pub fn op_close_upvalue(&mut self) -> (r: Result<Signal, Fault>)
        requires
            old(self).wf(),
        ensures
            final(self).wf(),
            match r {
                Ok(signal) => op_close_upvalue(old(self)@) == Ok::<_, Fault>(
                    (final(self)@, signal),
                ),
                Err(e) => op_close_upvalue(old(self)@) == Err::<(Machine, Signal), _>(e)
                    && old(self)@.spared(final(self)@),
            },
    {
        reveal(op_close_upvalue);
        reveal(Machine::drop);
        let depth: usize = self.stack.len();
        if depth == 0 {
            return Err(Fault::StackUnderflow);
        }
        self.close_upvalues(depth - 1);
        self.drop(1)?;
        Ok(Signal::Continue)
    }

    /// Makes a closure and pushes it.
    pub fn op_closure(&mut self, code: &Vec<FunctionObject>, f: usize) -> (r: Result<Signal, Fault>)
        requires
            old(self).wf(),
        ensures
            final(self).wf(),
            match r {
                Ok(signal) => op_closure(code@, f, old(self)@) == Ok::<_, Fault>(
                    (final(self)@, signal),
                ),
                Err(e) => op_closure(code@, f, old(self)@) == Err::<(Machine, Signal), _>(e)
                    && old(self)@.spared(final(self)@),
            },
    {
        reveal(op_closure);
        let function: usize = match self.read_constant(code, f)? {
            Value::Function(function) => function,
            _ => {
                return Err(Fault::BadConstant);
            },
        };
        if function >= code.len() {
            return Err(Fault::BadConstant);
        }
        let count: usize = code[function].upvalue_count;
        let mut closure = ClosureObject::new(function);
        let ghost goal = op_closure(code@, f, old(self)@);
        while closure.upvalues.len() < count
            invariant
                self.wf(),
                closure.function == function,
                function < code@.len(),
                count == code@[function as int].upvalue_count,
                goal == op_closure(code@, f, old(self)@),
                goal == close_over(code@, f, self@, function, closure.upvalues@),
                old(self)@.lasts_in(self@),
                self@.stack.len() == old(self)@.stack.len(),
            decreases count - closure.upvalues@.len(),
        {
            reveal(Machine::read_byte);
            let is_local: u8 = self.read_byte(code, f)?;
            let index: u8 = self.read_byte(code, f)?;
            if is_local == 1 {
                let base: usize = self.frames[self.frames.len() - 1].sp;
                if base > usize::MAX - index as usize {
                    return Err(Fault::StackUnderflow);
                }
                let cell: usize = self.capture_upvalue(base + index as usize);
                closure.upvalues.push(cell);
            } else {
                let cell: usize = self.cell_of(index as usize)?;
                closure.upvalues.push(cell);
            }
        }
        let value: Value = self.alloc_closure(closure);
        self.push(value)?;
        Ok(Signal::Continue)
    }
}

} // verus!
