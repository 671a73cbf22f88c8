//! Classes, instances and bound methods.
use vstd::prelude::*;
use super::basic::proceed;
use super::machine::{Code, Fault, Machine, Signal, Step};
use super::state::State;
use super::value::{Value, STACK_LEN};
use crate::compiler::object::{BoundMethodObject, FunctionObject};

verus! {

/// Replaces the top of the stack, the receiver, with the method `text` of
/// `class` bound to it; with `null` if the class has no such method.
#[verifier::opaque]
pub open spec fn bind(m: Machine, class: usize, text: Seq<char>) -> Step {
    match m.method_called(class, text) {
        Some(Value::Closure(method)) => match m.peek(0) {
            Err(e) => Err(e),
            Ok(reciever) => {
                let (m1, bound) = m.alloc_bound(BoundMethodObject { reciever, method });
                proceed(m1.set_top(bound))
            },
        },
        _ => proceed(m.set_top(Value::Null)),
    }
}

/// Pushes a new class with the name that the operand gives and no methods.
#[verifier::opaque]
pub open spec fn op_class(code: Code, f: usize, m: Machine) -> Step {
    match m.read_string(code, f) {
        Err(e) => Err(e),
        Ok((m1, name)) => {
            let (m2, class) = m1.alloc_class(m1.strings[name as int]);
            proceed(m2.push(class))
        },
    }
}

/// Replaces the instance on top of the stack with its field of the name
/// that the operand gives; without such a field, with the method of that name
/// bound to the instance; without such a method, with `null`.
#[verifier::opaque]
pub open spec fn op_get_prop(code: Code, f: usize, m: Machine) -> Step {
    match m.peek(0) {
        Err(e) => Err(e),
        Ok(receiver) => match m.read_string(code, f) {
            Err(e) => Err(e),
            Ok((m1, name)) => match m1.instance(receiver) {
                Err(e) => Err(e),
                Ok(instance) => match m1.field(instance, name) {
                    Some(value) => proceed(m1.set_top(value)),
                    None => bind(
                        m1,
                        m1.instances[instance as int].class,
                        m1.strings[name as int],
                    ),
                },
            },
        },
    }
}

/// Sets the field, of the name that the operand gives, of the instance below
/// the top of the stack to the value on top; the instance leaves the stack,
/// the value stays.
#[verifier::opaque]
pub open spec fn op_set_prop(code: Code, f: usize, m: Machine) -> Step {
    match m.peek(1) {
        Err(e) => Err(e),
        Ok(receiver) => match m.read_string(code, f) {
            Err(e) => Err(e),
            Ok((m1, name)) => match m1.peek(0) {
                Err(e) => Err(e),
                Ok(value) => match m1.instance(receiver) {
                    Err(e) => Err(e),
                    Ok(instance) => match m1.set_field(instance, name, value).drop(2) {
                        Err(e) => Err(e),
                        Ok(m2) => proceed(m2.push(value)),
                    },
                },
            },
        },
    }
}

/// Adds the closure on top of the stack, which leaves it, as the method of
/// the name that the operand gives to the class below it.
#[verifier::opaque]
pub open spec fn op_method(code: Code, f: usize, m: Machine) -> Step {
    match m.read_string(code, f) {
        Err(e) => Err(e),
        Ok((m1, name)) => match m1.peek(0) {
            Err(e) => Err(e),
            Ok(method) => match m1.peek(1) {
                Err(e) => Err(e),
                Ok(holder) => match m1.class(holder) {
                    Err(e) => Err(e),
                    Ok(class) => proceed(m1.set_method(class, name, method).drop(1)),
                },
            },
        },
    }
}

/// Gives the class on top of the stack, which leaves it, the methods of the
/// class below it.
#[verifier::opaque]
pub open spec fn op_inherit(m: Machine) -> Step {
    match m.peek(1) {
        Err(e) => Err(e),
        Ok(above) => match m.class(above) {
            Err(e) => Err(e),
            Ok(parent) => match m.peek(0) {
                Err(e) => Err(e),
                Ok(below) => match m.class(below) {
                    Err(e) => Err(e),
                    Ok(sub) => proceed(m.inherit(parent, sub).drop(1)),
                },
            },
        },
    }
}

/// Pops the superclass and replaces the receiver below it with the method,
/// of the name that the operand gives, of the superclass bound to it.
#[verifier::opaque]
pub open spec fn op_get_super(code: Code, f: usize, m: Machine) -> Step {
    match m.pop() {
        Err(e) => Err(e),
        Ok((m1, above)) => match m1.read_string(code, f) {
            Err(e) => Err(e),
            Ok((m2, name)) => match m2.class(above) {
                Err(e) => Err(e),
                Ok(class) => bind(m2, class, m2.strings[name as int]),
            },
        },
    }
}

impl State {
    /// Replaces the receiver on top of the stack with a method bound to it.
    pub fn bind_method(&mut self, class: usize, text: &String) -> (r: Result<Signal, Fault>)
        requires
            old(self).wf(),
            class < old(self)@.classes.len(),
        ensures
            final(self).wf(),
            match r {
                Ok(signal) => bind(old(self)@, class, text@) == Ok::<_, Fault>(
                    (final(self)@, signal),
                ),
                Err(e) => bind(old(self)@, class, text@) == Err::<(Machine, Signal), _>(e)
                    && old(self)@.spared(final(self)@),
            },
    {
        reveal(bind);
        match self.method_called(class, text) {
            Some(Value::Closure(method)) => {
                let reciever: Value = self.peek(0)?;
                let bound: Value = self.alloc_bound(BoundMethodObject::new(reciever, method));
                self.set_top(bound)?;
                Ok(Signal::Continue)
            },
            _ => {
                self.set_top(Value::Null)?;
                Ok(Signal::Continue)
            },
        }
    }

    /// Pushes a new class.
    pub fn op_class(&mut self, code: &Vec<FunctionObject>, f: usize) -> (r: Result<Signal, Fault>)
        requires
            old(self).wf(),
        ensures
            final(self).wf(),
            match r {
                Ok(signal) => op_class(code@, f, old(self)@) == Ok::<_, Fault>(
                    (final(self)@, signal),
                ),
                Err(e) => op_class(code@, f, old(self)@) == Err::<(Machine, Signal), _>(e)
                    && old(self)@.spared(final(self)@),
            },
    {
        reveal(op_class);
        let name: usize = self.read_string(code, f)?;
        let text = self.strings[name].clone();
        let class: Value = self.alloc_class(text);
        self.push(class)?;
        Ok(Signal::Continue)
    }

    /// Reads a property of the instance on top of the stack.
    pub fn op_get_prop(&mut self, code: &Vec<FunctionObject>, f: usize) -> (r: Result<
        Signal,
        Fault,
    >)
        requires
            old(self).wf(),
        ensures
            final(self).wf(),
            match r {
                Ok(signal) => op_get_prop(code@, f, old(self)@) == Ok::<_, Fault>(
                    (final(self)@, signal),
                ),
                Err(e) => op_get_prop(code@, f, old(self)@) == Err::<(Machine, Signal), _>(e)
                    && old(self)@.spared(final(self)@),
            },
    {
        reveal(op_get_prop);
        let receiver: Value = self.peek(0)?;
        let name: usize = self.read_string(code, f)?;
        let instance: usize = self.instance(receiver)?;
        match self.field(instance, name) {
            Some(value) => {
                self.set_top(value)?;
                Ok(Signal::Continue)
            },
            None => {
                let class: usize = self.instances[instance].class;
                let text = self.strings[name].clone();
                self.bind_method(class, &text)
            },
        }
    }

    /// Sets a field of the instance below the top of the stack.
    pub fn op_set_prop(&mut self, code: &Vec<FunctionObject>, f: usize) -> (r: Result<
        Signal,
        Fault,
    >)
        requires
            old(self).wf(),
        ensures
            final(self).wf(),
            match r {
                Ok(signal) => op_set_prop(code@, f, old(self)@) == Ok::<_, Fault>(
                    (final(self)@, signal),
                ),
                Err(e) => op_set_prop(code@, f, old(self)@) == Err::<(Machine, Signal), _>(e)
                    && old(self)@.spared(final(self)@),
            },
    {
        reveal(op_set_prop);
        reveal(Machine::set_field);
        reveal(Machine::drop);
        reveal(Machine::push);
        let receiver: Value = self.peek(1)?;
        let name: usize = self.read_string(code, f)?;
        let value: Value = self.peek(0)?;
        let instance: usize = self.instance(receiver)?;
        if self.stack.len() - 2 >= STACK_LEN {
            return Err(Fault::StackOverflow);
        }
        self.set_field(instance, name, value);
        self.drop(2)?;
        self.push(value)?;
        Ok(Signal::Continue)
    }

    /// Adds a method to the class below the top of the stack.
    pub fn op_method(&mut self, code: &Vec<FunctionObject>, f: usize) -> (r: Result<Signal, Fault>)
        requires
            old(self).wf(),
        ensures
            final(self).wf(),
            match r {
                Ok(signal) => op_method(code@, f, old(self)@) == Ok::<_, Fault>(
                    (final(self)@, signal),
                ),
                Err(e) => op_method(code@, f, old(self)@) == Err::<(Machine, Signal), _>(e)
                    && old(self)@.spared(final(self)@),
            },
    {
        reveal(op_method);
        reveal(Machine::drop);
        reveal(Machine::push);
        let name: usize = self.read_string(code, f)?;
        let method: Value = self.peek(0)?;
        let holder: Value = self.peek(1)?;
        let class: usize = self.class(holder)?;
        self.set_method(class, name, method);
        self.drop(1)?;
        Ok(Signal::Continue)
    }

    /// Copies the methods of the class below the top of the stack into the
    /// class on top.
    pub fn op_inherit(&mut self) -> (r: Result<Signal, Fault>)
        requires
            old(self).wf(),
        ensures
            final(self).wf(),
            match r {
                Ok(signal) => op_inherit(old(self)@) == Ok::<_, Fault>((final(self)@, signal)),
                Err(e) => op_inherit(old(self)@) == Err::<(Machine, Signal), _>(e)
                    && old(self)@.spared(final(self)@),
            },
    {
        reveal(op_inherit);
        reveal(Machine::drop);
        reveal(Machine::push);
        let above: Value = self.peek(1)?;
        let parent: usize = self.class(above)?;
        let below: Value = self.peek(0)?;
        let sub: usize = self.class(below)?;
        self.inherit(parent, sub);
        self.drop(1)?;
        Ok(Signal::Continue)
    }

    /// Binds a method of the superclass to the receiver.
    pub fn op_get_super(&mut self, code: &Vec<FunctionObject>, f: usize) -> (r: Result<
        Signal,
        Fault,
    >)
        requires
            old(self).wf(),
        ensures
            final(self).wf(),
            match r {
                Ok(signal) => op_get_super(code@, f, old(self)@) == Ok::<_, Fault>(
                    (final(self)@, signal),
                ),
                Err(e) => op_get_super(code@, f, old(self)@) == Err::<(Machine, Signal), _>(e)
                    && old(self)@.spared(final(self)@),
            },
    {
        reveal(op_get_super);
        let above: Value = self.pop()?;
        let name: usize = self.read_string(code, f)?;
        let class: usize = self.class(above)?;
        let text = self.strings[name].clone();
        self.bind_method(class, &text)
    }
}

} // verus!
