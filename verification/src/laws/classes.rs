//! Inheritance copies methods down, so that a subclass can override a method
//! without touching the superclass.
use vstd::prelude::*;
use crate::vm::calls::{enter, invoke_from_class};
use crate::vm::frame::CallFrame;
use crate::vm::machine::{Code, Fault, Machine, Signal, FRAME_MAX};
use crate::vm::value::Value;

verus! {

/// After a class has inherited from another, it has the methods of the
/// other, and a method then defined in it under the name of an inherited one
/// takes the place of the inherited one in the class, while the superclass
/// keeps its own: a call through `super` still finds the method of the
/// superclass.
pub proof fn lemma_override_keeps_super(
    m: Machine,
    parent: usize,
    sub: usize,
    name: usize,
    method: Value,
    other: Seq<char>,
)
    requires
        parent < m.classes.len(),
        sub < m.classes.len(),
        parent != sub,
        name < m.strings.len(),
    ensures
        ({
            let inherited = m.inherit(parent, sub);
            let overridden = inherited.set_method(sub, name, method);
            &&& inherited.method_called(sub, other) == if m.method_called(sub, other) is Some {
                m.method_called(sub, other)
            } else {
                m.method_called(parent, other)
            }
            &&& overridden.method(sub, name) == Some(method)
            &&& overridden.method_called(parent, other) == m.method_called(parent, other)
            &&& other != m.strings[name as int] ==> overridden.method_called(sub, other)
                == inherited.method_called(sub, other)
        }),
{
    reveal(Machine::inherit);
    reveal(Machine::set_method);
}

/// A call through the superclass starts the method of the superclass,
/// whatever the class of the receiver holds under that name: one frame is
/// pushed, which runs that method from its first instruction with the
/// receiver in its slot 0, and nothing else changes.  With as many calls in
/// progress as there may be, the call is a fault.
pub proof fn lemma_super_call_starts_its_method(
    code: Code,
    m: Machine,
    parent: usize,
    text: Seq<char>,
    argc: int,
    method: usize,
)
    requires
        parent < m.classes.len(),
        m.method_called(parent, text) == Some(Value::Closure(method)),
        0 <= argc < m.stack.len() <= usize::MAX,
        method < m.closures.len(),
        m.closures[method as int].function < code.len(),
        code[m.closures[method as int].function as int].arity == argc,
    ensures
        m.frames.len() < FRAME_MAX ==> invoke_from_class(code, m, parent, text, argc) == Ok::<
            _,
            Fault,
        >(
            (
                Machine {
                    frames: m.frames.push(
                        CallFrame { closure: method, ip: 0, sp: (m.stack.len() - argc - 1) as usize },
                    ),
                    ..m
                },
                Signal::Continue,
            ),
        ),
        m.frames.len() >= FRAME_MAX ==> invoke_from_class(code, m, parent, text, argc) == Err::<
            (Machine, Signal),
            _,
        >(Fault::FrameOverflow),
{
    reveal(invoke_from_class);
    reveal(enter);
    reveal(Machine::push_frame);
}

} // verus!
