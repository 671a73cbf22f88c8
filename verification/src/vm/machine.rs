//! The machine as a mathematical state, and what each elementary operation
//! makes of it.
//!
//! The executable machine is proved to do to its state exactly what the
//! functions of this module and of `semantics` say.
use vstd::prelude::*;
use super::frame::CallFrame;
use super::value::{constant_at, Timestamp, Value, STACK_LEN};
use crate::compiler::object::{BoundMethodObject, FunctionObject, UpvalueObject};

verus! {

/// Most calls that can be in progress at once.
pub const FRAME_MAX: usize = 256;

/// Why execution stopped with an error.
#[derive(Debug, Clone, Copy, PartialEq, Eq, Structural)]
pub enum Fault {
    /// The value stack is full.
    StackOverflow,
    /// A value was needed and the stack, or the frame, does not hold it.
    StackUnderflow,
    /// Too many calls are in progress.
    FrameOverflow,
    /// The code ends inside an instruction, or a jump leaves it.
    TruncatedCode,
    /// A constant is not of the kind that the instruction needs.
    BadConstant,
    /// A value refers to an object that does not exist.
    DanglingReference,
    /// An operator was applied to operands it does not support.
    TypeMismatch,
    /// Integer division or remainder by zero.
    DivideByZero,
    /// An integer result does not fit in 64 bits.
    IntegerOverflow,
    /// The callee is not a function, a class, a method or a built-in.
    NotCallable,
    /// The number of arguments differs from the number of parameters.
    ArityMismatch,
    /// A global variable was read before it was defined.
    UndefinedGlobal,
    /// An array was expected.
    NotAnArray,
    /// An integer was expected.
    NotAnInteger,
    /// An array element was assigned outside the array.
    IndexOutOfRange,
    /// An instance was expected.
    NotAnInstance,
    /// A class was expected.
    NotAClass,
    /// The class has no method of that name.
    UndefinedMethod,
    /// A built-in function was given arguments it cannot work on.
    BadArguments,
    /// The machine waits for the host's answer to its last request, or got
    /// an answer it had not asked for.
    HostOutOfTurn,
}

/// An operation on numbers that the host computes in floating point.
#[derive(Debug, Clone, Copy, PartialEq, Eq, Structural)]
pub enum FloatOp {
    Add,
    Subtract,
    Multiply,
    Divide,
    Remainder,
    Power,
    Equal,
}

/// What the machine waits for after a request to the host.
#[derive(Debug, Clone, Copy, PartialEq, Eq, Structural)]
pub enum Pending {
    Nothing,
    /// A float: the result of an arithmetic operation.
    Number,
    /// A truth value: the result of a comparison.
    Truth,
    /// Text: the rendering of the pieces in the output buffer.
    Text,
}

/// How execution ended.
#[derive(Debug, Clone, Copy, PartialEq, Eq, Structural)]
pub enum Outcome {
    /// The script returned.
    Returned,
    /// The code ran out.
    End,
    /// An unknown instruction was met.
    CompileError,
    /// A runtime error.
    Error(Fault),
}

/// What one step of the machine asks of whoever drives it.
#[derive(Debug, Clone, Copy, PartialEq, Eq, Structural)]
pub enum Signal {
    /// Nothing: take the next step.
    Continue,
    /// Execution is over.
    Done(Outcome),
    /// Write the pieces in the output buffer, and a line end, to the standard
    /// output; then take the next step.
    Print,
    /// Render the pieces in the output buffer as text and resume with it.
    Text,
    /// Compute the operation on the two numbers and resume with the result:
    /// a float, or for `Equal` a truth value.
    Float(FloatOp, Value, Value),
}

/// A piece of text to be written: literal text, or a float that the host
/// formats.
#[derive(Debug)]
pub enum Piece {
    Text(String),
    Float(u64),
}

pub enum PieceView {
    Text(Seq<char>),
    Float(u64),
}

impl View for Piece {
    type V = PieceView;

    open spec fn view(&self) -> PieceView {
        match self {
            Piece::Text(text) => PieceView::Text(text@),
            Piece::Float(bits) => PieceView::Float(*bits),
        }
    }
}

pub struct ClosureView {
    pub function: usize,
    pub upvalues: Seq<usize>,
}

pub struct ClassView {
    pub name: Seq<char>,
    pub methods: Map<Seq<char>, Value>,
}

pub struct InstanceView {
    pub class: usize,
    pub fields: Map<Seq<char>, Value>,
}

/// The state of the machine.
pub struct Machine {
    pub stack: Seq<Value>,
    pub frames: Seq<CallFrame>,
    pub globals: Map<Seq<char>, Value>,
    /// Handles of the open upvalue cells, the highest stack slot first.
    pub open: Seq<usize>,
    pub strings: Seq<Seq<char>>,
    pub arrays: Seq<Seq<Value>>,
    pub closures: Seq<ClosureView>,
    pub upvalues: Seq<UpvalueObject>,
    pub classes: Seq<ClassView>,
    pub instances: Seq<InstanceView>,
    pub bound_methods: Seq<BoundMethodObject>,
    pub output: Seq<PieceView>,
    pub pending: Pending,
    /// The last reading of the clock.
    pub clock: Timestamp,
}

/// Every item of `before` is an item of `after`, at its place and as it was.
pub open spec fn grown<T>(before: Seq<T>, after: Seq<T>) -> bool {
    before.len() <= after.len() && forall|i: int|
        0 <= i < before.len() ==> #[trigger] after[i] == before[i]
}

impl Machine {
    /// What there was in `self` is in `after` as it was: the global
    /// variables, and every string, array, closure, cell, class, instance
    /// and bound method; objects may have been added.  No call was started
    /// and none has ended.
    pub open spec fn lasts_in(self, after: Machine) -> bool {
        &&& after.globals == self.globals
        &&& after.frames.len() == self.frames.len()
        &&& grown(self.strings, after.strings)
        &&& grown(self.arrays, after.arrays)
        &&& grown(self.closures, after.closures)
        &&& grown(self.upvalues, after.upvalues)
        &&& grown(self.classes, after.classes)
        &&& grown(self.instances, after.instances)
        &&& grown(self.bound_methods, after.bound_methods)
    }

    /// What a step that faults leaves behind: what there was is as it was,
    /// and nothing was pushed.
    pub open spec fn spared(self, after: Machine) -> bool {
        self.lasts_in(after) && after.stack.len() <= self.stack.len()
    }
}

pub type Code = Seq<FunctionObject>;

/// What a step gives: the next state and a signal, or a fault.
pub type Step = Result<(Machine, Signal), Fault>;

impl Machine {
    /// A machine with nothing on the stack, no frame and an empty heap over
    /// the given strings.
    pub open spec fn empty(strings: Seq<Seq<char>>) -> Machine {
        Machine {
            stack: Seq::empty(),
            frames: Seq::empty(),
            globals: Map::empty(),
            open: Seq::empty(),
            strings,
            arrays: Seq::empty(),
            closures: Seq::empty(),
            upvalues: Seq::empty(),
            classes: Seq::empty(),
            instances: Seq::empty(),
            bound_methods: Seq::empty(),
            output: Seq::empty(),
            pending: Pending::Nothing,
            clock: Timestamp { seconds: 0, nanos: 0, offset: 0 },
        }
    }

    /// The field `name` of an instance, if it has one.
    pub open spec fn field(self, instance: usize, name: usize) -> Option<Value> {
        if self.instances[instance as int].fields.contains_key(self.strings[name as int]) {
            Some(self.instances[instance as int].fields[self.strings[name as int]])
        } else {
            None
        }
    }

    /// The method of a class that is called `text`, if it has one.
    pub open spec fn method_called(self, class: usize, text: Seq<char>) -> Option<Value> {
        if self.classes[class as int].methods.contains_key(text) {
            Some(self.classes[class as int].methods[text])
        } else {
            None
        }
    }

    /// The method `name` of a class, if it has one.
    pub open spec fn method(self, class: usize, name: usize) -> Option<Value> {
        self.method_called(class, self.strings[name as int])
    }

    /// The frame of the call now running.
    pub open spec fn frame(self) -> CallFrame {
        self.frames.last()
    }

    /// Index of the function that the current frame runs, if the frame, its
    /// closure and the function exist.
    pub open spec fn running(self, code: Code) -> Option<usize> {
        if self.frames.len() > 0 && self.frame().closure < self.closures.len()
            && self.closures[self.frame().closure as int].function < code.len() {
            Some(self.closures[self.frame().closure as int].function)
        } else {
            None
        }
    }

    pub open spec fn set_ip(self, ip: usize) -> Machine {
        Machine {
            frames: self.frames.update(
                self.frames.len() - 1,
                CallFrame { ip, ..self.frame() },
            ),
            ..self
        }
    }

    /// The value `distance` places below the top of the stack.
    pub open spec fn peek(self, distance: int) -> Result<Value, Fault> {
        if 0 <= distance < self.stack.len() {
            Ok(self.stack[self.stack.len() - 1 - distance])
        } else {
            Err(Fault::StackUnderflow)
        }
    }

    /// The value in stack slot `index`.
    pub open spec fn slot(self, index: int) -> Result<Value, Fault> {
        if 0 <= index < self.stack.len() {
            Ok(self.stack[index])
        } else {
            Err(Fault::StackUnderflow)
        }
    }

    #[verifier::opaque]
    pub open spec fn push(self, value: Value) -> Result<Machine, Fault> {
        if self.stack.len() >= STACK_LEN {
            Err(Fault::StackOverflow)
        } else {
            Ok(Machine { stack: self.stack.push(value), ..self })
        }
    }

    #[verifier::opaque]
    pub open spec fn pop(self) -> Result<(Machine, Value), Fault> {
        if self.stack.len() == 0 {
            Err(Fault::StackUnderflow)
        } else {
            Ok((Machine { stack: self.stack.drop_last(), ..self }, self.stack.last()))
        }
    }

    /// Drops the `count` topmost values.
    #[verifier::opaque]
    pub open spec fn drop(self, count: int) -> Result<Machine, Fault> {
        if 0 <= count <= self.stack.len() {
            Ok(Machine { stack: self.stack.take(self.stack.len() - count), ..self })
        } else {
            Err(Fault::StackUnderflow)
        }
    }

    #[verifier::opaque]
    pub open spec fn set_slot(self, index: int, value: Value) -> Result<Machine, Fault> {
        if 0 <= index < self.stack.len() {
            Ok(Machine { stack: self.stack.update(index, value), ..self })
        } else {
            Err(Fault::StackUnderflow)
        }
    }

    /// Replaces the top of the stack.
    pub open spec fn set_top(self, value: Value) -> Result<Machine, Fault> {
        self.set_slot(self.stack.len() - 1, value)
    }

    /// Reads the code byte at the instruction pointer and moves past it.
    #[verifier::opaque]
    pub open spec fn read_byte(self, code: Code, f: usize) -> Result<(Machine, u8), Fault> {
        if self.frames.len() > 0 && f < code.len() && self.frame().ip < code[f as int].chunk.code@.len() {
            Ok(
                (
                    self.set_ip((self.frame().ip + 1) as usize),
                    code[f as int].chunk.code@[self.frame().ip as int],
                ),
            )
        } else {
            Err(Fault::TruncatedCode)
        }
    }

    /// Reads a big-endian 16-bit operand.
    #[verifier::opaque]
    pub open spec fn read_jump(self, code: Code, f: usize) -> Result<(Machine, usize), Fault> {
        match self.read_byte(code, f) {
            Err(e) => Err(e),
            Ok((m1, high)) => match m1.read_byte(code, f) {
                Err(e) => Err(e),
                Ok((m2, low)) => Ok((m2, (high as int * 256 + low as int) as usize)),
            },
        }
    }

    /// Reads a one-byte operand and gives the constant it names.
    #[verifier::opaque]
    pub open spec fn read_constant(self, code: Code, f: usize) -> Result<(Machine, Value), Fault> {
        match self.read_byte(code, f) {
            Err(e) => Err(e),
            Ok((m1, index)) => Ok((m1, constant_at(code[f as int].chunk.constants@, index as int))),
        }
    }

    /// Reads a one-byte operand that names a string constant and gives the
    /// handle of the string.
    #[verifier::opaque]
    pub open spec fn read_string(self, code: Code, f: usize) -> Result<(Machine, usize), Fault> {
        match self.read_constant(code, f) {
            Err(e) => Err(e),
            Ok((m1, Value::String(handle))) => if handle < self.strings.len() {
                Ok((m1, handle))
            } else {
                Err(Fault::DanglingReference)
            },
            Ok(_) => Err(Fault::BadConstant),
        }
    }

    /// Moves the instruction pointer forward by `distance`.
    #[verifier::opaque]
    pub open spec fn jump(self, distance: int) -> Result<Machine, Fault> {
        if self.frames.len() > 0 && 0 <= self.frame().ip + distance <= usize::MAX {
            Ok(self.set_ip((self.frame().ip + distance) as usize))
        } else {
            Err(Fault::TruncatedCode)
        }
    }

    #[verifier::opaque]
    pub open spec fn push_frame(self, frame: CallFrame) -> Result<Machine, Fault> {
        if self.frames.len() >= FRAME_MAX {
            Err(Fault::FrameOverflow)
        } else {
            Ok(Machine { frames: self.frames.push(frame), ..self })
        }
    }

    #[verifier::opaque]
    pub open spec fn alloc_string(self, text: Seq<char>) -> (Machine, Value) {
        (
            Machine { strings: self.strings.push(text), ..self },
            Value::String(self.strings.len() as usize),
        )
    }

    #[verifier::opaque]
    pub open spec fn alloc_array(self, items: Seq<Value>) -> (Machine, Value) {
        (
            Machine { arrays: self.arrays.push(items), ..self },
            Value::Array(self.arrays.len() as usize),
        )
    }

    #[verifier::opaque]
    pub open spec fn alloc_closure(self, closure: ClosureView) -> (Machine, Value) {
        (
            Machine { closures: self.closures.push(closure), ..self },
            Value::Closure(self.closures.len() as usize),
        )
    }

    #[verifier::opaque]
    pub open spec fn alloc_class(self, name: Seq<char>) -> (Machine, Value) {
        (
            Machine {
                classes: self.classes.push(ClassView { name, methods: Map::empty() }),
                ..self
            },
            Value::Class(self.classes.len() as usize),
        )
    }

    #[verifier::opaque]
    pub open spec fn alloc_instance(self, class: usize) -> (Machine, Value) {
        (
            Machine {
                instances: self.instances.push(InstanceView { class, fields: Map::empty() }),
                ..self
            },
            Value::Instance(self.instances.len() as usize),
        )
    }

    #[verifier::opaque]
    pub open spec fn alloc_bound(self, bound: BoundMethodObject) -> (Machine, Value) {
        (
            Machine { bound_methods: self.bound_methods.push(bound), ..self },
            Value::BoundMethod(self.bound_methods.len() as usize),
        )
    }

    /// The items of the array that `value` refers to.
    pub open spec fn array(self, value: Value) -> Result<Seq<Value>, Fault> {
        match value {
            Value::Array(handle) => if handle < self.arrays.len() {
                Ok(self.arrays[handle as int])
            } else {
                Err(Fault::DanglingReference)
            },
            _ => Err(Fault::NotAnArray),
        }
    }

    /// The handle of the class that `value` refers to.
    pub open spec fn class(self, value: Value) -> Result<usize, Fault> {
        match value {
            Value::Class(handle) => if handle < self.classes.len() {
                Ok(handle)
            } else {
                Err(Fault::DanglingReference)
            },
            _ => Err(Fault::NotAClass),
        }
    }

    /// The handle of the instance that `value` refers to, if its class exists
    /// too.
    pub open spec fn instance(self, value: Value) -> Result<usize, Fault> {
        match value {
            Value::Instance(handle) => if handle < self.instances.len()
                && self.instances[handle as int].class < self.classes.len() {
                Ok(handle)
            } else {
                Err(Fault::DanglingReference)
            },
            _ => Err(Fault::NotAnInstance),
        }
    }

    /// The handle of the closure that `value` refers to, if its function
    /// exists too.
    pub open spec fn closure(self, code: Code, value: Value) -> Result<usize, Fault> {
        match value {
            Value::Closure(handle) => if handle < self.closures.len()
                && self.closures[handle as int].function < code.len() {
                Ok(handle)
            } else {
                Err(Fault::DanglingReference)
            },
            _ => Err(Fault::NotCallable),
        }
    }

    #[verifier::opaque]
    pub open spec fn define_global(self, name: usize, value: Value) -> Machine {
        Machine { globals: self.globals.insert(self.strings[name as int], value), ..self }
    }

    pub open spec fn global(self, name: usize) -> Result<Value, Fault> {
        if self.globals.contains_key(self.strings[name as int]) {
            Ok(self.globals[self.strings[name as int]])
        } else {
            Err(Fault::UndefinedGlobal)
        }
    }

    #[verifier::opaque]
    pub open spec fn set_field(self, instance: usize, name: usize, value: Value) -> Machine {
        Machine {
            instances: self.instances.update(
                instance as int,
                InstanceView {
                    fields: self.instances[instance as int].fields.insert(
                        self.strings[name as int],
                        value,
                    ),
                    ..self.instances[instance as int]
                },
            ),
            ..self
        }
    }

    #[verifier::opaque]
    pub open spec fn set_method(self, class: usize, name: usize, value: Value) -> Machine {
        Machine {
            classes: self.classes.update(
                class as int,
                ClassView {
                    methods: self.classes[class as int].methods.insert(
                        self.strings[name as int],
                        value,
                    ),
                    ..self.classes[class as int]
                },
            ),
            ..self
        }
    }

    /// Gives the class `sub` every method of `parent` that it does not
    /// define itself.
    #[verifier::opaque]
    pub open spec fn inherit(self, parent: usize, sub: usize) -> Machine {
        Machine {
            classes: self.classes.update(
                sub as int,
                ClassView {
                    methods: self.classes[parent as int].methods.union_prefer_right(
                        self.classes[sub as int].methods,
                    ),
                    ..self.classes[sub as int]
                },
            ),
            ..self
        }
    }

    #[verifier::opaque]
    pub open spec fn set_item(self, array: usize, index: int, value: Value) -> Machine {
        Machine {
            arrays: self.arrays.update(array as int, self.arrays[array as int].update(index, value)),
            ..self
        }
    }
}

} // verus!
