//! The mutable state of the machine and its elementary operations, each
//! proved to do what `machine` says.
use vstd::prelude::*;
use super::frame::CallFrame;
use super::machine::{
    ClassView, ClosureView, Fault, InstanceView, Machine, Pending, Piece, PieceView, FRAME_MAX,
};
use super::members::Members;
use super::table::Table;
use super::value::{StackArray, Timestamp, Value, STACK_LEN};
use crate::compiler::object::{
    BoundMethodObject, ClassObject, ClosureObject, FunctionObject, InstanceObject, UpvalueObject,
};
use crate::compiler::strings_view;

verus! {

/// Everything that changes while a script runs: the value stack, the call
/// frames, the globals, the list of open upvalue cells, the heap of objects
/// that values refer to by handle, and the buffer through which text goes to
/// the host.
#[derive(Debug)]
pub struct State {
    pub stack: StackArray,
    pub globals: Table,
    pub frames: Vec<CallFrame>,
    pub open_upvalue: Vec<usize>,
    pub strings: Vec<String>,
    pub arrays: Vec<Vec<Value>>,
    pub closures: Vec<ClosureObject>,
    pub upvalues: Vec<UpvalueObject>,
    pub classes: Vec<ClassObject>,
    pub instances: Vec<InstanceObject>,
    pub bound_methods: Vec<BoundMethodObject>,
    pub output: Vec<Piece>,
    pub pending: Pending,
    pub clock: Timestamp,
}

pub open spec fn arrays_view(arrays: Seq<Vec<Value>>) -> Seq<Seq<Value>> {
    Seq::new(arrays.len(), |i: int| arrays[i]@)
}

pub open spec fn closures_view(closures: Seq<ClosureObject>) -> Seq<ClosureView> {
    Seq::new(
        closures.len(),
        |i: int| ClosureView { function: closures[i].function, upvalues: closures[i].upvalues@ },
    )
}

pub open spec fn classes_view(classes: Seq<ClassObject>) -> Seq<ClassView> {
    Seq::new(
        classes.len(),
        |i: int| ClassView { name: classes[i].name@, methods: classes[i].methods@ },
    )
}

pub open spec fn instances_view(instances: Seq<InstanceObject>) -> Seq<InstanceView> {
    Seq::new(
        instances.len(),
        |i: int| InstanceView { class: instances[i].class, fields: instances[i].fields@ },
    )
}

pub open spec fn pieces_view(pieces: Seq<Piece>) -> Seq<PieceView> {
    Seq::new(pieces.len(), |i: int| pieces[i]@)
}

impl View for State {
    type V = Machine;

    open spec fn view(&self) -> Machine {
        Machine {
            stack: self.stack@,
            frames: self.frames@,
            globals: self.globals@,
            open: self.open_upvalue@,
            strings: strings_view(self.strings@),
            arrays: arrays_view(self.arrays@),
            closures: closures_view(self.closures@),
            upvalues: self.upvalues@,
            classes: classes_view(self.classes@),
            instances: instances_view(self.instances@),
            bound_methods: self.bound_methods@,
            output: pieces_view(self.output@),
            pending: self.pending,
            clock: self.clock,
        }
    }
}

impl State {
    /// The representation invariant: every dictionary is well formed.
    pub open spec fn wf(&self) -> bool {
        &&& forall|i: int| 0 <= i < self.classes@.len() ==> (#[trigger] self.classes@[i]).methods.wf()
        &&& forall|i: int|
            0 <= i < self.instances@.len() ==> (#[trigger] self.instances@[i]).fields.wf()
    }

    /// A state with nothing on the stack, no frame and an empty heap over the
    /// given strings.
    pub fn new(strings: Vec<String>) -> (r: Self)
        ensures
            r.wf(),
            r@ == Machine::empty(strings_view(strings@)),
    {
        let state = State {
            stack: StackArray::new(),
            globals: Table::new(),
            frames: Vec::new(),
            open_upvalue: Vec::new(),
            strings,
            arrays: Vec::new(),
            closures: Vec::new(),
            upvalues: Vec::new(),
            classes: Vec::new(),
            instances: Vec::new(),
            bound_methods: Vec::new(),
            output: Vec::new(),
            pending: Pending::Nothing,
            clock: Timestamp { seconds: 0, nanos: 0, offset: 0 },
        };
        assert(state@.arrays =~= Seq::empty());
        assert(state@.closures =~= Seq::empty());
        assert(state@.classes =~= Seq::empty());
        assert(state@.instances =~= Seq::empty());
        assert(state@.output =~= Seq::empty());
        state
    }

    pub fn push(&mut self, value: Value) -> (r: Result<(), Fault>)
        requires
            old(self).wf(),
        ensures
            final(self).wf(),
            old(self)@.lasts_in(final(self)@),
            final(self)@.stack.len() == old(self)@.stack.len() + (if r is Ok { 1int } else { 0int }),
            final(self)@.frames == old(self)@.frames,
            match r {
                Ok(()) => old(self)@.push(value) == Ok::<_, Fault>(final(self)@),
                Err(e) => old(self)@.push(value) == Err::<Machine, _>(e) && final(self)@ == old(
                    self,
                )@,
            },
    {
        reveal(Machine::push);
        if self.stack.len() >= STACK_LEN {
            return Err(Fault::StackOverflow);
        }
        self.stack.push(value);
        Ok(())
    }

    pub fn pop(&mut self) -> (r: Result<Value, Fault>)
        requires
            old(self).wf(),
        ensures
            final(self).wf(),
            old(self)@.lasts_in(final(self)@),
            final(self)@.stack.len() == old(self)@.stack.len() - (if r is Ok { 1int } else { 0int }),
            final(self)@.frames == old(self)@.frames,
            match r {
                Ok(value) => old(self)@.pop() == Ok::<_, Fault>((final(self)@, value)),
                Err(e) => old(self)@.pop() == Err::<(Machine, Value), _>(e) && final(self)@
                    == old(self)@,
            },
    {
        reveal(Machine::pop);
        if self.stack.len() == 0 {
            return Err(Fault::StackUnderflow);
        }
        Ok(self.stack.pop())
    }

    /// Drops the `count` topmost values.
    pub fn drop(&mut self, count: usize) -> (r: Result<(), Fault>)
        requires
            old(self).wf(),
        ensures
            final(self).wf(),
            old(self)@.lasts_in(final(self)@),
            final(self)@.stack.len() == old(self)@.stack.len() - (if r is Ok { count as int } else { 0int }),
            final(self)@.frames == old(self)@.frames,
            match r {
                Ok(()) => old(self)@.drop(count as int) == Ok::<_, Fault>(final(self)@),
                Err(e) => old(self)@.drop(count as int) == Err::<Machine, _>(e) && final(self)@
                    == old(self)@,
            },
    {
        reveal(Machine::drop);
        if count > self.stack.len() {
            return Err(Fault::StackUnderflow);
        }
        self.stack.set_index(self.stack.len() - count);
        Ok(())
    }

    /// The value `distance` places below the top of the stack.
    pub fn peek(&self, distance: usize) -> (r: Result<Value, Fault>)
        ensures
            r == self@.peek(distance as int),
    {
        if distance < self.stack.len() {
            Ok(*self.stack.get(self.stack.len() - 1 - distance))
        } else {
            Err(Fault::StackUnderflow)
        }
    }

    /// The value in stack slot `index`.
    pub fn slot(&self, index: usize) -> (r: Result<Value, Fault>)
        ensures
            r == self@.slot(index as int),
    {
        if index < self.stack.len() {
            Ok(*self.stack.get(index))
        } else {
            Err(Fault::StackUnderflow)
        }
    }

    pub fn set_slot(&mut self, index: usize, value: Value) -> (r: Result<(), Fault>)
        requires
            old(self).wf(),
        ensures
            final(self).wf(),
            old(self)@.lasts_in(final(self)@),
            final(self)@.stack.len() == old(self)@.stack.len(),
            final(self)@.frames == old(self)@.frames,
            match r {
                Ok(()) => old(self)@.set_slot(index as int, value) == Ok::<_, Fault>(final(self)@),
                Err(e) => old(self)@.set_slot(index as int, value) == Err::<Machine, _>(e)
                    && final(self)@ == old(self)@,
            },
    {
        reveal(Machine::set_slot);
        if index >= self.stack.len() {
            return Err(Fault::StackUnderflow);
        }
        self.stack.set(index, value);
        Ok(())
    }

    /// Replaces the top of the stack.
    pub fn set_top(&mut self, value: Value) -> (r: Result<(), Fault>)
        requires
            old(self).wf(),
        ensures
            final(self).wf(),
            old(self)@.lasts_in(final(self)@),
            final(self)@.stack.len() == old(self)@.stack.len(),
            final(self)@.frames == old(self)@.frames,
            match r {
                Ok(()) => old(self)@.set_top(value) == Ok::<_, Fault>(final(self)@),
                Err(e) => old(self)@.set_top(value) == Err::<Machine, _>(e) && final(self)@
                    == old(self)@,
            },
    {
        reveal(Machine::set_slot);
        let depth: usize = self.stack.len();
        if depth == 0 {
            return Err(Fault::StackUnderflow);
        }
        self.set_slot(depth - 1, value)
    }

    /// Index of the function that the current frame runs.
    pub fn running(&self, code: &Vec<FunctionObject>) -> (r: Option<usize>)
        ensures
            r == self@.running(code@),
    {
        let depth: usize = self.frames.len();
        if depth == 0 {
            return None;
        }
        let handle: usize = self.frames[depth - 1].closure;
        if handle >= self.closures.len() {
            return None;
        }
        let function: usize = self.closures[handle].function;
        if function < code.len() {
            Some(function)
        } else {
            None
        }
    }

    /// Reads the code byte at the instruction pointer and moves past it.
    pub fn read_byte(&mut self, code: &Vec<FunctionObject>, f: usize) -> (r: Result<u8, Fault>)
        requires
            old(self).wf(),
        ensures
            final(self).wf(),
            old(self)@.lasts_in(final(self)@),
            final(self)@.stack.len() == old(self)@.stack.len(),
            final(self)@.stack == old(self)@.stack,
            match r {
                Ok(byte) => old(self)@.read_byte(code@, f) == Ok::<_, Fault>((final(self)@, byte)),
                Err(e) => old(self)@.read_byte(code@, f) == Err::<(Machine, u8), _>(e)
                    && final(self)@ == old(self)@,
            },
    {
        reveal(Machine::read_byte);
        let depth: usize = self.frames.len();
        if depth == 0 || f >= code.len() {
            return Err(Fault::TruncatedCode);
        }
        let ip: usize = self.frames[depth - 1].ip;
        let length: usize = code[f].chunk.get_instruction_len();
        match code[f].chunk.read_u8(ip) {
            Some(byte) => {
                assert(ip < length);
                self.frames[depth - 1].ip = ip + 1;
                assert(self@.frames =~= old(self)@.set_ip((ip + 1) as usize).frames);
                Ok(byte)
            },
            None => Err(Fault::TruncatedCode),
        }
    }

    /// Reads a big-endian 16-bit operand.
    pub fn read_jump(&mut self, code: &Vec<FunctionObject>, f: usize) -> (r: Result<usize, Fault>)
        requires
            old(self).wf(),
        ensures
            final(self).wf(),
            old(self)@.lasts_in(final(self)@),
            final(self)@.stack.len() == old(self)@.stack.len(),
            final(self)@.stack == old(self)@.stack,
            match r {
                Ok(distance) => old(self)@.read_jump(code@, f) == Ok::<_, Fault>(
                    (final(self)@, distance),
                ),
                Err(e) => old(self)@.read_jump(code@, f) == Err::<(Machine, usize), _>(e),
            },
    {
        reveal(Machine::read_jump);
        let high: u8 = self.read_byte(code, f)?;
        let low: u8 = self.read_byte(code, f)?;
        Ok(high as usize * 256 + low as usize)
    }

    /// Reads a one-byte operand and gives the constant it names.
    pub fn read_constant(&mut self, code: &Vec<FunctionObject>, f: usize) -> (r: Result<
        Value,
        Fault,
    >)
        requires
            old(self).wf(),
        ensures
            final(self).wf(),
            old(self)@.lasts_in(final(self)@),
            final(self)@.stack.len() == old(self)@.stack.len(),
            final(self)@.stack == old(self)@.stack,
            match r {
                Ok(value) => old(self)@.read_constant(code@, f) == Ok::<_, Fault>(
                    (final(self)@, value),
                ),
                Err(e) => old(self)@.read_constant(code@, f) == Err::<(Machine, Value), _>(e),
            },
    {
        reveal(Machine::read_constant);
        reveal(Machine::read_byte);
        let index: u8 = self.read_byte(code, f)?;
        Ok(code[f].chunk.get_constant(index as usize))
    }

    /// Reads a one-byte operand that names a string constant.
    pub fn read_string(&mut self, code: &Vec<FunctionObject>, f: usize) -> (r: Result<
        usize,
        Fault,
    >)
        requires
            old(self).wf(),
        ensures
            final(self).wf(),
            old(self)@.lasts_in(final(self)@),
            final(self)@.stack.len() == old(self)@.stack.len(),
            final(self)@.stack == old(self)@.stack,
            r matches Ok(handle) ==> handle < final(self)@.strings.len(),
            match r {
                Ok(handle) => old(self)@.read_string(code@, f) == Ok::<_, Fault>(
                    (final(self)@, handle),
                ),
                Err(e) => old(self)@.read_string(code@, f) == Err::<(Machine, usize), _>(e),
            },
    {
        reveal(Machine::read_string);
        let ghost before = self@;
        match self.read_constant(code, f)? {
            Value::String(handle) => {
                assert(self@.strings == before.strings) by {
                    reveal(Machine::read_constant);
                    reveal(Machine::read_byte);
                }
                if handle < self.strings.len() {
                    Ok(handle)
                } else {
                    Err(Fault::DanglingReference)
                }
            },
            _ => Err(Fault::BadConstant),
        }
    }

    /// Moves the instruction pointer forward by `distance`.
    pub fn jump_forward(&mut self, distance: usize) -> (r: Result<(), Fault>)
        requires
            old(self).wf(),
        ensures
            final(self).wf(),
            old(self)@.lasts_in(final(self)@),
            final(self)@.stack.len() == old(self)@.stack.len(),
            final(self)@.stack == old(self)@.stack,
            match r {
                Ok(()) => old(self)@.jump(distance as int) == Ok::<_, Fault>(final(self)@),
                Err(e) => old(self)@.jump(distance as int) == Err::<Machine, _>(e),
            },
    {
        reveal(Machine::jump);
        let depth: usize = self.frames.len();
        if depth == 0 {
            return Err(Fault::TruncatedCode);
        }
        let ip: usize = self.frames[depth - 1].ip;
        if distance > usize::MAX - ip {
            return Err(Fault::TruncatedCode);
        }
        self.frames[depth - 1].ip = ip + distance;
        assert(self@.frames =~= old(self)@.set_ip((ip + distance) as usize).frames);
        Ok(())
    }

    /// Moves the instruction pointer back by `distance`.
    pub fn jump_back(&mut self, distance: usize) -> (r: Result<(), Fault>)
        requires
            old(self).wf(),
        ensures
            final(self).wf(),
            old(self)@.lasts_in(final(self)@),
            final(self)@.stack.len() == old(self)@.stack.len(),
            final(self)@.stack == old(self)@.stack,
            match r {
                Ok(()) => old(self)@.jump(-(distance as int)) == Ok::<_, Fault>(final(self)@),
                Err(e) => old(self)@.jump(-(distance as int)) == Err::<Machine, _>(e),
            },
    {
        reveal(Machine::jump);
        let depth: usize = self.frames.len();
        if depth == 0 {
            return Err(Fault::TruncatedCode);
        }
        let ip: usize = self.frames[depth - 1].ip;
        if distance > ip {
            return Err(Fault::TruncatedCode);
        }
        self.frames[depth - 1].ip = ip - distance;
        assert(self@.frames =~= old(self)@.set_ip((ip - distance) as usize).frames);
        Ok(())
    }

    pub fn push_frame(&mut self, frame: CallFrame) -> (r: Result<(), Fault>)
        requires
            old(self).wf(),
        ensures
            final(self).wf(),
            r is Err ==> final(self)@ == old(self)@,
            final(self)@.stack == old(self)@.stack,
            match r {
                Ok(()) => old(self)@.push_frame(frame) == Ok::<_, Fault>(final(self)@),
                Err(e) => old(self)@.push_frame(frame) == Err::<Machine, _>(e),
            },
    {
        reveal(Machine::push_frame);
        if self.frames.len() >= FRAME_MAX {
            return Err(Fault::FrameOverflow);
        }
        self.frames.push(frame);
        Ok(())
    }

    pub fn alloc_string(&mut self, text: String) -> (r: Value)
        requires
            old(self).wf(),
        ensures
            final(self).wf(),
            old(self)@.lasts_in(final(self)@),
            final(self)@.stack == old(self)@.stack,
            final(self)@.frames == old(self)@.frames,
            old(self)@.alloc_string(text@) == (final(self)@, r),
    {
        reveal(Machine::alloc_string);
        let handle: usize = self.strings.len();
        self.strings.push(text);
        assert(self@.strings =~= old(self)@.strings.push(text@));
        Value::String(handle)
    }

    pub fn alloc_array(&mut self, items: Vec<Value>) -> (r: Value)
        requires
            old(self).wf(),
        ensures
            final(self).wf(),
            old(self)@.lasts_in(final(self)@),
            final(self)@.stack == old(self)@.stack,
            final(self)@.frames == old(self)@.frames,
            old(self)@.alloc_array(items@) == (final(self)@, r),
    {
        reveal(Machine::alloc_array);
        let handle: usize = self.arrays.len();
        self.arrays.push(items);
        assert(self@.arrays =~= old(self)@.arrays.push(items@));
        Value::Array(handle)
    }

    pub fn alloc_closure(&mut self, closure: ClosureObject) -> (r: Value)
        requires
            old(self).wf(),
        ensures
            final(self).wf(),
            old(self)@.lasts_in(final(self)@),
            final(self)@.stack == old(self)@.stack,
            final(self)@.frames == old(self)@.frames,
            old(self)@.alloc_closure(
                ClosureView { function: closure.function, upvalues: closure.upvalues@ },
            ) == (final(self)@, r),
    {
        reveal(Machine::alloc_closure);
        let handle: usize = self.closures.len();
        let ghost view = ClosureView { function: closure.function, upvalues: closure.upvalues@ };
        self.closures.push(closure);
        assert(self@.closures =~= old(self)@.closures.push(view));
        Value::Closure(handle)
    }

    pub fn alloc_class(&mut self, name: String) -> (r: Value)
        requires
            old(self).wf(),
        ensures
            final(self).wf(),
            old(self)@.lasts_in(final(self)@),
            final(self)@.stack == old(self)@.stack,
            final(self)@.frames == old(self)@.frames,
            old(self)@.alloc_class(name@) == (final(self)@, r),
    {
        reveal(Machine::alloc_class);
        let handle: usize = self.classes.len();
        self.classes.push(ClassObject::new(name));
        assert(self@.classes =~= old(self)@.classes.push(
            ClassView { name: name@, methods: Map::empty() },
        ));
        Value::Class(handle)
    }

    pub fn alloc_instance(&mut self, class: usize) -> (r: Value)
        requires
            old(self).wf(),
        ensures
            final(self).wf(),
            old(self)@.lasts_in(final(self)@),
            final(self)@.stack == old(self)@.stack,
            final(self)@.frames == old(self)@.frames,
            old(self)@.alloc_instance(class) == (final(self)@, r),
    {
        reveal(Machine::alloc_instance);
        let handle: usize = self.instances.len();
        self.instances.push(InstanceObject::new(class));
        assert(self@.instances =~= old(self)@.instances.push(
            InstanceView { class, fields: Map::empty() },
        ));
        Value::Instance(handle)
    }

    pub fn alloc_bound(&mut self, bound: BoundMethodObject) -> (r: Value)
        requires
            old(self).wf(),
        ensures
            final(self).wf(),
            old(self)@.lasts_in(final(self)@),
            final(self)@.stack == old(self)@.stack,
            final(self)@.frames == old(self)@.frames,
            old(self)@.alloc_bound(bound) == (final(self)@, r),
    {
        reveal(Machine::alloc_bound);
        let handle: usize = self.bound_methods.len();
        self.bound_methods.push(bound);
        Value::BoundMethod(handle)
    }

    /// The handle of the array that `value` refers to.
    pub fn array(&self, value: Value) -> (r: Result<usize, Fault>)
        ensures
            match r {
                Ok(handle) => value == Value::Array(handle) && handle < self@.arrays.len()
                    && self@.array(value) == Ok::<_, Fault>(self@.arrays[handle as int]),
                Err(e) => self@.array(value) == Err::<Seq<Value>, _>(e),
            },
    {
        match value {
            Value::Array(handle) => if handle < self.arrays.len() {
                Ok(handle)
            } else {
                Err(Fault::DanglingReference)
            },
            _ => Err(Fault::NotAnArray),
        }
    }

    /// The handle of the class that `value` refers to.
    pub fn class(&self, value: Value) -> (r: Result<usize, Fault>)
        ensures
            r == self@.class(value),
            r matches Ok(handle) ==> handle < self.classes@.len(),
    {
        match value {
            Value::Class(handle) => if handle < self.classes.len() {
                Ok(handle)
            } else {
                Err(Fault::DanglingReference)
            },
            _ => Err(Fault::NotAClass),
        }
    }

    /// The handle of the instance that `value` refers to.
    pub fn instance(&self, value: Value) -> (r: Result<usize, Fault>)
        ensures
            r == self@.instance(value),
            r matches Ok(handle) ==> handle < self.instances@.len()
                && self.instances@[handle as int].class < self.classes@.len(),
    {
        match value {
            Value::Instance(handle) => if handle < self.instances.len()
                && self.instances[handle].class < self.classes.len() {
                Ok(handle)
            } else {
                Err(Fault::DanglingReference)
            },
            _ => Err(Fault::NotAnInstance),
        }
    }

    /// The handle of the closure that `value` refers to.
    pub fn closure(&self, code: &Vec<FunctionObject>, value: Value) -> (r: Result<usize, Fault>)
        ensures
            r == self@.closure(code@, value),
            r matches Ok(handle) ==> handle < self.closures@.len()
                && self.closures@[handle as int].function < code@.len(),
    {
        match value {
            Value::Closure(handle) => if handle < self.closures.len()
                && self.closures[handle].function < code.len() {
                Ok(handle)
            } else {
                Err(Fault::DanglingReference)
            },
            _ => Err(Fault::NotCallable),
        }
    }

    pub fn define_global(&mut self, name: usize, value: Value)
        requires
            old(self).wf(),
            name < old(self)@.strings.len(),
        ensures
            final(self).wf(),
            final(self)@.stack == old(self)@.stack,
            final(self)@.frames == old(self)@.frames,
            final(self)@ == old(self)@.define_global(name, value),
    {
        reveal(Machine::define_global);
        let key = self.strings[name].clone();
        let _ = self.globals.insert(key, value);
    }

    pub fn global(&self, name: usize) -> (r: Result<Value, Fault>)
        requires
            self.wf(),
            name < self@.strings.len(),
        ensures
            r == self@.global(name),
    {
        match self.globals.find(&self.strings[name]) {
            Some(value) => Ok(*value),
            None => Err(Fault::UndefinedGlobal),
        }
    }

    /// The field `name` of an instance, if it has one.
    pub fn field(&self, instance: usize, name: usize) -> (r: Option<Value>)
        requires
            self.wf(),
            instance < self@.instances.len(),
            name < self@.strings.len(),
        ensures
            r == self@.field(instance, name),
    {
        match self.instances[instance].fields.find(&self.strings[name]) {
            Some(value) => Some(*value),
            None => None,
        }
    }

    /// The method `name` of a class, if it has one.
    pub fn method(&self, class: usize, name: usize) -> (r: Option<Value>)
        requires
            self.wf(),
            class < self@.classes.len(),
            name < self@.strings.len(),
        ensures
            r == self@.method(class, name),
    {
        match self.classes[class].methods.find(&self.strings[name]) {
            Some(value) => Some(*value),
            None => None,
        }
    }

    /// The method of a class that is called `text`, if it has one.
    pub fn method_called(&self, class: usize, text: &String) -> (r: Option<Value>)
        requires
            self.wf(),
            class < self@.classes.len(),
        ensures
            r == self@.method_called(class, text@),
    {
        match self.classes[class].methods.find(text) {
            Some(value) => Some(*value),
            None => None,
        }
    }

    /// Gives the class `sub` every method of `parent` that it does not
    /// define itself.
    pub fn inherit(&mut self, parent: usize, sub: usize)
        requires
            old(self).wf(),
            parent < old(self)@.classes.len(),
            sub < old(self)@.classes.len(),
        ensures
            final(self).wf(),
            final(self)@.stack == old(self)@.stack,
            final(self)@.frames == old(self)@.frames,
            final(self)@ == old(self)@.inherit(parent, sub),
    {
        reveal(Machine::inherit);
        let merged = Members::merged(&self.classes[parent].methods, &self.classes[sub].methods);
        self.classes[sub].methods = merged;
        assert(self@.classes =~= old(self)@.inherit(parent, sub).classes);
    }

    pub fn set_field(&mut self, instance: usize, name: usize, value: Value)
        requires
            old(self).wf(),
            instance < old(self)@.instances.len(),
            name < old(self)@.strings.len(),
        ensures
            final(self).wf(),
            final(self)@.stack == old(self)@.stack,
            final(self)@.frames == old(self)@.frames,
            final(self)@ == old(self)@.set_field(instance, name, value),
    {
        reveal(Machine::set_field);
        let key = self.strings[name].clone();
        let _ = self.instances[instance].fields.insert(key, value);
        assert(self@.instances =~= old(self)@.set_field(instance, name, value).instances);
    }

    pub fn set_method(&mut self, class: usize, name: usize, value: Value)
        requires
            old(self).wf(),
            class < old(self)@.classes.len(),
            name < old(self)@.strings.len(),
        ensures
            final(self).wf(),
            final(self)@.stack == old(self)@.stack,
            final(self)@.frames == old(self)@.frames,
            final(self)@ == old(self)@.set_method(class, name, value),
    {
        reveal(Machine::set_method);
        let key = self.strings[name].clone();
        let _ = self.classes[class].methods.insert(key, value);
        assert(self@.classes =~= old(self)@.set_method(class, name, value).classes);
    }

    pub fn set_item(&mut self, array: usize, index: usize, value: Value)
        requires
            old(self).wf(),
            array < old(self)@.arrays.len(),
            index < old(self)@.arrays[array as int].len(),
        ensures
            final(self).wf(),
            final(self)@.stack == old(self)@.stack,
            final(self)@.frames == old(self)@.frames,
            final(self)@ == old(self)@.set_item(array, index as int, value),
    {
        reveal(Machine::set_item);
        self.arrays[array][index] = value;
        assert(self@.arrays =~= old(self)@.set_item(array, index as int, value).arrays);
    }
}

} // verus!
