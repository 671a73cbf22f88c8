//! Functions and the heap objects that the machine allocates.
use vstd::prelude::*;
use crate::vm::chunk::Chunk;
use crate::vm::members::Members;
use crate::vm::value::Value;

verus! {

/// A compiled function.
#[derive(Debug)]
pub struct FunctionObject {
    pub arity: i32,
    pub chunk: Chunk,
    pub name: String,
    pub upvalue_count: usize,
}

/// What contracts say of a compiled function.
pub struct FunctionView {
    pub arity: int,
    pub code: Seq<u8>,
    pub constants: Seq<Value>,
    pub lines: Seq<u32>,
    pub name: Seq<char>,
    pub upvalue_count: int,
}

impl View for FunctionObject {
    type V = FunctionView;

    open spec fn view(&self) -> FunctionView {
        FunctionView {
            arity: self.arity as int,
            code: self.chunk.code@,
            constants: self.chunk.constants@,
            lines: self.chunk.lines@,
            name: self.name@,
            upvalue_count: self.upvalue_count as int,
        }
    }
}

impl FunctionObject {
    /// An empty function: no code, no constants, no upvalues.
    pub open spec fn empty(name: Seq<char>, arity: int) -> FunctionView {
        FunctionView {
            arity,
            code: Seq::empty(),
            constants: Seq::empty(),
            lines: Seq::empty(),
            name,
            upvalue_count: 0,
        }
    }

    pub fn new(name: String, arity: i32) -> (r: Self)
        ensures
            r@ == Self::empty(name@, arity as int),
    {
        FunctionObject { arity, chunk: Chunk::new(), name, upvalue_count: 0 }
    }
}

/// What kind of function a compiler frame is building.
#[derive(Debug, Clone, Copy, PartialEq, Eq, Structural)]
pub enum FunctionType {
    Function,
    Script,
    Method,
    Init,
}

/// A function together with the upvalue cells it captured, one handle per
/// upvalue that the function declares.
#[derive(Debug)]
pub struct ClosureObject {
    pub function: usize,
    pub upvalues: Vec<usize>,
}

impl ClosureObject {
    /// A closure over `function` that has captured nothing yet.
    pub fn new(function: usize) -> (r: Self)
        ensures
            r.function == function,
            r.upvalues@ == Seq::<usize>::empty(),
    {
        ClosureObject { function, upvalues: Vec::new() }
    }
}

/// An upvalue cell.  While open it names a stack slot in `location`; once
/// closed it owns the value in `closed`.
#[derive(Debug, Clone, Copy, PartialEq, Eq, Structural)]
pub struct UpvalueObject {
    pub location: Option<usize>,
    pub closed: Option<Value>,
}

impl UpvalueObject {
    /// The cell still refers to a stack slot.
    pub open spec fn is_open(self) -> bool {
        self.location.is_some()
    }

    /// An open cell for the stack slot `location`.
    pub fn new(location: usize) -> (r: Self)
        ensures
            r == (UpvalueObject { location: Some(location), closed: None }),
    {
        UpvalueObject { location: Some(location), closed: None }
    }
}

/// A class: its name and its methods, each a closure value.
#[derive(Debug)]
pub struct ClassObject {
    pub name: String,
    pub methods: Members,
}

impl ClassObject {
    pub fn new(name: String) -> (r: Self)
        ensures
            r.name == name,
            r.methods.wf(),
            r.methods@ == Map::<Seq<char>, Value>::empty(),
    {
        ClassObject { name, methods: Members::new() }
    }
}

/// An instance: the handle of its class and its fields.
#[derive(Debug)]
pub struct InstanceObject {
    pub class: usize,
    pub fields: Members,
}

impl InstanceObject {
    pub fn new(class: usize) -> (r: Self)
        ensures
            r.class == class,
            r.fields.wf(),
            r.fields@ == Map::<Seq<char>, Value>::empty(),
    {
        InstanceObject { class, fields: Members::new() }
    }
}

/// A method with its receiver pinned.
#[derive(Debug, Clone, Copy, PartialEq, Eq, Structural)]
pub struct BoundMethodObject {
    pub reciever: Value,
    pub method: usize,
}

impl BoundMethodObject {
    pub fn new(reciever: Value, method: usize) -> (r: Self)
        ensures
            r == (BoundMethodObject { reciever, method }),
    {
        BoundMethodObject { reciever, method }
    }
}

} // verus!
