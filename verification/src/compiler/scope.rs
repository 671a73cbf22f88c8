//! Compile-time bookkeeping for names: locals and upvalue descriptors.
use vstd::prelude::*;

verus! {

/// A local variable of the function being compiled.  Its slot is its position
/// in the frame's list of locals.
#[derive(Debug)]
pub struct Local {
    pub name: String,
    pub depth: i32,
    pub is_captured: bool,
}

/// What the compiler's contracts say of a local.
pub struct LocalView {
    pub name: Seq<char>,
    pub depth: int,
    pub is_captured: bool,
}

impl View for Local {
    type V = LocalView;

    open spec fn view(&self) -> LocalView {
        LocalView { name: self.name@, depth: self.depth as int, is_captured: self.is_captured }
    }
}

impl Local {
    pub fn new(name: String, depth: i32) -> (r: Self)
        ensures
            r.name == name,
            r.depth == depth,
            !r.is_captured,
    {
        Local { name, depth, is_captured: false }
    }
}

/// A captured variable as the enclosed function sees it: a slot of the
/// enclosing function's locals (`is_local`) or one of its upvalues.
#[derive(Debug, Clone, Copy, PartialEq, Eq, Structural)]
pub struct Upvalue {
    pub index: usize,
    pub is_local: bool,
}

impl Upvalue {
    pub fn new(index: usize, is_local: bool) -> (r: Self)
        ensures
            r == (Upvalue { index, is_local }),
    {
        Upvalue { index, is_local }
    }
}

} // verus!
