//! Call frames.
use vstd::prelude::*;

verus! {

/// One call in progress: the closure being run, the offset in its code of
/// the next instruction, and the stack index of its slot 0.
#[derive(Debug, Clone, Copy, PartialEq, Eq, Structural)]
pub struct CallFrame {
    pub closure: usize,
    pub ip: usize,
    pub sp: usize,
}

impl CallFrame {
    pub fn new(closure: usize, ip: usize, sp: usize) -> (r: Self)
        ensures
            r == (CallFrame { closure, ip, sp }),
    {
        CallFrame { closure, ip, sp }
    }
}

} // verus!
