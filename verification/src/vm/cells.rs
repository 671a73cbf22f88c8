//! Upvalue cells: capturing a stack slot, closing cells when their slots go
//! out of scope, and reading and writing through a cell.
use vstd::prelude::*;
use super::machine::{Fault, Machine};
use super::state::State;
use super::value::Value;
use crate::compiler::object::UpvalueObject;

verus! {

impl Machine {
    /// The stack slot that the cell `handle` refers to, if the cell exists
    /// and is open.
    pub open spec fn location(self, handle: usize) -> Option<usize> {
        if handle < self.upvalues.len() {
            self.upvalues[handle as int].location
        } else {
            None
        }
    }

    /// The first position at or after `from` in the list of open cells whose
    /// cell refers to `slot` or to a slot below it; the length of the list
    /// if there is none.
    pub open spec fn seek(self, slot: usize, from: int) -> int
        decreases self.open.len() - from,
    {
        if from < 0 || from >= self.open.len() {
            self.open.len() as int
        } else {
            match self.location(self.open[from]) {
                Some(place) => if place <= slot {
                    from
                } else {
                    self.seek(slot, from + 1)
                },
                None => self.seek(slot, from + 1),
            }
        }
    }

    /// Gives the open cell for `slot`: the one in the list if there is one,
    /// else a new one, put into the list where `seek` stopped.
    #[verifier::opaque]
    pub open spec fn capture(self, slot: usize) -> (Machine, usize) {
        let at = self.seek(slot, 0);
        if at < self.open.len() && self.location(self.open[at]) == Some(slot) {
            (self, self.open[at])
        } else {
            (
                Machine {
                    upvalues: self.upvalues.push(
                        UpvalueObject { location: Some(slot), closed: None },
                    ),
                    open: self.open.insert(at, self.upvalues.len() as usize),
                    ..self
                },
                self.upvalues.len() as usize,
            )
        }
    }

    /// What stack slot `place` holds; `null` if the stack does not reach it.
    pub open spec fn stack_value(self, place: usize) -> Value {
        if place < self.stack.len() {
            self.stack[place as int]
        } else {
            Value::Null
        }
    }

    /// Goes through the cells that `list` names from position `from` on:
    /// each open cell at or above `from_slot` is closed over the value in its
    /// slot, each other open cell is added to `kept`, which becomes the new
    /// list of open cells.
    pub open spec fn close_from(
        self,
        list: Seq<usize>,
        from_slot: usize,
        from: int,
        kept: Seq<usize>,
    ) -> Machine
        decreases list.len() - from,
    {
        if from < 0 || from >= list.len() {
            Machine { open: kept, ..self }
        } else {
            match self.location(list[from]) {
                Some(place) => if place >= from_slot {
                    (Machine {
                        upvalues: self.upvalues.update(
                            list[from] as int,
                            UpvalueObject { location: None, closed: Some(self.stack_value(place)) },
                        ),
                        ..self
                    }).close_from(list, from_slot, from + 1, kept)
                } else {
                    self.close_from(list, from_slot, from + 1, kept.push(list[from]))
                },
                None => self.close_from(list, from_slot, from + 1, kept),
            }
        }
    }

    /// Closes every open cell whose slot is `from_slot` or above.
    #[verifier::opaque]
    pub open spec fn close_upvalues(self, from_slot: usize) -> Machine {
        self.close_from(self.open, from_slot, 0, Seq::empty())
    }

    /// What reading through the cell `handle` gives: the value in its slot
    /// while it is open, the value it owns once it is closed.
    pub open spec fn read_cell(self, handle: usize) -> Result<Value, Fault> {
        if handle >= self.upvalues.len() {
            Err(Fault::DanglingReference)
        } else {
            match self.upvalues[handle as int].location {
                Some(place) => self.slot(place as int),
                None => match self.upvalues[handle as int].closed {
                    Some(value) => Ok(value),
                    None => Ok(Value::Null),
                },
            }
        }
    }

    /// Writes through the cell `handle`: into its slot while it is open, into
    /// the cell once it is closed.
    #[verifier::opaque]
    pub open spec fn write_cell(self, handle: usize, value: Value) -> Result<Machine, Fault> {
        if handle >= self.upvalues.len() {
            Err(Fault::DanglingReference)
        } else {
            match self.upvalues[handle as int].location {
                Some(place) => self.set_slot(place as int, value),
                None => Ok(
                    Machine {
                        upvalues: self.upvalues.update(
                            handle as int,
                            UpvalueObject { location: None, closed: Some(value) },
                        ),
                        ..self
                    },
                ),
            }
        }
    }
}

impl State {
    fn location(&self, handle: usize) -> (r: Option<usize>)
        ensures
            r == self@.location(handle),
    {
        if handle < self.upvalues.len() {
            self.upvalues[handle].location
        } else {
            None
        }
    }

    /// Gives the open cell for the stack slot `slot`, making one if there is
    /// none.
    pub fn capture_upvalue(&mut self, slot: usize) -> (r: usize)
        requires
            old(self).wf(),
        ensures
            final(self).wf(),
            old(self)@.lasts_in(final(self)@),
            final(self)@.stack == old(self)@.stack,
            final(self)@.frames == old(self)@.frames,
            old(self)@.capture(slot) == (final(self)@, r),
    {
        reveal(Machine::capture);
        let count: usize = self.open_upvalue.len();
        let mut at: usize = 0;
        while at < count
            invariant
                *self == *old(self),
                count == self.open_upvalue@.len(),
                at <= count,
                self@.seek(slot, 0) == self@.seek(slot, at as int),
            ensures
                at <= count,
                self@.seek(slot, 0) == at,
            decreases count - at,
        {
            match self.location(self.open_upvalue[at]) {
                Some(place) => {
                    if place <= slot {
                        break ;
                    }
                },
                None => {},
            }
            at += 1;
        }
        if at < count {
            let handle: usize = self.open_upvalue[at];
            let found: bool = match self.location(handle) {
                Some(place) => place == slot,
                None => false,
            };
            if found {
                return handle;
            }
        }
        let handle: usize = self.upvalues.len();
        self.upvalues.push(UpvalueObject::new(slot));
        self.open_upvalue.insert(at, handle);
        handle
    }

    fn stack_value(&self, place: usize) -> (r: Value)
        ensures
            r == self@.stack_value(place),
    {
        if place < self.stack.len() {
            *self.stack.get(place)
        } else {
            Value::Null
        }
    }

    /// Closes every open cell whose slot is `from_slot` or above.
    pub fn close_upvalues(&mut self, from_slot: usize)
        requires
            old(self).wf(),
        ensures
            final(self).wf(),
            final(self)@.stack == old(self)@.stack,
            final(self)@.frames == old(self)@.frames,
            final(self)@ == old(self)@.close_upvalues(from_slot),
    {
        reveal(Machine::close_upvalues);
        let ghost list = self@.open;
        let mut kept: Vec<usize> = Vec::new();
        let count: usize = self.open_upvalue.len();
        let mut index: usize = 0;
        while index < count
            invariant
                self.wf(),
                list == self.open_upvalue@,
                list == self@.open,
                count == list.len(),
                index <= count,
                self@.stack == old(self)@.stack,
                self@.frames == old(self)@.frames,
                old(self)@.close_from(list, from_slot, 0, Seq::empty()) == self@.close_from(
                    list,
                    from_slot,
                    index as int,
                    kept@,
                ),
            decreases count - index,
        {
            let handle: usize = self.open_upvalue[index];
            match self.location(handle) {
                Some(place) => {
                    if place >= from_slot {
                        let value: Value = self.stack_value(place);
                        self.upvalues[handle] = UpvalueObject { location: None, closed: Some(value) };
                    } else {
                        kept.push(handle);
                    }
                },
                None => {},
            }
            index += 1;
        }
        self.open_upvalue = kept;
    }

    /// Reads through the cell `handle`.
    pub fn read_cell(&self, handle: usize) -> (r: Result<Value, Fault>)
        ensures
            r == self@.read_cell(handle),
    {
        if handle >= self.upvalues.len() {
            return Err(Fault::DanglingReference);
        }
        let cell = self.upvalues[handle];
        match cell.location {
            Some(place) => self.slot(place),
            None => match cell.closed {
                Some(value) => Ok(value),
                None => Ok(Value::Null),
            },
        }
    }

    /// Writes through the cell `handle`.
    pub fn write_cell(&mut self, handle: usize, value: Value) -> (r: Result<(), Fault>)
        requires
            old(self).wf(),
        ensures
            final(self).wf(),
            final(self)@.stack.len() == old(self)@.stack.len(),
            final(self)@.frames == old(self)@.frames,
            r is Err ==> final(self)@ == old(self)@,
            match r {
                Ok(()) => old(self)@.write_cell(handle, value) == Ok::<_, Fault>(final(self)@),
                Err(e) => old(self)@.write_cell(handle, value) == Err::<Machine, _>(e),
            },
    {
        reveal(Machine::write_cell);
        if handle >= self.upvalues.len() {
            return Err(Fault::DanglingReference);
        }
        let cell = self.upvalues[handle];
        match cell.location {
            Some(place) => self.set_slot(place, value),
            None => {
                self.upvalues[handle] = UpvalueObject { location: None, closed: Some(value) };
                Ok(())
            },
        }
    }
}

} // verus!
