//! The built-in functions.
use vstd::prelude::*;
use super::arith::deliver;
use super::basic::{item_at, proceed};
use super::machine::{Code, Fault, Machine, Piece, Signal, Step};
use super::render::RENDER_DEPTH;
use super::state::State;
use super::text::clock_now;
use super::value::{NativeFunction, Timestamp, Value};
use crate::compiler::object::FunctionObject;

verus! {

/// The integers from `start` up to but not including `stop`, `step` apart.
pub open spec fn stepped(start: int, stop: int, step: int) -> Seq<Value>
    decreases
            (if stop > start {
                stop - start
            } else {
                0
            }),
{
    if start >= stop {
        Seq::empty()
    } else if step <= 0 {
        Seq::empty()
    } else {
        seq![Value::Integer(start as i64)] + stepped(start + step, stop, step)
    }
}

/// `len(x)`: the length of an array; `null` for anything else.
pub open spec fn native_len(m: Machine, args: Seq<Value>) -> Value {
    if args.len() > 0 && args[0] is Array && args[0]->Array_0 < m.arrays.len() {
        Value::Integer(m.arrays[args[0]->Array_0 as int].len() as i64)
    } else {
        Value::Null
    }
}

/// The integer that an argument of `range` holds.
pub open spec fn bound(value: Value) -> Result<i64, Fault> {
    match value {
        Value::Integer(number) => Ok(number),
        _ => Err(Fault::BadArguments),
    }
}

/// The items of `range(stop)`, `range(start, stop)` and
/// `range(start, stop, step)`.
pub open spec fn native_range(args: Seq<Value>) -> Result<Seq<Value>, Fault> {
    if args.len() == 1 {
        match bound(args[0]) {
            Err(e) => Err(e),
            Ok(stop) => Ok(stepped(0, stop as int, 1)),
        }
    } else if args.len() == 2 {
        match bound(args[0]) {
            Err(e) => Err(e),
            Ok(start) => match bound(args[1]) {
                Err(e) => Err(e),
                Ok(stop) => Ok(stepped(start as int, stop as int, 1)),
            },
        }
    } else {
        match bound(args[0]) {
            Err(e) => Err(e),
            Ok(start) => match bound(args[1]) {
                Err(e) => Err(e),
                Ok(stop) => match bound(args[2]) {
                    Err(e) => Err(e),
                    Ok(step) => if step <= 0 {
                        Err(Fault::BadArguments)
                    } else {
                        Ok(stepped(start as int, stop as int, step as int))
                    },
                },
            },
        }
    }
}

/// What a built-in function does with its arguments, which have left the
/// stack: it pushes its result.  `clock` is what the clock reads if the
/// function looks at it.
#[verifier::opaque]
pub open spec fn native(
    code: Code,
    m: Machine,
    function: NativeFunction,
    args: Seq<Value>,
    clock: Timestamp,
) -> Step {
    match function {
        NativeFunction::Len => proceed(m.push(native_len(m, args))),
        NativeFunction::Append => if args.len() < 2 {
            proceed(m.push(Value::Null))
        } else {
            match m.array(args[0]) {
                Err(e) => Err(e),
                Ok(items) => {
                    let (m1, array) = m.alloc_array(items + args.skip(1));
                    proceed(m1.push(array))
                },
            }
        },
        NativeFunction::First => if args.len() != 1 {
            proceed(m.push(Value::Null))
        } else {
            match m.array(args[0]) {
                Err(e) => Err(e),
                Ok(items) => if items.len() == 0 {
                    Err(Fault::BadArguments)
                } else {
                    proceed(m.push(items[0]))
                },
            }
        },
        NativeFunction::Last => if args.len() != 1 {
            proceed(m.push(Value::Null))
        } else {
            match m.array(args[0]) {
                Err(e) => Err(e),
                Ok(items) => if items.len() == 0 {
                    Err(Fault::BadArguments)
                } else {
                    proceed(m.push(items.last()))
                },
            }
        },
        NativeFunction::Rest => if args.len() != 1 {
            proceed(m.push(Value::Null))
        } else {
            match m.array(args[0]) {
                Err(e) => Err(e),
                Ok(items) => {
                    let (m1, array) = m.alloc_array(
                        if items.len() == 0 {
                            items
                        } else {
                            items.skip(1)
                        },
                    );
                    proceed(m1.push(array))
                },
            }
        },
        NativeFunction::Str => if args.len() != 1 {
            proceed(m.push(Value::Null))
        } else {
            deliver(m, m.render(code, args[0], RENDER_DEPTH as nat))
        },
        NativeFunction::Range => if args.len() < 1 || args.len() > 3 {
            proceed(m.push(Value::Null))
        } else {
            match native_range(args) {
                Err(e) => Err(e),
                Ok(items) => {
                    let (m1, array) = m.alloc_array(items);
                    proceed(m1.push(array))
                },
            }
        },
        NativeFunction::Get => if args.len() != 2 {
            proceed(m.push(Value::Null))
        } else {
            match m.array(args[0]) {
                Err(e) => Err(e),
                Ok(items) => match args[1] {
                    Value::Integer(index) => proceed(m.push(item_at(items, index))),
                    _ => proceed(m.push(Value::Null)),
                },
            }
        },
        NativeFunction::Now => proceed((Machine { clock, ..m }).push(Value::DateTime(clock))),
    }
}

/// Calls a built-in function on the `argc` topmost values: they and the
/// callee below them leave the stack, the result takes their place.
#[verifier::opaque]
pub open spec fn call_native(
    code: Code,
    m: Machine,
    function: NativeFunction,
    argc: int,
    clock: Timestamp,
) -> Step {
    if argc < 0 || argc + 1 > m.stack.len() {
        Err(Fault::StackUnderflow)
    } else {
        match m.drop(argc + 1) {
            Err(e) => Err(e),
            Ok(m1) => native(code, m1, function, m.stack.skip(m.stack.len() - argc), clock),
        }
    }
}

/// Builds the integers from `start` up to but not including `stop`, `step`
/// apart.
pub fn stepped_integers(start: i64, stop: i64, step: i64) -> (r: Vec<Value>)
    requires
        step > 0,
    ensures
        r@ == stepped(start as int, stop as int, step as int),
{
    let mut items: Vec<Value> = Vec::new();
    let mut next: i64 = start;
    let mut more: bool = true;
    let ghost mut position: int = start as int;
    assert(items@ + stepped(position, stop as int, step as int) =~= stepped(
        start as int,
        stop as int,
        step as int,
    ));
    while more && next < stop
        invariant
            step > 0,
            more ==> position == next,
            !more ==> position >= stop,
            stepped(start as int, stop as int, step as int) == items@ + stepped(
                position,
                stop as int,
                step as int,
            ),
        decreases
                (if more && stop > position {
                    stop - position
                } else {
                    0
                }),
    {
        let ghost before = items@;
        items.push(Value::Integer(next));
        proof {
            assert(items@ + stepped(position + step, stop as int, step as int) =~= before
                + stepped(position, stop as int, step as int)) by {
                assert(stepped(position, stop as int, step as int) == seq![
                    Value::Integer(next),
                ] + stepped(position + step, stop as int, step as int));
            }
            position = position + step;
        }
        match next.checked_add(step) {
            Some(following) => {
                next = following;
            },
            None => {
                more = false;
            },
        }
    }
    assert(items@ + Seq::<Value>::empty() =~= items@);
    items
}

fn bound_of(value: Value) -> (r: Result<i64, Fault>)
    ensures
        r == bound(value),
{
    match value {
        Value::Integer(number) => Ok(number),
        _ => Err(Fault::BadArguments),
    }
}

fn range_of(args: &Vec<Value>) -> (r: Result<Vec<Value>, Fault>)
    requires
        1 <= args@.len() <= 3,
    ensures
        match r {
            Ok(items) => native_range(args@) == Ok::<_, Fault>(items@),
            Err(e) => native_range(args@) == Err::<Seq<Value>, _>(e),
        },
{
    if args.len() == 1 {
        let stop: i64 = bound_of(args[0])?;
        Ok(stepped_integers(0, stop, 1))
    } else if args.len() == 2 {
        let start: i64 = bound_of(args[0])?;
        let stop: i64 = bound_of(args[1])?;
        Ok(stepped_integers(start, stop, 1))
    } else {
        let start: i64 = bound_of(args[0])?;
        let stop: i64 = bound_of(args[1])?;
        let step: i64 = bound_of(args[2])?;
        if step <= 0 {
            return Err(Fault::BadArguments);
        }
        Ok(stepped_integers(start, stop, step))
    }
}

impl State {
    /// A copy of the items of the array `handle` from position `from` on,
    /// followed by the values of `more` from position `skip` on.
    fn spliced(&self, handle: usize, from: usize, more: &Vec<Value>, skip: usize) -> (r: Vec<Value>)
        requires
            handle < self.arrays@.len(),
            from <= self.arrays@[handle as int]@.len(),
            skip <= more@.len(),
        ensures
            r@ == self@.arrays[handle as int].skip(from as int) + more@.skip(skip as int),
    {
        let ghost items = self@.arrays[handle as int];
        let mut out: Vec<Value> = Vec::new();
        let count: usize = self.arrays[handle].len();
        let mut index: usize = from;
        while index < count
            invariant
                handle < self.arrays@.len(),
                items == self.arrays@[handle as int]@,
                count == items.len(),
                from <= index <= count,
                out@ == items.subrange(from as int, index as int),
            decreases count - index,
        {
            out.push(self.arrays[handle][index]);
            assert(out@ =~= items.subrange(from as int, index + 1));
            index += 1;
        }
        let mut index: usize = skip;
        while index < more.len()
            invariant
                skip <= index <= more@.len(),
                out@ == items.skip(from as int) + more@.subrange(skip as int, index as int),
            decreases more@.len() - index,
        {
            out.push(more[index]);
            assert(out@ =~= items.skip(from as int) + more@.subrange(skip as int, index + 1));
            index += 1;
        }
        assert(out@ =~= items.skip(from as int) + more@.skip(skip as int));
        out
    }

    fn native_len(&self, args: &Vec<Value>) -> (r: Value)
        ensures
            r == native_len(self@, args@),
    {
        if args.len() > 0 {
            match args[0] {
                Value::Array(handle) => {
                    if handle < self.arrays.len() {
                        return Value::Integer(self.arrays[handle].len() as i64);
                    }
                },
                _ => {},
            }
        }
        Value::Null
    }

    /// Runs a built-in function on arguments that have left the stack.
    pub fn native(
        &mut self,
        code: &Vec<FunctionObject>,
        function: NativeFunction,
        args: Vec<Value>,
    ) -> (r:
        Result<Signal, Fault>)
        requires
            old(self).wf(),
        ensures
            final(self).wf(),
            match r {
                Ok(signal) => native(code@, old(self)@, function, args@, final(self).clock) == Ok::<
                    _,
                    Fault,
                >((final(self)@, signal)),
                Err(e) => native(code@, old(self)@, function, args@, final(self).clock) == Err::<
                    (Machine, Signal),
                    _,
                >(e) && old(self)@.spared(final(self)@),
            },
    {
        reveal(native);
        reveal(Machine::push);
        let empty: Vec<Value> = Vec::new();
        match function {
            NativeFunction::Len => {
                let length: Value = self.native_len(&args);
                self.push(length)?;
                Ok(Signal::Continue)
            },
            NativeFunction::Append => {
                if args.len() < 2 {
                    self.push(Value::Null)?;
                    return Ok(Signal::Continue);
                }
                let handle: usize = self.array(args[0])?;
                let items: Vec<Value> = self.spliced(handle, 0, &args, 1);
                assert(self@.arrays[handle as int].skip(0) =~= self@.arrays[handle as int]);
                let array: Value = self.alloc_array(items);
                self.push(array)?;
                Ok(Signal::Continue)
            },
            NativeFunction::First => {
                if args.len() != 1 {
                    self.push(Value::Null)?;
                    return Ok(Signal::Continue);
                }
                let handle: usize = self.array(args[0])?;
                if self.arrays[handle].len() == 0 {
                    return Err(Fault::BadArguments);
                }
                let item: Value = self.arrays[handle][0];
                self.push(item)?;
                Ok(Signal::Continue)
            },
            NativeFunction::Last => {
                if args.len() != 1 {
                    self.push(Value::Null)?;
                    return Ok(Signal::Continue);
                }
                let handle: usize = self.array(args[0])?;
                let count: usize = self.arrays[handle].len();
                if count == 0 {
                    return Err(Fault::BadArguments);
                }
                let item: Value = self.arrays[handle][count - 1];
                self.push(item)?;
                Ok(Signal::Continue)
            },
            NativeFunction::Rest => {
                if args.len() != 1 {
                    self.push(Value::Null)?;
                    return Ok(Signal::Continue);
                }
                let handle: usize = self.array(args[0])?;
                let from: usize = if self.arrays[handle].len() == 0 {
                    0
                } else {
                    1
                };
                let items: Vec<Value> = self.spliced(handle, from, &empty, 0);
                proof {
                    let all = self@.arrays[handle as int];
                    assert(empty@.skip(0) =~= Seq::<Value>::empty());
                    assert(all.skip(from as int) + Seq::<Value>::empty() =~= all.skip(from as int));
                    assert(all.skip(0) =~= all);
                }
                let array: Value = self.alloc_array(items);
                self.push(array)?;
                Ok(Signal::Continue)
            },
            NativeFunction::Str => {
                if args.len() != 1 {
                    self.push(Value::Null)?;
                    return Ok(Signal::Continue);
                }
                let pieces: Vec<Piece> = self.render(code, args[0]);
                self.deliver(pieces)
            },
            NativeFunction::Range => {
                if args.len() < 1 || args.len() > 3 {
                    self.push(Value::Null)?;
                    return Ok(Signal::Continue);
                }
                let items: Vec<Value> = range_of(&args)?;
                let array: Value = self.alloc_array(items);
                self.push(array)?;
                Ok(Signal::Continue)
            },
            NativeFunction::Get => {
                if args.len() != 2 {
                    self.push(Value::Null)?;
                    return Ok(Signal::Continue);
                }
                let handle: usize = self.array(args[0])?;
                match args[1] {
                    Value::Integer(index) => {
                        let item: Value = if index >= 0 && (index as u64) < (
                        self.arrays[handle].len() as u64) {
                            self.arrays[handle][index as usize]
                        } else {
                            Value::Null
                        };
                        self.push(item)?;
                        Ok(Signal::Continue)
                    },
                    _ => {
                        self.push(Value::Null)?;
                        Ok(Signal::Continue)
                    },
                }
            },
            NativeFunction::Now => {
                let reading: Timestamp = clock_now();
                self.clock = reading;
                self.push(Value::DateTime(reading))?;
                Ok(Signal::Continue)
            },
        }
    }

    /// Calls a built-in function on the `argc` topmost values.
    pub fn call_native(
        &mut self,
        code: &Vec<FunctionObject>,
        function: NativeFunction,
        argc: usize,
    ) -> (r:
        Result<Signal, Fault>)
        requires
            old(self).wf(),
        ensures
            final(self).wf(),
            match r {
                Ok(signal) => call_native(
                    code@,
                    old(self)@,
                    function,
                    argc as int,
                    final(self).clock,
                ) == Ok::<_, Fault>((final(self)@, signal)),
                Err(e) => call_native(code@, old(self)@, function, argc as int, final(self).clock)
                    == Err::<(Machine, Signal), _>(e) && old(self)@.spared(final(self)@),
            },
    {
        reveal(call_native);
        let depth: usize = self.stack.len();
        if argc >= depth {
            return Err(Fault::StackUnderflow);
        }
        let args: Vec<Value> = self.stack.get_slice(depth - argc);
        self.drop(argc + 1)?;
        self.native(code, function, args)
    }
}

} // verus!
