//! The stack-based virtual machine.
//!
//! The machine runs a compiled script step by step.  Whatever needs the host
//! (writing to the standard output, arithmetic on floats, formatting floats)
//! is asked of whoever drives the machine through the signal that a step
//! returns; the driver answers with one of the `resume` functions.
use vstd::prelude::*;
use self::frame::CallFrame;
use self::machine::{ClosureView, Code, Fault, Machine, Outcome, Piece, Signal};
use self::state::State;
use self::step::step;
use self::value::{NativeFunction, Timestamp, Value};
use crate::compiler::object::{ClosureObject, FunctionObject};
use crate::compiler::{strings_view, Script};

pub mod arith;
pub mod basic;
pub mod calls;
pub mod cells;
pub mod chunk;
pub mod frame;
pub mod machine;
pub mod members;
pub mod natives;
pub mod objects;
pub mod ordering;
pub mod render;
pub mod state;
pub mod step;
pub mod table;
pub mod text;
pub mod value;

verus! {

/// How a run of the interpreter ended.
#[derive(Debug)]
pub enum InterpretResult {
    Success,
    CompileError,
    RuntimeError(String),
    End,
}

/// The machine: the functions of the script, which never change, and the
/// state that running them changes.
#[derive(Debug)]
pub struct VM {
    pub functions: Vec<FunctionObject>,
    pub state: State,
}

impl Fault {
    /// The message of a runtime error.
    pub open spec fn text(self) -> Seq<char> {
        match self {
            Fault::StackOverflow => "stack overflow."@,
            Fault::StackUnderflow => "expected a value on the stack. but not found."@,
            Fault::FrameOverflow => "too many nested calls."@,
            Fault::TruncatedCode => "expected an operand or a jump target. but not found."@,
            Fault::BadConstant => "expected another kind of constant."@,
            Fault::DanglingReference => "expected an object. but not found."@,
            Fault::TypeMismatch => "[Not Support Operation] the operands have the wrong types."@,
            Fault::DivideByZero => "[Not Support Operation] division by zero."@,
            Fault::IntegerOverflow => "[Not Support Operation] integer overflow."@,
            Fault::NotCallable => "expected a function, a class or a method to call."@,
            Fault::ArityMismatch => "the number of arguments differs from the number of parameters."@,
            Fault::UndefinedGlobal => "not found identifer name."@,
            Fault::NotAnArray => "expected an array."@,
            Fault::NotAnInteger => "expected an integer."@,
            Fault::IndexOutOfRange => "the index is outside the array."@,
            Fault::NotAnInstance => "expected an instance."@,
            Fault::NotAClass => "expected a class."@,
            Fault::UndefinedMethod => "undefined method."@,
            Fault::BadArguments => "the built-in function cannot work on these arguments."@,
            Fault::HostOutOfTurn => "the machine and the host are out of step."@,
        }
    }

    pub fn message(self) -> (r: String)
        ensures
            r@ == self.text(),
    {
        match self {
            Fault::StackOverflow => String::from_str("stack overflow."),
            Fault::StackUnderflow => String::from_str(
                "expected a value on the stack. but not found.",
            ),
            Fault::FrameOverflow => String::from_str("too many nested calls."),
            Fault::TruncatedCode => String::from_str(
                "expected an operand or a jump target. but not found.",
            ),
            Fault::BadConstant => String::from_str("expected another kind of constant."),
            Fault::DanglingReference => String::from_str("expected an object. but not found."),
            Fault::TypeMismatch => String::from_str(
                "[Not Support Operation] the operands have the wrong types.",
            ),
            Fault::DivideByZero => String::from_str("[Not Support Operation] division by zero."),
            Fault::IntegerOverflow => String::from_str(
                "[Not Support Operation] integer overflow.",
            ),
            Fault::NotCallable => String::from_str(
                "expected a function, a class or a method to call.",
            ),
            Fault::ArityMismatch => String::from_str(
                "the number of arguments differs from the number of parameters.",
            ),
            Fault::UndefinedGlobal => String::from_str("not found identifer name."),
            Fault::NotAnArray => String::from_str("expected an array."),
            Fault::NotAnInteger => String::from_str("expected an integer."),
            Fault::IndexOutOfRange => String::from_str("the index is outside the array."),
            Fault::NotAnInstance => String::from_str("expected an instance."),
            Fault::NotAClass => String::from_str("expected a class."),
            Fault::UndefinedMethod => String::from_str("undefined method."),
            Fault::BadArguments => String::from_str(
                "the built-in function cannot work on these arguments.",
            ),
            Fault::HostOutOfTurn => String::from_str("the machine and the host are out of step."),
        }
    }
}

impl InterpretResult {
    /// The result says what `outcome` says, a runtime error with its message.
    pub open spec fn tells(&self, outcome: Outcome) -> bool {
        match (self, outcome) {
            (InterpretResult::Success, Outcome::Returned) => true,
            (InterpretResult::End, Outcome::End) => true,
            (InterpretResult::CompileError, Outcome::CompileError) => true,
            (InterpretResult::RuntimeError(message), Outcome::Error(fault)) => message@
                == fault.text(),
            _ => false,
        }
    }

    /// The result that tells `outcome`.
    pub fn of(outcome: Outcome) -> (r: Self)
        ensures
            r.tells(outcome),
    {
        match outcome {
            Outcome::Returned => InterpretResult::Success,
            Outcome::End => InterpretResult::End,
            Outcome::CompileError => InterpretResult::CompileError,
            Outcome::Error(fault) => InterpretResult::RuntimeError(fault.message()),
        }
    }
}

impl Machine {
    /// The machine at the start of a script: the closure of the top-level
    /// function in slot 0 and a frame that runs it.
    pub open spec fn boot(strings: Seq<Seq<char>>, main: usize) -> Machine {
        Machine {
            stack: seq![Value::Closure(0)],
            frames: seq![CallFrame { closure: 0, ip: 0, sp: 0 }],
            closures: seq![ClosureView { function: main, upvalues: Seq::empty() }],
            ..Machine::empty(strings)
        }
    }

    /// The machine with the built-in functions bound to their names.
    pub open spec fn with_natives(self) -> Machine {
        Machine {
            globals: self.globals.insert("len"@, Value::Native(NativeFunction::Len)).insert(
                "append"@,
                Value::Native(NativeFunction::Append),
            ).insert("last"@, Value::Native(NativeFunction::Last)).insert(
                "rest"@,
                Value::Native(NativeFunction::Rest),
            ).insert("str"@, Value::Native(NativeFunction::Str)).insert(
                "first"@,
                Value::Native(NativeFunction::First),
            ).insert("now"@, Value::Native(NativeFunction::Now)).insert(
                "range"@,
                Value::Native(NativeFunction::Range),
            ).insert("get"@, Value::Native(NativeFunction::Get)),
            ..self
        }
    }
}

/// The signal of a step, a fault being the end of execution.
pub open spec fn signal_of(result: Result<(Machine, Signal), Fault>) -> Signal {
    match result {
        Ok((_, signal)) => signal,
        Err(fault) => Signal::Done(Outcome::Error(fault)),
    }
}

/// The machine goes from `from` to `to` in `count` steps, each of which
/// asks for nothing but to go on.
pub open spec fn reaches(code: Code, from: Machine, to: Machine, count: nat) -> bool
    decreases count,
{
    if count == 0 {
        from == to
    } else {
        exists|mid: Machine, clock: Timestamp|
            reaches(code, from, mid, (count - 1) as nat) && #[trigger] step(code, mid, clock)
                == Ok::<_, Fault>((to, Signal::Continue))
    }
}

/// From `from` the machine takes `count` steps that go on, to `last`, and
/// then either has used up its `limit` and is at `to`, or takes one more
/// step, within the limit, which gives `signal` and leads to `to`; if that
/// step faults, `to` is what the fault has spared of `last`.
pub open spec fn runs(
    code: Code,
    from: Machine,
    limit: nat,
    to: Machine,
    signal: Signal,
    count: nat,
    last: Machine,
    clock: Timestamp,
) -> bool {
    &&& count <= limit
    &&& reaches(code, from, last, count)
    &&& if signal == Signal::Continue {
        count == limit && to == last
    } else {
        count < limit && signal == signal_of(step(code, last, clock)) && match step(
            code,
            last,
            clock,
        ) {
            Ok((after, _)) => to == after,
            Err(_) => last.spared(to),
        }
    }
}

impl VM {
    /// The representation invariant.
    pub open spec fn wf(&self) -> bool {
        self.state.wf()
    }

    /// A machine ready to run `script` from its first instruction.
    pub fn new(script: Script) -> (r: Self)
        ensures
            r.wf(),
            r.functions@ == script.functions@,
            r.state@ == Machine::boot(strings_view(script.strings@), script.main),
    {
        let mut state = State::new(script.strings);
        state.closures.push(ClosureObject::new(script.main));
        state.stack.push(Value::Closure(0));
        state.frames.push(CallFrame::new(0, 0, 0));
        assert(state@.closures =~= Machine::boot(
            strings_view(script.strings@),
            script.main,
        ).closures);
        assert(state@.stack =~= Machine::boot(strings_view(script.strings@), script.main).stack);
        assert(state@.frames =~= Machine::boot(strings_view(script.strings@), script.main).frames);
        VM { functions: script.functions, state }
    }

    /// Binds the built-in functions to their names.
    pub fn register_native(&mut self)
        requires
            old(self).wf(),
        ensures
            final(self).wf(),
            final(self).functions == old(self).functions,
            final(self).state@ == old(self).state@.with_natives(),
    {
        let _ = self.state.globals.insert(
            String::from_str("len"),
            Value::Native(NativeFunction::Len),
        );
        let _ = self.state.globals.insert(
            String::from_str("append"),
            Value::Native(NativeFunction::Append),
        );
        let _ = self.state.globals.insert(
            String::from_str("last"),
            Value::Native(NativeFunction::Last),
        );
        let _ = self.state.globals.insert(
            String::from_str("rest"),
            Value::Native(NativeFunction::Rest),
        );
        let _ = self.state.globals.insert(
            String::from_str("str"),
            Value::Native(NativeFunction::Str),
        );
        let _ = self.state.globals.insert(
            String::from_str("first"),
            Value::Native(NativeFunction::First),
        );
        let _ = self.state.globals.insert(
            String::from_str("now"),
            Value::Native(NativeFunction::Now),
        );
        let _ = self.state.globals.insert(
            String::from_str("range"),
            Value::Native(NativeFunction::Range),
        );
        let _ = self.state.globals.insert(
            String::from_str("get"),
            Value::Native(NativeFunction::Get),
        );
    }

    /// Takes one step.  The result is the signal of the step; a fault ends
    /// execution, and leaves what there was as it was: the global variables
    /// and every object, with nothing pushed and no call started.  Where the
    /// step reads the clock, the reading is in `state.clock` afterwards.
    pub fn step(&mut self) -> (r: Signal)
        requires
            old(self).wf(),
        ensures
            final(self).wf(),
            final(self).functions == old(self).functions,
            r == signal_of(step(old(self).functions@, old(self).state@, final(self).state.clock)),
            match step(old(self).functions@, old(self).state@, final(self).state.clock) {
                Ok((after, _)) => final(self).state@ == after,
                Err(_) => old(self).state@.spared(final(self).state@),
            },
    {
        match self.state.step(&self.functions) {
            Ok(signal) => signal,
            Err(fault) => Signal::Done(Outcome::Error(fault)),
        }
    }

    /// Takes steps until one asks for something other than to go on, but at
    /// most `limit` of them.  `Signal::Continue` says that the limit was
    /// reached.
    pub fn run(&mut self, limit: usize) -> (r: Signal)
        requires
            old(self).wf(),
        ensures
            final(self).wf(),
            final(self).functions == old(self).functions,
            exists|count: nat, last: Machine, clock: Timestamp|
                runs(
                    old(self).functions@,
                    old(self).state@,
                    limit as nat,
                    final(self).state@,
                    r,
                    count,
                    last,
                    clock,
                ),
    {
        let ghost code = self.functions@;
        let ghost from = self.state@;
        let mut taken: usize = 0;
        while taken < limit
            invariant
                self.wf(),
                self.functions@ == code,
                self.functions == old(self).functions,
                code == old(self).functions@,
                from == old(self).state@,
                taken <= limit,
                reaches(code, from, self.state@, taken as nat),
            decreases limit - taken,
        {
            let ghost last = self.state@;
            let signal: Signal = self.step();
            match signal {
                Signal::Continue => {
                    assert(step(code, last, self.state.clock) == Ok::<_, Fault>(
                        (self.state@, Signal::Continue),
                    ));
                    assert(reaches(code, from, self.state@, (taken + 1) as nat));
                },
                _ => {
                    assert(runs(
                        code,
                        from,
                        limit as nat,
                        self.state@,
                        signal,
                        taken as nat,
                        last,
                        self.state.clock,
                    ));
                    return signal;
                },
            }
            taken += 1;
        }
        assert(runs(
            code,
            from,
            limit as nat,
            self.state@,
            Signal::Continue,
            taken as nat,
            self.state@,
            self.state.clock,
        ));
        Signal::Continue
    }

    /// Binds the built-in functions and runs the script, as `run` does.
    pub fn interpret(&mut self, limit: usize) -> (r: Signal)
        requires
            old(self).wf(),
        ensures
            final(self).wf(),
            final(self).functions == old(self).functions,
            exists|count: nat, last: Machine, clock: Timestamp|
                runs(
                    old(self).functions@,
                    old(self).state@.with_natives(),
                    limit as nat,
                    final(self).state@,
                    r,
                    count,
                    last,
                    clock,
                ),
    {
        self.register_native();
        self.run(limit)
    }

    /// Answers a request for arithmetic with the float that the host
    /// computed, given as its bit pattern, which is pushed.
    pub fn resume_float(&mut self, bits: u64) -> (r: Signal)
        requires
            old(self).wf(),
        ensures
            final(self).wf(),
            final(self).functions == old(self).functions,
            r == signal_of(self::arith::resume_float(old(self).state@, bits)),
            match self::arith::resume_float(old(self).state@, bits) {
                Ok((after, _)) => final(self).state@ == after,
                Err(_) => old(self).state@.spared(final(self).state@),
            },
    {
        match self.state.resume_float(bits) {
            Ok(signal) => signal,
            Err(fault) => Signal::Done(Outcome::Error(fault)),
        }
    }

    /// Answers a request for a comparison with its result, which is pushed.
    pub fn resume_bool(&mut self, truth: bool) -> (r: Signal)
        requires
            old(self).wf(),
        ensures
            final(self).wf(),
            final(self).functions == old(self).functions,
            r == signal_of(self::arith::resume_bool(old(self).state@, truth)),
            match self::arith::resume_bool(old(self).state@, truth) {
                Ok((after, _)) => final(self).state@ == after,
                Err(_) => old(self).state@.spared(final(self).state@),
            },
    {
        match self.state.resume_bool(truth) {
            Ok(signal) => signal,
            Err(fault) => Signal::Done(Outcome::Error(fault)),
        }
    }

    /// Answers a request for text with the text that the host made of the
    /// pieces, which becomes a new string and is pushed.
    pub fn resume_text(&mut self, text: String) -> (r: Signal)
        requires
            old(self).wf(),
        ensures
            final(self).wf(),
            final(self).functions == old(self).functions,
            r == signal_of(self::arith::resume_text(old(self).state@, text@)),
            match self::arith::resume_text(old(self).state@, text@) {
                Ok((after, _)) => final(self).state@ == after,
                Err(_) => old(self).state@.spared(final(self).state@),
            },
    {
        match self.state.resume_text(text) {
            Ok(signal) => signal,
            Err(fault) => Signal::Done(Outcome::Error(fault)),
        }
    }

    /// The pieces that the last `Print` or `Text` signal refers to.
    pub fn output(&self) -> (r: &Vec<Piece>)
        ensures
            r == self.state.output,
    {
        &self.state.output
    }
}

} // verus!
