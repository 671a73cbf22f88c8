//! Arithmetic, comparison, concatenation and printing, and the answers of
//! the host to what the machine asked of it.
use vstd::prelude::*;
use super::basic::proceed;
use super::machine::{Code, Fault, FloatOp, Machine, Pending, Piece, PieceView, Signal, Step};
use super::ordering::{Order, ORDER_DEPTH};
use super::render::RENDER_DEPTH;
use super::state::{pieces_view, State};
use super::text::{flatten, join};
use super::value::{Value, SIGN_BIT};
use crate::compiler::object::FunctionObject;

verus! {

/// The value is an integer or a float.
pub open spec fn is_number(value: Value) -> bool {
    value is Integer || value is Float
}

/// The size of an integer.
pub open spec fn magnitude(x: int) -> int {
    if x < 0 {
        -x
    } else {
        x
    }
}

/// The quotient of `x` by `y`, rounded toward zero.
pub open spec fn quotient(x: int, y: int) -> int {
    if (x < 0) != (y < 0) {
        -(magnitude(x) / magnitude(y))
    } else {
        magnitude(x) / magnitude(y)
    }
}

/// What an operation on two integers gives in the integers: the sum, the
/// difference, the product, the quotient rounded toward zero, or what that
/// division leaves, which has the sign of the dividend.
pub open spec fn exact(op: FloatOp, x: int, y: int) -> int {
    match op {
        FloatOp::Add => x + y,
        FloatOp::Subtract => x - y,
        FloatOp::Multiply => x * y,
        FloatOp::Divide => quotient(x, y),
        _ => x - y * quotient(x, y),
    }
}

/// The number is one of the machine's integers.
pub open spec fn fits(x: int) -> bool {
    i64::MIN <= x <= i64::MAX
}

/// The result of an operation on two integers: the exact result, if it
/// and, for a remainder, the quotient are integers of the machine.  A
/// division by zero and an overflow are faults.
pub open spec fn integer_result(op: FloatOp, x: i64, y: i64) -> Result<i64, Fault> {
    if !(op is Add || op is Subtract || op is Multiply || op is Divide || op is Remainder) {
        Err(Fault::TypeMismatch)
    } else if (op is Divide || op is Remainder) && y == 0 {
        Err(Fault::DivideByZero)
    } else if fits(exact(op, x as int, y as int)) && (op is Remainder ==> fits(
        quotient(x as int, y as int),
    )) {
        Ok(exact(op, x as int, y as int) as i64)
    } else {
        Err(Fault::IntegerOverflow)
    }
}

/// An arithmetic operation on two values: computed here on two integers,
/// unless it is a power; asked of the host when a float is involved or for a
/// power; a fault on anything else.
#[verifier::opaque]
pub open spec fn numeric(m: Machine, op: FloatOp, a: Value, b: Value) -> Step {
    if a is Integer && b is Integer && op != FloatOp::Power {
        match integer_result(op, a->Integer_0, b->Integer_0) {
            Ok(result) => proceed(m.push(Value::Integer(result))),
            Err(e) => Err(e),
        }
    } else if is_number(a) && is_number(b) {
        Ok((Machine { pending: Pending::Number, ..m }, Signal::Float(op, a, b)))
    } else {
        Err(Fault::TypeMismatch)
    }
}

/// Pops two operands and applies an arithmetic operation to them.
#[verifier::opaque]
pub open spec fn op_binary(m: Machine, op: FloatOp) -> Step {
    match m.pop() {
        Err(e) => Err(e),
        Ok((m1, b)) => match m1.pop() {
            Err(e) => Err(e),
            Ok((m2, a)) => numeric(m2, op, a, b),
        },
    }
}

/// `+` joins the two operands as text: one of them is a string and the other
/// a number, a truth value or a string, or an array on the right.
pub open spec fn joins(a: Value, b: Value) -> bool {
    (b is String && (a is Float || a is Integer || a is Boolean || a is String)) || (a is String
        && (b is Float || b is Integer || b is Boolean || b is Array))
}

/// Makes a string of the pieces and pushes it, unless a float has to be
/// formatted: then the pieces go to the host, whose answer becomes the
/// string.
#[verifier::opaque]
pub open spec fn deliver(m: Machine, pieces: Seq<PieceView>) -> Step {
    match flatten(pieces, 0) {
        Some(text) => {
            let (m1, value) = m.alloc_string(text);
            proceed(m1.push(value))
        },
        None => Ok((Machine { output: pieces, pending: Pending::Text, ..m }, Signal::Text)),
    }
}

/// Joins two values as text.
#[verifier::opaque]
pub open spec fn concat(code: Code, m: Machine, a: Value, b: Value) -> Step {
    deliver(m, m.render(code, a, RENDER_DEPTH as nat) + m.render(code, b, RENDER_DEPTH as nat))
}

/// Pops two operands and adds them as numbers or joins them as text.
#[verifier::opaque]
pub open spec fn op_add(code: Code, m: Machine) -> Step {
    match m.pop() {
        Err(e) => Err(e),
        Ok((m1, b)) => match m1.pop() {
            Err(e) => Err(e),
            Ok((m2, a)) => if is_number(a) && is_number(b) {
                numeric(m2, FloatOp::Add, a, b)
            } else if joins(a, b) {
                concat(code, m2, a, b)
            } else {
                Err(Fault::TypeMismatch)
            },
        },
    }
}

/// Pops a number and pushes its negative.
#[verifier::opaque]
pub open spec fn op_negative(m: Machine) -> Step {
    match m.pop() {
        Err(e) => Err(e),
        Ok((m1, Value::Integer(number))) => if number == i64::MIN {
            Err(Fault::IntegerOverflow)
        } else {
            proceed(m1.push(Value::Integer((-number) as i64)))
        },
        Ok((m1, Value::Float(bits))) => proceed(m1.push(Value::Float(bits ^ SIGN_BIT))),
        Ok(_) => Err(Fault::TypeMismatch),
    }
}

/// Pops a value and pushes whether it is falsy.
#[verifier::opaque]
pub open spec fn op_not(m: Machine) -> Step {
    match m.pop() {
        Err(e) => Err(e),
        Ok((m1, value)) => proceed(m1.push(Value::Boolean(value.falsy()))),
    }
}

/// Pops two operands and pushes whether the first stands to the second as
/// `want` says.
#[verifier::opaque]
pub open spec fn op_compare(code: Code, m: Machine, want: Order) -> Step {
    match m.pop() {
        Err(e) => Err(e),
        Ok((m1, b)) => match m1.pop() {
            Err(e) => Err(e),
            Ok((m2, a)) => proceed(
                m2.push(Value::Boolean(m2.order(code, a, b, ORDER_DEPTH as nat) == want)),
            ),
        },
    }
}

/// Pops two operands and pushes whether they are equal.  An integer and a
/// float are compared by the host, as floats.
#[verifier::opaque]
pub open spec fn op_equal(code: Code, m: Machine) -> Step {
    match m.pop() {
        Err(e) => Err(e),
        Ok((m1, b)) => match m1.pop() {
            Err(e) => Err(e),
            Ok((m2, a)) => if (a is Integer && b is Float) || (a is Float && b is Integer) {
                Ok((Machine { pending: Pending::Truth, ..m2 }, Signal::Float(FloatOp::Equal, a, b)))
            } else {
                proceed(
                    m2.push(Value::Boolean(m2.order(code, a, b, ORDER_DEPTH as nat) == Order::Equal)),
                )
            },
        },
    }
}

/// Pops a value and hands its text to the host to be written.
#[verifier::opaque]
pub open spec fn op_print(code: Code, m: Machine) -> Step {
    match m.pop() {
        Err(e) => Err(e),
        Ok((m1, value)) => Ok(
            (Machine { output: m1.render(code, value, RENDER_DEPTH as nat), ..m1 }, Signal::Print),
        ),
    }
}

/// The host answers with the float it was asked for.
#[verifier::opaque]
pub open spec fn resume_float(m: Machine, bits: u64) -> Step {
    if m.pending == Pending::Number {
        proceed((Machine { pending: Pending::Nothing, ..m }).push(Value::Float(bits)))
    } else {
        Err(Fault::HostOutOfTurn)
    }
}

/// The host answers with the truth value it was asked for.
#[verifier::opaque]
pub open spec fn resume_bool(m: Machine, truth: bool) -> Step {
    if m.pending == Pending::Truth {
        proceed((Machine { pending: Pending::Nothing, ..m }).push(Value::Boolean(truth)))
    } else {
        Err(Fault::HostOutOfTurn)
    }
}

/// The host answers with the text it was asked for, which becomes a new
/// string.
#[verifier::opaque]
pub open spec fn resume_text(m: Machine, text: Seq<char>) -> Step {
    if m.pending == Pending::Text {
        let (m1, value) = (Machine { pending: Pending::Nothing, ..m }).alloc_string(text);
        proceed(m1.push(value))
    } else {
        Err(Fault::HostOutOfTurn)
    }
}

/// A division of sizes leaves less than the divisor, and gives back the
/// dividend.
proof fn lemma_division(a: int, d: int)
    requires
        a >= 0,
        d > 0,
    ensures
        a == d * (a / d) + a % d,
        0 <= a % d < d,
        0 <= a / d <= a,
{
    vstd::arithmetic::div_mod::lemma_fundamental_div_mod(a, d);
    vstd::arithmetic::div_mod::lemma_mod_bound(a, d);
    vstd::arithmetic::div_mod::lemma_div_pos_is_pos(a, d);
    vstd::arithmetic::div_mod::lemma_div_is_ordered_by_denominator(a, 1, d);
    vstd::arithmetic::div_mod::lemma_div_basics(a);
}

fn integer_operation(op: FloatOp, x: i64, y: i64) -> (r: Result<i64, Fault>)
    ensures
        r == integer_result(op, x, y),
{
    match op {
        FloatOp::Add => match x.checked_add(y) {
            Some(result) => Ok(result),
            None => Err(Fault::IntegerOverflow),
        },
        FloatOp::Subtract => match x.checked_sub(y) {
            Some(result) => Ok(result),
            None => Err(Fault::IntegerOverflow),
        },
        FloatOp::Multiply => match x.checked_mul(y) {
            Some(result) => Ok(result),
            None => Err(Fault::IntegerOverflow),
        },
        FloatOp::Divide => if y == 0 {
            Err(Fault::DivideByZero)
        } else {
            proof {
                lemma_division(magnitude(x as int), magnitude(y as int));
            }
            match x.checked_div(y) {
                Some(result) => Ok(result),
                None => Err(Fault::IntegerOverflow),
            }
        },
        FloatOp::Remainder => if y == 0 {
            Err(Fault::DivideByZero)
        } else {
            proof {
                let xi = x as int;
                let yi = y as int;
                let a = magnitude(xi);
                let d = magnitude(yi);
                let q = a / d;
                let left = a % d;
                lemma_division(a, d);
                if xi >= 0 && yi > 0 {
                    assert(exact(op, xi, yi) == left);
                } else if xi < 0 && yi < 0 {
                    assert(yi * q == -(d * q)) by (nonlinear_arith)
                        requires
                            yi == -d,
                    ;
                    assert(exact(op, xi, yi) == -left);
                } else if xi < 0 {
                    assert(yi * (-q) == -(d * q)) by (nonlinear_arith)
                        requires
                            yi == d,
                    ;
                    assert(exact(op, xi, yi) == -left);
                } else {
                    assert(yi * (-q) == d * q) by (nonlinear_arith)
                        requires
                            yi == -d,
                    ;
                    assert(exact(op, xi, yi) == left);
                }
                if xi == 0 {
                    assert(d * q >= 0) by (nonlinear_arith)
                        requires
                            d > 0,
                            q >= 0,
                    ;
                    assert(left == 0);
                }
                if d >= 2 {
                    assert(d * q >= 2 * q) by (nonlinear_arith)
                        requires
                            d >= 2,
                            q >= 0,
                    ;
                } else {
                    vstd::arithmetic::div_mod::lemma_div_basics(a);
                    assert(q == a);
                }
                assert(fits(quotient(xi, yi)) <==> !(x == i64::MIN && y == -1));
            }
            match x.checked_rem(y) {
                Some(result) => Ok(result),
                None => Err(Fault::IntegerOverflow),
            }
        },
        _ => Err(Fault::TypeMismatch),
    }
}

fn number(value: Value) -> (r: bool)
    ensures
        r == is_number(value),
{
    match value {
        Value::Integer(_) | Value::Float(_) => true,
        _ => false,
    }
}

fn joinable(a: Value, b: Value) -> (r: bool)
    ensures
        r == joins(a, b),
{
    let left_text: bool = match a {
        Value::String(_) => true,
        _ => false,
    };
    let right_text: bool = match b {
        Value::String(_) => true,
        _ => false,
    };
    let left_fits: bool = match a {
        Value::Float(_) | Value::Integer(_) | Value::Boolean(_) | Value::String(_) => true,
        _ => false,
    };
    let right_fits: bool = match b {
        Value::Float(_) | Value::Integer(_) | Value::Boolean(_) | Value::Array(_) => true,
        _ => false,
    };
    (right_text && left_fits) || (left_text && right_fits)
}

impl State {
    fn set_pending(&mut self, pending: Pending)
        requires
            old(self).wf(),
        ensures
            final(self).wf(),
            final(self)@ == (Machine { pending, ..old(self)@ }),
    {
        self.pending = pending;
    }

    fn set_output(&mut self, pieces: Vec<Piece>)
        requires
            old(self).wf(),
        ensures
            final(self).wf(),
            final(self)@ == (Machine { output: pieces_view(pieces@), ..old(self)@ }),
    {
        self.output = pieces;
    }

    /// Applies an arithmetic operation to two values.
    pub fn numeric(&mut self, op: FloatOp, a: Value, b: Value) -> (r: Result<Signal, Fault>)
        requires
            old(self).wf(),
        ensures
            final(self).wf(),
            match r {
                Ok(signal) => numeric(old(self)@, op, a, b) == Ok::<_, Fault>(
                    (final(self)@, signal),
                ),
                Err(e) => numeric(old(self)@, op, a, b) == Err::<(Machine, Signal), _>(e)
                    && old(self)@.spared(final(self)@),
            },
    {
        reveal(numeric);
        let power: bool = match op {
            FloatOp::Power => true,
            _ => false,
        };
        match (a, b) {
            (Value::Integer(x), Value::Integer(y)) => {
                if !power {
                    let result: i64 = integer_operation(op, x, y)?;
                    self.push(Value::Integer(result))?;
                    return Ok(Signal::Continue);
                }
            },
            _ => {},
        }
        if number(a) && number(b) {
            self.set_pending(Pending::Number);
            Ok(Signal::Float(op, a, b))
        } else {
            Err(Fault::TypeMismatch)
        }
    }

    /// Pops two operands and applies an arithmetic operation to them.
    pub fn op_binary(&mut self, op: FloatOp) -> (r: Result<Signal, Fault>)
        requires
            old(self).wf(),
        ensures
            final(self).wf(),
            match r {
                Ok(signal) => op_binary(old(self)@, op) == Ok::<_, Fault>((final(self)@, signal)),
                Err(e) => op_binary(old(self)@, op) == Err::<(Machine, Signal), _>(e)
                    && old(self)@.spared(final(self)@),
            },
    {
        reveal(op_binary);
        let b: Value = self.pop()?;
        let a: Value = self.pop()?;
        self.numeric(op, a, b)
    }

    /// Makes a string of the pieces, or hands them to the host.
    pub fn deliver(&mut self, pieces: Vec<Piece>) -> (r: Result<Signal, Fault>)
        requires
            old(self).wf(),
        ensures
            final(self).wf(),
            match r {
                Ok(signal) => deliver(old(self)@, pieces_view(pieces@)) == Ok::<_, Fault>(
                    (final(self)@, signal),
                ),
                Err(e) => deliver(old(self)@, pieces_view(pieces@)) == Err::<(Machine, Signal), _>(
                    e,
                ) && old(self)@.spared(final(self)@),
            },
    {
        reveal(deliver);
        match join(&pieces) {
            Some(text) => {
                let value: Value = self.alloc_string(text);
                self.push(value)?;
                Ok(Signal::Continue)
            },
            None => {
                self.set_output(pieces);
                self.set_pending(Pending::Text);
                Ok(Signal::Text)
            },
        }
    }

    /// Joins two values as text.
    pub fn concat(&mut self, code: &Vec<FunctionObject>, a: Value, b: Value) -> (r: Result<
        Signal,
        Fault,
    >)
        requires
            old(self).wf(),
        ensures
            final(self).wf(),
            match r {
                Ok(signal) => concat(code@, old(self)@, a, b) == Ok::<_, Fault>(
                    (final(self)@, signal),
                ),
                Err(e) => concat(code@, old(self)@, a, b) == Err::<(Machine, Signal), _>(e)
                    && old(self)@.spared(final(self)@),
            },
    {
        reveal(concat);
        let mut pieces: Vec<Piece> = Vec::new();
        self.render_into(code, a, RENDER_DEPTH, &mut pieces);
        self.render_into(code, b, RENDER_DEPTH, &mut pieces);
        assert(pieces_view(pieces@) =~= self@.render(code@, a, RENDER_DEPTH as nat) + self@.render(
            code@,
            b,
            RENDER_DEPTH as nat,
        ));
        self.deliver(pieces)
    }

    /// Pops two operands and adds them as numbers or joins them as text.
    pub fn op_add(&mut self, code: &Vec<FunctionObject>) -> (r: Result<Signal, Fault>)
        requires
            old(self).wf(),
        ensures
            final(self).wf(),
            match r {
                Ok(signal) => op_add(code@, old(self)@) == Ok::<_, Fault>((final(self)@, signal)),
                Err(e) => op_add(code@, old(self)@) == Err::<(Machine, Signal), _>(e)
                    && old(self)@.spared(final(self)@),
            },
    {
        reveal(op_add);
        let b: Value = self.pop()?;
        let a: Value = self.pop()?;
        if number(a) && number(b) {
            self.numeric(FloatOp::Add, a, b)
        } else if joinable(a, b) {
            self.concat(code, a, b)
        } else {
            Err(Fault::TypeMismatch)
        }
    }

    /// Pops a number and pushes its negative.
    pub fn op_negative(&mut self) -> (r: Result<Signal, Fault>)
        requires
            old(self).wf(),
        ensures
            final(self).wf(),
            match r {
                Ok(signal) => op_negative(old(self)@) == Ok::<_, Fault>((final(self)@, signal)),
                Err(e) => op_negative(old(self)@) == Err::<(Machine, Signal), _>(e)
                    && old(self)@.spared(final(self)@),
            },
    {
        reveal(op_negative);
        match self.pop()? {
            Value::Integer(number) => {
                if number == i64::MIN {
                    return Err(Fault::IntegerOverflow);
                }
                self.push(Value::Integer(-number))?;
                Ok(Signal::Continue)
            },
            Value::Float(bits) => {
                self.push(Value::Float(bits ^ SIGN_BIT))?;
                Ok(Signal::Continue)
            },
            _ => Err(Fault::TypeMismatch),
        }
    }

    /// Pops a value and pushes whether it is falsy.
    pub fn op_not(&mut self) -> (r: Result<Signal, Fault>)
        requires
            old(self).wf(),
        ensures
            final(self).wf(),
            match r {
                Ok(signal) => op_not(old(self)@) == Ok::<_, Fault>((final(self)@, signal)),
                Err(e) => op_not(old(self)@) == Err::<(Machine, Signal), _>(e)
                    && old(self)@.spared(final(self)@),
            },
    {
        reveal(op_not);
        let value: Value = self.pop()?;
        self.push(Value::Boolean(value.is_falsy()))?;
        Ok(Signal::Continue)
    }

    /// Pops two operands and pushes whether the first stands to the second
    /// as `want` says.
    pub fn op_compare(&mut self, code: &Vec<FunctionObject>, want: Order) -> (r: Result<Signal, Fault>)
        requires
            old(self).wf(),
        ensures
            final(self).wf(),
            match r {
                Ok(signal) => op_compare(code@, old(self)@, want) == Ok::<_, Fault>(
                    (final(self)@, signal),
                ),
                Err(e) => op_compare(code@, old(self)@, want) == Err::<(Machine, Signal), _>(e)
                    && old(self)@.spared(final(self)@),
            },
    {
        reveal(op_compare);
        let b: Value = self.pop()?;
        let a: Value = self.pop()?;
        let order: Order = self.order(code, a, b, ORDER_DEPTH);
        self.push(Value::Boolean(order == want))?;
        Ok(Signal::Continue)
    }

    /// Pops two operands and pushes whether they are equal.
    pub fn op_equal(&mut self, code: &Vec<FunctionObject>) -> (r: Result<Signal, Fault>)
        requires
            old(self).wf(),
        ensures
            final(self).wf(),
            match r {
                Ok(signal) => op_equal(code@, old(self)@) == Ok::<_, Fault>((final(self)@, signal)),
                Err(e) => op_equal(code@, old(self)@) == Err::<(Machine, Signal), _>(e)
                    && old(self)@.spared(final(self)@),
            },
    {
        reveal(op_equal);
        let b: Value = self.pop()?;
        let a: Value = self.pop()?;
        let mixed: bool = match (a, b) {
            (Value::Integer(_), Value::Float(_)) | (Value::Float(_), Value::Integer(_)) => true,
            _ => false,
        };
        if mixed {
            self.set_pending(Pending::Truth);
            return Ok(Signal::Float(FloatOp::Equal, a, b));
        }
        let order: Order = self.order(code, a, b, ORDER_DEPTH);
        self.push(Value::Boolean(order == Order::Equal))?;
        Ok(Signal::Continue)
    }

    /// Pops a value and hands its text to the host to be written.
    pub fn op_print(&mut self, code: &Vec<FunctionObject>) -> (r: Result<Signal, Fault>)
        requires
            old(self).wf(),
        ensures
            final(self).wf(),
            match r {
                Ok(signal) => op_print(code@, old(self)@) == Ok::<_, Fault>((final(self)@, signal)),
                Err(e) => op_print(code@, old(self)@) == Err::<(Machine, Signal), _>(e)
                    && old(self)@.spared(final(self)@),
            },
    {
        reveal(op_print);
        let value: Value = self.pop()?;
        let pieces: Vec<Piece> = self.render(code, value);
        self.set_output(pieces);
        Ok(Signal::Print)
    }

    /// Takes the float that the host computed.
    pub fn resume_float(&mut self, bits: u64) -> (r: Result<Signal, Fault>)
        requires
            old(self).wf(),
        ensures
            final(self).wf(),
            match r {
                Ok(signal) => resume_float(old(self)@, bits) == Ok::<_, Fault>(
                    (final(self)@, signal),
                ),
                Err(e) => resume_float(old(self)@, bits) == Err::<(Machine, Signal), _>(e)
                    && old(self)@.spared(final(self)@),
            },
    {
        reveal(resume_float);
        match self.pending {
            Pending::Number => {},
            _ => {
                return Err(Fault::HostOutOfTurn);
            },
        }
        self.set_pending(Pending::Nothing);
        self.push(Value::Float(bits))?;
        Ok(Signal::Continue)
    }

    /// Takes the truth value that the host computed.
    pub fn resume_bool(&mut self, truth: bool) -> (r: Result<Signal, Fault>)
        requires
            old(self).wf(),
        ensures
            final(self).wf(),
            match r {
                Ok(signal) => resume_bool(old(self)@, truth) == Ok::<_, Fault>(
                    (final(self)@, signal),
                ),
                Err(e) => resume_bool(old(self)@, truth) == Err::<(Machine, Signal), _>(e)
                    && old(self)@.spared(final(self)@),
            },
    {
        reveal(resume_bool);
        match self.pending {
            Pending::Truth => {},
            _ => {
                return Err(Fault::HostOutOfTurn);
            },
        }
        self.set_pending(Pending::Nothing);
        self.push(Value::Boolean(truth))?;
        Ok(Signal::Continue)
    }

    /// Takes the text that the host rendered.
    pub fn resume_text(&mut self, text: String) -> (r: Result<Signal, Fault>)
        requires
            old(self).wf(),
        ensures
            final(self).wf(),
            match r {
                Ok(signal) => resume_text(old(self)@, text@) == Ok::<_, Fault>(
                    (final(self)@, signal),
                ),
                Err(e) => resume_text(old(self)@, text@) == Err::<(Machine, Signal), _>(e)
                    && old(self)@.spared(final(self)@),
            },
    {
        reveal(resume_text);
        match self.pending {
            Pending::Text => {},
            _ => {
                return Err(Fault::HostOutOfTurn);
            },
        }
        self.set_pending(Pending::Nothing);
        let value: Value = self.alloc_string(text);
        self.push(value)?;
        Ok(Signal::Continue)
    }
}

} // verus!
