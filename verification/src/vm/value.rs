//! Runtime values and the two fixed-capacity value containers.
//!
//! A value is a small tagged word.  Everything that is shared and mutable
//! (arrays, classes, instances, upvalue cells) and everything that owns text
//! lives in the machine's heap and is named here by its handle, so a value can
//! be copied freely and two copies always denote the same object.
use vstd::prelude::*;

verus! {

/// The built-in functions that the machine registers as globals.
#[derive(Clone, Copy, Debug, PartialEq, Eq, Structural)]
pub enum NativeFunction {
    Len,
    Append,
    Last,
    Rest,
    Str,
    First,
    Now,
    Range,
    Get,
}

/// An instant as the clock reported it: seconds and nanoseconds since the
/// Unix epoch in UTC, and the local offset from UTC in seconds at that moment.
#[derive(Clone, Copy, Debug, PartialEq, Eq, Structural)]
pub struct Timestamp {
    pub seconds: i64,
    pub nanos: u32,
    pub offset: i32,
}

/// A runtime value.
///
/// `Float` carries the IEEE-754 binary64 bit pattern of the number.  `String`,
/// `Array`, `Closure`, `Class`, `Instance` and `BoundMethod` carry a handle
/// into the heap; `Function` carries the index of a compiled function.
#[derive(Clone, Copy, Debug, PartialEq, Eq, Structural)]
pub enum Value {
    Float(u64),
    Integer(i64),
    String(usize),
    Boolean(bool),
    Array(usize),
    Function(usize),
    Closure(usize),
    Native(NativeFunction),
    DateTime(Timestamp),
    Class(usize),
    Instance(usize),
    BoundMethod(usize),
    Null,
}

/// Why an arithmetic operation has no result.
#[derive(Debug)]
pub enum CalcError {
    Invalid(String),
}

/// Number of entries a constant pool can hold.
pub const CONSTANT_LEN: usize = 256;

/// Number of slots on the value stack.
pub const STACK_LEN: usize = 256;

pub const SIGN_BIT: u64 = 0x8000_0000_0000_0000;

pub const EXPONENT_BITS: u64 = 0x7ff0_0000_0000_0000;

pub const MAGNITUDE_BITS: u64 = 0x7fff_ffff_ffff_ffff;

/// The bit pattern denotes a NaN: magnitude above that of infinity.
pub open spec fn float_is_nan(bits: u64) -> bool {
    (bits & MAGNITUDE_BITS) > EXPONENT_BITS
}

/// Position of a non-NaN float on the number line, as a signed integer that
/// orders exactly as the floats do.  Both zeros have key 0.
pub open spec fn float_key(bits: u64) -> int {
    if bits & SIGN_BIT != 0 {
        -((bits & MAGNITUDE_BITS) as int)
    } else {
        (bits & MAGNITUDE_BITS) as int
    }
}

/// IEEE equality on bit patterns: NaN equals nothing, the zeros are equal.
pub open spec fn float_equal(a: u64, b: u64) -> bool {
    !float_is_nan(a) && !float_is_nan(b) && float_key(a) == float_key(b)
}

/// IEEE `<` on bit patterns: false when either side is NaN.
pub open spec fn float_less(a: u64, b: u64) -> bool {
    !float_is_nan(a) && !float_is_nan(b) && float_key(a) < float_key(b)
}

pub fn is_nan_bits(bits: u64) -> (r: bool)
    ensures
        r == float_is_nan(bits),
{
    (bits & MAGNITUDE_BITS) > EXPONENT_BITS
}

fn key_of_bits(bits: u64) -> (r: i64)
    ensures
        r == float_key(bits),
{
    let magnitude: u64 = bits & MAGNITUDE_BITS;
    assert(magnitude <= 0x7fff_ffff_ffff_ffff) by (bit_vector)
        requires
            magnitude == bits & 0x7fff_ffff_ffff_ffffu64,
    ;
    if bits & SIGN_BIT != 0 {
        -(magnitude as i64)
    } else {
        magnitude as i64
    }
}

pub fn float_bits_equal(a: u64, b: u64) -> (r: bool)
    ensures
        r == float_equal(a, b),
{
    !is_nan_bits(a) && !is_nan_bits(b) && key_of_bits(a) == key_of_bits(b)
}

pub fn float_bits_less(a: u64, b: u64) -> (r: bool)
    ensures
        r == float_less(a, b),
{
    !is_nan_bits(a) && !is_nan_bits(b) && key_of_bits(a) < key_of_bits(b)
}

impl Value {
    /// Only `false` and `null` are falsy.
    pub open spec fn falsy(self) -> bool {
        self == Value::Boolean(false) || self == Value::Null
    }

    pub fn is_falsy(&self) -> (r: bool)
        ensures
            r == self.falsy(),
    {
        match self {
            Value::Boolean(a) => !*a,
            Value::Null => true,
            _ => false,
        }
    }

    /// Position of the variant in the declaration, the first key by which two
    /// values of different kinds are ordered.
    pub open spec fn rank(self) -> int {
        match self {
            Value::Float(_) => 0,
            Value::Integer(_) => 1,
            Value::String(_) => 2,
            Value::Boolean(_) => 3,
            Value::Array(_) => 4,
            Value::Function(_) => 5,
            Value::Closure(_) => 6,
            Value::Native(_) => 7,
            Value::DateTime(_) => 8,
            Value::Class(_) => 9,
            Value::Instance(_) => 10,
            Value::BoundMethod(_) => 11,
            Value::Null => 12,
        }
    }

    pub fn kind_rank(&self) -> (r: u8)
        ensures
            r == self.rank(),
    {
        match self {
            Value::Float(_) => 0,
            Value::Integer(_) => 1,
            Value::String(_) => 2,
            Value::Boolean(_) => 3,
            Value::Array(_) => 4,
            Value::Function(_) => 5,
            Value::Closure(_) => 6,
            Value::Native(_) => 7,
            Value::DateTime(_) => 8,
            Value::Class(_) => 9,
            Value::Instance(_) => 10,
            Value::BoundMethod(_) => 11,
            Value::Null => 12,
        }
    }
}

/// The constant pool of one chunk: at most `CONSTANT_LEN` values, in the order
/// in which they were added.
#[derive(Debug)]
pub struct ConstantArray {
    values: Vec<Value>,
}

impl View for ConstantArray {
    type V = Seq<Value>;

    closed spec fn view(&self) -> Seq<Value> {
        self.values@
    }
}

impl ConstantArray {
    pub fn new() -> (r: Self)
        ensures
            r@ == Seq::<Value>::empty(),
    {
        ConstantArray { values: Vec::new() }
    }

    /// Appends a value.  The pool must not be full.
    pub fn push(&mut self, value: Value)
        requires
            old(self)@.len() < CONSTANT_LEN,
        ensures
            final(self)@ == old(self)@.push(value),
    {
        self.values.push(value);
    }

    /// The value at `index`; a slot that was never filled reads as `Null`.
    pub fn get(&self, index: usize) -> (r: Value)
        requires
            index < CONSTANT_LEN,
        ensures
            r == constant_at(self@, index as int),
    {
        if index < self.values.len() {
            self.values[index]
        } else {
            Value::Null
        }
    }

    pub fn len(&self) -> (r: usize)
        ensures
            r == self@.len(),
    {
        self.values.len()
    }

    /// The constants in the order of their indexes.
    pub fn values(&self) -> (r: &Vec<Value>)
        ensures
            r@ == self@,
    {
        &self.values
    }

    pub fn duplicate(&self) -> (r: Self)
        ensures
            r@ == self@,
    {
        let mut values: Vec<Value> = Vec::new();
        let mut i: usize = 0;
        while i < self.values.len()
            invariant
                i <= self.values.len(),
                values@ == self.values@.take(i as int),
            decreases self.values.len() - i,
        {
            values.push(self.values[i]);
            assert(self.values@.take(i as int).push(self.values@[i as int])
                =~= self.values@.take(i + 1));
            i += 1;
        }
        assert(self.values@.take(i as int) =~= self.values@);
        ConstantArray { values }
    }
}

/// What reading slot `index` of a pool gives.
pub open spec fn constant_at(pool: Seq<Value>, index: int) -> Value {
    if 0 <= index < pool.len() {
        pool[index]
    } else {
        Value::Null
    }
}

/// The value stack: at most `STACK_LEN` values, the last one on top.
#[derive(Debug)]
pub struct StackArray {
    values: Vec<Value>,
}

impl View for StackArray {
    type V = Seq<Value>;

    closed spec fn view(&self) -> Seq<Value> {
        self.values@
    }
}

impl StackArray {
    pub fn new() -> (r: Self)
        ensures
            r@ == Seq::<Value>::empty(),
    {
        StackArray { values: Vec::new() }
    }

    /// Pushes a value.  The stack must not be full.
    pub fn push(&mut self, value: Value)
        requires
            old(self)@.len() < STACK_LEN,
        ensures
            final(self)@ == old(self)@.push(value),
    {
        self.values.push(value);
    }

    /// Removes and returns the top value.  The stack must not be empty.
    pub fn pop(&mut self) -> (r: Value)
        requires
            old(self)@.len() > 0,
        ensures
            r == old(self)@.last(),
            final(self)@ == old(self)@.drop_last(),
    {
        match self.values.pop() {
            Some(value) => value,
            None => Value::Null,
        }
    }

    /// Drops the top value.  The stack must not be empty.
    pub fn pop_index(&mut self)
        requires
            old(self)@.len() > 0,
        ensures
            final(self)@ == old(self)@.drop_last(),
    {
        let _ = self.values.pop();
    }

    /// The top value.  The stack must not be empty.
    pub fn last(&self) -> (r: &Value)
        requires
            self@.len() > 0,
        ensures
            *r == self@.last(),
    {
        &self.values[self.values.len() - 1]
    }

    /// Cuts the stack down to its first `index` values.
    pub fn set_index(&mut self, index: usize)
        requires
            index <= old(self)@.len(),
        ensures
            final(self)@ == old(self)@.take(index as int),
    {
        self.values.truncate(index);
    }

    pub fn get(&self, index: usize) -> (r: &Value)
        requires
            index < self@.len(),
        ensures
            *r == self@[index as int],
    {
        &self.values[index]
    }

    /// Overwrites the value in slot `index`.
    pub fn set(&mut self, index: usize, value: Value)
        requires
            index < old(self)@.len(),
        ensures
            final(self)@ == old(self)@.update(index as int, value),
    {
        self.values[index] = value;
    }

    pub fn len(&self) -> (r: usize)
        ensures
            r == self@.len(),
    {
        self.values.len()
    }

    /// The values from slot `offset` to the top, bottom first.
    pub fn get_slice(&self, offset: usize) -> (r: Vec<Value>)
        requires
            offset <= self@.len(),
        ensures
            r@ == self@.skip(offset as int),
    {
        let mut out: Vec<Value> = Vec::new();
        let mut i: usize = offset;
        while i < self.values.len()
            invariant
                offset <= i <= self.values.len(),
                out@ == self.values@.subrange(offset as int, i as int),
            decreases self.values.len() - i,
        {
            out.push(self.values[i]);
            assert(self.values@.subrange(offset as int, i as int).push(self.values@[i as int])
                =~= self.values@.subrange(offset as int, i + 1));
            i += 1;
        }
        assert(self.values@.subrange(offset as int, i as int) =~= self.values@.skip(offset as int));
        out
    }
}

} // verus!
