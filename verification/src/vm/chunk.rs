//! The instruction set and the chunk: code bytes, constant pool, line numbers.
use vstd::prelude::*;
use super::value::{ConstantArray, Value, CONSTANT_LEN};

verus! {

pub const OP_RETURN: u8 = 0x00;
pub const OP_CONSTANT: u8 = 0x01;
pub const OP_NEGATIVE: u8 = 0x02;
pub const OP_ADD: u8 = 0x03;
pub const OP_SUBTRACT: u8 = 0x04;
pub const OP_MULTIPLY: u8 = 0x05;
pub const OP_DIVIDE: u8 = 0x06;
pub const OP_NULL: u8 = 0x07;
pub const OP_TRUE: u8 = 0x08;
pub const OP_FALSE: u8 = 0x09;
pub const OP_NOT: u8 = 0x0A;
pub const OP_GREATER: u8 = 0x0B;
pub const OP_LESS: u8 = 0x0C;
pub const OP_EQUAL: u8 = 0x0D;
pub const OP_PRINT: u8 = 0x0E;
pub const OP_POP: u8 = 0x0F;
pub const OP_DEFINE_GLOBAL: u8 = 0x10;
pub const OP_GET_GLOBAL: u8 = 0x11;
pub const OP_SET_GLOBAL: u8 = 0x12;
pub const OP_GET_LOCAL: u8 = 0x13;
pub const OP_SET_LOCAL: u8 = 0x14;
pub const OP_JUMP_IF_FALSE: u8 = 0x15;
pub const OP_JUMP: u8 = 0x16;
pub const OP_LOOP: u8 = 0x17;
pub const OP_CALL: u8 = 0x18;
pub const OP_ARRAY: u8 = 0x19;
pub const OP_INDEX_CALL: u8 = 0x1A;
pub const OP_REM: u8 = 0x1B;
pub const OP_POW: u8 = 0x1C;
pub const OP_CLOSURE: u8 = 0x1D;
pub const OP_CLOSE_UPVALUE: u8 = 0x1E;
pub const OP_GET_UPVALUE: u8 = 0x1F;
pub const OP_SET_UPVALUE: u8 = 0x20;
pub const OP_CLASS: u8 = 0x21;
pub const OP_GET_PROP: u8 = 0x22;
pub const OP_SET_PROP: u8 = 0x23;
pub const OP_METHOD: u8 = 0x24;
pub const OP_INVOKE: u8 = 0x25;
pub const OP_INHERIT: u8 = 0x26;
pub const OP_SUPER_INVOKE: u8 = 0x27;
pub const OP_GET_SUPER: u8 = 0x28;
pub const OP_INDEX_SET: u8 = 0x29;
pub const OP_CONSTANT0: u8 = 0x2A;
pub const OP_JUMP_IF_RANGE_END: u8 = 0x2B;
pub const OP_COUNTUP: u8 = 0x2C;
pub const OP_RANGE: u8 = 0x2D;

/// The opcode takes a 16-bit big-endian jump distance.
pub open spec fn is_jump(op: u8) -> bool {
    op == OP_JUMP || op == OP_JUMP_IF_FALSE || op == OP_JUMP_IF_RANGE_END || op == OP_LOOP
}

/// Number of operand bytes that follow an opcode whose operands have a fixed
/// size.  `OP_CLOSURE` is followed by one byte and then by a pair of bytes for
/// each upvalue of the function it names; this gives the one byte.
pub open spec fn fixed_operands(op: u8) -> int {
    if is_jump(op) || op == OP_INVOKE || op == OP_SUPER_INVOKE {
        2
    } else if op == OP_CONSTANT || op == OP_DEFINE_GLOBAL || op == OP_GET_GLOBAL || op
        == OP_SET_GLOBAL || op == OP_GET_LOCAL || op == OP_SET_LOCAL || op == OP_CALL || op
        == OP_ARRAY || op == OP_GET_UPVALUE || op == OP_SET_UPVALUE || op == OP_CLASS || op
        == OP_GET_PROP || op == OP_SET_PROP || op == OP_METHOD || op == OP_GET_SUPER || op
        == OP_COUNTUP || op == OP_CLOSURE {
        1
    } else {
        0
    }
}

pub fn operand_bytes(op: u8) -> (r: usize)
    ensures
        r == fixed_operands(op),
{
    if op == OP_JUMP || op == OP_JUMP_IF_FALSE || op == OP_JUMP_IF_RANGE_END || op == OP_LOOP
        || op == OP_INVOKE || op == OP_SUPER_INVOKE {
        2
    } else if op == OP_CONSTANT || op == OP_DEFINE_GLOBAL || op == OP_GET_GLOBAL || op
        == OP_SET_GLOBAL || op == OP_GET_LOCAL || op == OP_SET_LOCAL || op == OP_CALL || op
        == OP_ARRAY || op == OP_GET_UPVALUE || op == OP_SET_UPVALUE || op == OP_CLASS || op
        == OP_GET_PROP || op == OP_SET_PROP || op == OP_METHOD || op == OP_GET_SUPER || op
        == OP_COUNTUP || op == OP_CLOSURE {
        1
    } else {
        0
    }
}

/// The 16-bit number whose high byte is `high` and whose low byte is `low`.
pub open spec fn be16(high: u8, low: u8) -> int {
    high as int * 256 + low as int
}

/// The 32-bit number made of four bytes, most significant first.
pub open spec fn be32(b1: u8, b2: u8, b3: u8, b4: u8) -> int {
    ((b1 as int * 256 + b2 as int) * 256 + b3 as int) * 256 + b4 as int
}

/// Bytecode of one function: the code, the constant pool and, for each code
/// byte, the source line it came from.
#[derive(Debug)]
pub struct Chunk {
    pub code: Vec<u8>,
    pub constants: ConstantArray,
    pub lines: Vec<u32>,
}

impl Chunk {
    pub fn new() -> (r: Self)
        ensures
            r.code@ == Seq::<u8>::empty(),
            r.constants@ == Seq::<Value>::empty(),
            r.lines@ == Seq::<u32>::empty(),
    {
        Chunk { code: Vec::new(), constants: ConstantArray::new(), lines: Vec::new() }
    }

    /// Appends one byte of code and its line.
    pub fn write(&mut self, byte: u8, line: u32)
        ensures
            final(self).code@ == old(self).code@.push(byte),
            final(self).lines@ == old(self).lines@.push(line),
            final(self).constants == old(self).constants,
    {
        self.code.push(byte);
        self.lines.push(line);
    }

    pub fn read_u8(&self, index: usize) -> (r: Option<u8>)
        ensures
            r == if index < self.code@.len() {
                Some(self.code@[index as int])
            } else {
                None
            },
    {
        if index < self.code.len() {
            Some(self.code[index])
        } else {
            None
        }
    }

    /// The big-endian 16-bit number at `index`, if both bytes are there.
    pub fn read_u16(&self, index: usize) -> (r: Option<u16>)
        ensures
            r.is_some() == (index + 1 < self.code@.len()),
            r matches Some(v) ==> v == be16(self.code@[index as int], self.code@[index + 1]),
    {
        if index < self.code.len() && self.code.len() - index >= 2 {
            let high: u16 = self.code[index] as u16;
            let low: u16 = self.code[index + 1] as u16;
            Some(high * 256 + low)
        } else {
            None
        }
    }

    /// The big-endian 32-bit number at `index`, if all four bytes are there.
    pub fn read_u32(&self, index: usize) -> (r: Option<u32>)
        ensures
            r.is_some() == (index + 3 < self.code@.len()),
            r matches Some(v) ==> v == be32(
                self.code@[index as int],
                self.code@[index + 1],
                self.code@[index + 2],
                self.code@[index + 3],
            ),
    {
        if index < self.code.len() && self.code.len() - index >= 4 {
            let b1: u32 = self.code[index] as u32;
            let b2: u32 = self.code[index + 1] as u32;
            let b3: u32 = self.code[index + 2] as u32;
            let b4: u32 = self.code[index + 3] as u32;
            Some(((b1 * 256 + b2) * 256 + b3) * 256 + b4)
        } else {
            None
        }
    }

    pub fn get_instruction(&self, index: usize) -> (r: Option<&u8>)
        ensures
            r.is_some() == (index < self.code@.len()),
            r matches Some(b) ==> *b == self.code@[index as int],
    {
        if index < self.code.len() {
            Some(&self.code[index])
        } else {
            None
        }
    }

    /// The code byte at `index`, for writing.
    pub fn get_instruction_mut(&mut self, index: usize) -> (r: Option<&mut u8>)
        ensures
            r.is_some() == (index < old(self).code@.len()),
            r matches Some(b) ==> *b == old(self).code@[index as int]
                && final(self).code@ == old(self).code@.update(index as int, *final(b)),
            r is None ==> final(self).code@ == old(self).code@,
            final(self).lines == old(self).lines,
            final(self).constants == old(self).constants,
    {
        if index < self.code.len() {
            Some(&mut self.code[index])
        } else {
            None
        }
    }

    pub fn get_instruction_len(&self) -> (r: usize)
        ensures
            r == self.code@.len(),
    {
        self.code.len()
    }

    /// Adds a constant and returns its index.  The pool must not be full.
    pub fn add_constant(&mut self, value: Value) -> (r: u8)
        requires
            old(self).constants@.len() < CONSTANT_LEN,
        ensures
            r == old(self).constants@.len(),
            final(self).constants@ == old(self).constants@.push(value),
            final(self).code == old(self).code,
            final(self).lines == old(self).lines,
    {
        let index: usize = self.constants.len();
        self.constants.push(value);
        index as u8
    }

    pub fn get_constant(&self, index: usize) -> (r: Value)
        requires
            index < CONSTANT_LEN,
        ensures
            r == super::value::constant_at(self.constants@, index as int),
    {
        self.constants.get(index)
    }

    pub fn get_constant_len(&self) -> (r: usize)
        ensures
            r == self.constants@.len(),
    {
        self.constants.len()
    }
}

} // verus!
