use vstd::prelude::*;

use crate::value::{Val, Value};

verus! {

/// One instruction of the bytecode. `Const` is followed in the code by a
/// two-byte little-endian index into the constant pool.
#[derive(Clone, Copy, Debug, PartialEq, Eq, Structural)]
pub enum OpCode {
    Const,
    Add,
    Sub,
    Mul,
    Div,
    Less,
    Greater,
    Equal,
    And,
    Or,
    Not,
    Return,
}

/// Number of bytes of the constant-pool index that follows a `Const` opcode.
pub const CONST_OPERAND_WIDTH: usize = 2;

/// Largest number of constants a chunk can address.
pub const MAX_CONSTANTS: usize = 65536;

/// The byte that encodes `op`.
pub open spec fn op_byte(op: OpCode) -> u8 {
    match op {
        OpCode::Const => 0,
        OpCode::Add => 1,
        OpCode::Sub => 2,
        OpCode::Mul => 3,
        OpCode::Div => 4,
        OpCode::Less => 5,
        OpCode::Greater => 6,
        OpCode::Equal => 7,
        OpCode::And => 8,
        OpCode::Or => 9,
        OpCode::Not => 10,
        OpCode::Return => 11,
    }
}

/// The opcode a byte stands for, if any.
pub open spec fn byte_op(b: u8) -> Option<OpCode> {
    if b == 0 { Some(OpCode::Const) }
    else if b == 1 { Some(OpCode::Add) }
    else if b == 2 { Some(OpCode::Sub) }
    else if b == 3 { Some(OpCode::Mul) }
    else if b == 4 { Some(OpCode::Div) }
    else if b == 5 { Some(OpCode::Less) }
    else if b == 6 { Some(OpCode::Greater) }
    else if b == 7 { Some(OpCode::Equal) }
    else if b == 8 { Some(OpCode::And) }
    else if b == 9 { Some(OpCode::Or) }
    else if b == 10 { Some(OpCode::Not) }
    else if b == 11 { Some(OpCode::Return) }
    else { None }
}

/// The two bytes that encode a constant index.
pub open spec fn index_bytes(i: nat) -> Seq<u8> {
    seq![(i % 256) as u8, ((i / 256) % 256) as u8]
}

/// The index encoded by two little-endian bytes.
pub open spec fn bytes_index(lo: u8, hi: u8) -> nat {
    (lo as nat) + 256 * (hi as nat)
}

/// From position `i` on, `code` reads as whole instructions: each byte in an
/// opcode's place is an opcode, and each `Const` is followed by both bytes of
/// an index below `n`, the size of the constant pool.
pub open spec fn consts_valid(code: Seq<u8>, n: nat, i: int) -> bool
    decreases code.len() - i,
{
    if i < 0 || i >= code.len() {
        true
    } else {
        match byte_op(code[i]) {
            None => false,
            Some(OpCode::Const) => i + 2 < code.len() && bytes_index(code[i + 1], code[i + 2]) < n
                && consts_valid(code, n, i + 3),
            Some(_) => consts_valid(code, n, i + 1),
        }
    }
}

/// A larger pool keeps code valid.
pub proof fn lemma_consts_valid_grow(code: Seq<u8>, n: nat, m: nat, i: int)
    requires
        consts_valid(code, n, i),
        n <= m,
    ensures
        consts_valid(code, m, i),
    decreases code.len() - i,
{
    if 0 <= i < code.len() {
        match byte_op(code[i]) {
            Some(OpCode::Const) => lemma_consts_valid_grow(code, n, m, i + 3),
            Some(_) => lemma_consts_valid_grow(code, n, m, i + 1),
            None => {},
        }
    }
}

proof fn lemma_consts_valid_shift(c1: Seq<u8>, c2: Seq<u8>, n: nat, j: int)
    requires
        0 <= j,
    ensures
        consts_valid(c1 + c2, n, c1.len() + j) == consts_valid(c2, n, j),
    decreases c2.len() - j,
{
    let c = c1 + c2;
    if j < c2.len() {
        assert(c[c1.len() + j] == c2[j]);
        if j + 2 < c2.len() {
            assert(c[c1.len() + j + 1] == c2[j + 1]);
            assert(c[c1.len() + j + 2] == c2[j + 2]);
        }
        lemma_consts_valid_shift(c1, c2, n, j + 1);
        if j + 3 <= c2.len() {
            lemma_consts_valid_shift(c1, c2, n, j + 3);
        }
        assert(c1.len() + j + 1 == c1.len() + (j + 1));
        assert(c1.len() + j + 3 == c1.len() + (j + 3));
    }
}

/// Two valid pieces of code make valid code.
pub proof fn lemma_consts_valid_concat(c1: Seq<u8>, c2: Seq<u8>, n: nat, i: int)
    requires
        0 <= i <= c1.len(),
        consts_valid(c1, n, i),
        consts_valid(c2, n, 0),
    ensures
        consts_valid(c1 + c2, n, i),
    decreases c1.len() - i,
{
    let c = c1 + c2;
    if i == c1.len() {
        lemma_consts_valid_shift(c1, c2, n, 0);
    } else {
        assert(c[i] == c1[i]);
        match byte_op(c1[i]) {
            Some(OpCode::Const) => {
                assert(c[i + 1] == c1[i + 1]);
                assert(c[i + 2] == c1[i + 2]);
                lemma_consts_valid_concat(c1, c2, n, i + 3);
            },
            Some(_) => lemma_consts_valid_concat(c1, c2, n, i + 1),
            None => {},
        }
    }
}

impl OpCode {
    pub fn to_byte(self) -> (r: u8)
        ensures
            r == op_byte(self),
    {
        match self {
            OpCode::Const => 0,
            OpCode::Add => 1,
            OpCode::Sub => 2,
            OpCode::Mul => 3,
            OpCode::Div => 4,
            OpCode::Less => 5,
            OpCode::Greater => 6,
            OpCode::Equal => 7,
            OpCode::And => 8,
            OpCode::Or => 9,
            OpCode::Not => 10,
            OpCode::Return => 11,
        }
    }

    pub fn from_byte(b: u8) -> (r: Option<OpCode>)
        ensures
            r == byte_op(b),
    {
        match b {
            0 => Some(OpCode::Const),
            1 => Some(OpCode::Add),
            2 => Some(OpCode::Sub),
            3 => Some(OpCode::Mul),
            4 => Some(OpCode::Div),
            5 => Some(OpCode::Less),
            6 => Some(OpCode::Greater),
            7 => Some(OpCode::Equal),
            8 => Some(OpCode::And),
            9 => Some(OpCode::Or),
            10 => Some(OpCode::Not),
            11 => Some(OpCode::Return),
            _ => None,
        }
    }
}

/// A compiled program: an opcode stream with inline constant indices, and the
/// constant pool those indices point into.
pub struct Chunk {
    pub source: Vec<u8>,
    pub constants: Vec<Value>,
}

impl Chunk {
    /// The constant pool as values of the model.
    pub open spec fn pool(&self) -> Seq<Val> {
        self.constants@.map_values(|v: Value| v@)
    }

    pub fn new() -> (r: Chunk)
        ensures
            r.source@ == Seq::<u8>::empty(),
            r.constants@.len() == 0,
    {
        Chunk { source: Vec::new(), constants: Vec::new() }
    }

    /// Appends one opcode byte.
    pub fn write_op(&mut self, op: OpCode)
        ensures
            final(self).source@ == old(self).source@.push(op_byte(op)),
            final(self).constants@ == old(self).constants@,
    {
        let b = op.to_byte();
        self.source.push(b);
    }

    /// Appends `value` to the pool and a `Const` instruction that loads it.
    /// Fails, changing nothing, when the pool already holds `MAX_CONSTANTS` values.
    pub fn write_const(&mut self, value: Value) -> (r: bool)
        ensures
            r == (old(self).constants@.len() < MAX_CONSTANTS),
            r ==> final(self).source@ == old(self).source@.push(op_byte(OpCode::Const))
                + index_bytes(old(self).constants@.len()),
            r ==> final(self).constants@ == old(self).constants@.push(value),
            !r ==> *final(self) == *old(self),
    {
        let n = self.constants.len();
        if n >= MAX_CONSTANTS {
            return false;
        }
        self.source.push(OpCode::Const.to_byte());
        self.source.push((n % 256) as u8);
        self.source.push(((n / 256) % 256) as u8);
        self.constants.push(value);
        proof {
            assert(self.source@ =~= old(self).source@.push(op_byte(OpCode::Const))
                + index_bytes(old(self).constants@.len()));
        }
        true
    }
}

} // verus!
