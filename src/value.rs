use vstd::prelude::*;

use crate::chunk::OpCode;
use crate::text::str_eq;

verus! {

/// A runtime value. A float is carried as the decimal text of the number:
/// arithmetic on two floats is performed outside the machine (see `Halt`).
#[derive(Debug)]
pub enum Value {
    Integer(i64),
    Float(String),
    Boolean(bool),
    String(String),
    Unit,
}

/// The mathematical model of a `Value`: text becomes a sequence of characters.
pub enum Val {
    Integer(i64),
    Float(Seq<char>),
    Boolean(bool),
    Str(Seq<char>),
    Unit,
}

/// The tag of a value, as reported in type errors.
#[derive(Clone, Copy, Debug, PartialEq, Eq, Structural)]
pub enum Tag {
    Integer,
    Float,
    Boolean,
    String,
    Unit,
}

/// Why execution stopped with an error.
#[derive(Clone, Copy, Debug, PartialEq, Eq, Structural)]
pub enum VMError {
    /// A binary operation met operand tags it is not defined on.
    TypeMismatch(OpCode, Tag, Tag),
    /// A unary operation met an operand tag it is not defined on.
    UnaryTypeMismatch(OpCode, Tag),
    /// Integer arithmetic left the range of `i64`.
    Overflow(OpCode),
    DivisionByZero,
    /// An operation found fewer operands on the stack than it pops.
    StackUnderflow(OpCode),
    /// A byte of the code that encodes no opcode.
    InvalidOpcode(u8),
    /// A `Const` opcode at the end of the code, without its full index.
    TruncatedConstant,
    /// A `Const` index past the end of the constant pool.
    MissingConstant(usize),
}

impl View for Value {
    type V = Val;

    open spec fn view(&self) -> Val {
        match self {
            Value::Integer(i) => Val::Integer(*i),
            Value::Float(s) => Val::Float(s@),
            Value::Boolean(b) => Val::Boolean(*b),
            Value::String(s) => Val::Str(s@),
            Value::Unit => Val::Unit,
        }
    }
}

pub open spec fn tag_of(v: Val) -> Tag {
    match v {
        Val::Integer(_) => Tag::Integer,
        Val::Float(_) => Tag::Float,
        Val::Boolean(_) => Tag::Boolean,
        Val::Str(_) => Tag::String,
        Val::Unit => Tag::Unit,
    }
}

/// Both operands are floats: the operation is carried out outside the machine.
pub open spec fn both_float(a: Val, b: Val) -> bool {
    a is Float && b is Float
}

/// Integer division truncating toward zero, as Rust's `/` on `i64`.
pub open spec fn int_div(a: i64, b: i64) -> Option<i64> {
    a.checked_div(b)
}

/// What a binary operation yields on two values that are not both floats.
/// Integers and integers give integer arithmetic (an error where the result leaves
/// `i64`, or on division by zero) and ordering; two strings concatenate under
/// `Add`; `Equal` compares any two values and is false across tags; `And` and
/// `Or` take two booleans. Everything else is a type mismatch.
pub open spec fn binary_spec(op: OpCode, a: Val, b: Val) -> Result<Val, VMError> {
    let mismatch = Err(VMError::TypeMismatch(op, tag_of(a), tag_of(b)));
    match op {
        OpCode::Add => match (a, b) {
            (Val::Integer(x), Val::Integer(y)) => match x.checked_add(y) {
                Some(z) => Ok(Val::Integer(z)),
                None => Err(VMError::Overflow(op)),
            },
            (Val::Str(x), Val::Str(y)) => Ok(Val::Str(x + y)),
            _ => mismatch,
        },
        OpCode::Sub => match (a, b) {
            (Val::Integer(x), Val::Integer(y)) => match x.checked_sub(y) {
                Some(z) => Ok(Val::Integer(z)),
                None => Err(VMError::Overflow(op)),
            },
            _ => mismatch,
        },
        OpCode::Mul => match (a, b) {
            (Val::Integer(x), Val::Integer(y)) => match x.checked_mul(y) {
                Some(z) => Ok(Val::Integer(z)),
                None => Err(VMError::Overflow(op)),
            },
            _ => mismatch,
        },
        OpCode::Div => match (a, b) {
            (Val::Integer(x), Val::Integer(y)) => if y == 0 {
                Err(VMError::DivisionByZero)
            } else {
                match int_div(x, y) {
                    Some(z) => Ok(Val::Integer(z)),
                    None => Err(VMError::Overflow(op)),
                }
            },
            _ => mismatch,
        },
        OpCode::Less => match (a, b) {
            (Val::Integer(x), Val::Integer(y)) => Ok(Val::Boolean(x < y)),
            _ => mismatch,
        },
        OpCode::Greater => match (a, b) {
            (Val::Integer(x), Val::Integer(y)) => Ok(Val::Boolean(x > y)),
            _ => mismatch,
        },
        OpCode::Equal => Ok(Val::Boolean(a == b)),
        OpCode::And => match (a, b) {
            (Val::Boolean(x), Val::Boolean(y)) => Ok(Val::Boolean(x && y)),
            _ => mismatch,
        },
        OpCode::Or => match (a, b) {
            (Val::Boolean(x), Val::Boolean(y)) => Ok(Val::Boolean(x || y)),
            _ => mismatch,
        },
        _ => mismatch,
    }
}

/// What `Not` yields: the negation of a boolean; any other tag is an error.
pub open spec fn not_spec(a: Val) -> Result<Val, VMError> {
    match a {
        Val::Boolean(x) => Ok(Val::Boolean(!x)),
        _ => Err(VMError::UnaryTypeMismatch(OpCode::Not, tag_of(a))),
    }
}

impl Value {
    pub fn tag(&self) -> (r: Tag)
        ensures
            r == tag_of(self@),
    {
        match self {
            Value::Integer(_) => Tag::Integer,
            Value::Float(_) => Tag::Float,
            Value::Boolean(_) => Tag::Boolean,
            Value::String(_) => Tag::String,
            Value::Unit => Tag::Unit,
        }
    }

    /// A copy of the value.
    pub fn duplicate(&self) -> (r: Value)
        ensures
            r@ == self@,
    {
        match self {
            Value::Integer(i) => Value::Integer(*i),
            Value::Float(s) => Value::Float(s.clone()),
            Value::Boolean(b) => Value::Boolean(*b),
            Value::String(s) => Value::String(s.clone()),
            Value::Unit => Value::Unit,
        }
    }

    /// Applies the binary operation `op` to `self` (left) and `rhs` (right).
    pub fn binary(&self, op: OpCode, rhs: &Value) -> (r: Result<Value, VMError>)
        requires
            !both_float(self@, rhs@),
        ensures
            match (r, binary_spec(op, self@, rhs@)) {
                (Ok(v), Ok(w)) => v@ == w,
                (Err(e), Err(f)) => e == f,
                _ => false,
            },
    {
        let mismatch = VMError::TypeMismatch(op, self.tag(), rhs.tag());
        match op {
            OpCode::Add => match (self, rhs) {
                (Value::Integer(x), Value::Integer(y)) => match x.checked_add(*y) {
                    Some(z) => Ok(Value::Integer(z)),
                    None => Err(VMError::Overflow(op)),
                },
                (Value::String(x), Value::String(y)) => {
                    let z = x.clone().concat(y.as_str());
                    Ok(Value::String(z))
                },
                _ => Err(mismatch),
            },
            OpCode::Sub => match (self, rhs) {
                (Value::Integer(x), Value::Integer(y)) => match x.checked_sub(*y) {
                    Some(z) => Ok(Value::Integer(z)),
                    None => Err(VMError::Overflow(op)),
                },
                _ => Err(mismatch),
            },
            OpCode::Mul => match (self, rhs) {
                (Value::Integer(x), Value::Integer(y)) => match x.checked_mul(*y) {
                    Some(z) => Ok(Value::Integer(z)),
                    None => Err(VMError::Overflow(op)),
                },
                _ => Err(mismatch),
            },
            OpCode::Div => match (self, rhs) {
                (Value::Integer(x), Value::Integer(y)) => if *y == 0 {
                    Err(VMError::DivisionByZero)
                } else {
                    match x.checked_div(*y) {
                        Some(z) => Ok(Value::Integer(z)),
                        None => Err(VMError::Overflow(op)),
                    }
                },
                _ => Err(mismatch),
            },
            OpCode::Less => match (self, rhs) {
                (Value::Integer(x), Value::Integer(y)) => Ok(Value::Boolean(*x < *y)),
                _ => Err(mismatch),
            },
            OpCode::Greater => match (self, rhs) {
                (Value::Integer(x), Value::Integer(y)) => Ok(Value::Boolean(*x > *y)),
                _ => Err(mismatch),
            },
            OpCode::Equal => Ok(Value::Boolean(self.equals(rhs))),
            OpCode::And => match (self, rhs) {
                (Value::Boolean(x), Value::Boolean(y)) => Ok(Value::Boolean(*x && *y)),
                _ => Err(mismatch),
            },
            OpCode::Or => match (self, rhs) {
                (Value::Boolean(x), Value::Boolean(y)) => Ok(Value::Boolean(*x || *y)),
                _ => Err(mismatch),
            },
            _ => Err(mismatch),
        }
    }

    /// Whether two values are equal; values of different tags never are.
    pub fn equals(&self, rhs: &Value) -> (r: bool)
        requires
            !both_float(self@, rhs@),
        ensures
            r == (self@ == rhs@),
    {
        match (self, rhs) {
            (Value::Integer(x), Value::Integer(y)) => *x == *y,
            (Value::Boolean(x), Value::Boolean(y)) => *x == *y,
            (Value::String(x), Value::String(y)) => str_eq(x.as_str(), y.as_str()),
            (Value::Unit, Value::Unit) => true,
            _ => false,
        }
    }

    /// Boolean negation.
    pub fn not(&self) -> (r: Result<Value, VMError>)
        ensures
            match (r, not_spec(self@)) {
                (Ok(v), Ok(w)) => v@ == w,
                (Err(e), Err(f)) => e == f,
                _ => false,
            },
    {
        match self {
            Value::Boolean(b) => Ok(Value::Boolean(!*b)),
            _ => Err(VMError::UnaryTypeMismatch(OpCode::Not, self.tag())),
        }
    }
}

} // verus!
