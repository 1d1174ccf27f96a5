use vstd::prelude::*;

use crate::chunk::{byte_op, bytes_index, Chunk, OpCode};
use crate::value::{binary_spec, both_float, not_spec, VMError, Val, Value};

verus! {

/// Why `run` stopped without an error.
pub enum Halt {
    /// A `Return` (or the end of the code) produced the program's value.
    Return(Value),
    /// A binary operation met two floats: the caller computes
    /// `lhs op rhs`, pushes the result with `push` and runs on.
    Float(OpCode, String, String),
}

/// The model of `Halt`.
pub enum HaltModel {
    Return(Val),
    Float(OpCode, Seq<char>, Seq<char>),
}

impl View for Halt {
    type V = HaltModel;

    open spec fn view(&self) -> HaltModel {
        match self {
            Halt::Return(v) => HaltModel::Return(v@),
            Halt::Float(op, a, b) => HaltModel::Float(*op, a@, b@),
        }
    }
}

/// What one instruction does to the machine: it goes on from a new position and
/// stack, stops, or faults.
pub enum Step {
    Continue(nat, Seq<Val>),
    Stop(HaltModel, nat, Seq<Val>),
    Fault(VMError),
}

/// The effect of opcode `op`, whose byte precedes position `ip` of `code`.
pub open spec fn op_step(code: Seq<u8>, pool: Seq<Val>, ip: nat, stack: Seq<Val>, op: OpCode) -> Step {
    match op {
        OpCode::Const => if ip + 2 > code.len() {
            Step::Fault(VMError::TruncatedConstant)
        } else {
            let idx = bytes_index(code[ip as int], code[(ip + 1) as int]);
            if idx >= pool.len() {
                Step::Fault(VMError::MissingConstant(idx as usize))
            } else {
                Step::Continue(ip + 2, stack.push(pool[idx as int]))
            }
        },
        OpCode::Return => if stack.len() == 0 {
            Step::Stop(HaltModel::Return(Val::Unit), ip, stack)
        } else {
            Step::Stop(HaltModel::Return(stack.last()), ip, stack.drop_last())
        },
        OpCode::Not => if stack.len() == 0 {
            Step::Fault(VMError::StackUnderflow(op))
        } else {
            match not_spec(stack.last()) {
                Ok(v) => Step::Continue(ip, stack.drop_last().push(v)),
                Err(e) => Step::Fault(e),
            }
        },
        _ => if stack.len() < 2 {
            Step::Fault(VMError::StackUnderflow(op))
        } else {
            let rhs = stack.last();
            let lhs = stack[stack.len() - 2];
            let rest = stack.subrange(0, stack.len() - 2);
            if both_float(lhs, rhs) {
                Step::Stop(HaltModel::Float(op, lhs->Float_0, rhs->Float_0), ip, rest)
            } else {
                match binary_spec(op, lhs, rhs) {
                    Ok(v) => Step::Continue(ip, rest.push(v)),
                    Err(e) => Step::Fault(e),
                }
            }
        },
    }
}

/// Running from position `ip` with `stack`: the outcome, and the position and
/// stack the machine is left with. Running off the end of the code returns the
/// empty value.
pub open spec fn run_spec(code: Seq<u8>, pool: Seq<Val>, ip: nat, stack: Seq<Val>) -> (Result<HaltModel, VMError>, nat, Seq<Val>)
    decreases code.len() - ip,
{
    if ip >= code.len() {
        (Ok(HaltModel::Return(Val::Unit)), ip, stack)
    } else {
        match byte_op(code[ip as int]) {
            None => (Err(VMError::InvalidOpcode(code[ip as int])), ip, stack),
            Some(op) => match op_step(code, pool, ip + 1, stack, op) {
                Step::Continue(ip2, stack2) => if ip2 > ip {
                    run_spec(code, pool, ip2, stack2)
                } else {
                    (Ok(HaltModel::Return(Val::Unit)), ip, stack)
                },
                Step::Stop(h, ip2, stack2) => (Ok(h), ip2, stack2),
                Step::Fault(e) => (Err(e), ip, stack),
            },
        }
    }
}

/// A stack machine that runs one chunk.
pub struct VM {
    pub chunk: Chunk,
    pub ip: usize,
    pub stack: Vec<Value>,
}

impl VM {
    /// The operand stack as values of the model.
    pub open spec fn stack_model(&self) -> Seq<Val> {
        self.stack@.map_values(|v: Value| v@)
    }

    /// What running from the current state yields.
    pub open spec fn outcome(&self) -> (Result<HaltModel, VMError>, nat, Seq<Val>) {
        run_spec(self.chunk.source@, self.chunk.pool(), self.ip as nat, self.stack_model())
    }

    pub fn new(chunk: Chunk) -> (r: VM)
        ensures
            r.chunk == chunk,
            r.ip == 0,
            r.stack@.len() == 0,
    {
        VM { chunk, ip: 0, stack: Vec::new() }
    }

    /// Pushes a value, such as the result of a float operation handed out by `run`.
    pub fn push(&mut self, v: Value)
        ensures
            final(self).stack_model() == old(self).stack_model().push(v@),
            final(self).chunk == old(self).chunk,
            final(self).ip == old(self).ip,
    {
        self.stack.push(v);
        proof {
            assert(self.stack_model() =~= old(self).stack_model().push(v@));
        }
    }

    fn pop(&mut self) -> (r: Value)
        requires
            old(self).stack@.len() > 0,
        ensures
            r@ == old(self).stack_model().last(),
            final(self).stack_model() == old(self).stack_model().drop_last(),
            final(self).stack@.len() == old(self).stack@.len() - 1,
            final(self).chunk == old(self).chunk,
            final(self).ip == old(self).ip,
    {
        let v = self.stack.pop().unwrap();
        proof {
            assert(self.stack_model() =~= old(self).stack_model().drop_last());
        }
        v
    }

    /// Runs until a `Return`, the end of the code, a float operation or a fault.
    pub fn run(&mut self) -> (r: Result<Halt, VMError>)
        ensures
            ({
                let (res, ip, stack) = old(self).outcome();
                match r {
                    Ok(h) => res == Ok::<HaltModel, VMError>(h@)
                        && final(self).ip == ip && final(self).stack_model() == stack,
                    Err(e) => res == Err::<HaltModel, VMError>(e),
                }
            }),
            final(self).chunk == old(self).chunk,
    {
        while self.ip < self.chunk.source.len()
            invariant
                self.outcome() == old(self).outcome(),
                self.chunk == old(self).chunk,
            decreases self.chunk.source@.len() - self.ip,
        {
            let b = self.chunk.source[self.ip];
            let op = match OpCode::from_byte(b) {
                Some(op) => op,
                None => return Err(VMError::InvalidOpcode(b)),
            };
            self.ip = self.ip + 1;
            match self.run_op(op) {
                Ok(Some(h)) => return Ok(h),
                Ok(None) => {},
                Err(e) => return Err(e),
            }
        }
        Ok(Halt::Return(Value::Unit))
    }

    /// Carries out `op`, whose byte was just read.
    pub fn run_op(&mut self, op: OpCode) -> (r: Result<Option<Halt>, VMError>)
        ensures
            match op_step(old(self).chunk.source@, old(self).chunk.pool(), old(self).ip as nat, old(self).stack_model(), op) {
                Step::Continue(ip, stack) => r == Ok::<Option<Halt>, VMError>(None)
                    && final(self).ip == ip && final(self).stack_model() == stack,
                Step::Stop(h, ip, stack) => r matches Ok(Some(h2)) && h2@ == h
                    && final(self).ip == ip && final(self).stack_model() == stack,
                Step::Fault(e) => r == Err::<Option<Halt>, VMError>(e),
            },
            final(self).chunk == old(self).chunk,
    {
        match op {
            OpCode::Const => {
                let n = self.chunk.source.len();
                if self.ip >= n || n - self.ip < 2 {
                    return Err(VMError::TruncatedConstant);
                }
                let lo = self.chunk.source[self.ip];
                let hi = self.chunk.source[self.ip + 1];
                let idx = (lo as usize) + 256 * (hi as usize);
                if idx >= self.chunk.constants.len() {
                    return Err(VMError::MissingConstant(idx));
                }
                let v = self.chunk.constants[idx].duplicate();
                self.ip = self.ip + 2;
                self.push(v);
                Ok(None)
            },
            OpCode::Return => {
                if self.stack.len() == 0 {
                    Ok(Some(Halt::Return(Value::Unit)))
                } else {
                    let v = self.pop();
                    Ok(Some(Halt::Return(v)))
                }
            },
            OpCode::Not => {
                if self.stack.len() == 0 {
                    return Err(VMError::StackUnderflow(op));
                }
                let v = self.pop();
                let w = v.not()?;
                self.push(w);
                Ok(None)
            },
            _ => {
                if self.stack.len() < 2 {
                    return Err(VMError::StackUnderflow(op));
                }
                let ghost s0 = self.stack_model();
                let rhs = self.pop();
                let lhs = self.pop();
                proof {
                    assert(s0.drop_last().drop_last() =~= s0.subrange(0, s0.len() - 2));
                }
                match (&lhs, &rhs) {
                    (Value::Float(a), Value::Float(b)) => {
                        return Ok(Some(Halt::Float(op, a.clone(), b.clone())));
                    },
                    _ => {},
                }
                let w = lhs.binary(op, &rhs)?;
                self.push(w);
                Ok(None)
            },
        }
    }
}

} // verus!
