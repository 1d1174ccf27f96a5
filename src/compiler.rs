use vstd::prelude::*;

use crate::ast::{Ast, Node, NodeKind, Operator};
use crate::chunk::{
    byte_op, bytes_index, consts_valid, index_bytes, lemma_consts_valid_concat, lemma_consts_valid_grow, op_byte,
    Chunk, OpCode, MAX_CONSTANTS,
};
use crate::span::Span;
use crate::value::{Val, Value};

verus! {

/// Why a tree could not be lowered to bytecode.
#[derive(Clone, Copy, Debug, PartialEq, Eq, Structural)]
pub enum CompileError {
    /// The root handed to `compile_program` is not a block.
    NotABlock,
    /// Blocks inside a program wait for scopes.
    NestedBlock,
    /// Variable declarations wait for scopes.
    VarDeclaration,
    /// Identifiers wait for variable declarations.
    Identifier,
    /// A prefix operator with no lowering (only `Not` has one).
    UnaryOperator(Operator),
    /// An operator with no binary lowering (`Not`).
    BinaryOperator(Operator),
    /// The constant pool is full.
    TooManyConstants,
    /// An integer literal above the largest signed word.
    IntegerTooLarge(u64),
}

/// The opcodes a binary operator lowers to, after its two operands. The
/// comparisons `>=`, `<=` and `!=` become the opposite primitive followed by `Not`.
pub open spec fn binary_ops(op: Operator) -> Option<Seq<u8>> {
    match op {
        Operator::Plus => Some(seq![op_byte(OpCode::Add)]),
        Operator::Minus => Some(seq![op_byte(OpCode::Sub)]),
        Operator::Star => Some(seq![op_byte(OpCode::Mul)]),
        Operator::Slash => Some(seq![op_byte(OpCode::Div)]),
        Operator::Or => Some(seq![op_byte(OpCode::Or)]),
        Operator::And => Some(seq![op_byte(OpCode::And)]),
        Operator::GreaterThan => Some(seq![op_byte(OpCode::Greater)]),
        Operator::LessThan => Some(seq![op_byte(OpCode::Less)]),
        Operator::GreaterThanEquals => Some(seq![op_byte(OpCode::Less), op_byte(OpCode::Not)]),
        Operator::LessThanEquals => Some(seq![op_byte(OpCode::Greater), op_byte(OpCode::Not)]),
        Operator::Equals => Some(seq![op_byte(OpCode::Equal)]),
        Operator::BangEquals => Some(seq![op_byte(OpCode::Equal), op_byte(OpCode::Not)]),
        Operator::Not => None,
    }
}

/// The code and constants that load one literal, the pool already holding `k` values.
pub open spec fn const_spec(v: Val, k: nat) -> Result<(Seq<u8>, Seq<Val>), CompileError> {
    if k < MAX_CONSTANTS {
        Ok((seq![op_byte(OpCode::Const)] + index_bytes(k), seq![v]))
    } else {
        Err(CompileError::TooManyConstants)
    }
}

/// The code and new constants that one node lowers to, the pool already holding
/// `k` values: operands first, left to right, then the operation.
pub open spec fn compile_spec(a: Ast, k: nat) -> Result<(Seq<u8>, Seq<Val>), CompileError>
    decreases a,
{
    match a {
        Ast::Return(_, e) => match compile_spec(*e, k) {
            Ok((c, p)) => Ok((c.push(op_byte(OpCode::Return)), p)),
            Err(err) => Err(err),
        },
        Ast::Block(_, _) => Err(CompileError::NestedBlock),
        Ast::VarDeclaration(_, _, _) => Err(CompileError::VarDeclaration),
        Ast::UnaryOperation(_, op, e) => if op == Operator::Not {
            match compile_spec(*e, k) {
                Ok((c, p)) => Ok((c.push(op_byte(OpCode::Not)), p)),
                Err(err) => Err(err),
            }
        } else {
            Err(CompileError::UnaryOperator(op))
        },
        Ast::BinaryOperation(_, op, l, r) => match compile_spec(*l, k) {
            Ok((c1, p1)) => match compile_spec(*r, k + p1.len()) {
                Ok((c2, p2)) => match binary_ops(op) {
                    Some(ops) => Ok((c1 + c2 + ops, p1 + p2)),
                    None => Err(CompileError::BinaryOperator(op)),
                },
                Err(err) => Err(err),
            },
            Err(err) => Err(err),
        },
        Ast::Identifier(_, _) => Err(CompileError::Identifier),
        Ast::StringLiteral(_, t) => const_spec(Val::Str(t), k),
        Ast::FloatLiteral(_, t) => const_spec(Val::Float(t), k),
        Ast::IntegerLiteral(_, v) => if v <= i64::MAX {
            const_spec(Val::Integer(v as i64), k)
        } else {
            Err(CompileError::IntegerTooLarge(v))
        },
        Ast::BooleanLiteral(_, b) => const_spec(Val::Boolean(b), k),
    }
}

/// The code and constants of a sequence of statements, lowered one after another.
pub open spec fn compile_seq_spec(s: Seq<Ast>, k: nat) -> Result<(Seq<u8>, Seq<Val>), CompileError>
    decreases s.len(),
{
    if s.len() == 0 {
        Ok((Seq::empty(), Seq::empty()))
    } else {
        match compile_seq_spec(s.drop_last(), k) {
            Ok((c1, p1)) => match compile_spec(s.last(), k + p1.len()) {
                Ok((c2, p2)) => Ok((c1 + c2, p1 + p2)),
                Err(err) => Err(err),
            },
            Err(err) => Err(err),
        }
    }
}

/// Once a prefix of the statements fails, every longer prefix fails the same way.
proof fn lemma_seq_error_sticks(s: Seq<Ast>, k: nat, i: int, j: int)
    requires
        0 <= i <= j <= s.len(),
        compile_seq_spec(s.subrange(0, i), k) is Err,
    ensures
        compile_seq_spec(s.subrange(0, j), k) == compile_seq_spec(s.subrange(0, i), k),
    decreases j - i,
{
    if j > i {
        lemma_seq_error_sticks(s, k, i, j - 1);
        assert(s.subrange(0, j).drop_last() =~= s.subrange(0, j - 1));
    }
}

/// What a whole program lowers to: the statements of its root block.
pub open spec fn compile_program_spec(a: Ast, k: nat) -> Result<(Seq<u8>, Seq<Val>), CompileError> {
    match a {
        Ast::Block(_, stmts) => compile_seq_spec(stmts, k),
        _ => Err(CompileError::NotABlock),
    }
}

/// Lowers trees into the chunk it builds.
pub struct Compiler {
    pub chunk: Chunk,
}

impl Compiler {
    pub fn new() -> (r: Compiler)
        ensures
            r.chunk.source@.len() == 0,
            r.chunk.constants@.len() == 0,
    {
        Compiler { chunk: Chunk::new() }
    }

    /// The chunk grew by what `code` and `pool` say.
    pub open spec fn appended(&self, old_c: &Compiler, code: Seq<u8>, pool: Seq<Val>) -> bool {
        &&& self.chunk.source@ == old_c.chunk.source@ + code
        &&& self.chunk.pool() == old_c.chunk.pool() + pool
    }

    fn write_literal(&mut self, v: Value) -> (r: Result<(), CompileError>)
        ensures
            match const_spec(v@, old(self).chunk.constants@.len()) {
                Ok((c, p)) => r is Ok && final(self).appended(old(self), c, p),
                Err(e) => r == Err::<(), CompileError>(e),
            },
    {
        let ghost v_model = v@;
        let ghost k = self.chunk.constants@.len();
        if self.chunk.write_const(v) {
            proof {
                assert(self.chunk.pool() =~= old(self).chunk.pool() + seq![v_model]);
                assert(self.chunk.source@ =~= old(self).chunk.source@
                    + (seq![op_byte(OpCode::Const)] + index_bytes(k)));
            }
            Ok(())
        } else {
            Err(CompileError::TooManyConstants)
        }
    }

    /// Appends the opcodes that a binary operator lowers to.
    fn write_binary_ops(&mut self, op: Operator) -> (r: Result<(), CompileError>)
        ensures
            match binary_ops(op) {
                Some(ops) => r is Ok && final(self).appended(old(self), ops, Seq::empty()),
                None => r == Err::<(), CompileError>(CompileError::BinaryOperator(op)),
            },
    {
        match op {
            Operator::Plus => self.chunk.write_op(OpCode::Add),
            Operator::Minus => self.chunk.write_op(OpCode::Sub),
            Operator::Star => self.chunk.write_op(OpCode::Mul),
            Operator::Slash => self.chunk.write_op(OpCode::Div),
            Operator::Or => self.chunk.write_op(OpCode::Or),
            Operator::And => self.chunk.write_op(OpCode::And),
            Operator::GreaterThan => self.chunk.write_op(OpCode::Greater),
            Operator::LessThan => self.chunk.write_op(OpCode::Less),
            // Swap the direction and invert the result.
            Operator::GreaterThanEquals => self.chunk.write_op(OpCode::Less),
            Operator::LessThanEquals => self.chunk.write_op(OpCode::Greater),
            Operator::Equals => self.chunk.write_op(OpCode::Equal),
            Operator::BangEquals => self.chunk.write_op(OpCode::Equal),
            Operator::Not => return Err(CompileError::BinaryOperator(op)),
        }
        match op {
            Operator::GreaterThanEquals
            | Operator::LessThanEquals
            | Operator::BangEquals => self.chunk.write_op(OpCode::Not),
            _ => {},
        }
        proof {
            assert(self.chunk.source@ =~= old(self).chunk.source@ + binary_ops(op).unwrap());
            assert(self.chunk.pool() =~= old(self).chunk.pool() + Seq::<Val>::empty());
        }
        Ok(())
    }

    /// Lowers both operands, then the operator.
    fn compile_binary(&mut self, node: &Node) -> (r: Result<(), CompileError>)
        requires
            node.kind is BinaryOperation,
        ensures
            match compile_spec(node.ast(), old(self).chunk.constants@.len()) {
                Ok((c, p)) => r is Ok && final(self).appended(old(self), c, p),
                Err(e) => r == Err::<(), CompileError>(e),
            },
        decreases node, 0nat,
    {
        let (op, lhs, rhs) = match &node.kind {
            NodeKind::BinaryOperation(op, lhs, rhs) => (*op, lhs, rhs),
            _ => return Err(CompileError::BinaryOperator(Operator::Not)),
        };
        let ghost before = *self;
        assert(before.chunk.pool().len() == before.chunk.constants@.len());
        self.compile(lhs)?;
        let ghost mid = *self;
        assert(mid.chunk.pool().len() == mid.chunk.constants@.len());
        self.compile(rhs)?;
        let ghost late = *self;
        self.write_binary_ops(op)?;
        proof {
            let (c1, p1) = compile_spec(lhs.ast(), before.chunk.constants@.len()).unwrap();
            let (c2, p2) = compile_spec(rhs.ast(), mid.chunk.constants@.len()).unwrap();
            let ops = binary_ops(op).unwrap();
            assert(self.chunk.source@ =~= before.chunk.source@ + (c1 + c2 + ops));
            assert(self.chunk.pool() =~= before.chunk.pool() + (p1 + p2));
        }
        Ok(())
    }

    /// Lowers one node, appending its code and constants to the chunk.
    pub fn compile(&mut self, node: &Node) -> (r: Result<(), CompileError>)
        ensures
            match compile_spec(node.ast(), old(self).chunk.constants@.len()) {
                Ok((c, p)) => r is Ok && final(self).appended(old(self), c, p),
                Err(e) => r == Err::<(), CompileError>(e),
            },
        decreases node, 1nat,
    {
        match &node.kind {
            NodeKind::Return(val) => {
                self.compile(val)?;
                self.chunk.write_op(OpCode::Return);
                Ok(())
            },
            NodeKind::Block(_) => Err(CompileError::NestedBlock),
            NodeKind::VarDeclaration(_, _) => Err(CompileError::VarDeclaration),
            NodeKind::UnaryOperation(op, val) => {
                match op {
                    Operator::Not => {
                        self.compile(val)?;
                        self.chunk.write_op(OpCode::Not);
                        Ok(())
                    },
                    _ => Err(CompileError::UnaryOperator(*op)),
                }
            },
            NodeKind::BinaryOperation(_, _, _) => self.compile_binary(node),
            NodeKind::Identifier(_) => Err(CompileError::Identifier),
            NodeKind::StringLiteral(val) => self.write_literal(Value::String(val.clone())),
            NodeKind::FloatLiteral(val) => self.write_literal(Value::Float(val.clone())),
            NodeKind::IntegerLiteral(val) => if *val <= i64::MAX as u64 {
                self.write_literal(Value::Integer(*val as i64))
            } else {
                Err(CompileError::IntegerTooLarge(*val))
            },
            NodeKind::BooleanLiteral(val) => self.write_literal(Value::Boolean(*val)),
        }
    }

    /// Lowers every statement of the root block, in order.
    pub fn compile_program(&mut self, program: &Node) -> (r: Result<(), CompileError>)
        ensures
            match compile_program_spec(program.ast(), old(self).chunk.constants@.len()) {
                Ok((c, p)) => r is Ok && final(self).appended(old(self), c, p),
                Err(e) => r == Err::<(), CompileError>(e),
            },
    {
        let stmts = match &program.kind {
            NodeKind::Block(stmts) => stmts,
            _ => return Err(CompileError::NotABlock),
        };
        let ghost start = *self;
        let ghost asts = match program.ast() {
            Ast::Block(_, s) => s,
            _ => arbitrary(),
        };
        let mut i: usize = 0;
        while i < stmts.len()
            invariant
                0 <= i <= stmts@.len(),
                asts.len() == stmts@.len(),
                forall|j: int| 0 <= j < stmts@.len() ==> asts[j] == #[trigger] stmts@[j].ast(),
                start.chunk.pool().len() == start.chunk.constants@.len(),
                start == *old(self),
                compile_program_spec(program.ast(), start.chunk.constants@.len())
                    == compile_seq_spec(asts, start.chunk.constants@.len()),
                match compile_seq_spec(asts.subrange(0, i as int), start.chunk.constants@.len()) {
                    Ok((c, p)) => self.appended(&start, c, p),
                    Err(_) => false,
                },
            decreases stmts@.len() - i,
        {
            let ghost before = *self;
            proof {
                assert(asts.subrange(0, i + 1).drop_last() =~= asts.subrange(0, i as int));
            }
            assert(before.chunk.pool().len() == before.chunk.constants@.len());
            let res = self.compile(&stmts[i]);
            if res.is_err() {
                proof {
                    let (c1, p1) = compile_seq_spec(asts.subrange(0, i as int), start.chunk.constants@.len()).unwrap();
                    assert(before.chunk.constants@.len() == start.chunk.constants@.len() + p1.len());
                    assert(asts.subrange(0, i + 1).last() == stmts@[i as int].ast());
                    assert(compile_seq_spec(asts.subrange(0, i + 1), start.chunk.constants@.len()) is Err);
                    lemma_seq_error_sticks(asts, start.chunk.constants@.len(), i + 1, asts.len() as int);
                    assert(asts.subrange(0, asts.len() as int) =~= asts);
                    let k = start.chunk.constants@.len();
                    let (c1, p1) = compile_seq_spec(asts.subrange(0, i as int), k).unwrap();
                    let e = compile_spec(stmts@[i as int].ast(), k + p1.len());
                    assert(e is Err);
                    assert(res == Err::<(), CompileError>(e->Err_0));
                    assert(compile_seq_spec(asts.subrange(0, i + 1), k) == e);
                    assert(compile_seq_spec(asts, k) == e);
                }
                return res;
            }
            proof {
                let (c1, p1) = compile_seq_spec(asts.subrange(0, i as int), start.chunk.constants@.len()).unwrap();
                let (c2, p2) = compile_spec(stmts@[i as int].ast(), before.chunk.constants@.len()).unwrap();
                assert(before.chunk.pool().len() == before.chunk.constants@.len());
                assert(self.chunk.source@ =~= start.chunk.source@ + (c1 + c2));
                assert(self.chunk.pool() =~= start.chunk.pool() + (p1 + p2));
            }
            i = i + 1;
        }
        proof {
            assert(asts.subrange(0, i as int) =~= asts);
        }
        Ok(())
    }
}

/// A compound comparison whose lowering is that of `prim` followed by `Not`
/// compiles exactly as the negation of `prim`.
proof fn lemma_negated_comparison(sp: Span, sp2: Span, a: Ast, b: Ast, k: nat, compound: Operator, prim: Operator, x: u8)
    requires
        binary_ops(prim) == Some(seq![x]),
        binary_ops(compound) == Some(seq![x, op_byte(OpCode::Not)]),
    ensures
        compile_spec(Ast::BinaryOperation(sp, compound, Box::new(a), Box::new(b)), k)
            == compile_spec(Ast::UnaryOperation(sp2, Operator::Not,
                Box::new(Ast::BinaryOperation(sp, prim, Box::new(a), Box::new(b)))), k),
{
    let inner = Ast::BinaryOperation(sp, prim, Box::new(a), Box::new(b));
    let outer = Ast::UnaryOperation(sp2, Operator::Not, Box::new(inner));
    let direct = Ast::BinaryOperation(sp, compound, Box::new(a), Box::new(b));
    assert(compile_spec(outer, k) == match compile_spec(inner, k) {
        Ok((c, p)) => Ok((c.push(op_byte(OpCode::Not)), p)),
        Err(err) => Err(err),
    });
    match compile_spec(a, k) {
        Ok((c1, p1)) => match compile_spec(b, k + p1.len()) {
            Ok((c2, p2)) => {
                assert(compile_spec(inner, k) == Ok::<(Seq<u8>, Seq<Val>), CompileError>((c1 + c2 + seq![x], p1 + p2)));
                assert(c1 + c2 + seq![x, op_byte(OpCode::Not)] =~= (c1 + c2 + seq![x]).push(op_byte(OpCode::Not)));
                assert(compile_spec(direct, k) == Ok::<(Seq<u8>, Seq<Val>), CompileError>((c1 + c2 + seq![x, op_byte(OpCode::Not)], p1 + p2)));
            },
            Err(e) => {
                assert(compile_spec(inner, k) == Err::<(Seq<u8>, Seq<Val>), CompileError>(e));
            },
        },
        Err(e) => {
            assert(compile_spec(inner, k) == Err::<(Seq<u8>, Seq<Val>), CompileError>(e));
        },
    }
}

/// Compound comparisons lower to a primitive comparison and a negation, never an
/// opcode of their own: `a >= b` compiles exactly as `not (a < b)`, `a <= b` as
/// `not (a > b)` and `a != b` as `not (a == b)`. Where it compiles, `a >= b`
/// ends in `Less` then `Not`.
pub proof fn lemma_compound_comparison_lowering(sp: Span, sp2: Span, a: Ast, b: Ast, k: nat)
    ensures
        compile_spec(Ast::BinaryOperation(sp, Operator::GreaterThanEquals, Box::new(a), Box::new(b)), k)
            == compile_spec(Ast::UnaryOperation(sp2, Operator::Not,
                Box::new(Ast::BinaryOperation(sp, Operator::LessThan, Box::new(a), Box::new(b)))), k),
        compile_spec(Ast::BinaryOperation(sp, Operator::LessThanEquals, Box::new(a), Box::new(b)), k)
            == compile_spec(Ast::UnaryOperation(sp2, Operator::Not,
                Box::new(Ast::BinaryOperation(sp, Operator::GreaterThan, Box::new(a), Box::new(b)))), k),
        compile_spec(Ast::BinaryOperation(sp, Operator::BangEquals, Box::new(a), Box::new(b)), k)
            == compile_spec(Ast::UnaryOperation(sp2, Operator::Not,
                Box::new(Ast::BinaryOperation(sp, Operator::Equals, Box::new(a), Box::new(b)))), k),
        compile_spec(Ast::BinaryOperation(sp, Operator::GreaterThanEquals, Box::new(a), Box::new(b)), k)
            matches Ok((code, _)) ==> code.len() >= 2
                && code[code.len() - 2] == op_byte(OpCode::Less)
                && code[code.len() - 1] == op_byte(OpCode::Not),
{
    lemma_negated_comparison(sp, sp2, a, b, k, Operator::GreaterThanEquals, Operator::LessThan, op_byte(OpCode::Less));
    lemma_negated_comparison(sp, sp2, a, b, k, Operator::LessThanEquals, Operator::GreaterThan, op_byte(OpCode::Greater));
    lemma_negated_comparison(sp, sp2, a, b, k, Operator::BangEquals, Operator::Equals, op_byte(OpCode::Equal));
    let direct = Ast::BinaryOperation(sp, Operator::GreaterThanEquals, Box::new(a), Box::new(b));
    match compile_spec(a, k) {
        Ok((c1, p1)) => match compile_spec(b, k + p1.len()) {
            Ok((c2, p2)) => {
                let code = c1 + c2 + seq![op_byte(OpCode::Less), op_byte(OpCode::Not)];
                assert(compile_spec(direct, k) == Ok::<(Seq<u8>, Seq<Val>), CompileError>((code, p1 + p2)));
                assert(code[code.len() - 2] == op_byte(OpCode::Less));
                assert(code[code.len() - 1] == op_byte(OpCode::Not));
            },
            Err(_) => {},
        },
        Err(_) => {},
    }
}

proof fn lemma_ops_valid(ops: Seq<u8>, n: nat)
    requires
        forall|i: int| 0 <= i < ops.len() ==> (#[trigger] byte_op(ops[i])) is Some
            && byte_op(ops[i]) != Some(OpCode::Const),
    ensures
        consts_valid(ops, n, 0),
{
    lemma_ops_valid_from(ops, n, ops.len() as int);
}

proof fn lemma_ops_valid_from(ops: Seq<u8>, n: nat, i: int)
    requires
        0 <= i <= ops.len(),
        forall|j: int| 0 <= j < ops.len() ==> (#[trigger] byte_op(ops[j])) is Some
            && byte_op(ops[j]) != Some(OpCode::Const),
    ensures
        consts_valid(ops, n, ops.len() - i),
    decreases i,
{
    if i > 0 {
        lemma_ops_valid_from(ops, n, i - 1);
    }
}

/// Code followed by one opcode other than `Const` stays valid.
proof fn lemma_push_op_valid(c: Seq<u8>, n: nat, op: OpCode)
    requires
        consts_valid(c, n, 0),
        op != OpCode::Const,
    ensures
        consts_valid(c.push(op_byte(op)), n, 0),
{
    let tail = seq![op_byte(op)];
    lemma_ops_valid(tail, n);
    lemma_consts_valid_concat(c, tail, n, 0);
    assert(c + tail =~= c.push(op_byte(op)));
}

/// The code of one literal loads an index that exists once its value is added.
proof fn lemma_const_valid(v: Val, k: nat)
    requires
        k < MAX_CONSTANTS,
    ensures
        const_spec(v, k) matches Ok((c, p)) && consts_valid(c, k + p.len(), 0),
{
    let c = seq![op_byte(OpCode::Const)] + index_bytes(k);
    assert(c[1] == (k % 256) as u8 && c[2] == ((k / 256) % 256) as u8);
    assert(bytes_index(c[1], c[2]) == k) by (nonlinear_arith)
        requires
            k < 65536,
            c[1] == (k % 256) as u8,
            c[2] == ((k / 256) % 256) as u8,
    ;
    assert(consts_valid(c, k + 1, 3));
}

/// Compiled code is valid against the pool it grows: every `Const` in it is
/// followed by an index that the pool holds once the node's constants are added.
pub proof fn lemma_compiled_code_valid(a: Ast, k: nat)
    ensures
        compile_spec(a, k) matches Ok((c, p)) ==> consts_valid(c, k + p.len(), 0),
    decreases a,
{
    match a {
        Ast::Return(_, e) => {
            lemma_compiled_code_valid(*e, k);
            if let Ok((c, p)) = compile_spec(*e, k) {
                lemma_push_op_valid(c, k + p.len(), OpCode::Return);
            }
        },
        Ast::UnaryOperation(_, op, e) => {
            lemma_compiled_code_valid(*e, k);
            if let Ok((c, p)) = compile_spec(*e, k) {
                lemma_push_op_valid(c, k + p.len(), OpCode::Not);
            }
        },
        Ast::BinaryOperation(_, op, l, r) => {
            lemma_compiled_code_valid(*l, k);
            if let Ok((c1, p1)) = compile_spec(*l, k) {
                lemma_compiled_code_valid(*r, k + p1.len());
                if let Ok((c2, p2)) = compile_spec(*r, k + p1.len()) {
                    if let Some(ops) = binary_ops(op) {
                        let n = k + (p1 + p2).len();
                        lemma_consts_valid_grow(c1, k + p1.len(), n, 0);
                        lemma_ops_valid(ops, n);
                        lemma_consts_valid_concat(c1, c2, n, 0);
                        lemma_consts_valid_concat(c1 + c2, ops, n, 0);
                    }
                }
            }
        },
        Ast::StringLiteral(_, t) => if k < MAX_CONSTANTS { lemma_const_valid(Val::Str(t), k); },
        Ast::FloatLiteral(_, t) => if k < MAX_CONSTANTS { lemma_const_valid(Val::Float(t), k); },
        Ast::IntegerLiteral(_, v) => if k < MAX_CONSTANTS && v <= i64::MAX {
            lemma_const_valid(Val::Integer(v as i64), k);
        },
        Ast::BooleanLiteral(_, b) => if k < MAX_CONSTANTS { lemma_const_valid(Val::Boolean(b), k); },
        _ => {},
    }
}

proof fn lemma_compiled_seq_valid(s: Seq<Ast>, k: nat)
    ensures
        compile_seq_spec(s, k) matches Ok((c, p)) ==> consts_valid(c, k + p.len(), 0),
    decreases s.len(),
{
    if s.len() > 0 {
        lemma_compiled_seq_valid(s.drop_last(), k);
        if let Ok((c1, p1)) = compile_seq_spec(s.drop_last(), k) {
            lemma_compiled_code_valid(s.last(), k + p1.len());
            if let Ok((c2, p2)) = compile_spec(s.last(), k + p1.len()) {
                let n = k + (p1 + p2).len();
                lemma_consts_valid_grow(c1, k + p1.len(), n, 0);
                lemma_consts_valid_concat(c1, c2, n, 0);
            }
        }
    }
}

/// A compiled program keeps the chunk's invariant: every `Const` is followed
/// by an index into the pool as it stands after compilation.
pub proof fn lemma_compiled_program_valid(a: Ast, k: nat)
    ensures
        compile_program_spec(a, k) matches Ok((c, p)) ==> consts_valid(c, k + p.len(), 0),
{
    if let Ast::Block(_, stmts) = a {
        lemma_compiled_seq_valid(stmts, k);
    }
}

} // verus!
