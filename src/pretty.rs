use vstd::prelude::*;

use crate::ast::{Ast, Node, NodeKind, Operator};
use crate::span::Span;
use crate::text::push_char;

verus! {

/// The state of an indenting writer: what was written, the current indentation,
/// and the spaces still owed before the next visible character.
pub struct IndentModel {
    pub out: Seq<char>,
    pub indent: nat,
    pub stored: nat,
}

pub open spec fn sat_add(a: nat, b: nat) -> nat {
    if a + b > usize::MAX { usize::MAX as nat } else { a + b }
}

pub open spec fn sat_sub(a: nat, b: nat) -> nat {
    if a >= b { (a - b) as nat } else { 0 }
}

pub open spec fn spaces(n: nat) -> Seq<char> {
    Seq::new(n, |_i: int| ' ')
}

/// Writing one character. A line break starts the next line at the current
/// indentation; `\r` drops the owed spaces; `\t` indents by two and `\0`
/// dedents by two; a space is owed until a visible character comes. Any other
/// character is written after the spaces owed.
pub open spec fn write_char_spec(s: IndentModel, c: char) -> IndentModel {
    if c == '\n' {
        IndentModel { out: s.out.push('\n'), indent: s.indent, stored: s.indent }
    } else if c == '\r' {
        IndentModel { stored: 0, ..s }
    } else if c == '\t' {
        let i = sat_add(s.indent, 2);
        IndentModel { out: s.out, indent: i, stored: i }
    } else if c == '\0' {
        let i = sat_sub(s.indent, 2);
        IndentModel { out: s.out, indent: i, stored: i }
    } else if c == ' ' {
        IndentModel { stored: sat_add(s.stored, 1), ..s }
    } else {
        IndentModel { out: s.out + spaces(s.stored) + seq![c], indent: s.indent, stored: 0 }
    }
}

/// Writing characters one after another.
pub open spec fn write_str_spec(s: IndentModel, text: Seq<char>) -> IndentModel
    decreases text.len(),
{
    if text.len() == 0 {
        s
    } else {
        write_char_spec(write_str_spec(s, text.drop_last()), text.last())
    }
}

/// A writer that indents every line it is handed.
pub struct Indent {
    out: String,
    indent: usize,
    stored_space: usize,
}

impl View for Indent {
    type V = IndentModel;

    closed spec fn view(&self) -> IndentModel {
        IndentModel { out: self.out@, indent: self.indent as nat, stored: self.stored_space as nat }
    }
}

impl Indent {
    pub fn new(indent: usize) -> (r: Indent)
        ensures
            r@ == (IndentModel { out: Seq::empty(), indent: indent as nat, stored: indent as nat }),
    {
        let r = Indent { out: String::new(), indent, stored_space: indent };
        proof {
            assert(r@.out =~= Seq::<char>::empty());
        }
        r
    }

    pub fn indent(&mut self, indent: usize)
        ensures
            final(self)@.out == old(self)@.out,
            final(self)@.indent == sat_add(old(self)@.indent, indent as nat),
            final(self)@.stored == final(self)@.indent,
    {
        self.indent = if self.indent > usize::MAX - indent { usize::MAX } else { self.indent + indent };
        self.stored_space = self.indent;
    }

    pub fn dedent(&mut self, indent: usize)
        ensures
            final(self)@.out == old(self)@.out,
            final(self)@.indent == sat_sub(old(self)@.indent, indent as nat),
            final(self)@.stored == final(self)@.indent,
    {
        self.indent = if self.indent >= indent { self.indent - indent } else { 0 };
        self.stored_space = self.indent;
    }

    pub fn write_char(&mut self, c: char)
        ensures
            final(self)@ == write_char_spec(old(self)@, c),
    {
        if c == '\n' {
            push_char(&mut self.out, '\n');
            self.stored_space = self.indent;
        } else if c == '\r' {
            self.stored_space = 0;
        } else if c == '\t' {
            self.indent(2);
        } else if c == '\0' {
            self.dedent(2);
        } else if c == ' ' {
            self.stored_space = if self.stored_space == usize::MAX { usize::MAX } else { self.stored_space + 1 };
        } else {
            let ghost out0 = self.out@;
            let n = self.stored_space;
            let mut k: usize = 0;
            while k < n
                invariant
                    k <= n,
                    n == old(self).stored_space,
                    self.indent == old(self).indent,
                    self.out@ == out0 + spaces(k as nat),
                    out0 == old(self).out@,
                decreases n - k,
            {
                push_char(&mut self.out, ' ');
                proof {
                    assert(out0 + spaces((k + 1) as nat) =~= (out0 + spaces(k as nat)).push(' '));
                }
                k = k + 1;
            }
            push_char(&mut self.out, c);
            assert(self.out@ =~= out0 + spaces(n as nat) + seq![c]);
            self.stored_space = 0;
        }
    }

    pub fn write_str(&mut self, s: &str)
        ensures
            final(self)@ == write_str_spec(old(self)@, s@),
    {
        let n = s.unicode_len();
        let mut i: usize = 0;
        while i < n
            invariant
                n == s@.len(),
                i <= n,
                self@ == write_str_spec(old(self)@, s@.subrange(0, i as int)),
            decreases n - i,
        {
            let c = s.get_char(i);
            self.write_char(c);
            proof {
                assert(s@.subrange(0, i + 1).drop_last() =~= s@.subrange(0, i as int));
            }
            i = i + 1;
        }
        assert(s@.subrange(0, n as int) =~= s@);
    }

    /// What was written.
    pub fn finish(self) -> (r: String)
        ensures
            r@ == self@.out,
    {
        self.out
    }
}

/// The decimal digits of `n`.
pub open spec fn decimal(n: nat) -> Seq<char>
    decreases n,
{
    if n < 10 {
        seq![digit_char(n)]
    } else {
        decimal(n / 10).push(digit_char(n % 10))
    }
}

pub open spec fn digit_char(d: nat) -> char {
    if d == 0 { '0' } else if d == 1 { '1' } else if d == 2 { '2' } else if d == 3 { '3' }
    else if d == 4 { '4' } else if d == 5 { '5' } else if d == 6 { '6' } else if d == 7 { '7' }
    else if d == 8 { '8' } else { '9' }
}

fn digit(d: u64) -> (r: char)
    requires
        d < 10,
    ensures
        r == digit_char(d as nat),
{
    if d == 0 { '0' } else if d == 1 { '1' } else if d == 2 { '2' } else if d == 3 { '3' }
    else if d == 4 { '4' } else if d == 5 { '5' } else if d == 6 { '6' } else if d == 7 { '7' }
    else if d == 8 { '8' } else { '9' }
}

pub fn decimal_string(n: u64) -> (r: String)
    ensures
        r@ == decimal(n as nat),
    decreases n,
{
    if n < 10 {
        let mut s = String::new();
        push_char(&mut s, digit(n));
        assert(s@ =~= seq![digit_char(n as nat)]);
        s
    } else {
        let mut s = decimal_string(n / 10);
        push_char(&mut s, digit(n % 10));
        s
    }
}

/// What `{:?}` writes for a string: the text quoted, with escapes.
pub uninterp spec fn debug_text(s: Seq<char>) -> Seq<char>;

/// Relies on `Debug` for `str`: the quoted and escaped form of the text, which
/// depends on the characters alone.
#[verifier::external_body]
fn quoted(s: &str) -> (r: String)
    ensures
        r@ == debug_text(s@),
{
    format!("{:?}", s)
}

pub open spec fn op_name(op: Operator) -> Seq<char> {
    match op {
        Operator::Or => "Or"@,
        Operator::And => "And"@,
        Operator::Not => "Not"@,
        Operator::Plus => "Plus"@,
        Operator::Minus => "Minus"@,
        Operator::Star => "Star"@,
        Operator::Slash => "Slash"@,
        Operator::GreaterThan => "GreaterThan"@,
        Operator::LessThan => "LessThan"@,
        Operator::GreaterThanEquals => "GreaterThanEquals"@,
        Operator::LessThanEquals => "LessThanEquals"@,
        Operator::Equals => "Equals"@,
        Operator::BangEquals => "BangEquals"@,
    }
}

impl Operator {
    pub fn name(self) -> (r: &'static str)
        ensures
            r@ == op_name(self),
    {
        match self {
            Operator::Or => "Or",
            Operator::And => "And",
            Operator::Not => "Not",
            Operator::Plus => "Plus",
            Operator::Minus => "Minus",
            Operator::Star => "Star",
            Operator::Slash => "Slash",
            Operator::GreaterThan => "GreaterThan",
            Operator::LessThan => "LessThan",
            Operator::GreaterThanEquals => "GreaterThanEquals",
            Operator::LessThanEquals => "LessThanEquals",
            Operator::Equals => "Equals",
            Operator::BangEquals => "BangEquals",
        }
    }
}

pub open spec fn ws(s: IndentModel, t: Seq<char>) -> IndentModel {
    write_str_spec(s, t)
}

/// Writing where a span stands: `file:start..end`.
pub open spec fn span_writes(s: IndentModel, sp: Span) -> IndentModel {
    ws(ws(ws(ws(ws(s, sp.filename@), ":"@), decimal(sp.start as nat)), ".."@), decimal(sp.end as nat))
}

/// The dump of a tree at indentation `ind`: the node's kind, its contents, its
/// children each indented by two more, and its span in brackets.
pub open spec fn render_spec(a: Ast, ind: nat) -> Seq<char>
    decreases a, 0nat,
{
    let s0 = IndentModel { out: Seq::empty(), indent: ind, stored: ind };
    let s = match a {
        Ast::Return(_, e) => ws(ws(ws(ws(s0, "Return"@), "(\n"@), render_spec(*e, 2)), "\n)"@),
        Ast::VarDeclaration(_, n, e) => ws(ws(ws(ws(ws(ws(s0, "VarDeclaration"@), "("@), n), "){\n"@),
            render_spec(*e, 2)), "\n}"@),
        Ast::UnaryOperation(_, op, e) => ws(ws(ws(ws(ws(ws(s0, "UnaryOperation"@), "("@), op_name(op)), ") {\n"@),
            render_spec(*e, 2)), "\n}"@),
        Ast::BinaryOperation(_, op, l, r) => ws(ws(ws(ws(ws(ws(ws(ws(s0, "BinaryOperation"@), "("@), op_name(op)),
            ") {\n"@), render_spec(*l, 2)), "\n"@), render_spec(*r, 2)), "\n}"@),
        Ast::StringLiteral(_, t) => ws(ws(ws(ws(s0, "StringLiteral"@), "("@), debug_text(t)), ")"@),
        Ast::FloatLiteral(_, t) => ws(ws(ws(ws(s0, "FloatLiteral"@), "("@), t), ")"@),
        Ast::IntegerLiteral(_, v) => ws(ws(ws(ws(s0, "IntegerLiteral"@), "("@), decimal(v as nat)), ")"@),
        Ast::BooleanLiteral(_, b) => ws(ws(ws(ws(s0, "BooleanLiteral"@), "("@), if b { "true"@ } else { "false"@ }), ")"@),
        Ast::Block(_, stmts) => ws(block_body_spec(
            ws(ws(ws(ws(s0, "Block"@), "("@), decimal(stmts.len())), " statements) {\n"@),
            stmts,
            stmts.len(),
        ), "}"@),
        Ast::Identifier(_, n) => ws(ws(ws(ws(s0, "Identifier"@), "("@), debug_text(n)), ")"@),
    };
    ws(span_writes(ws(s, "["@), a.span()), "]"@).out
}

/// The first `k` statements of a block, each dumped and followed by a line break.
pub open spec fn block_body_spec(s: IndentModel, stmts: Seq<Ast>, k: nat) -> IndentModel
    decreases stmts, k,
{
    if k == 0 || k > stmts.len() {
        s
    } else {
        ws(ws(block_body_spec(s, stmts, (k - 1) as nat), render_spec(stmts[k - 1], 2)), "\n"@)
    }
}

impl Indent {
    fn write_span(&mut self, sp: Span)
        ensures
            final(self)@ == span_writes(old(self)@, sp),
    {
        self.write_str(sp.filename);
        self.write_str(":");
        let a = decimal_string(sp.start as u64);
        self.write_str(a.as_str());
        self.write_str("..");
        let b = decimal_string(sp.end as u64);
        self.write_str(b.as_str());
    }
}

/// The dump of a tree: the node's kind, its contents, its children each
/// indented by two more, and its span in brackets.
pub fn render(node: &Node, indent: usize) -> (r: String)
    ensures
        r@ == render_spec(node.ast(), indent as nat),
    decreases node,
{
    let mut f = Indent::new(indent);
    match &node.kind {
        NodeKind::Return(e) => {
            f.write_str("Return");
            f.write_str("(\n");
            let c = render(e, 2);
            f.write_str(c.as_str());
            f.write_str("\n)");
        },
        NodeKind::VarDeclaration(n, e) => {
            f.write_str("VarDeclaration");
            f.write_str("(");
            f.write_str(n.as_str());
            f.write_str("){\n");
            let c = render(e, 2);
            f.write_str(c.as_str());
            f.write_str("\n}");
        },
        NodeKind::UnaryOperation(op, e) => {
            f.write_str("UnaryOperation");
            f.write_str("(");
            f.write_str(op.name());
            f.write_str(") {\n");
            let c = render(e, 2);
            f.write_str(c.as_str());
            f.write_str("\n}");
        },
        NodeKind::BinaryOperation(op, l, r) => {
            f.write_str("BinaryOperation");
            f.write_str("(");
            f.write_str(op.name());
            f.write_str(") {\n");
            let c = render(l, 2);
            f.write_str(c.as_str());
            f.write_str("\n");
            let d = render(r, 2);
            f.write_str(d.as_str());
            f.write_str("\n}");
        },
        NodeKind::StringLiteral(t) => {
            f.write_str("StringLiteral");
            f.write_str("(");
            let q = quoted(t.as_str());
            f.write_str(q.as_str());
            f.write_str(")");
        },
        NodeKind::FloatLiteral(t) => {
            f.write_str("FloatLiteral");
            f.write_str("(");
            f.write_str(t.as_str());
            f.write_str(")");
        },
        NodeKind::IntegerLiteral(v) => {
            f.write_str("IntegerLiteral");
            f.write_str("(");
            let d = decimal_string(*v);
            f.write_str(d.as_str());
            f.write_str(")");
        },
        NodeKind::BooleanLiteral(b) => {
            f.write_str("BooleanLiteral");
            f.write_str("(");
            f.write_str(if *b { "true" } else { "false" });
            f.write_str(")");
        },
        NodeKind::Block(stmts) => {
            let ghost asts = match node.ast() {
                Ast::Block(_, s) => s,
                _ => arbitrary(),
            };
            assert(asts.len() == stmts@.len());
            f.write_str("Block");
            f.write_str("(");
            let d = decimal_string(stmts.len() as u64);
            f.write_str(d.as_str());
            f.write_str(" statements) {\n");
            let ghost base = f@;
            proof {
                assert(decreases_to!(*stmts => stmts@));
                assert(decreases_to!(node.kind => node.kind->Block_0));
                assert(decreases_to!(*node => node.kind));
            }
            let mut i: usize = 0;
            while i < stmts.len()
                invariant
                    i <= stmts@.len(),
                    asts.len() == stmts@.len(),
                    forall|j: int| 0 <= j < stmts@.len() ==> asts[j] == #[trigger] stmts@[j].ast(),
                    f@ == block_body_spec(base, asts, i as nat),
                decreases_to!(*node => stmts@),
                decreases stmts@.len() - i,
            {
                proof {
                    assert(decreases_to!(stmts@ => stmts@[i as int]));
                }
                let c = render(&stmts[i], 2);
                f.write_str(c.as_str());
                f.write_str("\n");
                i = i + 1;
            }
            f.write_str("}");
        },
        NodeKind::Identifier(n) => {
            f.write_str("Identifier");
            f.write_str("(");
            let q = quoted(n.as_str());
            f.write_str(q.as_str());
            f.write_str(")");
        },
    }
    f.write_str("[");
    f.write_span(node.span);
    f.write_str("]");
    f.finish()
}

} // verus!
