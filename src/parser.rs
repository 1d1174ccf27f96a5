use vstd::prelude::*;

use crate::ast::{infix_of, prefix_of, Ast, Node, NodeKind, Operator};
use crate::escape::{fits, unescape, StringParser};
use crate::literal::{digit_value, from_str_radix_spec, int_error_message, lemma_invalid_digit_rejected, parse_integer, IntError};
use crate::report::{error_model, message_label, plain_label, Label, Report, ReportModel};
use crate::span::{span_union, Span};
use crate::text::{concat, string_of};
use crate::token::{kind_name, Token, TokenKind};

verus! {

/// The kind of the token at `p`; past either end, `EOF`.
pub open spec fn kind_at(t: Seq<Token>, p: int) -> TokenKind {
    if 0 <= p < t.len() {
        t[p].kind
    } else {
        TokenKind::EOF
    }
}

/// A token stream the parser can read: it ends with `EOF`, and each token's
/// text is short enough for the spans inside it to be addressable.
pub open spec fn wf_tokens(t: Seq<Token>) -> bool {
    &&& t.len() > 0
    &&& t.last().kind == TokenKind::EOF
    &&& forall|i: int| 0 <= i < t.len() ==> fits(#[trigger] t[i].text@, t[i].span)
}

/// The report for a token at `p` that is not the `expect`ed one.
pub open spec fn consume_error(t: Seq<Token>, p: int, expect: TokenKind) -> ReportModel {
    let label = message_label(t[p].span, "Expected "@ + kind_name(expect));
    if kind_at(t, p) == TokenKind::EOF {
        error_model("UnexpectedEOF"@, seq![label])
    } else {
        error_model("UnexpectedToken "@ + kind_name(kind_at(t, p)), seq![label])
    }
}

/// The radix of an integer literal kind.
pub open spec fn radix_of(k: TokenKind) -> nat {
    match k {
        TokenKind::IntegerLiteralBin => 2,
        TokenKind::IntegerLiteralOct => 8,
        TokenKind::IntegerLiteralHex => 16,
        _ => 10,
    }
}

/// The name of the base of an integer literal kind.
pub open spec fn base_name(k: TokenKind) -> Seq<char> {
    match k {
        TokenKind::IntegerLiteralBin => "Binary"@,
        TokenKind::IntegerLiteralOct => "Octal"@,
        TokenKind::IntegerLiteralHex => "Hexadecimal"@,
        _ => "Decimal"@,
    }
}

pub open spec fn is_integer_kind(k: TokenKind) -> bool {
    k == TokenKind::IntegerLiteralBin || k == TokenKind::IntegerLiteralOct
        || k == TokenKind::IntegerLiteralDec || k == TokenKind::IntegerLiteralHex
}

/// The report for an integer literal whose digits do not read in its base.
pub open spec fn integer_error(k: TokenKind, sp: Span, e: IntError) -> ReportModel {
    ReportModel {
        note: Some(int_error_message(e)),
        ..error_model(
            "SyntaxError "@ + ("Invalid "@ + base_name(k) + " Integer literal"@),
            seq![plain_label(sp)],
        )
    }
}

/// What parsing from token `p` yields, and the position it stops at.
pub type Parsed = (Result<Ast, ReportModel>, int);

/// An atom at `p`: a parenthesized expression, an identifier or a literal.
pub open spec fn atom_spec(t: Seq<Token>, p: int) -> Parsed
    decreases t.len() - p, 1nat,
{
    if !(0 <= p < t.len()) {
        (Err(error_model("UnexpectedEOF"@, Seq::empty())), p)
    } else {
        let tok = t[p];
        let k = tok.kind;
        let sp = tok.span;
        if k == TokenKind::LeftParen {
            let (r, p1) = expr_spec(t, p + 1, 0);
            match r {
                Err(e) => (Err(e), p1),
                Ok(e) => if kind_at(t, p1) == TokenKind::RightParen {
                    (Ok(e.with_span(span_union(sp, t[p1].span))), p1 + 1)
                } else {
                    (Err(consume_error(t, p1, TokenKind::RightParen)), p1)
                },
            }
        } else if k == TokenKind::Identifier {
            (Ok(Ast::Identifier(sp, tok.text@)), p + 1)
        } else if k == TokenKind::StringLiteral {
            match unescape(tok.text@, sp) {
                Ok(s) => (Ok(Ast::StringLiteral(sp, s)), p + 1),
                Err(m) => (Err(m), p + 1),
            }
        } else if k == TokenKind::BooleanLiteral {
            (Ok(Ast::BooleanLiteral(sp, tok.text@ == "true"@ || tok.text@ == "True"@)), p + 1)
        } else if k == TokenKind::FloatLiteral {
            (Ok(Ast::FloatLiteral(sp, tok.text@)), p + 1)
        } else if is_integer_kind(k) {
            match from_str_radix_spec(tok.text@, radix_of(k)) {
                Ok(v) => (Ok(Ast::IntegerLiteral(sp, v)), p + 1),
                Err(e) => (Err(integer_error(k, sp, e)), p + 1),
            }
        } else if k == TokenKind::EOF {
            (Err(error_model("UnexpectedEOF"@, seq![message_label(sp, "Expected an expression"@)])), p)
        } else {
            (Err(error_model("UnexpectedToken "@ + kind_name(k), seq![plain_label(sp)])), if k == TokenKind::Semicolon { p } else { p + 1 })
        }
    }
}

/// An expression at `p` whose infix operators bind at least as tightly as `min_bp`.
pub open spec fn expr_spec(t: Seq<Token>, p: int, min_bp: nat) -> Parsed
    decreases t.len() - p, 2nat,
{
    if !(0 <= p < t.len()) {
        (Err(error_model("UnexpectedEOF"@, Seq::empty())), p)
    } else {
        let (r, p1) = match prefix_of(kind_at(t, p)) {
            Some((op, rbp)) => {
                let (r, p1) = expr_spec(t, p + 1, rbp as nat);
                match r {
                    Err(e) => (Err(e), p1),
                    Ok(rhs) => (Ok(Ast::UnaryOperation(span_union(t[p].span, rhs.span()), op, Box::new(rhs))), p1),
                }
            },
            None => atom_spec(t, p),
        };
        match r {
            Err(e) => (Err(e), p1),
            Ok(lhs) => if p < p1 <= t.len() {
                infix_spec(t, p1, lhs, min_bp)
            } else {
                (Ok(lhs), p1)
            },
        }
    }
}

/// Folds infix operators onto `lhs`, from `p`, while they bind at least as
/// tightly as `min_bp`; equal binding powers associate to the left.
pub open spec fn infix_spec(t: Seq<Token>, p: int, lhs: Ast, min_bp: nat) -> Parsed
    decreases t.len() - p, 0nat,
{
    match infix_of(kind_at(t, p)) {
        None => (Ok(lhs), p),
        Some((op, lbp, rbp)) => if (lbp as nat) < min_bp || !(0 <= p < t.len()) {
            (Ok(lhs), p)
        } else {
            let (r, p1) = expr_spec(t, p + 1, rbp as nat);
            match r {
                Err(e) => (Err(e), p1),
                Ok(rhs) => {
                    let l2 = Ast::BinaryOperation(span_union(lhs.span(), rhs.span()), op, Box::new(lhs), Box::new(rhs));
                    if p < p1 <= t.len() {
                        infix_spec(t, p1, l2, min_bp)
                    } else {
                        (Ok(l2), p1)
                    }
                },
            }
        },
    }
}

/// A statement at `p`: `return e`, `let name = e`, or an expression.
pub open spec fn statement_spec(t: Seq<Token>, p: int) -> Parsed
    decreases t.len() - p, 3nat,
{
    if !(0 <= p < t.len()) {
        (Err(error_model("UnexpectedEOF"@, Seq::empty())), p)
    } else {
        let sp = t[p].span;
        let k = t[p].kind;
        if k == TokenKind::Return {
            let (r, p1) = expr_spec(t, p + 1, 0);
            match r {
                Err(e) => (Err(e), p1),
                Ok(e) => (Ok(Ast::Return(sp, Box::new(e))), p1),
            }
        } else if k == TokenKind::Let {
            if kind_at(t, p + 1) != TokenKind::Identifier {
                (Err(consume_error(t, p + 1, TokenKind::Identifier)), p + 1)
            } else if kind_at(t, p + 2) != TokenKind::Equals {
                (Err(consume_error(t, p + 2, TokenKind::Equals)), p + 2)
            } else {
                let (r, p1) = expr_spec(t, p + 3, 0);
                match r {
                    Err(e) => (Err(e), p1),
                    Ok(e) => (Ok(Ast::VarDeclaration(span_union(sp, e.span()), t[p + 1].text@, Box::new(e))), p1),
                }
            }
        } else {
            expr_spec(t, p, 0)
        }
    }
}

/// Where a statement ending at `p` is terminated: after a separator, or at the
/// end of input, a token on a new line, or the block's `closer`.
pub open spec fn line_end_spec(t: Seq<Token>, p: int, closer: TokenKind) -> Result<int, ReportModel> {
    let k = kind_at(t, p);
    if k == TokenKind::Semicolon {
        Ok(p + 1)
    } else if k == TokenKind::EOF || t[p].newline_before || k == closer {
        Ok(p)
    } else {
        Err(error_model(
            "UnexpectedToken "@ + kind_name(k),
            seq![message_label(t[p].span, "Expected end of statement or "@ + kind_name(closer))],
        ))
    }
}

/// The first position from `p` on that may start a statement: a separator, a
/// token on a new line, the block's `closer`, or the end of input.
pub open spec fn skip_spec(t: Seq<Token>, p: int, closer: TokenKind) -> int
    decreases t.len() - p,
{
    if !(0 <= p < t.len()) {
        p
    } else {
        let k = t[p].kind;
        if k == TokenKind::Semicolon || t[p].newline_before || k == closer || k == TokenKind::EOF {
            p
        } else {
            skip_spec(t, p + 1, closer)
        }
    }
}

/// Where parsing resumes after an error at `p`: past the next separator, or at
/// the next token that may start a statement.
pub open spec fn sync_spec(t: Seq<Token>, p: int, closer: TokenKind) -> int {
    let q = skip_spec(t, p, closer);
    if kind_at(t, q) == TokenKind::Semicolon {
        q + 1
    } else {
        q
    }
}

/// The statements of a block from `p` on, after `stmts` were read and `diags`
/// reported: the statements, the reports, and where the block's closer stands
/// (or the report that it is missing).
pub open spec fn block_spec(t: Seq<Token>, p: int, closer: TokenKind, stmts: Seq<Ast>, diags: Seq<ReportModel>)
    -> (Result<Seq<Ast>, ReportModel>, Seq<ReportModel>, int)
    decreases t.len() - p,
{
    let k = kind_at(t, p);
    if k == closer || k == TokenKind::EOF || !(0 <= p < t.len()) {
        if k == closer {
            (Ok(stmts), diags, p)
        } else {
            (Err(consume_error(t, p, closer)), diags, p)
        }
    } else {
        let (r, p1) = statement_spec(t, p);
        let (q, stmts2, diags2) = match r {
            Ok(s) => match line_end_spec(t, p1, closer) {
                Ok(p2) => (p2, stmts.push(s), diags),
                Err(e) => (sync_spec(t, p1, closer), stmts, diags.push(e)),
            },
            Err(e) => (sync_spec(t, p1, closer), stmts, diags.push(e)),
        };
        if p < q <= t.len() {
            block_spec(t, q, closer, stmts2, diags2)
        } else {
            (Ok(stmts2), diags2, q)
        }
    }
}

/// The program a token stream holds, and the reports on its broken statements.
pub open spec fn program_spec(t: Seq<Token>) -> (Ast, Seq<ReportModel>) {
    let (r, diags, p) = block_spec(t, 0, TokenKind::EOF, Seq::empty(), Seq::empty());
    (Ast::Block(span_union(t[0].span, t[p].span), r->Ok_0), diags)
}

/// In a well-formed stream, past any token but `EOF` there is one more.
proof fn lemma_next_in_range(t: Seq<Token>, p: int)
    requires
        wf_tokens(t),
        0 <= p < t.len(),
    ensures
        t[p].kind != TokenKind::EOF ==> p + 1 < t.len(),
{
    assert(t.last() == t[t.len() - 1]);
}

/// A parse result agrees with its model.
pub open spec fn agrees(r: Result<Node, Report>, s: Result<Ast, ReportModel>) -> bool {
    match (r, s) {
        (Ok(n), Ok(a)) => n.ast() == a,
        (Err(e), Err(m)) => e@ == m,
        _ => false,
    }
}

pub open spec fn reports_model(v: Seq<Report>) -> Seq<ReportModel> {
    v.map_values(|r: Report| r@)
}

/// Parses a token stream into one block holding the program's statements,
/// reporting each broken statement and resuming after it.
pub struct Parser {
    tokens: Vec<Token>,
    current: usize,
    diagnostics: Vec<Report>,
}

fn unexpected_token(kind: TokenKind, label: Label) -> (r: Report)
    ensures
        r@ == error_model("UnexpectedToken "@ + kind_name(kind), seq![label@]),
{
    let r = Report::error(concat(string_of("UnexpectedToken "), kind.name())).with_label(label);
    proof {
        assert(r@.labels =~= seq![label@]);
    }
    r
}

fn unexpected_eof(label: Label) -> (r: Report)
    ensures
        r@ == error_model("UnexpectedEOF"@, seq![label@]),
{
    let r = Report::error(string_of("UnexpectedEOF")).with_label(label);
    proof {
        assert(r@.labels =~= seq![label@]);
    }
    r
}

impl Parser {
    pub closed spec fn tokens(&self) -> Seq<Token> {
        self.tokens@
    }

    pub closed spec fn position(&self) -> nat {
        self.current as nat
    }

    pub closed spec fn diagnostics(&self) -> Seq<ReportModel> {
        reports_model(self.diagnostics@)
    }

    pub closed spec fn wf(&self) -> bool {
        &&& wf_tokens(self.tokens@)
        &&& self.current < self.tokens@.len()
        &&& self.tokens@.len() <= usize::MAX
    }

    /// A parser at the start of `tokens`, with no reports yet.
    pub fn new(tokens: Vec<Token>) -> (r: Parser)
        requires
            wf_tokens(tokens@),
        ensures
            r.wf(),
            r.tokens() == tokens@,
            r.position() == 0,
            r.diagnostics() == Seq::<ReportModel>::empty(),
    {
        let n = tokens.len();
        assert(n == tokens@.len());
        let r = Parser { tokens, current: 0, diagnostics: Vec::new() };
        proof {
            assert(r.diagnostics() =~= Seq::<ReportModel>::empty());
        }
        r
    }

    /// Adds a report, such as one of the tokenizer's, to the parser's reports.
    pub fn report(&mut self, report: Report)
        ensures
            final(self).diagnostics() == old(self).diagnostics().push(report@),
            final(self).tokens() == old(self).tokens(),
            final(self).position() == old(self).position(),
            final(self).wf() == old(self).wf(),
    {
        let ghost m = report@;
        self.diagnostics.push(report);
        proof {
            assert(self.diagnostics() =~= old(self).diagnostics().push(m));
        }
    }

    /// The reports gathered so far, in order; the parser keeps none.
    pub fn take_diagnostics(&mut self) -> (r: Vec<Report>)
        ensures
            reports_model(r@) == old(self).diagnostics(),
            final(self).diagnostics() == Seq::<ReportModel>::empty(),
            final(self).tokens() == old(self).tokens(),
            final(self).position() == old(self).position(),
            final(self).wf() == old(self).wf(),
    {
        let mut r = Vec::new();
        std::mem::swap(&mut r, &mut self.diagnostics);
        proof {
            assert(self.diagnostics() =~= Seq::<ReportModel>::empty());
        }
        r
    }

    fn consume_error(&self, p: usize, expect: TokenKind) -> (r: Report)
        requires
            self.wf(),
            p < self.tokens@.len(),
        ensures
            r@ == consume_error(self.tokens@, p as int, expect),
    {
        let tok = &self.tokens[p];
        let label = Label::new(tok.span).with_message(concat(string_of("Expected "), expect.name()));
        if tok.kind == TokenKind::EOF {
            unexpected_eof(label)
        } else {
            unexpected_token(tok.kind, label)
        }
    }

    /// An atom at position `p`, and where it stops.
    pub fn parse_atom(&self, p: usize) -> (r: (Result<Node, Report>, usize))
        requires
            self.wf(),
            p < self.tokens().len(),
        ensures
            agrees(r.0, atom_spec(self.tokens(), p as int).0),
            r.1 == atom_spec(self.tokens(), p as int).1,
            r.1 < self.tokens().len(),
            r.1 >= p,
            kind_at(self.tokens(), p as int) != TokenKind::EOF
                && kind_at(self.tokens(), p as int) != TokenKind::Semicolon ==> r.1 > p,
            r.0 is Ok ==> r.1 > p,
        decreases self.tokens().len() - p, 1nat,
    {
        let tok = &self.tokens[p];
        let kind = tok.kind;
        let span = tok.span;
        proof {
            lemma_next_in_range(self.tokens@, p as int);
        }
        match kind {
            TokenKind::LeftParen => {
                let (r, p1) = self.parse_expression(p + 1, 0);
                let expr = match r {
                    Err(e) => return (Err(e), p1),
                    Ok(expr) => expr,
                };
                if self.tokens[p1].kind != TokenKind::RightParen {
                    return (Err(self.consume_error(p1, TokenKind::RightParen)), p1);
                }
                let end = self.tokens[p1].span;
                let node = Node { kind: expr.kind, span: span.extend(end) };
                proof {
                    assert(node.ast() == expr.ast().with_span(span_union(span, end)));
                }
                (Ok(node), p1 + 1)
            },
            TokenKind::Identifier => {
                (Ok(NodeKind::Identifier(tok.text.clone()).make(span)), p + 1)
            },
            TokenKind::StringLiteral => {
                let mut sp = StringParser::new(tok.text.as_str(), span);
                match sp.parse() {
                    Ok(s) => (Ok(NodeKind::StringLiteral(s).make(span)), p + 1),
                    Err(e) => (Err(e), p + 1),
                }
            },
            TokenKind::BooleanLiteral => {
                let t = tok.text.as_str();
                let is_true = crate::text::str_eq(t, "true") || crate::text::str_eq(t, "True");
                (Ok(NodeKind::BooleanLiteral(is_true).make(span)), p + 1)
            },
            TokenKind::FloatLiteral => {
                (Ok(NodeKind::FloatLiteral(tok.text.clone()).make(span)), p + 1)
            },
            TokenKind::IntegerLiteralBin
            | TokenKind::IntegerLiteralDec
            | TokenKind::IntegerLiteralHex
            | TokenKind::IntegerLiteralOct => {
                let (base, radix): (&str, u32) = match kind {
                    TokenKind::IntegerLiteralBin => ("Binary", 2),
                    TokenKind::IntegerLiteralOct => ("Octal", 8),
                    TokenKind::IntegerLiteralHex => ("Hexadecimal", 16),
                    _ => ("Decimal", 10),
                };
                match parse_integer(tok.text.as_str(), radix) {
                    Ok(v) => (Ok(NodeKind::IntegerLiteral(v).make(span)), p + 1),
                    Err(e) => {
                        let title = concat(concat(concat(string_of("SyntaxError "), "Invalid "), base), " Integer literal");
                        let r = Report::error(title)
                            .with_label(Label::new(span))
                            .with_note(string_of(e.message()));
                        proof {
                            assert(r@.labels =~= seq![plain_label(span)]);
                            assert(r@.title =~= "SyntaxError "@ + ("Invalid "@ + base_name(kind) + " Integer literal"@));
                        }
                        (Err(r), p + 1)
                    },
                }
            },
            TokenKind::EOF => {
                let label = Label::new(span).with_message(string_of("Expected an expression"));
                (Err(unexpected_eof(label)), p)
            },
            // A separator stays in place, for recovery to resume after it.
            TokenKind::Semicolon => (Err(unexpected_token(kind, Label::new(span))), p),
            _ => (Err(unexpected_token(kind, Label::new(span))), p + 1),
        }
    }

    /// An expression at position `p` whose infix operators bind at least as
    /// tightly as `min_bp`, and where it stops.
    pub fn parse_expression(&self, p: usize, min_bp: u8) -> (r: (Result<Node, Report>, usize))
        requires
            self.wf(),
            p < self.tokens().len(),
        ensures
            agrees(r.0, expr_spec(self.tokens(), p as int, min_bp as nat).0),
            r.1 == expr_spec(self.tokens(), p as int, min_bp as nat).1,
            r.1 < self.tokens().len(),
            r.1 >= p,
            kind_at(self.tokens(), p as int) != TokenKind::EOF
                && kind_at(self.tokens(), p as int) != TokenKind::Semicolon ==> r.1 > p,
            r.0 is Ok ==> r.1 > p,
        decreases self.tokens().len() - p, 2nat,
    {
        let ghost t = self.tokens@;
        proof {
            lemma_next_in_range(t, p as int);
        }
        let (first, p1) = match self.tokens[p].kind.as_prefix() {
            Some((op, _, rbp)) => {
                let span = self.tokens[p].span;
                let (r, p1) = self.parse_expression(p + 1, rbp);
                match r {
                    Err(e) => return (Err(e), p1),
                    Ok(rhs) => {
                        let sp = span.extend(rhs.span);
                        (NodeKind::UnaryOperation(op, Box::new(rhs)).make(sp), p1)
                    },
                }
            },
            None => {
                let (r, p1) = self.parse_atom(p);
                match r {
                    Err(e) => return (Err(e), p1),
                    Ok(n) => (n, p1),
                }
            },
        };
        if p1 <= p {
            return (Ok(first), p1);
        }
        let mut lhs = first;
        let mut pos = p1;
        loop
            invariant
                self.wf(),
                t == self.tokens@,
                p < pos < t.len(),
                infix_spec(t, pos as int, lhs.ast(), min_bp as nat) == expr_spec(t, p as int, min_bp as nat),
            decreases t.len() - pos,
        {
            let (op, lbp, rbp) = match self.tokens[pos].kind.as_infix() {
                None => return (Ok(lhs), pos),
                Some(roles) => roles,
            };
            if lbp < min_bp {
                return (Ok(lhs), pos);
            }
            proof {
                lemma_next_in_range(t, pos as int);
            }
            let (r, p2) = self.parse_expression(pos + 1, rbp);
            let rhs = match r {
                Err(e) => return (Err(e), p2),
                Ok(rhs) => rhs,
            };
            let sp = lhs.span.extend(rhs.span);
            lhs = NodeKind::BinaryOperation(op, Box::new(lhs), Box::new(rhs)).make(sp);
            pos = p2;
        }
    }
}

impl Parser {
    /// A statement at position `p`, and where it stops.
    pub fn parse_statement(&self, p: usize) -> (r: (Result<Node, Report>, usize))
        requires
            self.wf(),
            p < self.tokens().len(),
        ensures
            agrees(r.0, statement_spec(self.tokens(), p as int).0),
            r.1 == statement_spec(self.tokens(), p as int).1,
            p <= r.1 < self.tokens().len(),
            kind_at(self.tokens(), p as int) != TokenKind::EOF
                && kind_at(self.tokens(), p as int) != TokenKind::Semicolon ==> r.1 > p,
            r.0 is Ok ==> r.1 > p,
        decreases self.tokens().len() - p, 3nat,
    {
        proof {
            lemma_next_in_range(self.tokens@, p as int);
        }
        let kind = self.tokens[p].kind;
        let span = self.tokens[p].span;
        match kind {
            TokenKind::Return => {
                let (r, p1) = self.parse_expression(p + 1, 0);
                match r {
                    Err(e) => (Err(e), p1),
                    Ok(expr) => (Ok(NodeKind::Return(Box::new(expr)).make(span)), p1),
                }
            },
            TokenKind::Let => {
                if self.tokens[p + 1].kind != TokenKind::Identifier {
                    return (Err(self.consume_error(p + 1, TokenKind::Identifier)), p + 1);
                }
                proof {
                    lemma_next_in_range(self.tokens@, p + 1);
                }
                let ident = self.tokens[p + 1].text.clone();
                if self.tokens[p + 2].kind != TokenKind::Equals {
                    return (Err(self.consume_error(p + 2, TokenKind::Equals)), p + 2);
                }
                proof {
                    lemma_next_in_range(self.tokens@, p + 2);
                }
                let (r, p1) = self.parse_expression(p + 3, 0);
                match r {
                    Err(e) => (Err(e), p1),
                    Ok(expr) => {
                        let sp = span.extend(expr.span);
                        (Ok(NodeKind::VarDeclaration(ident, Box::new(expr)).make(sp)), p1)
                    },
                }
            },
            _ => self.parse_expression(p, 0),
        }
    }

    /// Checks that a statement ends at `p`, and steps past a separator.
    fn consume_line_or(&self, p: usize, expect: TokenKind) -> (r: Result<usize, Report>)
        requires
            self.wf(),
            p < self.tokens@.len(),
        ensures
            match (r, line_end_spec(self.tokens@, p as int, expect)) {
                (Ok(q), Ok(q2)) => q == q2,
                (Err(e), Err(m)) => e@ == m,
                _ => false,
            },
            r matches Ok(q) ==> p <= q < self.tokens@.len(),
    {
        proof {
            lemma_next_in_range(self.tokens@, p as int);
        }
        let tok = &self.tokens[p];
        match tok.kind {
            TokenKind::Semicolon => Ok(p + 1),
            TokenKind::EOF => Ok(p),
            _ => {
                if tok.newline_before || tok.kind == expect {
                    Ok(p)
                } else {
                    let label = Label::new(tok.span).with_message(
                        concat(string_of("Expected end of statement or "), expect.name()),
                    );
                    Err(unexpected_token(tok.kind, label))
                }
            },
        }
    }

    /// Skips to the first token from `p` on that may start a statement.
    fn skip_until(&self, p: usize, closer: TokenKind) -> (r: usize)
        requires
            self.wf(),
            p < self.tokens@.len(),
        ensures
            r == skip_spec(self.tokens@, p as int, closer),
            p <= r < self.tokens@.len(),
    {
        let ghost t = self.tokens@;
        let n = self.tokens.len();
        let mut q = p;
        while q < n
            invariant
                self.wf(),
                t == self.tokens@,
                n == t.len(),
                p <= q < n,
                skip_spec(t, q as int, closer) == skip_spec(t, p as int, closer),
            decreases n - q,
        {
            let tok = &self.tokens[q];
            if tok.kind == TokenKind::Semicolon || tok.newline_before || tok.kind == closer
                || tok.kind == TokenKind::EOF {
                return q;
            }
            proof {
                lemma_next_in_range(t, q as int);
            }
            q = q + 1;
        }
        q
    }

    /// Where parsing resumes after an error at `p`.
    fn sync(&self, p: usize, closer: TokenKind) -> (r: usize)
        requires
            self.wf(),
            p < self.tokens@.len(),
        ensures
            r == sync_spec(self.tokens@, p as int, closer),
            p <= r < self.tokens@.len(),
            kind_at(self.tokens@, p as int) == TokenKind::Semicolon ==> r == p + 1,
    {
        let q = self.skip_until(p, closer);
        if self.tokens[q].kind == TokenKind::Semicolon {
            proof {
                lemma_next_in_range(self.tokens@, q as int);
            }
            q + 1
        } else {
            q
        }
    }

    /// Reads statements up to the block's `closer`, reporting each broken one.
    fn parse_block(&mut self, start: Span, closer: TokenKind) -> (r: Result<Node, Report>)
        requires
            old(self).wf(),
        ensures
            final(self).wf(),
            final(self).tokens() == old(self).tokens(),
            ({
                let (res, diags, q) = block_spec(
                    old(self).tokens(), old(self).position() as int, closer, Seq::empty(), Seq::empty());
                &&& final(self).diagnostics() == old(self).diagnostics() + diags
                &&& match (r, res) {
                    (Ok(n), Ok(stmts)) => n.ast() == Ast::Block(span_union(start, old(self).tokens()[q].span), stmts)
                        && final(self).position() == q,
                    (Err(e), Err(m)) => e@ == m,
                    _ => false,
                }
            }),
    {
        let ghost t = self.tokens@;
        let ghost d0 = self.diagnostics();
        let n = self.tokens.len();
        let mut stmts: Vec<Node> = Vec::new();
        let ghost mut diags: Seq<ReportModel> = Seq::empty();
        proof {
            assert(stmts@.map_values(|s: Node| s.ast()) =~= Seq::<Ast>::empty());
        }
        while self.tokens[self.current].kind != closer && self.tokens[self.current].kind != TokenKind::EOF
            invariant
                self.wf(),
                t == self.tokens@,
                n == t.len(),
                self.diagnostics() == d0 + diags,
                block_spec(t, self.current as int, closer, stmts@.map_values(|s: Node| s.ast()), diags)
                    == block_spec(t, old(self).current as int, closer, Seq::empty(), Seq::empty()),
            decreases n - self.current,
        {
            let p = self.current;
            let ghost sm = stmts@.map_values(|s: Node| s.ast());
            let (r, p1) = self.parse_statement(p);
            match r {
                Ok(stmt) => match self.consume_line_or(p1, closer) {
                    Ok(p2) => {
                        let ghost a = stmt.ast();
                        stmts.push(stmt);
                        proof {
                            assert(stmts@.map_values(|s: Node| s.ast()) =~= sm.push(a));
                        }
                        self.current = p2;
                    },
                    Err(e) => {
                        let ghost m = e@;
                        self.report(e);
                        proof {
                            diags = diags.push(m);
                            assert(d0 + diags =~= (d0 + diags.drop_last()).push(m));
                        }
                        self.current = self.sync(p1, closer);
                    },
                },
                Err(e) => {
                    let ghost m = e@;
                    self.report(e);
                    proof {
                        diags = diags.push(m);
                        assert(d0 + diags =~= (d0 + diags.drop_last()).push(m));
                    }
                    self.current = self.sync(p1, closer);
                },
            }
        }
        let q = self.current;
        if self.tokens[q].kind != closer {
            return Err(self.consume_error(q, closer));
        }
        let end = self.tokens[q].span;
        let sp = start.extend(end);
        let node = NodeKind::Block(stmts).make(sp);
        proof {
            assert(d0 + diags =~= old(self).diagnostics() + diags);
            let m = stmts@.map_values(|s: Node| s.ast());
            let inner = match node.ast() {
                Ast::Block(_, b) => b,
                _ => arbitrary(),
            };
            assert(inner =~= m);
            assert(node.ast() == Ast::Block(sp, m));
        }
        Ok(node)
    }
}

/// A block that closes at the end of input cannot miss its closer.
proof fn lemma_top_block_ok(t: Seq<Token>, p: int, stmts: Seq<Ast>, diags: Seq<ReportModel>)
    ensures
        block_spec(t, p, TokenKind::EOF, stmts, diags).0 is Ok,
    decreases t.len() - p,
{
    let k = kind_at(t, p);
    if k == TokenKind::EOF || !(0 <= p < t.len()) {
    } else {
        let (r, p1) = statement_spec(t, p);
        let (q, stmts2, diags2) = match r {
            Ok(s) => match line_end_spec(t, p1, TokenKind::EOF) {
                Ok(p2) => (p2, stmts.push(s), diags),
                Err(e) => (sync_spec(t, p1, TokenKind::EOF), stmts, diags.push(e)),
            },
            Err(e) => (sync_spec(t, p1, TokenKind::EOF), stmts, diags.push(e)),
        };
        if p < q <= t.len() {
            lemma_top_block_ok(t, q, stmts2, diags2);
        }
    }
}

impl Parser {
    fn parse_program(&mut self) -> (r: Node)
        requires
            old(self).wf(),
            old(self).position() == 0,
        ensures
            final(self).wf(),
            final(self).tokens() == old(self).tokens(),
            r.ast() == program_spec(old(self).tokens()).0,
            final(self).diagnostics() == old(self).diagnostics() + program_spec(old(self).tokens()).1,
    {
        proof {
            lemma_top_block_ok(self.tokens@, 0, Seq::empty(), Seq::empty());
        }
        let start = self.tokens[self.current].span;
        match self.parse_block(start, TokenKind::EOF) {
            Ok(node) => node,
            Err(_) => {
                // A block closed by the end of input always finds its closer.
                proof {
                    assert(false);
                }
                NodeKind::Block(Vec::new()).make(start)
            },
        }
    }

    /// Parses the whole stream into one `Block` of the program's statements.
    /// Each broken statement adds one report and parsing resumes after it.
    pub fn parse(&mut self) -> (r: Node)
        requires
            old(self).wf(),
            old(self).position() == 0,
        ensures
            final(self).wf(),
            final(self).tokens() == old(self).tokens(),
            r.ast() == program_spec(old(self).tokens()).0,
            final(self).diagnostics() == old(self).diagnostics() + program_spec(old(self).tokens()).1,
    {
        self.parse_program()
    }
}

/// A single token that parses on its own as an operand: an identifier or a
/// literal that reads without error.
pub open spec fn simple_atom(t: Seq<Token>, i: int) -> bool {
    &&& 0 <= i < t.len()
    &&& t[i].kind != TokenKind::LeftParen
    &&& prefix_of(t[i].kind) is None
    &&& atom_spec(t, i).0 is Ok
}

/// The tree of a single-token operand.
pub open spec fn atom_ast(t: Seq<Token>, i: int) -> Ast {
    atom_spec(t, i).0->Ok_0
}

/// How `a op1 b op2 c`, starting at `p`, groups: around `op2` first where it
/// binds more tightly than `op1`, else around `op1` first.
pub open spec fn grouped(t: Seq<Token>, p: int) -> Ast {
    let (op1, l1, _) = infix_of(t[p + 1].kind).unwrap();
    let (op2, l2, _) = infix_of(t[p + 3].kind).unwrap();
    let (a, b, c) = (atom_ast(t, p), atom_ast(t, p + 2), atom_ast(t, p + 4));
    if l2 > l1 {
        let bc = Ast::BinaryOperation(span_union(b.span(), c.span()), op2, Box::new(b), Box::new(c));
        Ast::BinaryOperation(span_union(a.span(), bc.span()), op1, Box::new(a), Box::new(bc))
    } else {
        let ab = Ast::BinaryOperation(span_union(a.span(), b.span()), op1, Box::new(a), Box::new(b));
        Ast::BinaryOperation(span_union(ab.span(), c.span()), op2, Box::new(ab), Box::new(c))
    }
}

/// Every right binding power is one more than the left one.
proof fn lemma_infix_right_is_left_plus_one(k: TokenKind)
    ensures
        infix_of(k) matches Some((_, l, r)) ==> r == l + 1,
{
}

proof fn lemma_simple_atom(t: Seq<Token>, i: int)
    requires
        simple_atom(t, i),
    ensures
        atom_spec(t, i) == (Ok::<Ast, ReportModel>(atom_ast(t, i)), i + 1),
        expr_spec(t, i, 0) == infix_spec(t, i + 1, atom_ast(t, i), 0),
{
}

/// Precedence: in `a op1 b op2 c`, wherever it stands and whatever ends it
/// (a separator, the end of input, any token without an infix role), the
/// operator that binds more tightly groups first, and operators of one tier
/// group to the left: `1 + 2 * 3` is `1 + (2 * 3)`, `1 * 2 + 3` is
/// `(1 * 2) + 3`, `1 - 2 - 3` is `(1 - 2) - 3`. Parsing stops at the token
/// after `c`.
pub proof fn lemma_precedence(t: Seq<Token>, p: int)
    requires
        0 <= p,
        p + 5 < t.len(),
        simple_atom(t, p),
        simple_atom(t, p + 2),
        simple_atom(t, p + 4),
        infix_of(t[p + 1].kind) is Some,
        infix_of(t[p + 3].kind) is Some,
        infix_of(t[p + 5].kind) is None,
    ensures
        expr_spec(t, p, 0) == (Ok::<Ast, ReportModel>(grouped(t, p)), p + 5),
{
    let (op1, l1, r1) = infix_of(t[p + 1].kind).unwrap();
    let (op2, l2, r2) = infix_of(t[p + 3].kind).unwrap();
    lemma_infix_right_is_left_plus_one(t[p + 1].kind);
    lemma_infix_right_is_left_plus_one(t[p + 3].kind);
    lemma_simple_atom(t, p);
    lemma_simple_atom(t, p + 2);
    lemma_simple_atom(t, p + 4);
    let (a, b, c) = (atom_ast(t, p), atom_ast(t, p + 2), atom_ast(t, p + 4));
    let ok = |x: Ast, q: int| (Ok::<Ast, ReportModel>(x), q);
    assert(infix_spec(t, p + 5, c, r2 as nat) == ok(c, p + 5));
    assert(expr_spec(t, p + 4, r2 as nat) == ok(c, p + 5));
    assert(expr_spec(t, p + 2, r1 as nat) == infix_spec(t, p + 3, b, r1 as nat));
    let bc = Ast::BinaryOperation(span_union(b.span(), c.span()), op2, Box::new(b), Box::new(c));
    if l2 > l1 {
        assert(infix_spec(t, p + 5, bc, r1 as nat) == ok(bc, p + 5));
        assert(infix_spec(t, p + 3, b, r1 as nat) == ok(bc, p + 5));
        let abc = Ast::BinaryOperation(span_union(a.span(), bc.span()), op1, Box::new(a), Box::new(bc));
        assert(infix_spec(t, p + 5, abc, 0) == ok(abc, p + 5));
        assert(infix_spec(t, p + 1, a, 0) == ok(abc, p + 5));
        assert(grouped(t, p) == abc);
    } else {
        assert(infix_spec(t, p + 3, b, r1 as nat) == ok(b, p + 3));
        let ab = Ast::BinaryOperation(span_union(a.span(), b.span()), op1, Box::new(a), Box::new(b));
        let abc = Ast::BinaryOperation(span_union(ab.span(), c.span()), op2, Box::new(ab), Box::new(c));
        assert(infix_spec(t, p + 5, abc, 0) == ok(abc, p + 5));
        assert(infix_spec(t, p + 3, ab, 0) == ok(abc, p + 5));
        assert(infix_spec(t, p + 1, a, 0) == ok(abc, p + 5));
        assert(grouped(t, p) == abc);
    }
}

/// Prefix `not` binds more tightly than `and` and `or`: `not a and b` is
/// `(not a) and b`, and `not a or b` is `(not a) or b`.
pub proof fn lemma_not_binds_tighter(t: Seq<Token>, p: int)
    requires
        0 <= p,
        p + 4 < t.len(),
        t[p].kind == TokenKind::Bang,
        simple_atom(t, p + 1),
        t[p + 2].kind == TokenKind::And || t[p + 2].kind == TokenKind::Or,
        simple_atom(t, p + 3),
        infix_of(t[p + 4].kind) is None,
    ensures
        ({
            let (op, _, _) = infix_of(t[p + 2].kind).unwrap();
            let (a, b) = (atom_ast(t, p + 1), atom_ast(t, p + 3));
            let na = Ast::UnaryOperation(span_union(t[p].span, a.span()), Operator::Not, Box::new(a));
            expr_spec(t, p, 0) == (
                Ok::<Ast, ReportModel>(Ast::BinaryOperation(span_union(na.span(), b.span()), op, Box::new(na), Box::new(b))),
                p + 4,
            )
        }),
{
    let (op, l, r) = infix_of(t[p + 2].kind).unwrap();
    lemma_simple_atom(t, p + 1);
    lemma_simple_atom(t, p + 3);
    let (a, b) = (atom_ast(t, p + 1), atom_ast(t, p + 3));
    let ok = |x: Ast, q: int| (Ok::<Ast, ReportModel>(x), q);
    assert(atom_spec(t, p + 1) == ok(a, p + 2));
    assert(infix_spec(t, p + 2, a, 3) == ok(a, p + 2));
    assert(expr_spec(t, p + 1, 3) == ok(a, p + 2));
    let na = Ast::UnaryOperation(span_union(t[p].span, a.span()), Operator::Not, Box::new(a));
    assert(infix_spec(t, p + 4, b, r as nat) == ok(b, p + 4));
    assert(expr_spec(t, p + 3, r as nat) == ok(b, p + 4));
    let nab = Ast::BinaryOperation(span_union(na.span(), b.span()), op, Box::new(na), Box::new(b));
    assert(infix_spec(t, p + 4, nab, 0) == ok(nab, p + 4));
    assert(infix_spec(t, p + 2, na, 0) == ok(nab, p + 4));
}


/// No separator stands among the tokens from `p` up to (not including) `q`.
pub open spec fn clear(t: Seq<Token>, p: int, q: int) -> bool {
    forall|i: int| p <= i < q ==> #[trigger] t[i].kind != TokenKind::Semicolon
}

/// What parsing from `p` to `q` may be said to do: stay in the stream, never
/// step over a separator, and move on unless it fails at a separator.
pub open spec fn progress(t: Seq<Token>, p: int, r: Parsed) -> bool {
    &&& p <= r.1 < t.len()
    &&& clear(t, p, r.1)
    &&& (kind_at(t, p) != TokenKind::EOF && kind_at(t, p) != TokenKind::Semicolon ==> r.1 > p)
    &&& (r.0 is Ok ==> r.1 > p)
}

proof fn lemma_atom_bounds(t: Seq<Token>, p: int)
    requires
        wf_tokens(t),
        0 <= p < t.len(),
    ensures
        progress(t, p, atom_spec(t, p)),
    decreases t.len() - p, 1nat,
{
    lemma_next_in_range(t, p);
    if t[p].kind == TokenKind::LeftParen {
        lemma_expr_bounds(t, p + 1, 0);
        let p1 = expr_spec(t, p + 1, 0).1;
        lemma_next_in_range(t, p1);
    }
}

proof fn lemma_expr_bounds(t: Seq<Token>, p: int, min_bp: nat)
    requires
        wf_tokens(t),
        0 <= p < t.len(),
    ensures
        progress(t, p, expr_spec(t, p, min_bp)),
    decreases t.len() - p, 2nat,
{
    lemma_next_in_range(t, p);
    let (r, p1) = match prefix_of(kind_at(t, p)) {
        Some((op, rbp)) => {
            lemma_expr_bounds(t, p + 1, rbp as nat);
            let (r, p1) = expr_spec(t, p + 1, rbp as nat);
            match r {
                Err(e) => (Err(e), p1),
                Ok(rhs) => (Ok(Ast::UnaryOperation(span_union(t[p].span, rhs.span()), op, Box::new(rhs))), p1),
            }
        },
        None => {
            lemma_atom_bounds(t, p);
            atom_spec(t, p)
        },
    };
    match r {
        Err(_) => {},
        Ok(lhs) => if p < p1 <= t.len() {
            lemma_infix_bounds(t, p1, lhs, min_bp);
        },
    }
}

proof fn lemma_infix_bounds(t: Seq<Token>, p: int, lhs: Ast, min_bp: nat)
    requires
        wf_tokens(t),
        0 <= p < t.len(),
    ensures
        p <= infix_spec(t, p, lhs, min_bp).1 < t.len(),
        clear(t, p, infix_spec(t, p, lhs, min_bp).1),
    decreases t.len() - p, 0nat,
{
    lemma_next_in_range(t, p);
    match infix_of(kind_at(t, p)) {
        None => {},
        Some((op, lbp, rbp)) => if (lbp as nat) < min_bp {
        } else {
            lemma_expr_bounds(t, p + 1, rbp as nat);
            let (r, p1) = expr_spec(t, p + 1, rbp as nat);
            match r {
                Err(_) => {},
                Ok(rhs) => {
                    let l2 = Ast::BinaryOperation(span_union(lhs.span(), rhs.span()), op, Box::new(lhs), Box::new(rhs));
                    lemma_infix_bounds(t, p1, l2, min_bp);
                },
            }
        },
    }
}

proof fn lemma_statement_bounds(t: Seq<Token>, p: int)
    requires
        wf_tokens(t),
        0 <= p < t.len(),
    ensures
        progress(t, p, statement_spec(t, p)),
{
    lemma_next_in_range(t, p);
    let k = t[p].kind;
    if k == TokenKind::Return {
        lemma_expr_bounds(t, p + 1, 0);
    } else if k == TokenKind::Let {
        if kind_at(t, p + 1) == TokenKind::Identifier {
            lemma_next_in_range(t, p + 1);
            if kind_at(t, p + 2) == TokenKind::Equals {
                lemma_next_in_range(t, p + 2);
                lemma_expr_bounds(t, p + 3, 0);
            }
        }
    } else {
        lemma_expr_bounds(t, p, 0);
    }
}

proof fn lemma_skip_bounds(t: Seq<Token>, p: int, closer: TokenKind)
    requires
        wf_tokens(t),
        0 <= p < t.len(),
    ensures
        p <= skip_spec(t, p, closer) < t.len(),
    decreases t.len() - p,
{
    lemma_next_in_range(t, p);
    let k = t[p].kind;
    if !(k == TokenKind::Semicolon || t[p].newline_before || k == closer || k == TokenKind::EOF) {
        lemma_skip_bounds(t, p + 1, closer);
    }
}

proof fn lemma_sync_bounds(t: Seq<Token>, p: int, closer: TokenKind)
    requires
        wf_tokens(t),
        0 <= p < t.len(),
    ensures
        p <= sync_spec(t, p, closer) < t.len(),
{
    lemma_skip_bounds(t, p, closer);
    lemma_next_in_range(t, skip_spec(t, p, closer));
}

/// Recovery: a statement that does not parse adds exactly one report, and the
/// block goes on from the next place a statement may start (past a separator,
/// or at a token on a new line or the closer), with the statements read so far
/// kept. That place lies past the broken statement's first token, and parsing
/// never steps over a separator before it.
pub proof fn lemma_recovery(t: Seq<Token>, p: int, closer: TokenKind, stmts: Seq<Ast>, diags: Seq<ReportModel>)
    requires
        wf_tokens(t),
        0 <= p < t.len(),
        kind_at(t, p) != closer,
        kind_at(t, p) != TokenKind::EOF,
        statement_spec(t, p).0 is Err,
    ensures
        ({
            let (r, p1) = statement_spec(t, p);
            let q = sync_spec(t, p1, closer);
            &&& p < q < t.len()
            &&& block_spec(t, p, closer, stmts, diags) == block_spec(t, q, closer, stmts, diags.push(r->Err_0))
        }),
{
    lemma_statement_bounds(t, p);
    lemma_sync_bounds(t, statement_spec(t, p).1, closer);
}

/// An integer literal holding a character that is no digit of its base is
/// reported as an error of its base, never read as a value.
pub proof fn lemma_invalid_integer_reported(t: Seq<Token>, p: int, i: int)
    requires
        0 <= p < t.len(),
        is_integer_kind(t[p].kind),
        0 <= i < t[p].text@.len(),
        digit_value(t[p].text@[i]) >= radix_of(t[p].kind),
        i > 0 || t[p].text@[0] != '+',
    ensures
        atom_spec(t, p).0 matches Err(m) && exists|e: IntError| m == integer_error(t[p].kind, t[p].span, e),
{
    lemma_invalid_digit_rejected(t[p].text@, radix_of(t[p].kind), i);
    let e = from_str_radix_spec(t[p].text@, radix_of(t[p].kind))->Err_0;
    assert(atom_spec(t, p).0 == Err::<Ast, ReportModel>(integer_error(t[p].kind, t[p].span, e)));
}

proof fn lemma_skip_to(t: Seq<Token>, j: int, sep: int, closer: TokenKind)
    requires
        0 <= j <= sep < t.len(),
        t[sep].kind == TokenKind::Semicolon,
        forall|i: int| j <= i < sep ==> #[trigger] t[i].kind != TokenKind::Semicolon
            && !t[i].newline_before && t[i].kind != closer && t[i].kind != TokenKind::EOF,
    ensures
        skip_spec(t, j, closer) == sep,
    decreases sep - j,
{
    if j < sep {
        lemma_skip_to(t, j + 1, sep, closer);
    }
}

/// Recovery on one line: when the statement at `p` does not parse, and `sep` is
/// the first separator from `p` on, with no line break, closer or end of input
/// up to it, the block reports that statement once and reads on from the
/// token right after `sep`, keeping the statements read before. So in
/// `let = ; return 1;` the `return 1` still stands in the tree.
pub proof fn lemma_resume_after_separator(
    t: Seq<Token>,
    p: int,
    sep: int,
    closer: TokenKind,
    stmts: Seq<Ast>,
    diags: Seq<ReportModel>,
)
    requires
        wf_tokens(t),
        0 <= p <= sep < t.len(),
        kind_at(t, p) != closer,
        kind_at(t, p) != TokenKind::EOF,
        statement_spec(t, p).0 is Err,
        t[sep].kind == TokenKind::Semicolon,
        forall|i: int| p <= i < sep ==> #[trigger] t[i].kind != TokenKind::Semicolon,
        forall|i: int| p < i <= sep ==> !(#[trigger] t[i]).newline_before && t[i].kind != closer
            && t[i].kind != TokenKind::EOF,
    ensures
        block_spec(t, p, closer, stmts, diags)
            == block_spec(t, sep + 1, closer, stmts, diags.push(statement_spec(t, p).0->Err_0)),
{
    lemma_statement_bounds(t, p);
    let p1 = statement_spec(t, p).1;
    if p1 > sep {
        assert(t[sep].kind != TokenKind::Semicolon);
    }
    if p1 == p {
        assert(sep == p) by {
            if sep > p {
                assert(t[p].kind != TokenKind::Semicolon);
            }
        }
    } else {
        lemma_skip_to(t, p1, sep, closer);
    }
    assert(sync_spec(t, p1, closer) == sep + 1);
}

} // verus!
