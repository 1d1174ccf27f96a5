use vstd::prelude::*;

use crate::span::Span;
use crate::token::TokenKind;

verus! {

/// The operators of the language.
#[derive(Clone, Copy, Debug, PartialEq, Eq, Structural)]
pub enum Operator {
    Or,
    And,
    Not,
    Plus,
    Minus,
    Star,
    Slash,
    GreaterThan,
    LessThan,
    GreaterThanEquals,
    LessThanEquals,
    Equals,
    BangEquals,
}

/// The prefix role of a token kind: operator and right binding power. Prefix
/// `+` and `-` take a whole sum as operand; `not` binds tighter than `and` and
/// `or` but takes in a comparison.
pub open spec fn prefix_of(k: TokenKind) -> Option<(Operator, u8)> {
    match k {
        TokenKind::Plus => Some((Operator::Plus, 1u8)),
        TokenKind::Minus => Some((Operator::Minus, 1u8)),
        TokenKind::Bang => Some((Operator::Not, 3u8)),
        _ => None,
    }
}

/// The infix role of a token kind: operator, left and right binding power.
pub open spec fn infix_of(k: TokenKind) -> Option<(Operator, u8, u8)> {
    match k {
        TokenKind::Or => Some((Operator::Or, 1u8, 2u8)),
        TokenKind::And => Some((Operator::And, 2u8, 3u8)),
        TokenKind::EqualsEquals => Some((Operator::Equals, 3u8, 4u8)),
        TokenKind::BangEquals => Some((Operator::BangEquals, 3u8, 4u8)),
        TokenKind::GreaterThan => Some((Operator::GreaterThan, 3u8, 4u8)),
        TokenKind::GreaterThanEquals => Some((Operator::GreaterThanEquals, 3u8, 4u8)),
        TokenKind::LessThan => Some((Operator::LessThan, 3u8, 4u8)),
        TokenKind::LessThanEquals => Some((Operator::LessThanEquals, 3u8, 4u8)),
        TokenKind::Plus => Some((Operator::Plus, 4u8, 5u8)),
        TokenKind::Minus => Some((Operator::Minus, 4u8, 5u8)),
        TokenKind::Star => Some((Operator::Star, 5u8, 6u8)),
        TokenKind::Slash => Some((Operator::Slash, 5u8, 6u8)),
        _ => None,
    }
}

impl Operator {
    /// The ordering comparisons.
    pub fn is_compound(&self) -> (r: bool)
        ensures
            r == (*self == Operator::GreaterThan || *self == Operator::GreaterThanEquals
                || *self == Operator::LessThan || *self == Operator::LessThanEquals),
    {
        match self {
            Operator::GreaterThan
            | Operator::GreaterThanEquals
            | Operator::LessThan
            | Operator::LessThanEquals => true,
            _ => false,
        }
    }
}

impl TokenKind {
    pub fn as_prefix(self) -> (r: Option<(Operator, (), u8)>)
        ensures
            match (r, prefix_of(self)) {
                (Some((op, _, bp)), Some((op2, bp2))) => op == op2 && bp == bp2,
                (None, None) => true,
                _ => false,
            },
    {
        match self {
            TokenKind::Plus => Some((Operator::Plus, (), 1)),
            TokenKind::Minus => Some((Operator::Minus, (), 1)),
            TokenKind::Bang => Some((Operator::Not, (), 3)),
            _ => None,
        }
    }

    pub fn as_infix(self) -> (r: Option<(Operator, u8, u8)>)
        ensures
            r == infix_of(self),
    {
        match self {
            TokenKind::Or => Some((Operator::Or, 1, 2)),
            TokenKind::And => Some((Operator::And, 2, 3)),
            TokenKind::EqualsEquals => Some((Operator::Equals, 3, 4)),
            TokenKind::BangEquals => Some((Operator::BangEquals, 3, 4)),
            TokenKind::GreaterThan => Some((Operator::GreaterThan, 3, 4)),
            TokenKind::GreaterThanEquals => Some((Operator::GreaterThanEquals, 3, 4)),
            TokenKind::LessThan => Some((Operator::LessThan, 3, 4)),
            TokenKind::LessThanEquals => Some((Operator::LessThanEquals, 3, 4)),
            TokenKind::Plus => Some((Operator::Plus, 4, 5)),
            TokenKind::Minus => Some((Operator::Minus, 4, 5)),
            TokenKind::Star => Some((Operator::Star, 5, 6)),
            TokenKind::Slash => Some((Operator::Slash, 5, 6)),
            _ => None,
        }
    }

    /// No token kind has a postfix role yet.
    pub fn as_postfix(self) -> (r: Option<(Operator, u8, ())>)
        ensures
            r is None,
    {
        None
    }
}

/// What a node is, with its children.
pub enum NodeKind {
    Return(Box<Node>),
    Block(Vec<Node>),
    VarDeclaration(String, Box<Node>),
    UnaryOperation(Operator, Box<Node>),
    BinaryOperation(Operator, Box<Node>, Box<Node>),
    Identifier(String),
    StringLiteral(String),
    /// The literal's text: the library does no floating-point arithmetic.
    FloatLiteral(String),
    IntegerLiteral(u64),
    BooleanLiteral(bool),
}

/// A node of the syntax tree and the source it came from.
pub struct Node {
    pub kind: NodeKind,
    pub span: Span,
}

/// The model of a syntax tree: text becomes a sequence of characters.
pub enum Ast {
    Return(Span, Box<Ast>),
    Block(Span, Seq<Ast>),
    VarDeclaration(Span, Seq<char>, Box<Ast>),
    UnaryOperation(Span, Operator, Box<Ast>),
    BinaryOperation(Span, Operator, Box<Ast>, Box<Ast>),
    Identifier(Span, Seq<char>),
    StringLiteral(Span, Seq<char>),
    FloatLiteral(Span, Seq<char>),
    IntegerLiteral(Span, u64),
    BooleanLiteral(Span, bool),
}

impl Ast {
    pub open spec fn span(self) -> Span {
        match self {
            Ast::Return(s, _) => s,
            Ast::Block(s, _) => s,
            Ast::VarDeclaration(s, _, _) => s,
            Ast::UnaryOperation(s, _, _) => s,
            Ast::BinaryOperation(s, _, _, _) => s,
            Ast::Identifier(s, _) => s,
            Ast::StringLiteral(s, _) => s,
            Ast::FloatLiteral(s, _) => s,
            Ast::IntegerLiteral(s, _) => s,
            Ast::BooleanLiteral(s, _) => s,
        }
    }

    /// The same tree with its root re-spanned.
    pub open spec fn with_span(self, sp: Span) -> Ast {
        match self {
            Ast::Return(_, e) => Ast::Return(sp, e),
            Ast::Block(_, b) => Ast::Block(sp, b),
            Ast::VarDeclaration(_, n, e) => Ast::VarDeclaration(sp, n, e),
            Ast::UnaryOperation(_, o, e) => Ast::UnaryOperation(sp, o, e),
            Ast::BinaryOperation(_, o, l, r) => Ast::BinaryOperation(sp, o, l, r),
            Ast::Identifier(_, n) => Ast::Identifier(sp, n),
            Ast::StringLiteral(_, t) => Ast::StringLiteral(sp, t),
            Ast::FloatLiteral(_, t) => Ast::FloatLiteral(sp, t),
            Ast::IntegerLiteral(_, v) => Ast::IntegerLiteral(sp, v),
            Ast::BooleanLiteral(_, v) => Ast::BooleanLiteral(sp, v),
        }
    }
}

impl Node {
    /// The model of the tree rooted here.
    pub open spec fn ast(&self) -> Ast
        decreases self,
    {
        let sp = self.span;
        match &self.kind {
            NodeKind::Return(e) => Ast::Return(sp, Box::new(e.ast())),
            NodeKind::Block(v) => Ast::Block(
                sp,
                Seq::new(v@.len(), |i: int| if 0 <= i < v@.len() { v@[i].ast() } else { arbitrary() }),
            ),
            NodeKind::VarDeclaration(n, e) => Ast::VarDeclaration(sp, n@, Box::new(e.ast())),
            NodeKind::UnaryOperation(o, e) => Ast::UnaryOperation(sp, *o, Box::new(e.ast())),
            NodeKind::BinaryOperation(o, l, r) => Ast::BinaryOperation(
                sp,
                *o,
                Box::new(l.ast()),
                Box::new(r.ast()),
            ),
            NodeKind::Identifier(n) => Ast::Identifier(sp, n@),
            NodeKind::StringLiteral(t) => Ast::StringLiteral(sp, t@),
            NodeKind::FloatLiteral(t) => Ast::FloatLiteral(sp, t@),
            NodeKind::IntegerLiteral(v) => Ast::IntegerLiteral(sp, *v),
            NodeKind::BooleanLiteral(b) => Ast::BooleanLiteral(sp, *b),
        }
    }
}

impl NodeKind {
    pub fn make(self, span: Span) -> (r: Node)
        ensures
            r.kind == self,
            r.span == span,
    {
        Node { kind: self, span }
    }
}

} // verus!
