use vstd::prelude::*;

use crate::span::Span;

verus! {

/// The kinds of token the tokenizer produces.
#[derive(Clone, Copy, Debug, PartialEq, Eq, Structural)]
pub enum TokenKind {
    And,
    Bang,
    BangEquals,
    BooleanLiteral,
    Colon,
    EOF,
    Equals,
    EqualsEquals,
    FloatLiteral,
    GreaterThan,
    GreaterThanEquals,
    Identifier,
    IntegerLiteralBin,
    IntegerLiteralDec,
    IntegerLiteralHex,
    IntegerLiteralOct,
    LeftParen,
    LessThan,
    LessThanEquals,
    Let,
    Minus,
    Or,
    Plus,
    Return,
    RightParen,
    Semicolon,
    Slash,
    Star,
    StringLiteral,
}

/// The name of a token kind, as it appears in diagnostics.
pub open spec fn kind_name(k: TokenKind) -> Seq<char> {
    match k {
        TokenKind::And => "And"@,
        TokenKind::Bang => "Bang"@,
        TokenKind::BangEquals => "BangEquals"@,
        TokenKind::BooleanLiteral => "BooleanLiteral"@,
        TokenKind::Colon => "Colon"@,
        TokenKind::EOF => "EOF"@,
        TokenKind::Equals => "Equals"@,
        TokenKind::EqualsEquals => "EqualsEquals"@,
        TokenKind::FloatLiteral => "FloatLiteral"@,
        TokenKind::GreaterThan => "GreaterThan"@,
        TokenKind::GreaterThanEquals => "GreaterThanEquals"@,
        TokenKind::Identifier => "Identifier"@,
        TokenKind::IntegerLiteralBin => "IntegerLiteralBin"@,
        TokenKind::IntegerLiteralDec => "IntegerLiteralDec"@,
        TokenKind::IntegerLiteralHex => "IntegerLiteralHex"@,
        TokenKind::IntegerLiteralOct => "IntegerLiteralOct"@,
        TokenKind::LeftParen => "LeftParen"@,
        TokenKind::LessThan => "LessThan"@,
        TokenKind::LessThanEquals => "LessThanEquals"@,
        TokenKind::Let => "Let"@,
        TokenKind::Minus => "Minus"@,
        TokenKind::Or => "Or"@,
        TokenKind::Plus => "Plus"@,
        TokenKind::Return => "Return"@,
        TokenKind::RightParen => "RightParen"@,
        TokenKind::Semicolon => "Semicolon"@,
        TokenKind::Slash => "Slash"@,
        TokenKind::Star => "Star"@,
        TokenKind::StringLiteral => "StringLiteral"@,
    }
}

impl TokenKind {
    pub fn name(self) -> (r: &'static str)
        ensures
            r@ == kind_name(self),
    {
        match self {
            TokenKind::And => "And",
            TokenKind::Bang => "Bang",
            TokenKind::BangEquals => "BangEquals",
            TokenKind::BooleanLiteral => "BooleanLiteral",
            TokenKind::Colon => "Colon",
            TokenKind::EOF => "EOF",
            TokenKind::Equals => "Equals",
            TokenKind::EqualsEquals => "EqualsEquals",
            TokenKind::FloatLiteral => "FloatLiteral",
            TokenKind::GreaterThan => "GreaterThan",
            TokenKind::GreaterThanEquals => "GreaterThanEquals",
            TokenKind::Identifier => "Identifier",
            TokenKind::IntegerLiteralBin => "IntegerLiteralBin",
            TokenKind::IntegerLiteralDec => "IntegerLiteralDec",
            TokenKind::IntegerLiteralHex => "IntegerLiteralHex",
            TokenKind::IntegerLiteralOct => "IntegerLiteralOct",
            TokenKind::LeftParen => "LeftParen",
            TokenKind::LessThan => "LessThan",
            TokenKind::LessThanEquals => "LessThanEquals",
            TokenKind::Let => "Let",
            TokenKind::Minus => "Minus",
            TokenKind::Or => "Or",
            TokenKind::Plus => "Plus",
            TokenKind::Return => "Return",
            TokenKind::RightParen => "RightParen",
            TokenKind::Semicolon => "Semicolon",
            TokenKind::Slash => "Slash",
            TokenKind::Star => "Star",
            TokenKind::StringLiteral => "StringLiteral",
        }
    }
}

/// A token: its kind, where it stands, its text, and whether a line break
/// came before it. The text of an integer literal is its digits, without the
/// base prefix that the kind records; that of a string literal is what stands
/// between the quotes, the opening quote being the byte at `span.start`.
pub struct Token {
    pub kind: TokenKind,
    pub span: Span,
    pub text: String,
    pub newline_before: bool,
}

impl Token {
    pub fn new(kind: TokenKind, span: Span, text: &str) -> (r: Token)
        ensures
            r.kind == kind,
            r.span == span,
            r.text@ == text@,
            !r.newline_before,
    {
        Token { kind, span, text: String::from_str(text), newline_before: false }
    }
}

} // verus!
