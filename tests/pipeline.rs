use ruse::ast::{Node, NodeKind, Operator};
use ruse::chunk::OpCode;
use ruse::compiler::{CompileError, Compiler};
use ruse::escape::StringParser;
use ruse::literal::{parse_integer, IntError};
use ruse::parser::Parser;
use ruse::report::Report;
use ruse::span::Span;
use ruse::token::{Token, TokenKind};
use ruse::value::{Tag, VMError, Value};
use ruse::vm::{Halt, VM};

/// Tokens laid out one after another, each followed by a space, ending in `EOF`.
fn tokens(items: &[(TokenKind, &str)]) -> Vec<Token> {
    let mut out = Vec::new();
    let mut offset = 0usize;
    for (kind, text) in items {
        let len = text.len();
        out.push(Token::new(*kind, Span { filename: "test", start: offset, end: offset + len }, text));
        offset += len + 1;
    }
    out.push(Token::new(TokenKind::EOF, Span { filename: "test", start: offset, end: offset }, ""));
    out
}

fn parse(items: &[(TokenKind, &str)]) -> (Node, Vec<Report>) {
    let mut parser = Parser::new(tokens(items));
    let node = parser.parse();
    let reports = parser.take_diagnostics();
    (node, reports)
}

fn statements(node: &Node) -> &Vec<Node> {
    match &node.kind {
        NodeKind::Block(stmts) => stmts,
        _ => panic!("the root is not a block"),
    }
}

fn only_expression(items: &[(TokenKind, &str)]) -> Node {
    let (node, reports) = parse(items);
    assert!(reports.is_empty());
    match node.kind {
        NodeKind::Block(mut stmts) => {
            assert_eq!(stmts.len(), 1);
            stmts.remove(0)
        }
        _ => panic!("the root is not a block"),
    }
}

/// A compact rendering of a tree: `(op lhs rhs)`, `(op operand)` or the literal.
fn shape(node: &Node) -> String {
    match &node.kind {
        NodeKind::BinaryOperation(op, l, r) => format!("({:?} {} {})", op, shape(l), shape(r)),
        NodeKind::UnaryOperation(op, e) => format!("({:?} {})", op, shape(e)),
        NodeKind::IntegerLiteral(v) => format!("{}", v),
        NodeKind::BooleanLiteral(b) => format!("{}", b),
        NodeKind::Identifier(n) => n.clone(),
        NodeKind::StringLiteral(s) => format!("{:?}", s),
        NodeKind::Return(e) => format!("(return {})", shape(e)),
        NodeKind::VarDeclaration(n, e) => format!("(let {} {})", n, shape(e)),
        NodeKind::FloatLiteral(t) => t.clone(),
        NodeKind::Block(s) => format!("(block {})", s.len()),
    }
}


#[test]
fn multiplication_binds_tighter_than_addition() {
    let e = only_expression(&[(TokenKind::IntegerLiteralDec, "1"), (TokenKind::Plus, "+"), (TokenKind::IntegerLiteralDec, "2"), (TokenKind::Star, "*"), (TokenKind::IntegerLiteralDec, "3")]);
    assert_eq!(shape(&e), "(Plus 1 (Star 2 3))");
}

#[test]
fn multiplication_first_groups_left() {
    let e = only_expression(&[(TokenKind::IntegerLiteralDec, "1"), (TokenKind::Star, "*"), (TokenKind::IntegerLiteralDec, "2"), (TokenKind::Plus, "+"), (TokenKind::IntegerLiteralDec, "3")]);
    assert_eq!(shape(&e), "(Plus (Star 1 2) 3)");
}

#[test]
fn same_tier_is_left_associative() {
    let e = only_expression(&[(TokenKind::IntegerLiteralDec, "1"), (TokenKind::Minus, "-"), (TokenKind::IntegerLiteralDec, "2"), (TokenKind::Minus, "-"), (TokenKind::IntegerLiteralDec, "3")]);
    assert_eq!(shape(&e), "(Minus (Minus 1 2) 3)");
}

#[test]
fn or_binds_looser_than_and_and_comparison() {
    let e = only_expression(&[(TokenKind::Identifier, "a"), (TokenKind::Or, "or"), (TokenKind::Identifier, "b"), (TokenKind::And, "and"), (TokenKind::Identifier, "c"), (TokenKind::EqualsEquals, "=="), (TokenKind::Identifier, "d")]);
    assert_eq!(shape(&e), "(Or a (And b (Equals c d)))");
}

#[test]
fn not_binds_tighter_than_or() {
    let e = only_expression(&[(TokenKind::Bang, "not"), (TokenKind::BooleanLiteral, "True"), (TokenKind::Or, "or"), (TokenKind::BooleanLiteral, "False")]);
    assert_eq!(shape(&e), "(Or (Not true) false)");
}

#[test]
fn not_binds_tighter_than_and() {
    let e = only_expression(&[(TokenKind::Bang, "not"), (TokenKind::BooleanLiteral, "true"), (TokenKind::And, "and"), (TokenKind::BooleanLiteral, "false")]);
    assert_eq!(shape(&e), "(And (Not true) false)");
}

#[test]
fn not_takes_in_a_comparison() {
    let e = only_expression(&[(TokenKind::Bang, "not"), (TokenKind::Identifier, "a"), (TokenKind::EqualsEquals, "=="), (TokenKind::Identifier, "b")]);
    assert_eq!(shape(&e), "(Not (Equals a b))");
}

#[test]
fn prefix_minus_is_loosest() {
    let e = only_expression(&[(TokenKind::Minus, "-"), (TokenKind::IntegerLiteralDec, "1"), (TokenKind::Plus, "+"), (TokenKind::IntegerLiteralDec, "2")]);
    assert_eq!(shape(&e), "(Minus (Plus 1 2))");
}

#[test]
fn parentheses_regroup_and_respan() {
    let e = only_expression(&[(TokenKind::LeftParen, "("), (TokenKind::IntegerLiteralDec, "1"), (TokenKind::Plus, "+"), (TokenKind::IntegerLiteralDec, "2"), (TokenKind::RightParen, ")"), (TokenKind::Star, "*"), (TokenKind::IntegerLiteralDec, "3")]);
    assert_eq!(shape(&e), "(Star (Plus 1 2) 3)");
    match &e.kind {
        NodeKind::BinaryOperation(_, l, _) => {
            assert_eq!(l.span.start, 0);
            assert_eq!(l.span.end, 9);
        }
        _ => panic!("not a binary operation"),
    }
}

#[test]
fn integer_literals_in_each_base() {
    assert_eq!(parse_integer("101", 2), Ok(5));
    assert_eq!(parse_integer("17", 8), Ok(15));
    assert_eq!(parse_integer("FF", 16), Ok(255));
    assert_eq!(parse_integer("ff", 16), Ok(255));
    assert_eq!(parse_integer("42", 10), Ok(42));
    let e = only_expression(&[(TokenKind::IntegerLiteralBin, "101"), (TokenKind::Plus, "+"), (TokenKind::IntegerLiteralOct, "17"), (TokenKind::Plus, "+"), (TokenKind::IntegerLiteralHex, "FF")]);
    assert_eq!(shape(&e), "(Plus (Plus 5 15) 255)");
}

#[test]
fn integer_literal_errors() {
    assert_eq!(parse_integer("102", 2), Err(IntError::InvalidDigit));
    assert_eq!(parse_integer("", 10), Err(IntError::Empty));
    assert_eq!(parse_integer("+", 10), Err(IntError::InvalidDigit));
    assert_eq!(parse_integer("+7", 10), Ok(7));
    assert_eq!(parse_integer("18446744073709551615", 10), Ok(u64::MAX));
    assert_eq!(parse_integer("18446744073709551616", 10), Err(IntError::PosOverflow));
    assert_eq!(parse_integer("99999999999999999999z", 10), Err(IntError::PosOverflow));
}

#[test]
fn invalid_binary_digit_is_reported() {
    let (node, reports) = parse(&[(TokenKind::IntegerLiteralBin, "102")]);
    assert_eq!(statements(&node).len(), 0);
    assert_eq!(reports.len(), 1);
    assert_eq!(reports[0].title, "SyntaxError Invalid Binary Integer literal");
    assert_eq!(reports[0].note.as_deref(), Some("invalid digit found in string"));
}

fn unescape(body: &str) -> Result<String, Report> {
    let span = Span { filename: "test", start: 10, end: 10 + body.len() + 2 };
    StringParser::new(body, span).parse()
}

#[test]
fn simple_escapes_decode() {
    assert_eq!(unescape("a\\tb").ok().unwrap(), "a\tb");
    assert_eq!(unescape("\\n\\r\\\\\\'\\\"\\0\\b\\f").ok().unwrap(), "\n\r\\'\"\0\u{8}\u{c}");
    assert_eq!(unescape("plain").ok().unwrap(), "plain");
}

#[test]
fn unicode_escape_decodes() {
    assert_eq!(unescape("\\u0041").ok().unwrap(), "A");
    assert_eq!(unescape("x\\u00e9y").ok().unwrap(), "x\u{e9}y");
}

#[test]
fn invalid_escape_points_at_the_letter() {
    let r = unescape("\\q").err().unwrap();
    assert_eq!(r.title, "SyntaxError Invalid Escape Character: q");
    // The body starts at byte 11; the backslash is byte 11 and `q` byte 12.
    assert_eq!(r.labels[0].span.start, 12);
    assert_eq!(r.labels[0].span.end, 12);
}

#[test]
fn truncated_unicode_escape_is_reported() {
    let r = unescape("\\u12").err().unwrap();
    assert_eq!(r.title, "SyntaxError Unexpected end of string.");
    assert_eq!(r.labels[0].span.start, 15);
    assert_eq!(r.labels[1].span.start, 13);
    assert_eq!(r.labels[1].span.end, 15);
}

#[test]
fn bad_character_in_unicode_escape_is_reported() {
    let r = unescape("\\u12x4").err().unwrap();
    assert_eq!(r.title, "SyntaxError Unexpected character 'x' for escape code");
    assert_eq!(r.labels[0].span.start, 15);
}

#[test]
fn surrogate_unicode_escape_is_reported() {
    let r = unescape("\\uD800").err().unwrap();
    assert_eq!(r.title, "SyntaxError Invalid Unicode Escape Sequence: D800");
    assert_eq!(r.labels[0].span.start, 13);
    assert_eq!(r.labels[0].span.end, 17);
}

#[test]
fn hanging_backslash_is_reported() {
    let r = unescape("ab\\").err().unwrap();
    assert_eq!(r.title, "SyntaxError Unexpected end of string.");
}

#[test]
fn string_literal_in_program_is_decoded() {
    let e = only_expression(&[(TokenKind::StringLiteral, "a\\tb")]);
    assert_eq!(shape(&e), "\"a\\tb\"");
}

#[test]
fn malformed_statement_recovers() {
    let (node, reports) = parse(&[
        (TokenKind::Let, "let"), (TokenKind::Equals, "="), (TokenKind::Semicolon, ";"),
        (TokenKind::Return, "return"), (TokenKind::IntegerLiteralDec, "1"), (TokenKind::Semicolon, ";"),
        (TokenKind::Identifier, "x"),
    ]);
    assert_eq!(reports.len(), 1);
    assert_eq!(reports[0].title, "UnexpectedToken Equals");
    let stmts = statements(&node);
    assert_eq!(stmts.len(), 2);
    assert_eq!(shape(&stmts[0]), "(return 1)");
    assert_eq!(shape(&stmts[1]), "x");
}

#[test]
fn missing_terminator_is_reported_once() {
    let (node, reports) = parse(&[
        (TokenKind::IntegerLiteralDec, "1"), (TokenKind::IntegerLiteralDec, "2"), (TokenKind::Semicolon, ";"),
        (TokenKind::IntegerLiteralDec, "3"),
    ]);
    assert_eq!(reports.len(), 1);
    assert_eq!(reports[0].title, "UnexpectedToken IntegerLiteralDec");
    assert_eq!(statements(&node).len(), 1);
}

#[test]
fn newline_terminates_a_statement() {
    let mut toks = tokens(&[(TokenKind::IntegerLiteralDec, "1"), (TokenKind::IntegerLiteralDec, "2")]);
    toks[1].newline_before = true;
    let mut parser = Parser::new(toks);
    let node = parser.parse();
    assert!(parser.take_diagnostics().is_empty());
    assert_eq!(statements(&node).len(), 2);
}

#[test]
fn let_declaration_parses() {
    let e = only_expression(&[(TokenKind::Let, "let"), (TokenKind::Identifier, "x"), (TokenKind::Equals, "="), (TokenKind::IntegerLiteralDec, "4")]);
    assert_eq!(shape(&e), "(let x 4)");
}

#[test]
fn unexpected_end_of_input() {
    let (_, reports) = parse(&[(TokenKind::Return, "return")]);
    assert_eq!(reports.len(), 1);
    assert_eq!(reports[0].title, "UnexpectedEOF");
}

fn compile(items: &[(TokenKind, &str)]) -> Result<Compiler, CompileError> {
    let (node, reports) = parse(items);
    assert!(reports.is_empty());
    let mut compiler = Compiler::new();
    compiler.compile_program(&node)?;
    Ok(compiler)
}

fn ops(compiler: &Compiler) -> Vec<OpCode> {
    let code = &compiler.chunk.source;
    let mut out = Vec::new();
    let mut i = 0;
    while i < code.len() {
        let op = OpCode::from_byte(code[i]).unwrap();
        out.push(op);
        i += if op == OpCode::Const { 3 } else { 1 };
    }
    out
}

#[test]
fn greater_equal_lowers_to_less_not() {
    let c = compile(&[(TokenKind::IntegerLiteralDec, "1"), (TokenKind::GreaterThanEquals, ">="), (TokenKind::IntegerLiteralDec, "2")]).unwrap();
    assert_eq!(ops(&c), vec![OpCode::Const, OpCode::Const, OpCode::Less, OpCode::Not]);
    let n = compile(&[(TokenKind::Bang, "not"), (TokenKind::LeftParen, "("), (TokenKind::IntegerLiteralDec, "1"), (TokenKind::LessThan, "<"), (TokenKind::IntegerLiteralDec, "2"), (TokenKind::RightParen, ")")]).unwrap();
    assert_eq!(c.chunk.source, n.chunk.source);
}

#[test]
fn other_compound_comparisons_lower_with_not() {
    let c = compile(&[(TokenKind::IntegerLiteralDec, "1"), (TokenKind::LessThanEquals, "<="), (TokenKind::IntegerLiteralDec, "2")]).unwrap();
    assert_eq!(ops(&c), vec![OpCode::Const, OpCode::Const, OpCode::Greater, OpCode::Not]);
    let c = compile(&[(TokenKind::IntegerLiteralDec, "1"), (TokenKind::BangEquals, "!="), (TokenKind::IntegerLiteralDec, "2")]).unwrap();
    assert_eq!(ops(&c), vec![OpCode::Const, OpCode::Const, OpCode::Equal, OpCode::Not]);
}

#[test]
fn unsupported_constructs_fail_to_compile() {
    assert_eq!(compile(&[(TokenKind::Identifier, "x")]).err(), Some(CompileError::Identifier));
    assert_eq!(compile(&[(TokenKind::Let, "let"), (TokenKind::Identifier, "x"), (TokenKind::Equals, "="), (TokenKind::IntegerLiteralDec, "1")]).err(), Some(CompileError::VarDeclaration));
    assert_eq!(compile(&[(TokenKind::Minus, "-"), (TokenKind::IntegerLiteralDec, "1")]).err(), Some(CompileError::UnaryOperator(Operator::Minus)));
}

fn run(items: &[(TokenKind, &str)]) -> Result<Halt, VMError> {
    let compiler = compile(items).unwrap();
    let mut vm = VM::new(compiler.chunk);
    vm.run()
}

fn returned(r: Result<Halt, VMError>) -> Value {
    match r {
        Ok(Halt::Return(v)) => v,
        _ => panic!("the program did not return a value"),
    }
}

#[test]
fn end_to_end_arithmetic() {
    let v = returned(run(&[(TokenKind::Return, "return"), (TokenKind::IntegerLiteralDec, "1"), (TokenKind::Plus, "+"), (TokenKind::IntegerLiteralDec, "2"), (TokenKind::Star, "*"), (TokenKind::IntegerLiteralDec, "3"), (TokenKind::Semicolon, ";")]));
    assert!(matches!(v, Value::Integer(7)));
}

#[test]
fn end_to_end_concatenation() {
    let v = returned(run(&[(TokenKind::Return, "return"), (TokenKind::StringLiteral, "x"), (TokenKind::Plus, "+"), (TokenKind::StringLiteral, "y"), (TokenKind::Semicolon, ";")]));
    match v {
        Value::String(s) => assert_eq!(s, "xy"),
        _ => panic!("not a string"),
    }
}

#[test]
fn end_to_end_type_mismatch() {
    let r = run(&[(TokenKind::Return, "return"), (TokenKind::IntegerLiteralDec, "1"), (TokenKind::Plus, "+"), (TokenKind::BooleanLiteral, "True"), (TokenKind::Semicolon, ";")]);
    assert_eq!(r.err(), Some(VMError::TypeMismatch(OpCode::Add, Tag::Integer, Tag::Boolean)));
}

#[test]
fn end_to_end_comparisons_and_logic() {
    let v = returned(run(&[(TokenKind::Return, "return"), (TokenKind::IntegerLiteralDec, "3"), (TokenKind::GreaterThanEquals, ">="), (TokenKind::IntegerLiteralDec, "3"), (TokenKind::And, "and"), (TokenKind::Bang, "not"), (TokenKind::BooleanLiteral, "False")]));
    assert!(matches!(v, Value::Boolean(true)));
    let v = returned(run(&[(TokenKind::Return, "return"), (TokenKind::StringLiteral, "a"), (TokenKind::EqualsEquals, "=="), (TokenKind::IntegerLiteralDec, "1")]));
    assert!(matches!(v, Value::Boolean(false)));
}

#[test]
fn division_by_zero_and_overflow_are_errors() {
    let r = run(&[(TokenKind::Return, "return"), (TokenKind::IntegerLiteralDec, "1"), (TokenKind::Slash, "/"), (TokenKind::IntegerLiteralDec, "0")]);
    assert_eq!(r.err(), Some(VMError::DivisionByZero));
    let r = run(&[(TokenKind::Return, "return"), (TokenKind::IntegerLiteralDec, "9223372036854775807"), (TokenKind::Plus, "+"), (TokenKind::IntegerLiteralDec, "1")]);
    assert_eq!(r.err(), Some(VMError::Overflow(OpCode::Add)));
    let v = returned(run(&[(TokenKind::Return, "return"), (TokenKind::IntegerLiteralDec, "7"), (TokenKind::Slash, "/"), (TokenKind::IntegerLiteralDec, "2")]));
    assert!(matches!(v, Value::Integer(3)));
}

#[test]
fn program_without_return_yields_unit() {
    let v = returned(run(&[(TokenKind::IntegerLiteralDec, "1")]));
    assert!(matches!(v, Value::Unit));
}

#[test]
fn float_operations_are_handed_out() {
    let compiler = compile(&[(TokenKind::Return, "return"), (TokenKind::FloatLiteral, "1.5"), (TokenKind::Plus, "+"), (TokenKind::FloatLiteral, "2.25")]).unwrap();
    let mut vm = VM::new(compiler.chunk);
    match vm.run() {
        Ok(Halt::Float(op, a, b)) => {
            assert_eq!(op, OpCode::Add);
            assert_eq!(a, "1.5");
            assert_eq!(b, "2.25");
        }
        _ => panic!("no float operation was handed out"),
    }
    let sum = 1.5f64 + 2.25f64;
    vm.push(Value::Float(format!("{}", sum)));
    match vm.run() {
        Ok(Halt::Return(Value::Float(s))) => assert_eq!(s, "3.75"),
        _ => panic!("the sum was not returned"),
    }
}

#[test]
fn malformed_chunks_fault() {
    let mut chunk = ruse::chunk::Chunk::new();
    chunk.source.push(200);
    assert_eq!(VM::new(chunk).run().err(), Some(VMError::InvalidOpcode(200)));
    let mut chunk = ruse::chunk::Chunk::new();
    chunk.source.push(1);
    assert_eq!(VM::new(chunk).run().err(), Some(VMError::StackUnderflow(OpCode::Add)));
    let mut chunk = ruse::chunk::Chunk::new();
    chunk.source.push(0);
    chunk.source.push(5);
    chunk.source.push(0);
    assert_eq!(VM::new(chunk).run().err(), Some(VMError::MissingConstant(5)));
}

#[test]
fn more_machine_faults() {
    let r = run(&[(TokenKind::Return, "return"), (TokenKind::Bang, "not"), (TokenKind::IntegerLiteralDec, "1")]);
    assert_eq!(r.err(), Some(VMError::UnaryTypeMismatch(OpCode::Not, Tag::Integer)));
    let r = run(&[(TokenKind::Return, "return"), (TokenKind::IntegerLiteralDec, "1"), (TokenKind::And, "and"), (TokenKind::BooleanLiteral, "True")]);
    assert_eq!(r.err(), Some(VMError::TypeMismatch(OpCode::And, Tag::Integer, Tag::Boolean)));
    let r = run(&[(TokenKind::Return, "return"), (TokenKind::StringLiteral, "a"), (TokenKind::LessThan, "<"), (TokenKind::StringLiteral, "b")]);
    assert_eq!(r.err(), Some(VMError::TypeMismatch(OpCode::Less, Tag::String, Tag::String)));
    let mut chunk = ruse::chunk::Chunk::new();
    chunk.source.push(0);
    chunk.source.push(0);
    assert_eq!(VM::new(chunk).run().err(), Some(VMError::TruncatedConstant));
    let mut chunk = ruse::chunk::Chunk::new();
    chunk.source.push(10);
    assert_eq!(VM::new(chunk).run().err(), Some(VMError::StackUnderflow(OpCode::Not)));
}

#[test]
fn integer_arithmetic_results() {
    let v = returned(run(&[(TokenKind::Return, "return"), (TokenKind::IntegerLiteralDec, "2"), (TokenKind::Minus, "-"), (TokenKind::IntegerLiteralDec, "5")]));
    assert!(matches!(v, Value::Integer(-3)));
    let v = returned(run(&[(TokenKind::Return, "return"), (TokenKind::IntegerLiteralDec, "3"), (TokenKind::Star, "*"), (TokenKind::IntegerLiteralDec, "3"), (TokenKind::BangEquals, "!="), (TokenKind::IntegerLiteralDec, "9")]));
    assert!(matches!(v, Value::Boolean(false)));
    let v = returned(run(&[(TokenKind::Return, "return"), (TokenKind::BooleanLiteral, "False"), (TokenKind::Or, "or"), (TokenKind::IntegerLiteralDec, "1"), (TokenKind::LessThanEquals, "<="), (TokenKind::IntegerLiteralDec, "1")]));
    assert!(matches!(v, Value::Boolean(true)));
    let too_large = compile(&[(TokenKind::Return, "return"), (TokenKind::IntegerLiteralDec, "18446744073709551615")]);
    assert_eq!(too_large.err(), Some(CompileError::IntegerTooLarge(u64::MAX)));
    let v = returned(run(&[(TokenKind::Return, "return"), (TokenKind::IntegerLiteralDec, "9223372036854775807")]));
    assert!(matches!(v, Value::Integer(i64::MAX)));
}

#[test]
fn more_compile_errors() {
    let mut compiler = Compiler::new();
    let leaf = NodeKind::IntegerLiteral(1).make(Span { filename: "t", start: 0, end: 1 });
    assert_eq!(compiler.compile_program(&leaf), Err(CompileError::NotABlock));
    let inner = NodeKind::Block(Vec::new()).make(Span { filename: "t", start: 0, end: 0 });
    let outer = NodeKind::Block(vec![inner]).make(Span { filename: "t", start: 0, end: 0 });
    assert_eq!(compiler.compile_program(&outer), Err(CompileError::NestedBlock));
    let a = NodeKind::BooleanLiteral(true).make(Span { filename: "t", start: 0, end: 1 });
    let b = NodeKind::BooleanLiteral(true).make(Span { filename: "t", start: 0, end: 1 });
    let not = NodeKind::BinaryOperation(Operator::Not, Box::new(a), Box::new(b)).make(Span { filename: "t", start: 0, end: 1 });
    assert_eq!(Compiler::new().compile(&not), Err(CompileError::BinaryOperator(Operator::Not)));
}

#[test]
fn constant_pool_is_bounded() {
    let mut chunk = ruse::chunk::Chunk::new();
    for i in 0..ruse::chunk::MAX_CONSTANTS {
        assert!(chunk.write_const(Value::Integer(i as i64)));
    }
    assert!(!chunk.write_const(Value::Integer(0)));
    assert_eq!(chunk.constants.len(), ruse::chunk::MAX_CONSTANTS);
    let mut compiler = Compiler { chunk };
    let leaf = NodeKind::IntegerLiteral(1).make(Span { filename: "t", start: 0, end: 1 });
    assert_eq!(compiler.compile(&leaf), Err(CompileError::TooManyConstants));
}

#[test]
fn constant_indices_are_little_endian() {
    let mut chunk = ruse::chunk::Chunk::new();
    for i in 0..300 {
        assert!(chunk.write_const(Value::Integer(i)));
    }
    let n = chunk.source.len();
    assert_eq!(&chunk.source[n - 3..], &[0, 43, 1]);
}

#[test]
fn unexpected_token_in_expression() {
    let (node, reports) = parse(&[(TokenKind::Star, "*"), (TokenKind::Semicolon, ";"), (TokenKind::IntegerLiteralDec, "5")]);
    assert_eq!(reports.len(), 1);
    assert_eq!(reports[0].title, "UnexpectedToken Star");
    assert_eq!(statements(&node).len(), 1);
}

#[test]
fn missing_close_paren_is_reported() {
    let (_, reports) = parse(&[(TokenKind::LeftParen, "("), (TokenKind::IntegerLiteralDec, "1"), (TokenKind::Semicolon, ";")]);
    assert_eq!(reports.len(), 1);
    assert_eq!(reports[0].title, "UnexpectedToken Semicolon");
    assert_eq!(reports[0].labels[0].message.as_deref(), Some("Expected RightParen"));
}

#[test]
fn block_span_covers_the_program() {
    let (node, _) = parse(&[(TokenKind::IntegerLiteralDec, "1"), (TokenKind::Semicolon, ";"), (TokenKind::IntegerLiteralDec, "22")]);
    assert_eq!(node.span.start, 0);
    assert_eq!(node.span.end, 7);
}

#[test]
fn statement_after_a_broken_one_on_the_same_line_is_kept() {
    let (node, reports) = parse(&[
        (TokenKind::Let, "let"), (TokenKind::Identifier, "x"), (TokenKind::Equals, "="), (TokenKind::Semicolon, ";"),
        (TokenKind::Return, "return"), (TokenKind::IntegerLiteralDec, "1"), (TokenKind::Semicolon, ";"),
    ]);
    assert_eq!(reports.len(), 1);
    assert_eq!(reports[0].title, "UnexpectedToken Semicolon");
    let stmts = statements(&node);
    assert_eq!(stmts.len(), 1);
    assert_eq!(shape(&stmts[0]), "(return 1)");
}

#[test]
fn stray_separator_is_one_report() {
    let (node, reports) = parse(&[(TokenKind::Semicolon, ";"), (TokenKind::IntegerLiteralDec, "1")]);
    assert_eq!(reports.len(), 1);
    assert_eq!(statements(&node).len(), 1);
}

#[test]
fn boolean_literals_in_either_case() {
    let e = only_expression(&[(TokenKind::BooleanLiteral, "true"), (TokenKind::Or, "or"), (TokenKind::BooleanLiteral, "True")]);
    assert_eq!(shape(&e), "(Or true true)");
    let e = only_expression(&[(TokenKind::BooleanLiteral, "false")]);
    assert_eq!(shape(&e), "false");
}

#[test]
fn end_to_end_lowercase_boolean_mismatch() {
    let r = run(&[(TokenKind::Return, "return"), (TokenKind::IntegerLiteralDec, "1"), (TokenKind::Plus, "+"), (TokenKind::BooleanLiteral, "true"), (TokenKind::Semicolon, ";")]);
    assert_eq!(r.err(), Some(VMError::TypeMismatch(OpCode::Add, Tag::Integer, Tag::Boolean)));
}

#[test]
fn bad_character_in_unicode_escape_is_shown_escaped() {
    let r = unescape("\\u1\n34").err().unwrap();
    assert_eq!(r.title, "SyntaxError Unexpected character '\\n' for escape code");
}

#[test]
fn expression_inside_a_stream_stops_at_the_separator() {
    let parser = Parser::new(tokens(&[
        (TokenKind::Return, "return"),
        (TokenKind::IntegerLiteralDec, "1"), (TokenKind::Star, "*"), (TokenKind::StringLiteral, "s"),
        (TokenKind::Minus, "-"), (TokenKind::BooleanLiteral, "true"), (TokenKind::Semicolon, ";"),
    ]));
    let (r, stop) = parser.parse_expression(1, 0);
    assert_eq!(shape(&r.ok().unwrap()), "(Minus (Star 1 \"s\") true)");
    assert_eq!(stop, 6);
}

#[test]
fn invalid_digit_atom_is_an_error_and_consumed() {
    let parser = Parser::new(tokens(&[(TokenKind::IntegerLiteralOct, "19")]));
    let (r, stop) = parser.parse_atom(0);
    let e = r.err().unwrap();
    assert_eq!(e.title, "SyntaxError Invalid Octal Integer literal");
    assert_eq!(e.note.as_deref(), Some("invalid digit found in string"));
    assert_eq!(stop, 1);
}
