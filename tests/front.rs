use ruse::args::{ArgErrorKind, Args, Command, Exit};
use ruse::ast::{Node, NodeKind, Operator};
use ruse::literal::IntError;
use ruse::pretty::{decimal_string, render, Indent};
use ruse::report::{exit_status, ExitStatus, ReportFilter, ReportLevel};
use ruse::span::Span;
use ruse::token::TokenKind;
use ruse::types::Type;

fn strings(items: &[&str]) -> Vec<String> {
    items.iter().map(|s| s.to_string()).collect()
}

fn run_args(items: &[&str]) -> Args {
    match Args::parse(strings(items)) {
        Ok(Command::Run(a)) => a,
        _ => panic!("the command line did not ask to run"),
    }
}

#[test]
fn defaults_without_arguments() {
    let a = run_args(&[]);
    assert_eq!(a.input(), None);
    assert!(!a.debug());
    assert_eq!(a.report_level(), ReportLevel::Warn);
    assert!(!a.compact());
    assert!(a.context());
    assert_eq!(a.max_reports(), usize::MAX);
}

#[test]
fn options_and_input() {
    let a = run_args(&["-dc", "-l", "advice", "--disable-context", "--max-reports", "3", "main.rs"]);
    assert!(a.debug());
    assert!(a.compact());
    assert_eq!(a.report_level(), ReportLevel::Advice);
    assert!(!a.context());
    assert_eq!(a.max_reports(), 3);
    assert_eq!(a.input(), Some("main.rs".to_string()));
}

#[test]
fn grouped_level_takes_the_next_argument() {
    let a = run_args(&["-dl", "silent", "x"]);
    assert_eq!(a.report_level(), ReportLevel::Silent);
    assert_eq!(a.input(), Some("x".to_string()));
}

#[test]
fn exits_asked_for() {
    assert!(matches!(Args::parse(strings(&["-h"])), Ok(Command::Exit(Exit::Usage))));
    assert!(matches!(Args::parse(strings(&["--help"])), Ok(Command::Exit(Exit::Help))));
    assert!(matches!(Args::parse(strings(&["-V"])), Ok(Command::Exit(Exit::Version))));
    assert!(matches!(Args::parse(strings(&["--license"])), Ok(Command::Exit(Exit::License))));
    assert!(matches!(Args::parse(strings(&["-dh"])), Ok(Command::Exit(Exit::Usage))));
}

fn arg_error(items: &[&str]) -> (ArgErrorKind, String) {
    match Args::parse(strings(items)) {
        Err(e) => (e.kind, e.text),
        Ok(_) => panic!("the command line was accepted"),
    }
}

#[test]
fn argument_errors() {
    assert_eq!(arg_error(&["-d", "-d"]), (ArgErrorKind::Repeated, "-d".to_string()));
    assert_eq!(arg_error(&["-ld", "warn"]), (ArgErrorKind::NotAtEnd, "-l".to_string()));
    assert_eq!(arg_error(&["-l"]), (ArgErrorKind::MissingLevel, "-l".to_string()));
    assert_eq!(arg_error(&["-l", "loud"]), (ArgErrorKind::BadLevel, "loud".to_string()));
    assert_eq!(arg_error(&["--max-reports"]), (ArgErrorKind::MissingNumber, "--max-reports".to_string()));
    assert_eq!(arg_error(&["--max-reports", "x"]), (ArgErrorKind::BadNumber(IntError::InvalidDigit), "x".to_string()));
    assert_eq!(arg_error(&["-q"]), (ArgErrorKind::Unrecognized, "-q".to_string()));
    assert_eq!(arg_error(&["--quiet"]), (ArgErrorKind::Unrecognized, "--quiet".to_string()));
    assert_eq!(arg_error(&["a", "b"]), (ArgErrorKind::Unexpected, "b".to_string()));
}

#[test]
fn report_filter_counts_and_caps() {
    let mut f = ReportFilter::new(ReportLevel::Warn, 2);
    let levels = vec![ReportLevel::Error, ReportLevel::Advice, ReportLevel::Warn, ReportLevel::Error];
    let (shown, errors) = f.check_reports(&levels);
    assert_eq!(shown, vec![0, 2]);
    assert_eq!(errors, 2);
    assert_eq!(f.reported, 2);
    let (shown, errors) = f.check_reports(&vec![ReportLevel::Error]);
    assert!(shown.is_empty());
    assert_eq!(errors, 1);
    assert_eq!(exit_status(errors), ExitStatus::Yes);
    assert_eq!(exit_status(0), ExitStatus::No);
}

#[test]
fn silent_level_shows_only_silent_reports() {
    let f = ReportFilter::new(ReportLevel::Silent, 10);
    assert!(f.should_display(ReportLevel::Silent));
    assert!(!f.should_display(ReportLevel::Error));
    let f = ReportFilter::new(ReportLevel::Advice, 10);
    assert!(f.should_display(ReportLevel::Advice));
    assert!(f.should_display(ReportLevel::Error));
}

#[test]
fn types_by_name() {
    assert!(matches!(Type::try_from_str("number"), Some(Type::Number)));
    assert!(matches!(Type::try_from_str("float"), Some(Type::Float)));
    assert!(matches!(Type::try_from_str("boolean"), Some(Type::Boolean)));
    assert!(Type::try_from_str("string").is_none());
    assert!(Type::Number == Type::Number);
    assert!(Type::Number != Type::Float);
}

#[test]
fn indent_writer() {
    let mut f = Indent::new(2);
    f.write_str("a\nb\tc\nd\0\ne  f\rg");
    assert_eq!(f.finish(), "  a\n  b    c\n    d\n  e  fg");
}

#[test]
fn decimal_digits() {
    assert_eq!(decimal_string(0), "0");
    assert_eq!(decimal_string(1234567890), "1234567890");
    assert_eq!(decimal_string(u64::MAX), "18446744073709551615");
}

fn at(start: usize, end: usize) -> Span {
    Span { filename: "t", start, end }
}

#[test]
fn tree_dump() {
    let lhs = NodeKind::IntegerLiteral(1).make(at(0, 1));
    let rhs = NodeKind::StringLiteral("a\"b".to_string()).make(at(4, 10));
    let node = NodeKind::BinaryOperation(Operator::Plus, Box::new(lhs), Box::new(rhs)).make(at(0, 10));
    let out = render(&node, 0);
    assert_eq!(
        out,
        "BinaryOperation(Plus) {\n  IntegerLiteral(1)[t:0..1]\n  StringLiteral(\"a\\\"b\")[t:4..10]\n}[t:0..10]"
    );
    let block: Node = NodeKind::Block(vec![NodeKind::BooleanLiteral(true).make(at(0, 4))]).make(at(0, 4));
    assert_eq!(render(&block, 0), "Block(1 statements) {\n  BooleanLiteral(true)[t:0..4]\n}[t:0..4]");
}

#[test]
fn token_kind_names() {
    assert_eq!(TokenKind::GreaterThanEquals.name(), "GreaterThanEquals");
    assert_eq!(Operator::BangEquals.name(), "BangEquals");
    assert!(Operator::LessThanEquals.is_compound());
    assert!(!Operator::Equals.is_compound());
    assert_eq!(TokenKind::Bang.as_prefix().map(|(op, _, bp)| (op, bp)), Some((Operator::Not, 3)));
    assert_eq!(TokenKind::Star.as_infix(), Some((Operator::Star, 5, 6)));
    assert!(TokenKind::Star.as_postfix().is_none());
}
