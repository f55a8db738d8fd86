use lox::entities::{LiteralValue, NativeClock, Token, TokenType};
use lox::errors::LoxResult;
use lox::interpreter::{binary, is_truthy, short_circuits, unary, BinaryOutcome, UnaryOutcome};

fn op(t: TokenType, text: &str) -> Token {
    Token::new(t, text.to_string(), None, 7)
}

fn num(s: &str) -> LiteralValue {
    LiteralValue::Num(s.to_string())
}

fn st(s: &str) -> LiteralValue {
    LiteralValue::Str(s.to_string())
}

fn runtime_message(r: Result<BinaryOutcome, LoxResult>) -> String {
    match r {
        Err(LoxResult::RuntimeError { token, message }) => {
            assert_eq!(token.line, 7);
            message
        }
        Err(other) => panic!("{:?}", other),
        Ok(_) => panic!("expected an error"),
    }
}

fn value(r: Result<BinaryOutcome, LoxResult>) -> LiteralValue {
    match r {
        Ok(BinaryOutcome::Value(v)) => v,
        Ok(_) => panic!("expected a value"),
        Err(e) => panic!("{:?}", e),
    }
}

#[test]
fn truthiness() {
    assert!(!is_truthy(&LiteralValue::Nil));
    assert!(!is_truthy(&LiteralValue::Bool(false)));
    assert!(is_truthy(&LiteralValue::Bool(true)));
    assert!(is_truthy(&num("0")));
    assert!(is_truthy(&st("")));
    assert!(is_truthy(&LiteralValue::Func(0)));
}

#[test]
fn numbers_leave_arithmetic_to_the_caller() {
    for t in [TokenType::PLUS, TokenType::MINUS, TokenType::STAR, TokenType::SLASH, TokenType::LESS, TokenType::EQUAL_EQUAL] {
        match binary(&op(t, "?"), num("1"), num("2")) {
            Ok(BinaryOutcome::Arithmetic(k)) => assert_eq!(k, t),
            _ => panic!("expected arithmetic"),
        }
    }
}

#[test]
fn strings_concatenate_and_compare() {
    assert!(matches!(value(binary(&op(TokenType::PLUS, "+"), st("ab"), st("cd"))), LiteralValue::Str(s) if s == "abcd"));
    assert!(matches!(value(binary(&op(TokenType::EQUAL_EQUAL, "=="), st("a"), st("a"))), LiteralValue::Bool(true)));
    assert!(matches!(value(binary(&op(TokenType::BANG_EQUAL, "!="), st("a"), st("b"))), LiteralValue::Bool(true)));
    assert_eq!(runtime_message(binary(&op(TokenType::MINUS, "-"), st("a"), st("b"))), "Operands must be numbers.");
}

#[test]
fn number_and_string_join_in_order() {
    assert!(matches!(binary(&op(TokenType::PLUS, "+"), num("1"), st("x")), Ok(BinaryOutcome::Concat { number_first: true })));
    assert!(matches!(binary(&op(TokenType::PLUS, "+"), st("x"), num("1")), Ok(BinaryOutcome::Concat { number_first: false })));
    assert!(matches!(value(binary(&op(TokenType::EQUAL_EQUAL, "=="), num("1"), st("1"))), LiteralValue::Bool(false)));
    assert_eq!(runtime_message(binary(&op(TokenType::STAR, "*"), num("1"), st("x"))), "Operands must be numbers.");
}

#[test]
fn booleans_compare_only_for_equality() {
    assert!(matches!(value(binary(&op(TokenType::EQUAL_EQUAL, "=="), LiteralValue::Bool(true), LiteralValue::Bool(true))), LiteralValue::Bool(true)));
    assert!(matches!(value(binary(&op(TokenType::BANG_EQUAL, "!="), LiteralValue::Bool(true), LiteralValue::Bool(false))), LiteralValue::Bool(true)));
    assert_eq!(runtime_message(binary(&op(TokenType::PLUS, "+"), LiteralValue::Bool(true), LiteralValue::Bool(false))), "Operands must be numbers.");
}

#[test]
fn nil_equals_only_nil() {
    assert!(matches!(value(binary(&op(TokenType::EQUAL_EQUAL, "=="), LiteralValue::Nil, LiteralValue::Nil)), LiteralValue::Bool(true)));
    assert!(matches!(value(binary(&op(TokenType::EQUAL_EQUAL, "=="), LiteralValue::Nil, num("0"))), LiteralValue::Bool(false)));
    assert!(matches!(value(binary(&op(TokenType::BANG_EQUAL, "!="), num("0"), LiteralValue::Nil)), LiteralValue::Bool(true)));
    assert_eq!(
        runtime_message(binary(&op(TokenType::PLUS, "+"), LiteralValue::Nil, num("1"))),
        "Operands must be two numbers or two strings."
    );
}

#[test]
fn mixed_booleans_and_strings() {
    assert!(matches!(value(binary(&op(TokenType::BANG_EQUAL, "!="), LiteralValue::Bool(true), st("t"))), LiteralValue::Bool(true)));
    assert_eq!(
        runtime_message(binary(&op(TokenType::LESS, "<"), st("t"), LiteralValue::Bool(true))),
        "Operands must be two numbers or two strings."
    );
}

#[test]
fn functions_and_classes_are_equal_by_identity_whatever_the_operator() {
    assert!(matches!(value(binary(&op(TokenType::EQUAL_EQUAL, "=="), LiteralValue::Func(1), LiteralValue::Func(1))), LiteralValue::Bool(true)));
    assert!(matches!(value(binary(&op(TokenType::BANG_EQUAL, "!="), LiteralValue::Func(1), LiteralValue::Func(1))), LiteralValue::Bool(true)));
    assert!(matches!(value(binary(&op(TokenType::EQUAL_EQUAL, "=="), LiteralValue::Class(1), LiteralValue::Class(2))), LiteralValue::Bool(false)));
}

#[test]
fn other_mixed_operands() {
    assert!(matches!(value(binary(&op(TokenType::EQUAL_EQUAL, "=="), LiteralValue::Instance(0), num("1"))), LiteralValue::Bool(false)));
    assert_eq!(
        runtime_message(binary(&op(TokenType::PLUS, "+"), LiteralValue::Instance(0), num("1"))),
        "Operands must be two numbers or two strings."
    );
    assert_eq!(runtime_message(binary(&op(TokenType::MINUS, "-"), LiteralValue::Instance(0), num("1"))), "Operands must be numbers.");
}

#[test]
fn unary_rules() {
    assert!(matches!(unary(&op(TokenType::MINUS, "-"), &num("3")), Ok(UnaryOutcome::Negate)));
    match unary(&op(TokenType::MINUS, "-"), &st("3")) {
        Err(LoxResult::RuntimeError { message, .. }) => assert_eq!(message, "Operand must be a number."),
        _ => panic!("expected an error"),
    }
    assert!(matches!(unary(&op(TokenType::BANG, "!"), &LiteralValue::Nil), Ok(UnaryOutcome::Value(LiteralValue::Bool(true)))));
    assert!(matches!(unary(&op(TokenType::BANG, "!"), &num("0")), Ok(UnaryOutcome::Value(LiteralValue::Bool(false)))));
    match unary(&op(TokenType::PLUS, "+"), &num("3")) {
        Err(LoxResult::Error { line, message }) => {
            assert_eq!(line, 7);
            assert_eq!(message, "Unreachable according to Nystrom");
        }
        _ => panic!("expected an error"),
    }
}

#[test]
fn logical_operators_short_circuit() {
    assert!(short_circuits(&op(TokenType::OR, "or"), &LiteralValue::Bool(true)));
    assert!(!short_circuits(&op(TokenType::OR, "or"), &LiteralValue::Nil));
    assert!(short_circuits(&op(TokenType::AND, "and"), &LiteralValue::Nil));
    assert!(!short_circuits(&op(TokenType::AND, "and"), &num("1")));
}

#[test]
fn clock_values() {
    assert_eq!(NativeClock.arity(), 0);
    assert!(matches!(NativeClock::value_of(Ok(1234)), Ok(LiteralValue::Num(t)) if t == "1234"));
    match NativeClock::value_of(Err("5ms".to_string())) {
        Err(LoxResult::SystemError { message }) => assert_eq!(message, "Clock returned invalid duration: 5ms"),
        _ => panic!("expected a system error"),
    }
    assert!(matches!(NativeClock.call(), Ok(LiteralValue::Num(t)) if !t.is_empty() && t.chars().all(|c| c.is_ascii_digit())));
}

#[test]
fn report_texts() {
    let t = Token::new(TokenType::IDENTIFIER, "x".to_string(), None, 4);
    let e = LoxResult::runtime_error(&t, "Undefined variable 'x'.");
    assert_eq!(e.report("").unwrap(), "4 at 'x' Undefined variable 'x'.\n");
    let s = LoxResult::system_error("boom");
    assert_eq!(s.report("").unwrap(), "System Error: boom");
    assert!(LoxResult::Break.report("").is_none());
    let eof = Token::eof(9);
    assert_eq!(LoxResult::parse_error(&eof, "Expect expression.").report("").unwrap(), "9 at end Expect expression.\n");
}

#[test]
fn not_equal_is_the_opposite_of_equal() {
    let pairs = vec![
        (LiteralValue::Nil, LiteralValue::Nil),
        (LiteralValue::Bool(true), LiteralValue::Bool(false)),
        (st("a"), st("a")),
        (st("a"), num("1")),
        (LiteralValue::Instance(0), LiteralValue::Instance(0)),
        (LiteralValue::Nil, LiteralValue::Bool(false)),
    ];
    for (a, b) in pairs {
        let eq = value(binary(&op(TokenType::EQUAL_EQUAL, "=="), a.dup(), b.dup()));
        let ne = value(binary(&op(TokenType::BANG_EQUAL, "!="), a.dup(), b.dup()));
        let swapped = value(binary(&op(TokenType::EQUAL_EQUAL, "=="), b.dup(), a.dup()));
        match (eq, ne, swapped) {
            (LiteralValue::Bool(x), LiteralValue::Bool(y), LiteralValue::Bool(z)) => {
                assert_eq!(x, !y);
                assert_eq!(x, z);
            }
            _ => panic!("expected booleans"),
        }
    }
}
