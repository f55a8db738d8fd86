use lox::ast::{Expr, Stmt};
use lox::ast_printer::{AstPrinter, Piece, Walker};
use lox::entities::{LiteralValue, Token, TokenType};
use lox::errors::LoxResult;
use lox::lox::front_end;
use lox::parser::Parser;
use lox::scanner::Scanner;

/// Writes printed pieces, each number as the `Debug` text of its float.
fn render(pieces: Vec<Piece>) -> String {
    pieces
        .into_iter()
        .map(|p| match p {
            Piece::Text(t) => t,
            Piece::Number(n) => format!("{:?}", n.parse::<f64>().unwrap()),
        })
        .collect()
}

fn tokens(src: &str) -> Vec<Token> {
    let mut scanner = Scanner::new(src.to_string());
    let toks = scanner.scan().expect("scans");
    toks.iter().map(|t| t.dup()).collect()
}

fn parse(src: &str) -> (Result<Vec<Stmt>, LoxResult>, Vec<LoxResult>) {
    let toks = tokens(src);
    let mut parser = Parser::new(&toks);
    let r = parser.parse();
    let reports = parser.reports().iter().map(|r| r.dup()).collect();
    (r, reports)
}

fn expression_text(src: &str) -> String {
    let (r, reports) = parse(src);
    assert!(reports.is_empty(), "{:?}", reports);
    let stmts = r.unwrap();
    assert_eq!(stmts.len(), 1);
    match &stmts[0] {
        Stmt::Expression(e) => render(AstPrinter::walk(&e.expression)),
        other => panic!("not an expression statement: {:?}", other),
    }
}

#[test]
fn precedence_of_factor_over_term() {
    assert_eq!(expression_text("1 + 2 * 3;"), "(+ Num(1.0) (* Num(2.0) Num(3.0)))");
}

#[test]
fn terms_associate_to_the_left() {
    assert_eq!(expression_text("1 - 2 - 3;"), "(- (- Num(1.0) Num(2.0)) Num(3.0))");
}

#[test]
fn grouping_overrides_precedence() {
    assert_eq!(expression_text("(1 + 2) * 3;"), "(* ((+ Num(1.0) Num(2.0))) Num(3.0))");
}

#[test]
fn comparison_and_equality() {
    assert_eq!(expression_text("1 < 2 == true;"), "(== (< Num(1.0) Num(2.0)) Bool(true))");
}

#[test]
fn unary_operators_nest() {
    assert_eq!(expression_text("!!false;"), "(!((!(Bool(false)))))");
    assert_eq!(expression_text("-1.5;"), "(-(Num(1.5)))");
}

#[test]
fn literals_print_by_kind() {
    assert_eq!(expression_text("nil;"), "Nil");
    assert_eq!(expression_text("\"hi\";"), "Str(\"hi\")");
}

#[test]
fn assignment_is_right_associative() {
    assert_eq!(expression_text("a = b = 1;"), "(= a (= b Num(1.0)))");
}

#[test]
fn logical_operators_make_logical_expressions() {
    let (r, _) = parse("a or b and c;");
    let stmts = r.unwrap();
    match &stmts[0] {
        Stmt::Expression(e) => match &e.expression {
            Expr::Logical(l) => {
                assert_eq!(l.operator.token_type, TokenType::OR);
                assert!(matches!(*l.right, Expr::Logical(ref inner) if inner.operator.token_type == TokenType::AND));
            }
            other => panic!("{:?}", other),
        },
        other => panic!("{:?}", other),
    }
}

#[test]
fn calls_and_property_access() {
    let (r, _) = parse("f(1, 2).x;");
    let stmts = r.unwrap();
    match &stmts[0] {
        Stmt::Expression(e) => match &e.expression {
            Expr::Get(g) => {
                assert_eq!(g.name.as_string(), "x");
                match &*g.literalvalue {
                    Expr::Call(c) => assert_eq!(c.arguments.len(), 2),
                    other => panic!("{:?}", other),
                }
            }
            other => panic!("{:?}", other),
        },
        other => panic!("{:?}", other),
    }
}

#[test]
fn var_declaration_with_and_without_initializer() {
    let (r, _) = parse("var a = 1; var b;");
    let stmts = r.unwrap();
    assert_eq!(stmts.len(), 2);
    match &stmts[0] {
        Stmt::Var(v) => {
            assert_eq!(v.name.as_string(), "a");
            assert!(v.initializer.is_some());
        }
        other => panic!("{:?}", other),
    }
    match &stmts[1] {
        Stmt::Var(v) => assert!(v.initializer.is_none()),
        other => panic!("{:?}", other),
    }
}

#[test]
fn for_loop_is_desugared_into_a_while_loop() {
    let (r, reports) = parse("for (var i = 0; i < 3; i = i + 1) print i;");
    assert!(reports.is_empty());
    let stmts = r.unwrap();
    assert_eq!(stmts.len(), 1);
    match &stmts[0] {
        Stmt::Block(b) => {
            assert_eq!(b.statements.len(), 2);
            assert!(matches!(b.statements[0], Stmt::Var(_)));
            match &b.statements[1] {
                Stmt::While(w) => {
                    // variables print as nothing
                    assert_eq!(render(AstPrinter::walk(&w.condition)), "(<  Num(3.0))");
                    match &*w.body {
                        Stmt::Block(body) => {
                            assert_eq!(body.statements.len(), 2);
                            assert!(matches!(body.statements[0], Stmt::Print(_)));
                            assert!(matches!(body.statements[1], Stmt::Expression(_)));
                        }
                        other => panic!("{:?}", other),
                    }
                }
                other => panic!("{:?}", other),
            }
        }
        other => panic!("{:?}", other),
    }
}

#[test]
fn for_loop_without_clauses_loops_on_true() {
    let (r, _) = parse("for (;;) break;");
    let stmts = r.unwrap();
    match &stmts[0] {
        Stmt::While(w) => {
            assert_eq!(render(AstPrinter::walk(&w.condition)), "Bool(true)");
            assert!(matches!(*w.body, Stmt::Break(_)));
        }
        other => panic!("{:?}", other),
    }
}

#[test]
fn if_else_and_blocks() {
    let (r, _) = parse("if (x) { print 1; } else print 2;");
    let stmts = r.unwrap();
    match &stmts[0] {
        Stmt::If(i) => {
            assert!(matches!(*i.then_branch, Stmt::Block(_)));
            assert!(matches!(i.else_branch.as_deref(), Some(Stmt::Print(_))));
        }
        other => panic!("{:?}", other),
    }
}

#[test]
fn function_and_class_declarations() {
    let (r, reports) = parse("fun add(a, b) { return a + b; } class B < A { init(x) { this.x = x; } }");
    assert!(reports.is_empty(), "{:?}", reports);
    let stmts = r.unwrap();
    match &stmts[0] {
        Stmt::Function(f) => {
            assert_eq!(f.name.as_string(), "add");
            assert_eq!(f.params.len(), 2);
            assert!(matches!(f.body[0], Stmt::Return(_)));
        }
        other => panic!("{:?}", other),
    }
    match &stmts[1] {
        Stmt::Class(c) => {
            assert_eq!(c.name.as_string(), "B");
            assert!(matches!(c.superclass, Some(Expr::Variable(ref v)) if v.name.as_string() == "A"));
            assert_eq!(c.methods.len(), 1);
            assert!(matches!(c.methods[0], Stmt::Function(ref m) if m.name.as_string() == "init"));
        }
        other => panic!("{:?}", other),
    }
}

#[test]
fn missing_semicolon_is_reported_and_parse_fails() {
    let (r, reports) = parse("print 1");
    assert!(matches!(r, Err(LoxResult::Fail)));
    assert_eq!(reports.len(), 1);
    match &reports[0] {
        LoxResult::ParseError { token, message } => {
            assert_eq!(token.token_type, TokenType::EOF);
            assert_eq!(message, "Expect ';' after expression.");
        }
        other => panic!("{:?}", other),
    }
    assert_eq!(reports[0].report("").unwrap(), "1 at end Expect ';' after expression.\n");
}

#[test]
fn invalid_assignment_target_is_reported() {
    let (r, reports) = parse("1 = 2;");
    assert!(matches!(r, Err(LoxResult::Fail)));
    assert_eq!(reports.len(), 1);
    match &reports[0] {
        LoxResult::ParseError { token, message } => {
            assert_eq!(token.as_string(), "=");
            assert_eq!(message, "Invalid assignment target.");
        }
        other => panic!("{:?}", other),
    }
}

#[test]
fn parser_recovers_and_reports_every_error() {
    let (r, reports) = parse("var = 1; print ; var ok = 2;");
    assert!(matches!(r, Err(LoxResult::Fail)));
    assert_eq!(reports.len(), 2);
}

#[test]
fn missing_expression_is_reported_at_the_token() {
    let (_, reports) = parse("print );");
    match &reports[0] {
        LoxResult::ParseError { token, message } => {
            assert_eq!(token.as_string(), ")");
            assert_eq!(message, "Expect expression.");
        }
        other => panic!("{:?}", other),
    }
    assert_eq!(reports[0].report("").unwrap(), "1 at ')' Expect expression.\n");
}

#[test]
fn front_end_scans_then_parses() {
    let fe = front_end("print 1 + 2;".to_string());
    let stmts = fe.result.unwrap();
    assert!(fe.reports.is_empty());
    match &stmts[0] {
        Stmt::Print(p) => assert_eq!(render(AstPrinter::walk(&p.expression)), "(+ Num(1.0) Num(2.0))"),
        other => panic!("{:?}", other),
    }
}

#[test]
fn front_end_stops_at_a_failed_scan() {
    let fe = front_end("print \"abc".to_string());
    assert!(matches!(fe.result, Err(LoxResult::Error { .. })));
    assert_eq!(fe.reports.len(), 1);
}

#[test]
fn front_end_collects_scan_and_parse_errors() {
    let fe = front_end("print 1 @".to_string());
    assert!(matches!(fe.result, Err(LoxResult::Fail)));
    assert_eq!(fe.reports.len(), 2);
    assert!(matches!(fe.reports[0], LoxResult::Error { .. }));
    assert!(matches!(fe.reports[1], LoxResult::ParseError { .. }));
}

#[test]
fn printer_shows_literal_values() {
    assert_eq!(render(AstPrinter::literal(&LiteralValue::Bool(false))), "Bool(false)");
    assert_eq!(render(AstPrinter::literal(&LiteralValue::Func(12))), "Func(12)");
    assert_eq!(render(AstPrinter::literal(&LiteralValue::Str("a\"b".to_string()))), "Str(\"a\\\"b\")");
    assert_eq!(render(AstPrinter::literal(&LiteralValue::Nil)), "Nil");
}

#[test]
fn numbers_print_as_floats() {
    assert_eq!(expression_text("-1 * (2);"), "(* (-(Num(1.0))) (Num(2.0)))");
    let pieces = AstPrinter::literal(&LiteralValue::Num("1".to_string()));
    assert!(matches!(&pieces[1], Piece::Number(n) if n == "1"));
    assert_eq!(render(pieces), "Num(1.0)");
}
