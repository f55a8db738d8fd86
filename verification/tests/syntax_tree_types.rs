use lox::ast_source::{ast_source, is_describable};
use lox::generate_ast::{define_ast, generate_ast, is_whitespace, to_ascii_lowercase, tree_type};

#[test]
fn a_description_line_becomes_a_node_kind() {
    let t = tree_type("Expr", "Binary   : Rc<Expr> left, Token operator, Rc<Expr> right");
    assert_eq!(t.base_class_name, "Binary");
    assert_eq!(t.class_name, "BinaryExpr");
    assert_eq!(t.fields, vec!["Rc<Expr> left", "Token operator", "Rc<Expr> right"]);
}

#[test]
fn a_line_with_one_field() {
    let t = tree_type("Stmt", "Break      : Token token");
    assert_eq!(t.base_class_name, "Break");
    assert_eq!(t.class_name, "BreakStmt");
    assert_eq!(t.fields, vec!["Token token"]);
}

#[test]
fn empty_fields_are_kept() {
    let t = tree_type("X", " A :");
    assert_eq!(t.base_class_name, "A");
    assert_eq!(t.class_name, "AX");
    assert_eq!(t.fields, vec![""]);
}

#[test]
fn lowercase_is_ascii_only() {
    assert_eq!(to_ascii_lowercase("Expr"), "expr");
    assert_eq!(to_ascii_lowercase("ÄbC1"), "Äbc1");
}

#[test]
fn whitespace_is_unicode_white_space() {
    assert!(is_whitespace(' '));
    assert!(is_whitespace('\n'));
    assert!(is_whitespace('\u{a0}'));
    assert!(is_whitespace('\u{3000}'));
    assert!(!is_whitespace('x'));
    assert!(!is_whitespace('\u{200b}'));
}

#[test]
fn define_ast_names_the_file_after_the_base_name() {
    let d = define_ast("out", "Stmt", &["error"], &["Print : Rc<Expr> expression", "Var : Token name, Option<Rc<Expr>> initializer"]);
    assert_eq!(d.path, "out/stmt");
    assert_eq!(d.tree_types.len(), 2);
    assert_eq!(d.tree_types[1].class_name, "VarStmt");
    assert_eq!(d.tree_types[1].fields, vec!["Token name", "Option<Rc<Expr>> initializer"]);
}

#[test]
fn generate_ast_describes_expressions_and_statements() {
    let defs = generate_ast("src");
    assert_eq!(defs.len(), 2);
    assert_eq!(defs[0].path, "src/expr");
    assert_eq!(defs[1].path, "src/stmt");
    assert_eq!(defs[0].tree_types.len(), 12);
    assert_eq!(defs[1].tree_types.len(), 10);
    assert_eq!(defs[0].tree_types[0].class_name, "AssignExpr");
    assert_eq!(defs[0].tree_types[11].base_class_name, "Variable");
    assert_eq!(
        defs[1].tree_types[5].fields,
        vec!["Rc<Expr> condition", "Rc<Stmt> then_branch", "Option<Rc<Stmt>> else_branch"]
    );
}

#[test]
fn ast_source_writes_enum_structs_visitor_and_accept() {
    let s = ast_source("out", "Expr", &["Binary : Box<Expr> left, Token operator", "Literal : Object value"]);
    assert_eq!(s.path, "out/expr.rs");
    assert_eq!(
        s.splitting,
        vec!["splitting ' Box<Expr> left", "splitting ' Token operator", "splitting ' Object value"]
    );
    let expected = "use crate::error::*;\nuse crate::entities::*;\n\npub enum Expr {\n    Binary(BinaryExpr.\n    Literal(LiteralExpr.\n}\npub struct BinaryExpr {\n    left: Box<Expr>,\n    operator: Token,\n}\n\npub struct LiteralExpr {\n    value: Object,\n}\n\npub trait ExprVisitor<T> {\n    fn visit_binary_binaryexpr(&self, expr: &binaryexpr)-> Result<T, Error);\n    fn visit_literal_literalexpr(&self, expr: &literalexpr)-> Result<T, Error);\n}\n\nimpl BinaryExpr {\n    fn accept<T>(&self,visitor:: &dyn ExprVisitor<T>) -> Result<T, LoxError> {\n    visitor.visit_binary_expr(self)\n    }\n}\n}\n\nimpl LiteralExpr {\n    fn accept<T>(&self,visitor:: &dyn ExprVisitor<T>) -> Result<T, LoxError> {\n    visitor.visit_literal_expr(self)\n    }\n}\n";
    assert_eq!(s.text, expected);
}

#[test]
fn describable_descriptions() {
    assert!(is_describable(&["A : T a, U b"]));
    assert!(!is_describable(&["A T a"]));
    assert!(!is_describable(&["A : T a, b"]));
    assert!(is_describable(&[]));
}

#[test]
fn ast_source_lowercases_by_unicode() {
    let s = ast_source("d", "ÄSt", &["Ö : T x"]);
    assert_eq!(s.path, "d/äst.rs");
    assert!(s.text.contains("fn visit_ö_öäst(&self, expr: &öäst)"));
}
