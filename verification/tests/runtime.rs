use lox::ast::{BreakStmt, ClassStmt, Expr, FunctionStmt, GroupingExpr, Stmt, VariableExpr};
use lox::entities::{LiteralValue, Token, TokenType};
use lox::environment::{Environment, Environments};
use lox::errors::LoxResult;
use lox::interpreter::{CallPlan, Interpreter};
use lox::lox_class::{Classes, LoxClass};
use lox::lox_function::{Functions, LoxFunction};
use lox::lox_instance::{Instances, LoxInstance, Property};
use lox::parser::Parser;
use lox::scanner::Scanner;

fn ident(name: &str) -> Token {
    Token::new(TokenType::IDENTIFIER, name.to_string(), None, 1)
}

fn num(s: &str) -> LiteralValue {
    LiteralValue::Num(s.to_string())
}

fn is_num(v: &LiteralValue, s: &str) -> bool {
    matches!(v, LiteralValue::Num(t) if t == s)
}

fn parse(src: &str) -> Vec<Stmt> {
    let mut scanner = Scanner::new(src.to_string());
    let toks: Vec<Token> = scanner.scan().expect("scans").iter().map(|t| t.dup()).collect();
    let mut parser = Parser::new(&toks);
    parser.parse().expect("parses")
}

fn function_stmt(src: &str) -> FunctionStmt {
    match parse(src).remove(0) {
        Stmt::Function(f) => f,
        other => panic!("{:?}", other),
    }
}

fn class_stmt(src: &str) -> ClassStmt {
    match parse(src).remove(0) {
        Stmt::Class(c) => c,
        other => panic!("{:?}", other),
    }
}

#[test]
fn scope_define_and_lookup() {
    let mut e = Environment::new();
    assert!(e.lookup("a").is_none());
    e.define("a", num("1"));
    e.define("b", num("2"));
    e.define("a", num("3"));
    assert!(is_num(&e.lookup("a").unwrap(), "3"));
    assert!(is_num(&e.lookup("b").unwrap(), "2"));
    assert_eq!(e.enclosing(), None);
    assert_eq!(Environment::new_with_enclosing(4).enclosing(), Some(4));
}

#[test]
fn get_after_define_and_assign() {
    let mut envs = Environments::new();
    let g = envs.push(Environment::new());
    let inner = envs.push(Environment::new_with_enclosing(g));
    envs.define(g, "x", num("1"));
    assert!(is_num(&envs.get(inner, &ident("x")).unwrap(), "1"));
    envs.define(inner, "x", num("2"));
    assert!(is_num(&envs.get(inner, &ident("x")).unwrap(), "2"));
    assert!(is_num(&envs.get(g, &ident("x")).unwrap(), "1"));
    envs.assign(inner, &ident("x"), num("5")).unwrap();
    assert!(is_num(&envs.get(inner, &ident("x")).unwrap(), "5"));
    assert!(is_num(&envs.get(g, &ident("x")).unwrap(), "1"));
}

#[test]
fn undefined_variables_are_errors() {
    let mut envs = Environments::new();
    let g = envs.push(Environment::new());
    match envs.get(g, &ident("nope")) {
        Err(LoxResult::RuntimeError { message, .. }) => assert_eq!(message, "Undefined variable 'nope'."),
        other => panic!("{:?}", other),
    }
    match envs.assign(g, &ident("nope"), num("1")) {
        Err(LoxResult::RuntimeError { message, .. }) => assert_eq!(message, "Undefined variable 'nope'."),
        other => panic!("{:?}", other),
    }
    assert_eq!(envs.len(), 1);
}

#[test]
fn get_at_and_assign_at_count_scopes_outwards() {
    let mut envs = Environments::new();
    let g = envs.push(Environment::new());
    let a = envs.push(Environment::new_with_enclosing(g));
    let b = envs.push(Environment::new_with_enclosing(a));
    envs.define(g, "v", num("0"));
    envs.define(a, "v", num("1"));
    assert!(is_num(&envs.get_at(b, 1, "v").unwrap(), "1"));
    assert!(is_num(&envs.get_at(b, 2, "v").unwrap(), "0"));
    envs.assign_at(b, 2, &ident("v"), num("9")).unwrap();
    assert!(is_num(&envs.get_at(b, 2, "v").unwrap(), "9"));
    assert!(is_num(&envs.get_at(b, 1, "v").unwrap(), "1"));
    assert_eq!(envs.ancestor_of(b, 2), Some(g));
    assert_eq!(envs.ancestor_of(b, 3), None);
}

#[test]
fn function_call_scope_binds_parameters() {
    let decl = function_stmt("fun f(a, b) { return a; }");
    let mut envs = Environments::new();
    let g = envs.push(Environment::new());
    let f = LoxFunction::new(decl, g, false);
    assert_eq!(f.arity(), 2);
    assert_eq!(f.name().as_string(), "f");
    assert_eq!(f.body().len(), 1);
    assert!(!f.is_initializer());
    let scope = f.call_scope(&mut envs, &vec![num("1"), num("2")]);
    assert_eq!(scope, 1);
    assert!(is_num(&envs.lookup_in(scope, "a").unwrap(), "1"));
    assert!(is_num(&envs.lookup_in(scope, "b").unwrap(), "2"));
}

#[test]
fn call_results() {
    assert!(matches!(LoxFunction::call_result(Ok(())), Ok(LiteralValue::Nil)));
    assert!(matches!(LoxFunction::call_result(Err(LoxResult::return_value(num("4")))), Ok(v) if is_num(&v, "4")));
    assert!(matches!(LoxFunction::call_result(Err(LoxResult::Break)), Err(LoxResult::Break)));
}

#[test]
fn class_methods_are_inherited() {
    let mut classes = Classes::new();
    let base = classes.push(LoxClass::new("A", None, vec![("m".to_string(), LiteralValue::Func(0))]));
    let derived = classes.push(LoxClass::new(
        "B",
        Some(base),
        vec![("n".to_string(), LiteralValue::Func(1)), ("n".to_string(), LiteralValue::Func(2))],
    ));
    assert!(matches!(classes.find_method(derived, "m"), Some(LiteralValue::Func(0))));
    assert!(matches!(classes.find_method(derived, "n"), Some(LiteralValue::Func(2))));
    assert!(classes.find_method(base, "n").is_none());
    assert_eq!(classes.get(derived).name(), "B");
    assert_eq!(classes.get(derived).superclass(), Some(base));
}

#[test]
fn instance_fields_shadow_methods() {
    let mut classes = Classes::new();
    let c = classes.push(LoxClass::new("C", None, vec![("m".to_string(), LiteralValue::Func(0))]));
    let mut instances = Instances::new();
    let i = instances.push(LoxInstance::new(c));
    assert!(matches!(instances.property(i, &ident("m"), &classes), Ok(Property::Method(LiteralValue::Func(0)))));
    instances.set(i, &ident("m"), num("1"));
    assert!(matches!(instances.property(i, &ident("m"), &classes), Ok(Property::Field(v)) if is_num(&v, "1")));
    match instances.property(i, &ident("zz"), &classes) {
        Err(LoxResult::RuntimeError { message, .. }) => assert_eq!(message, "Undefined property 'zz'."),
        _ => panic!("expected an error"),
    }
}

#[test]
fn binding_a_method_makes_a_scope_for_this() {
    let mut envs = Environments::new();
    let g = envs.push(Environment::new());
    let mut functions = Functions::new();
    let h = functions.push(LoxFunction::new(function_stmt("fun m() { return this; }"), g, false));
    let bound = functions.bind(h, LiteralValue::Instance(3), &mut envs);
    assert!(matches!(bound, LiteralValue::Func(1)));
    assert_eq!(functions.get(1).closure(), 1);
    assert_eq!(functions.get(1).name().as_string(), "m");
    assert!(matches!(envs.lookup_in(1, "this"), Some(LiteralValue::Instance(3))));
}

#[test]
fn a_new_run_binds_clock() {
    let it = Interpreter::new();
    assert!(matches!(it.look_up_variable(&ident("clock"), 0), Ok(LiteralValue::Native(0))));
    assert_eq!(it.environment(), 0);
    assert_eq!(it.scopes().len(), 1);
}

#[test]
fn variables_defined_in_blocks_and_resolved() {
    let mut it = Interpreter::new();
    it.define("a", num("1"));
    let block = it.new_block_scope();
    let previous = it.enter_scope(block);
    it.define("a", num("2"));
    // expression 10 was resolved to the innermost scope, 11 was not resolved
    it.resolve(10, 0);
    assert!(is_num(&it.look_up_variable(&ident("a"), 10).unwrap(), "2"));
    assert!(is_num(&it.look_up_variable(&ident("a"), 11).unwrap(), "1"));
    assert!(is_num(&it.assign_variable(&ident("a"), 10, num("3")).unwrap(), "3"));
    assert!(is_num(&it.look_up_variable(&ident("a"), 10).unwrap(), "3"));
    it.leave_scope(previous);
    assert_eq!(it.environment(), 0);
    assert!(is_num(&it.look_up_variable(&ident("a"), 11).unwrap(), "1"));
    assert!(it.assign_variable(&ident("b"), 11, num("1")).is_err());
    assert_eq!(it.depth(10), Some(0));
    assert_eq!(it.depth(11), None);
}

#[test]
fn calling_a_function_checks_arity_and_makes_its_scope() {
    let mut it = Interpreter::new();
    it.declare_function(&function_stmt("fun f(a) { return a; }"));
    let f = it.look_up_variable(&ident("f"), 0).unwrap();
    assert!(matches!(f, LiteralValue::Func(0)));
    let paren = Token::new(TokenType::RIGHT_PAREN, ")".to_string(), None, 2);
    match it.call(&f, &vec![], &paren) {
        Err(LoxResult::RuntimeError { message, token }) => {
            assert_eq!(message, "Expected 1 arguments but got 0.");
            assert_eq!(token.line, 2);
        }
        _ => panic!("expected an arity error"),
    }
    match it.call(&f, &vec![num("8")], &paren) {
        Ok(CallPlan::Function { function, scope }) => {
            assert_eq!(function, 0);
            assert_eq!(scope, 1);
            assert!(is_num(&it.scopes().lookup_in(scope, "a").unwrap(), "8"));
        }
        _ => panic!("expected a function call"),
    }
    match it.call(&num("1"), &vec![], &paren) {
        Err(LoxResult::RuntimeError { message, .. }) => assert_eq!(message, "Can only call functions and classes"),
        _ => panic!("expected an error"),
    }
    let clock = it.look_up_variable(&ident("clock"), 0).unwrap();
    assert!(matches!(it.call(&clock, &vec![], &paren), Ok(CallPlan::Value(LiteralValue::Num(_)))));
    assert!(it.call(&clock, &vec![num("1")], &paren).is_err());
}

#[test]
fn classes_instances_and_initializers() {
    let mut it = Interpreter::new();
    it.declare_class(&class_stmt("class P { init(x) { this.x = x; } get() { return this.x; } }"), None)
        .unwrap();
    let p = it.look_up_variable(&ident("P"), 0).unwrap();
    assert!(matches!(p, LiteralValue::Class(0)));
    assert_eq!(it.classes().get(0).name(), "P");
    assert_eq!(it.functions().len(), 2);
    assert!(it.functions().get(0).is_initializer());
    assert!(!it.functions().get(1).is_initializer());
    let paren = Token::new(TokenType::RIGHT_PAREN, ")".to_string(), None, 1);
    match it.call(&p, &vec![], &paren) {
        Err(LoxResult::RuntimeError { message, .. }) => assert_eq!(message, "Expected 1 arguments but got 0."),
        _ => panic!("expected an arity error"),
    }
    let (instance, init) = match it.call(&p, &vec![num("5")], &paren) {
        Ok(CallPlan::Instance { instance, init }) => (instance, init),
        _ => panic!("expected an instance"),
    };
    assert!(matches!(instance, LiteralValue::Instance(0)));
    let (init_fn, init_scope) = init.unwrap();
    assert!(is_num(&it.scopes().lookup_in(init_scope, "x").unwrap(), "5"));
    assert!(matches!(it.scopes().get_at(init_scope, 1, "this"), Ok(LiteralValue::Instance(0))));
    assert!(it.functions().get(init_fn).is_initializer());
    let target = it.set_target(&instance, &ident("x")).unwrap();
    assert!(is_num(&it.set_field(target, &ident("x"), num("5")), "5"));
    assert!(matches!(it.get_property(&instance, &ident("x")), Ok(v) if is_num(&v, "5")));
    assert!(matches!(it.get_property(&instance, &ident("get")), Ok(LiteralValue::Func(_))));
    match it.get_property(&num("1"), &ident("x")) {
        Err(LoxResult::RuntimeError { message, .. }) => assert_eq!(message, "Only instances have properties."),
        _ => panic!("expected an error"),
    }
    match it.set_target(&num("1"), &ident("x")) {
        Err(LoxResult::RuntimeError { message, .. }) => assert_eq!(message, "Only instances have fields."),
        _ => panic!("expected an error"),
    }
}

#[test]
fn superclass_must_be_a_class() {
    let mut it = Interpreter::new();
    let stmt = class_stmt("class B < A {}");
    match it.declare_class(&stmt, Some(num("1"))) {
        Err(LoxResult::RuntimeError { token, message }) => {
            assert_eq!(token.as_string(), "A");
            assert_eq!(message, "Superclass must be a class");
        }
        other => panic!("{:?}", other),
    }
    assert!(it.look_up_variable(&ident("B"), 0).is_err());
}

#[test]
fn super_finds_the_superclass_method_bound_to_this() {
    let mut it = Interpreter::new();
    it.declare_class(&class_stmt("class A { m() { return 1; } }"), None).unwrap();
    let a = it.look_up_variable(&ident("A"), 0).unwrap();
    it.declare_class(&class_stmt("class B < A { m() { return super.m(); } }"), Some(a)).unwrap();
    let b = it.look_up_variable(&ident("B"), 0).unwrap();
    assert!(matches!(b, LiteralValue::Class(1)));
    assert_eq!(it.classes().get(1).superclass(), Some(0));
    let paren = Token::new(TokenType::RIGHT_PAREN, ")".to_string(), None, 1);
    let instance = match it.call(&b, &vec![], &paren) {
        Ok(CallPlan::Instance { instance, init: None }) => instance,
        _ => panic!("expected an instance"),
    };
    // calling B's m: bind it, then run its body in a call scope
    let m = it.get_property(&instance, &ident("m")).unwrap();
    let scope = match it.call(&m, &vec![], &paren) {
        Ok(CallPlan::Function { scope, .. }) => scope,
        _ => panic!("expected a function call"),
    };
    let previous = it.enter_scope(scope);
    // `super` is two scopes out from the call scope, `this` one
    it.resolve(77, 2);
    assert!(it.can_find_super(77));
    assert!(matches!(it.super_method(77, &ident("m")), Ok(LiteralValue::Func(_))));
    match it.super_method(77, &ident("missing")) {
        Err(LoxResult::RuntimeError { message, .. }) => assert_eq!(message, "Undefined property 'missing'."),
        _ => panic!("expected an error"),
    }
    it.leave_scope(previous);
    assert!(!it.can_find_super(78));
}

#[test]
fn holds_checks_handles() {
    let it = Interpreter::new();
    assert!(it.holds(&LiteralValue::Native(0)));
    assert!(!it.holds(&LiteralValue::Native(1)));
    assert!(!it.holds(&LiteralValue::Func(0)));
    assert!(it.holds(&num("1")));
}

#[test]
fn expressions_copy_exactly() {
    let stmts = parse("print (1 + x) * -2;");
    let copy = stmts[0].dup();
    assert_eq!(format!("{:?}", copy), format!("{:?}", stmts[0]));
    let e = Expr::Variable(VariableExpr { name: ident("v") });
    assert_eq!(format!("{:?}", e.dup()), format!("{:?}", e));
}

#[test]
fn values_are_shown_as_print_shows_them() {
    let mut it = Interpreter::new();
    assert_eq!(it.stringify(&LiteralValue::Str("hi".to_string())), "hi");
    assert_eq!(it.stringify(&LiteralValue::Nil), "nil");
    assert_eq!(it.stringify(&LiteralValue::Bool(true)), "true");
    assert_eq!(it.stringify(&LiteralValue::Native(0)), "<native fn>");
    it.declare_class(&class_stmt("class Pair { first() {} second() {} }"), None).unwrap();
    it.declare_class(&class_stmt("class Empty {}"), None).unwrap();
    assert_eq!(it.stringify(&LiteralValue::Class(0)), "<Class Pair { first, second }>");
    assert_eq!(it.stringify(&LiteralValue::Class(1)), "<Class Empty {  }>");
    assert_eq!(it.stringify(&LiteralValue::Func(1)), "second");
    let paren = Token::new(TokenType::RIGHT_PAREN, ")".to_string(), None, 1);
    let instance = match it.call(&LiteralValue::Class(0), &vec![], &paren) {
        Ok(CallPlan::Instance { instance, .. }) => instance,
        _ => panic!("expected an instance"),
    };
    assert_eq!(it.stringify(&instance), "<Instance of <Class Pair { first, second }> instance");
}

#[test]
fn setting_a_field_leaves_the_others() {
    let mut classes = Classes::new();
    let c = classes.push(LoxClass::new("C", None, vec![]));
    let mut instances = Instances::new();
    let i = instances.push(LoxInstance::new(c));
    instances.set(i, &ident("a"), num("1"));
    instances.set(i, &ident("b"), num("2"));
    instances.set(i, &ident("a"), num("3"));
    assert!(matches!(instances.property(i, &ident("b"), &classes), Ok(Property::Field(v)) if is_num(&v, "2")));
    assert!(matches!(instances.property(i, &ident("a"), &classes), Ok(Property::Field(v)) if is_num(&v, "3")));
    assert_eq!(instances.instance(i).klass(), c);
}

#[test]
fn rebinding_a_name_keeps_one_binding() {
    let mut e = Environment::new();
    e.define("a", num("1"));
    e.define("b", num("2"));
    e.define("a", num("3"));
    assert_eq!(e.names(), vec!["a".to_string(), "b".to_string()]);
    let class = LoxClass::new("K", None, vec![("m".to_string(), LiteralValue::Func(0)), ("m".to_string(), LiteralValue::Func(1))]);
    assert_eq!(class.method_names(), vec!["m".to_string()]);
}

#[test]
fn superclass_error_comes_before_the_methods_are_looked_at() {
    let mut it = Interpreter::new();
    let stmt = ClassStmt {
        name: ident("B"),
        superclass: Some(Expr::Variable(VariableExpr { name: ident("A") })),
        methods: vec![Stmt::Break(BreakStmt { token: Token::new(TokenType::Break, "break".to_string(), None, 1) })],
    };
    match it.declare_class(&stmt, Some(num("1"))) {
        Err(LoxResult::RuntimeError { token, message }) => {
            assert_eq!(token.as_string(), "A");
            assert_eq!(message, "Superclass must be a class");
        }
        other => panic!("{:?}", other),
    }
    assert!(it.look_up_variable(&ident("B"), 0).is_err());
}

#[test]
fn any_superclass_expression_that_gives_a_class_is_accepted() {
    let mut it = Interpreter::new();
    it.declare_class(&class_stmt("class A { m() {} }"), None).unwrap();
    let stmt = ClassStmt {
        name: ident("B"),
        superclass: Some(Expr::Grouping(GroupingExpr {
            expression: Box::new(Expr::Variable(VariableExpr { name: ident("A") })),
        })),
        methods: vec![],
    };
    it.declare_class(&stmt, Some(LiteralValue::Class(0))).unwrap();
    assert!(matches!(it.look_up_variable(&ident("B"), 0), Ok(LiteralValue::Class(1))));
    assert_eq!(it.classes().get(1).superclass(), Some(0));
    assert!(matches!(it.classes().find_method(1, "m"), Some(LiteralValue::Func(0))));
}
