use axiomc::lower_program::lower_with_capabilities;
use axiomc::manifest::CapabilityConfig;
use axiomc::model;
use axiomc::syntax::{Expr, Literal, Program, Stmt, TypeName, UnaryOp};
use axiomc::types::type_to_string;

fn program(stmts: Vec<Stmt>) -> Program {
    Program {
        path: String::from("main.ax"),
        consts: Vec::new(),
        structs: Vec::new(),
        enums: Vec::new(),
        type_aliases: Vec::new(),
        functions: Vec::new(),
        stmts,
    }
}

fn int_lit(value: i64) -> Expr {
    Expr::Literal(Literal::Int(value))
}

fn var(name: &str, line: usize, column: usize) -> Expr {
    Expr::VarRef { name: String::from(name), line, column }
}

fn unary(op: UnaryOp, expr: Expr, line: usize, column: usize) -> Expr {
    Expr::Unary { op, expr: Box::new(expr), line, column }
}

fn let_stmt(name: &str, ty: TypeName, expr: Expr, line: usize) -> Stmt {
    Stmt::Let { name: String::from(name), ty, expr, line, column: 1 }
}

fn print_stmt(expr: Expr, line: usize) -> Stmt {
    Stmt::Print { expr, line, column: 1 }
}

// let n: int = 1
// print *&mut n
#[test]
fn deref_of_a_mutable_borrow_gives_the_value() {
    let parsed = program(vec![
        let_stmt("n", TypeName::Int, int_lit(1), 1),
        print_stmt(unary(UnaryOp::Deref, unary(UnaryOp::MutBorrow, var("n", 2, 14), 2, 8), 2, 7), 2),
    ]);

    let lowered = lower_with_capabilities(&parsed, &CapabilityConfig::default()).expect("the deref lowers");

    match &lowered.stmts[1] {
        model::Stmt::Print { expr: model::Expr::Deref { expr, ty }, .. } => {
            assert_eq!(type_to_string(ty), "int");
            match &**expr {
                model::Expr::MutBorrow { ty, .. } => assert_eq!(type_to_string(ty), "&mut int"),
                other => panic!("expected a mutable borrow, got {other:?}"),
            }
        }
        other => panic!("expected a printed dereference, got {other:?}"),
    }
}

// print *1
#[test]
fn deref_needs_a_mutable_reference() {
    let parsed = program(vec![print_stmt(unary(UnaryOp::Deref, int_lit(1), 1, 7), 1)]);

    let error = lower_with_capabilities(&parsed, &CapabilityConfig::default()).expect_err("an int is no reference");

    assert_eq!(error.message, "dereference expects a mutable reference, got int");
    assert_eq!((error.line, error.column), (Some(1), Some(7)));
}

// print *&mut 1
#[test]
fn mutable_borrow_needs_a_named_local() {
    let parsed = program(vec![print_stmt(unary(UnaryOp::Deref, unary(UnaryOp::MutBorrow, int_lit(1), 1, 8), 1, 7), 1)]);

    let error = lower_with_capabilities(&parsed, &CapabilityConfig::default()).expect_err("a literal is no local");

    assert_eq!(error.message, "mutable local borrows currently require a named local target");
}

// print *&mut missing
#[test]
fn mutable_borrow_of_an_undefined_variable() {
    let parsed = program(vec![print_stmt(unary(UnaryOp::Deref, unary(UnaryOp::MutBorrow, var("missing", 1, 14), 1, 8), 1, 7), 1)]);

    let error = lower_with_capabilities(&parsed, &CapabilityConfig::default()).expect_err("no such variable");

    assert_eq!(error.message, "undefined variable \"missing\"");
}

// print async_ready<int>(1).await, without the async capability
#[test]
fn await_needs_the_async_capability() {
    let ready = Expr::Call { name: String::from("async_ready"), type_args: vec![TypeName::Int], args: vec![int_lit(1)], line: 1, column: 7 };
    let parsed = program(vec![print_stmt(unary(UnaryOp::Await, ready, 1, 30), 1)]);

    let error = lower_with_capabilities(&parsed, &CapabilityConfig::default()).expect_err("async is not granted");

    assert_eq!(error.message, "call to \"await\" requires [capabilities].async = true");
}

// print async_ready<int>(1).await
#[test]
fn await_gives_the_task_value() {
    let ready = Expr::Call { name: String::from("async_ready"), type_args: vec![TypeName::Int], args: vec![int_lit(1)], line: 1, column: 7 };
    let parsed = program(vec![print_stmt(unary(UnaryOp::Await, ready, 1, 30), 1)]);
    let capabilities = CapabilityConfig { async_runtime: true, ..CapabilityConfig::default() };

    let lowered = lower_with_capabilities(&parsed, &capabilities).expect("the await lowers");

    match &lowered.stmts[0] {
        model::Stmt::Print { expr: model::Expr::Await { ty, .. }, .. } => assert_eq!(type_to_string(ty), "int"),
        other => panic!("expected a printed await, got {other:?}"),
    }
}

// print 1.await
#[test]
fn await_needs_a_task() {
    let parsed = program(vec![print_stmt(unary(UnaryOp::Await, int_lit(1), 1, 9), 1)]);
    let capabilities = CapabilityConfig { async_runtime: true, ..CapabilityConfig::default() };

    let error = lower_with_capabilities(&parsed, &capabilities).expect_err("an int is no task");

    assert_eq!(error.message, "await expects a Task<T>, got int");
}

fn tuple(elements: Vec<Expr>, column: usize) -> Expr {
    Expr::TupleLiteral { elements, line: 1, column }
}

// let pair: (int, string) = (1, "a")
#[test]
fn tuple_literal_takes_its_element_types() {
    let pair = tuple(vec![int_lit(1), Expr::Literal(Literal::String(String::from("a")))], 27);
    let parsed = program(vec![let_stmt("pair", TypeName::Tuple(vec![TypeName::Int, TypeName::String]), pair, 1)]);

    let lowered = lower_with_capabilities(&parsed, &CapabilityConfig::default()).expect("the tuple lowers");

    match &lowered.stmts[0] {
        model::Stmt::Let { expr: model::Expr::TupleLiteral { elements, ty }, .. } => {
            assert_eq!(elements.len(), 2);
            assert_eq!(type_to_string(ty), "(int, string)");
        }
        other => panic!("expected a let of a tuple, got {other:?}"),
    }
}

// print (1)
#[test]
fn tuple_literal_needs_two_elements() {
    let parsed = program(vec![print_stmt(tuple(vec![int_lit(1)], 7), 1)]);

    let error = lower_with_capabilities(&parsed, &CapabilityConfig::default()).expect_err("one element");

    assert_eq!(error.message, "tuple literals require at least two elements");
    assert_eq!((error.line, error.column), (Some(1), Some(7)));
}

// let s: string = "a"
// let pair: (string, string) = (s, s)
#[test]
fn tuple_literal_moves_each_owned_element() {
    let pair = tuple(vec![var("s", 2, 32), var("s", 2, 35)], 31);
    let parsed = program(vec![
        let_stmt("s", TypeName::String, Expr::Literal(Literal::String(String::from("a"))), 1),
        let_stmt("pair", TypeName::Tuple(vec![TypeName::String, TypeName::String]), pair, 2),
    ]);

    let error = lower_with_capabilities(&parsed, &CapabilityConfig::default()).expect_err("s is moved by the first element");

    assert_eq!(error.message, "use of moved value \"s\"");
    assert_eq!((error.line, error.column), (Some(2), Some(35)));
}

fn cast(expr: Expr, ty: TypeName, column: usize) -> Expr {
    Expr::Cast { expr: Box::new(expr), ty, line: 1, column }
}

// let b: u8 = 1 as u8
#[test]
fn cast_to_another_width_keeps_the_cast() {
    let u8_ty = || TypeName::Numeric(axiomc::model::NumericType::U8);
    let parsed = program(vec![let_stmt("b", u8_ty(), cast(int_lit(1), u8_ty(), 15), 1)]);

    let lowered = lower_with_capabilities(&parsed, &CapabilityConfig::default()).expect("the cast lowers");

    match &lowered.stmts[0] {
        model::Stmt::Let { expr: model::Expr::Cast { ty, .. }, .. } => assert_eq!(type_to_string(ty), "u8"),
        other => panic!("expected a let of a cast, got {other:?}"),
    }
}

// print 1 as int
#[test]
fn cast_to_the_same_type_is_dropped() {
    let parsed = program(vec![print_stmt(cast(int_lit(1), TypeName::Int, 9), 1)]);

    let lowered = lower_with_capabilities(&parsed, &CapabilityConfig::default()).expect("the cast lowers");

    assert!(matches!(&lowered.stmts[0], model::Stmt::Print { expr: model::Expr::Literal { .. }, .. }));
}

// print true as int
#[test]
fn cast_needs_numeric_types() {
    let parsed = program(vec![print_stmt(cast(Expr::Literal(Literal::Bool(true)), TypeName::Int, 12), 1)]);

    let error = lower_with_capabilities(&parsed, &CapabilityConfig::default()).expect_err("a bool cannot be cast");

    assert_eq!(error.message, "cast expects numeric source and target types, got bool as int");
    assert_eq!((error.line, error.column), (Some(1), Some(12)));
}
