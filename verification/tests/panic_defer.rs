use axiomc::lower_program::lower_with_capabilities;
use axiomc::manifest::CapabilityConfig;
use axiomc::model;
use axiomc::syntax::{Expr, Function, Literal, Program, Stmt, TypeName};

fn program(functions: Vec<Function>, stmts: Vec<Stmt>) -> Program {
    Program {
        path: String::from("main.ax"),
        consts: Vec::new(),
        structs: Vec::new(),
        enums: Vec::new(),
        type_aliases: Vec::new(),
        functions,
        stmts,
    }
}

fn string(value: &str) -> Expr {
    Expr::Literal(Literal::String(String::from(value)))
}

fn var(name: &str, line: usize, column: usize) -> Expr {
    Expr::VarRef { name: String::from(name), line, column }
}

fn panic_call(args: Vec<Expr>) -> Expr {
    Expr::Call { name: String::from("panic"), type_args: Vec::new(), args, line: 1, column: 1 }
}

fn panic_stmt(expr: Expr) -> Stmt {
    Stmt::Panic { expr, line: 1, column: 1 }
}

// panic("boom")
#[test]
fn panic_statement_lowers_to_a_panic() {
    let parsed = program(Vec::new(), vec![panic_stmt(panic_call(vec![string("boom")]))]);

    let lowered = lower_with_capabilities(&parsed, &CapabilityConfig::default()).expect("the panic lowers");

    assert!(matches!(&lowered.stmts[0], model::Stmt::Panic { .. }));
}

// panic "boom" (a panic statement that is not a call of panic)
#[test]
fn panic_statement_needs_a_call_of_panic() {
    let parsed = program(Vec::new(), vec![panic_stmt(string("boom"))]);

    let error = lower_with_capabilities(&parsed, &CapabilityConfig::default()).expect_err("not a call");

    assert_eq!(error.message, "panic statement expects `panic(\"message\")`");
}

// panic(1)
#[test]
fn panic_statement_needs_a_string_message() {
    let parsed = program(Vec::new(), vec![panic_stmt(panic_call(vec![Expr::Literal(Literal::Int(1))]))]);

    let error = lower_with_capabilities(&parsed, &CapabilityConfig::default()).expect_err("an int message");

    assert_eq!(error.message, "panic expects a string argument, got int");
}

// fn fail() -> int { panic("no value") }
#[test]
fn a_panic_ends_a_function_that_returns_a_value() {
    let fail = Function {
        name: String::from("fail"),
        source_name: String::from("fail"),
        path: String::from("main.ax"),
        type_params: Vec::new(),
        params: Vec::new(),
        return_ty: TypeName::Int,
        body: vec![panic_stmt(panic_call(vec![string("no value")]))],
        is_const: false,
        is_async: false,
        is_extern: false,
        extern_abi: None,
        extern_library: None,
        line: 1,
        column: 1,
    };
    let parsed = program(vec![fail], Vec::new());

    let lowered = lower_with_capabilities(&parsed, &CapabilityConfig::default()).expect("the panic ends the body");

    assert_eq!(lowered.functions.len(), 1);
}

// let s: string = "x"
// defer s
// print s
#[test]
fn defer_moves_an_owned_value() {
    let parsed = program(
        Vec::new(),
        vec![
            Stmt::Let { name: String::from("s"), ty: TypeName::String, expr: string("x"), line: 1, column: 1 },
            Stmt::Defer { expr: var("s", 2, 7), line: 2, column: 1 },
            Stmt::Print { expr: var("s", 3, 7), line: 3, column: 1 },
        ],
    );

    let error = lower_with_capabilities(&parsed, &CapabilityConfig::default()).expect_err("s was moved by the defer");

    assert_eq!(error.message, "use of moved value \"s\"");
    assert_eq!((error.line, error.column), (Some(3), Some(7)));
}

// let n: int = 1
// defer n
// print n
#[test]
fn defer_copies_a_copyable_value() {
    let parsed = program(
        Vec::new(),
        vec![
            Stmt::Let { name: String::from("n"), ty: TypeName::Int, expr: Expr::Literal(Literal::Int(1)), line: 1, column: 1 },
            Stmt::Defer { expr: var("n", 2, 7), line: 2, column: 1 },
            Stmt::Print { expr: var("n", 3, 7), line: 3, column: 1 },
        ],
    );

    let lowered = lower_with_capabilities(&parsed, &CapabilityConfig::default()).expect("ints are copied");

    assert!(matches!(&lowered.stmts[1], model::Stmt::Defer { .. }));
}
