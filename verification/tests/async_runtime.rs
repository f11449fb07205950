use axiomc::lower_program::lower_with_capabilities;
use axiomc::manifest::CapabilityConfig;
use axiomc::model;
use axiomc::syntax::{Expr, Literal, Program, Stmt, TypeName};
use axiomc::types::type_to_string;

fn program(stmts: Vec<Stmt>) -> Program {
    Program {
        path: String::from("main.ax"),
        consts: Vec::new(),
        structs: Vec::new(),
        enums: Vec::new(),
        type_aliases: Vec::new(),
        functions: Vec::new(),
        stmts,
    }
}

fn int_lit(value: i64) -> Expr {
    Expr::Literal(Literal::Int(value))
}

fn bool_lit(value: bool) -> Expr {
    Expr::Literal(Literal::Bool(value))
}

fn intrinsic(name: &str, type_args: Vec<TypeName>, args: Vec<Expr>, column: usize) -> Expr {
    Expr::Call { name: String::from(name), type_args, args, line: 1, column }
}

fn print_stmt(expr: Expr) -> Stmt {
    Stmt::Print { expr, line: 1, column: 1 }
}

fn async_caps() -> CapabilityConfig {
    CapabilityConfig { async_runtime: true, ..CapabilityConfig::default() }
}

fn printed_call(p: &model::Program) -> (&String, &Vec<model::Expr>, &model::Type) {
    match &p.stmts[0] {
        model::Stmt::Print { expr: model::Expr::Call { name, args, ty, .. }, .. } => (name, args, ty),
        other => panic!("expected a printed call, got {other:?}"),
    }
}

// print async_is_canceled<int>(async_ready<int>(1))
#[test]
fn async_intrinsics_lower_with_their_result_types() {
    let ready = intrinsic("async_ready", vec![TypeName::Int], vec![int_lit(1)], 30);
    let parsed = program(vec![print_stmt(intrinsic("async_is_canceled", vec![TypeName::Int], vec![ready], 7))]);

    let lowered = lower_with_capabilities(&parsed, &async_caps()).expect("async intrinsics should lower");

    let (name, args, ty) = printed_call(&lowered);
    assert_eq!(name, "async_is_canceled");
    assert_eq!(type_to_string(ty), "bool");
    assert_eq!(args.len(), 1);
    match &args[0] {
        model::Expr::Call { name, args, ty, .. } => {
            assert_eq!(name, "async_ready");
            assert_eq!(type_to_string(ty), "Task<int>");
            assert_eq!(args.len(), 1);
        }
        other => panic!("expected the async_ready call, got {other:?}"),
    }
}

// print async_is_canceled<int>(async_ready<int>(1)), without the async capability
#[test]
fn async_intrinsics_require_the_async_capability() {
    let ready = intrinsic("async_ready", vec![TypeName::Int], vec![int_lit(1)], 30);
    let parsed = program(vec![print_stmt(intrinsic("async_is_canceled", vec![TypeName::Int], vec![ready], 7))]);

    let error = lower_with_capabilities(&parsed, &CapabilityConfig::default()).expect_err("async needs its capability");

    assert_eq!(error.kind, "capability");
    assert_eq!(error.message, "call to \"async_is_canceled\" requires [capabilities].async = true");
    assert_eq!(error.line, Some(1));
    assert_eq!(error.column, Some(7));
}

// print async_ready(1)
#[test]
fn async_intrinsics_need_exactly_one_type_argument() {
    let parsed = program(vec![print_stmt(intrinsic("async_ready", Vec::new(), vec![int_lit(1)], 7))]);

    let error = lower_with_capabilities(&parsed, &async_caps()).expect_err("a type argument is required");

    assert_eq!(error.kind, "type");
    assert_eq!(error.message, "async_ready expects 1 explicit type argument, got 0");
}

// print async_channel<int>(1)
#[test]
fn async_channel_takes_no_arguments() {
    let parsed = program(vec![print_stmt(intrinsic("async_channel", vec![TypeName::Int], vec![int_lit(1)], 7))]);

    let error = lower_with_capabilities(&parsed, &async_caps()).expect_err("async_channel takes no argument");

    assert_eq!(error.message, "async_channel expects 0 arguments, got 1");
}

// print async_is_canceled<int>(async_ready<int>(true))
#[test]
fn async_ready_checks_the_value_type() {
    let ready = intrinsic("async_ready", vec![TypeName::Int], vec![bool_lit(true)], 30);
    let parsed = program(vec![print_stmt(intrinsic("async_is_canceled", vec![TypeName::Int], vec![ready], 7))]);

    let error = lower_with_capabilities(&parsed, &async_caps()).expect_err("a bool is no int");

    assert_eq!(error.message, "async_ready expects value type int, got bool");
}

// print async_selected<int>(1)
#[test]
fn async_selected_expects_a_select_result() {
    let parsed = program(vec![print_stmt(intrinsic("async_selected", vec![TypeName::Int], vec![int_lit(1)], 7))]);

    let error = lower_with_capabilities(&parsed, &async_caps()).expect_err("an int is no select result");

    assert_eq!(error.message, "async_selected expects SelectResult<int>, got int");
}

// print async_is_canceled<int>(async_timeout<int>(async_ready<int>(1), true))
#[test]
fn async_timeout_checks_both_arguments_at_the_call() {
    let ready = intrinsic("async_ready", vec![TypeName::Int], vec![int_lit(1)], 40);
    let timeout = intrinsic("async_timeout", vec![TypeName::Int], vec![ready, bool_lit(true)], 25);
    let parsed = program(vec![print_stmt(intrinsic("async_is_canceled", vec![TypeName::Int], vec![timeout], 7))]);

    let error = lower_with_capabilities(&parsed, &async_caps()).expect_err("the duration must be an int");

    assert_eq!(error.message, "async_timeout expects Task<int> and int arguments");
    assert_eq!(error.column, Some(25));
}

// print async_is_canceled<int>(async_send<int>(async_channel<int>(), true))
#[test]
fn async_send_checks_the_value_against_the_channel() {
    let channel = intrinsic("async_channel", vec![TypeName::Int], Vec::new(), 40);
    let send = intrinsic("async_send", vec![TypeName::Int], vec![channel, bool_lit(true)], 25);
    let parsed = program(vec![print_stmt(intrinsic("async_is_canceled", vec![TypeName::Int], vec![send], 7))]);

    let error = lower_with_capabilities(&parsed, &async_caps()).expect_err("a bool is no int");

    assert_eq!(error.message, "async_send expects AsyncChannel<int> and int arguments");
}

// print async_select<int>(async_ready<int>(1), async_ready<int>(2))
#[test]
fn async_select_expects_two_optional_tasks() {
    let left = intrinsic("async_ready", vec![TypeName::Int], vec![int_lit(1)], 30);
    let right = intrinsic("async_ready", vec![TypeName::Int], vec![int_lit(2)], 50);
    let parsed = program(vec![print_stmt(intrinsic("async_select", vec![TypeName::Int], vec![left, right], 7))]);

    let error = lower_with_capabilities(&parsed, &async_caps()).expect_err("the tasks must yield options");

    assert_eq!(error.message, "async_select expects two Task<Option<int>> arguments");
}

// print async_send<int>(async_channel<int>(), 3)
#[test]
fn async_send_yields_a_task_of_the_channel() {
    let channel = intrinsic("async_channel", vec![TypeName::Int], Vec::new(), 40);
    let send = intrinsic("async_send", vec![TypeName::Int], vec![channel, int_lit(3)], 25);
    let parsed = program(vec![print_stmt(send)]);

    let error = lower_with_capabilities(&parsed, &async_caps()).expect_err("a task cannot be printed");

    assert_eq!(error.message, "print expects int, bool, String, or &str, got Task<AsyncChannel<int>>");
}

fn task_of(args: Vec<TypeName>) -> TypeName {
    TypeName::Named(String::from("Task"), args)
}

// let t: Task<int> = async_ready<int>(1)
#[test]
fn async_runtime_types_can_be_written() {
    let ready = intrinsic("async_ready", vec![TypeName::Int], vec![int_lit(1)], 20);
    let parsed = program(vec![Stmt::Let { name: String::from("t"), ty: task_of(vec![TypeName::Int]), expr: ready, line: 1, column: 1 }]);

    let lowered = lower_with_capabilities(&parsed, &async_caps()).expect("a task binding lowers");

    match &lowered.stmts[0] {
        model::Stmt::Let { ty, .. } => assert_eq!(type_to_string(ty), "Task<int>"),
        other => panic!("expected a let, got {other:?}"),
    }
}

// let t: Task<int, int> = async_ready<int>(1)
#[test]
fn async_runtime_types_take_one_type_argument() {
    let ready = intrinsic("async_ready", vec![TypeName::Int], vec![int_lit(1)], 20);
    let parsed = program(vec![Stmt::Let {
        name: String::from("t"),
        ty: task_of(vec![TypeName::Int, TypeName::Int]),
        expr: ready,
        line: 1,
        column: 1,
    }]);

    let error = lower_with_capabilities(&parsed, &async_caps()).expect_err("two type arguments");

    assert_eq!(error.message, "async runtime type \"Task\" expects 1 type argument");
}
