use axiomc::lower_program::lower_with_capabilities;
use axiomc::manifest::CapabilityConfig;
use axiomc::model;
use axiomc::syntax::{Expr, Literal, Program, Stmt, TypeName};
use axiomc::types::type_to_string;

fn program(stmts: Vec<Stmt>) -> Program {
    Program {
        path: String::from("main.ax"),
        consts: Vec::new(),
        structs: Vec::new(),
        enums: Vec::new(),
        type_aliases: Vec::new(),
        functions: Vec::new(),
        stmts,
    }
}

fn result_ty() -> TypeName {
    TypeName::Result(Box::new(TypeName::Int), Box::new(TypeName::String))
}

fn ctor(name: &str, args: Vec<Expr>) -> Expr {
    Expr::Call { name: String::from(name), type_args: Vec::new(), args, line: 1, column: 30 }
}

fn let_result(expr: Expr) -> Stmt {
    Stmt::Let { name: String::from("r"), ty: result_ty(), expr, line: 1, column: 1 }
}

fn lowered_variant(p: &model::Program) -> (&String, &String, &Vec<model::Expr>, &model::Type) {
    match &p.stmts[0] {
        model::Stmt::Let { expr: model::Expr::EnumVariant { enum_name, variant, payloads, ty, .. }, .. } => (enum_name, variant, payloads, ty),
        other => panic!("expected a let of a variant, got {other:?}"),
    }
}

// let r: Result<int, string> = Ok(1)
#[test]
fn ok_takes_the_expected_result_type() {
    let parsed = program(vec![let_result(ctor("Ok", vec![Expr::Literal(Literal::Int(1))]))]);

    let lowered = lower_with_capabilities(&parsed, &CapabilityConfig::default()).expect("Ok lowers");

    let (enum_name, variant, payloads, ty) = lowered_variant(&lowered);
    assert_eq!(enum_name, "Result");
    assert_eq!(variant, "Ok");
    assert_eq!(payloads.len(), 1);
    assert_eq!(type_to_string(ty), "Result<int, string>");
}

// let r: Result<int, string> = Err("boom")
#[test]
fn err_takes_the_expected_result_type() {
    let parsed = program(vec![let_result(ctor("Err", vec![Expr::Literal(Literal::String(String::from("boom")))]))]);

    let lowered = lower_with_capabilities(&parsed, &CapabilityConfig::default()).expect("Err lowers");

    let (_, variant, _, ty) = lowered_variant(&lowered);
    assert_eq!(variant, "Err");
    assert_eq!(type_to_string(ty), "Result<int, string>");
}

// print Ok(1)
#[test]
fn ok_needs_a_result_context() {
    let parsed = program(vec![Stmt::Print { expr: ctor("Ok", vec![Expr::Literal(Literal::Int(1))]), line: 1, column: 1 }]);

    let error = lower_with_capabilities(&parsed, &CapabilityConfig::default()).expect_err("no Result is expected");

    assert_eq!(error.message, "Ok requires an expected Result<T, E> context");
    assert_eq!((error.line, error.column), (Some(1), Some(30)));
}

// let r: Result<int, string> = Err(1)
#[test]
fn err_checks_the_payload_type() {
    let parsed = program(vec![let_result(ctor("Err", vec![Expr::Literal(Literal::Int(1))]))]);

    let error = lower_with_capabilities(&parsed, &CapabilityConfig::default()).expect_err("an int is no string");

    assert_eq!(error.message, "Result::Err expects payload type string, got int");
}

// let r: Result<int, string> = Ok(1, 2)
#[test]
fn ok_takes_one_argument() {
    let parsed = program(vec![let_result(ctor("Ok", vec![Expr::Literal(Literal::Int(1)), Expr::Literal(Literal::Int(2))]))]);

    let error = lower_with_capabilities(&parsed, &CapabilityConfig::default()).expect_err("two payloads");

    assert_eq!(error.message, "Result::Ok expects 1 argument, got 2");
}
