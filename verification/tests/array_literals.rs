use axiomc::lower_program::lower_with_capabilities;
use axiomc::manifest::CapabilityConfig;
use axiomc::model;
use axiomc::model::NumericType;
use axiomc::syntax::{Expr, Literal, Program, Stmt, TypeName};

fn program(stmts: Vec<Stmt>) -> Program {
    Program {
        path: String::from("main.ax"),
        consts: Vec::new(),
        structs: Vec::new(),
        enums: Vec::new(),
        type_aliases: Vec::new(),
        functions: Vec::new(),
        stmts,
    }
}

fn int_lit(value: i64) -> Expr {
    Expr::Literal(Literal::Int(value))
}

fn var(name: &str, line: usize, column: usize) -> Expr {
    Expr::VarRef { name: String::from(name), line, column }
}

fn array(elements: Vec<Expr>, line: usize, column: usize) -> Expr {
    Expr::ArrayLiteral { elements, line, column }
}

fn array_of(element: TypeName, len: &str) -> TypeName {
    TypeName::Array(Box::new(element), Some(String::from(len)))
}

fn let_stmt(name: &str, ty: TypeName, expr: Expr, line: usize) -> Stmt {
    Stmt::Let { name: String::from(name), ty, expr, line, column: 1 }
}

// let a: [i64; 3] = [1, 2, 3]
#[test]
fn array_literal_elements_take_the_expected_element_type() {
    let parsed = program(vec![let_stmt(
        "a",
        array_of(TypeName::Numeric(NumericType::I64), "3"),
        array(vec![int_lit(1), int_lit(2), int_lit(3)], 1, 19),
        1,
    )]);

    let lowered = lower_with_capabilities(&parsed, &CapabilityConfig::default()).expect("the array lowers");

    match &lowered.stmts[0] {
        model::Stmt::Let { expr: model::Expr::ArrayLiteral { elements, ty }, .. } => {
            assert_eq!(elements.len(), 3);
            assert!(matches!(ty, model::Type::Array(inner, Some(3)) if matches!(**inner, model::Type::Numeric(NumericType::I64))));
            assert!(matches!(&elements[2], model::Expr::Literal { value: model::LiteralValue::Numeric { raw, .. }, .. } if raw == "3"));
        }
        other => panic!("expected an array literal, got {other:?}"),
    }
}

// let a: [int; 0] = []
#[test]
fn empty_array_literal_is_refused() {
    let parsed = program(vec![let_stmt("a", array_of(TypeName::Int, "0"), array(Vec::new(), 1, 19), 1)]);

    let error = lower_with_capabilities(&parsed, &CapabilityConfig::default()).expect_err("empty");

    assert_eq!(error.message, "empty array literals are not yet supported in stage1");
    assert_eq!((error.line, error.column), (Some(1), Some(19)));
}

// let flag: bool = true
// let a: [int; 2] = [1, flag]
#[test]
fn array_literal_elements_must_match_the_first() {
    let parsed = program(vec![
        let_stmt("flag", TypeName::Bool, Expr::Literal(Literal::Bool(true)), 1),
        let_stmt("a", array_of(TypeName::Int, "2"), array(vec![int_lit(1), var("flag", 2, 23)], 2, 19), 2),
    ]);

    let error = lower_with_capabilities(&parsed, &CapabilityConfig::default()).expect_err("int then bool");

    assert_eq!(error.message, "array literal expects matching element types, got int and bool");
    assert_eq!((error.line, error.column), (Some(2), Some(23)));
}

// let s: String = "x"
// let a: [String; 1] = [s]
// print s
#[test]
fn array_literal_moves_its_owned_elements() {
    let parsed = program(vec![
        let_stmt("s", TypeName::String, Expr::Literal(Literal::String(String::from("x"))), 1),
        let_stmt("a", array_of(TypeName::String, "1"), array(vec![var("s", 2, 23)], 2, 22), 2),
        Stmt::Print { expr: var("s", 3, 7), line: 3, column: 1 },
    ]);

    let error = lower_with_capabilities(&parsed, &CapabilityConfig::default()).expect_err("s was moved");

    assert_eq!(error.message, "use of moved value \"s\"");
    assert_eq!((error.line, error.column), (Some(3), Some(7)));
}
