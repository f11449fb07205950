use axiomc::lower_program::lower_with_capabilities;
use axiomc::manifest::CapabilityConfig;
use axiomc::model;
use axiomc::model::NumericType;
use axiomc::syntax::{Expr, Function, Literal, Param, Program, Stmt, StructDecl, StructField, TypeName};

fn program(structs: Vec<StructDecl>, functions: Vec<Function>, stmts: Vec<Stmt>) -> Program {
    Program {
        path: String::from("main.ax"),
        consts: Vec::new(),
        structs,
        enums: Vec::new(),
        type_aliases: Vec::new(),
        functions,
        stmts,
    }
}

fn var(name: &str, line: usize, column: usize) -> Expr {
    Expr::VarRef { name: String::from(name), line, column }
}

fn let_stmt(name: &str, ty: TypeName, expr: Expr, line: usize) -> Stmt {
    Stmt::Let { name: String::from(name), ty, expr, line, column: 1 }
}

fn assign(target: Expr, expr: Expr, line: usize) -> Stmt {
    Stmt::Assign { target, expr, line, column: 1 }
}

fn point() -> StructDecl {
    StructDecl {
        name: String::from("Point"),
        type_params: Vec::new(),
        fields: vec![
            StructField { name: String::from("x"), ty: TypeName::Int, line: 2, column: 5 },
            StructField { name: String::from("label"), ty: TypeName::Option(Box::new(TypeName::Bool)), line: 3, column: 5 },
        ],
        line: 1,
        column: 1,
    }
}

fn labelled() -> StructDecl {
    StructDecl {
        name: String::from("Labelled"),
        type_params: Vec::new(),
        fields: vec![StructField { name: String::from("name"), ty: TypeName::String, line: 2, column: 5 }],
        line: 1,
        column: 1,
    }
}

fn function(name: &str, params: Vec<Param>, body: Vec<Stmt>) -> Function {
    let mut body = body;
    body.push(Stmt::Return { expr: Expr::Literal(Literal::Int(0)), line: 20, column: 5 });
    Function {
        name: String::from(name),
        source_name: String::from(name),
        path: String::from("main.ax"),
        type_params: Vec::new(),
        params,
        return_ty: TypeName::Int,
        body,
        is_const: false,
        is_async: false,
        is_extern: false,
        extern_abi: None,
        extern_library: None,
        line: 10,
        column: 1,
    }
}

fn param(name: &str, ty: TypeName) -> Param {
    Param { name: String::from(name), ty, line: 10, column: 8 }
}

// let x: i64 = 1
// x = 2
#[test]
fn assignment_to_a_sized_integer_local_takes_its_type() {
    let parsed = program(
        Vec::new(),
        Vec::new(),
        vec![
            let_stmt("x", TypeName::Numeric(NumericType::I64), Expr::Literal(Literal::Int(1)), 1),
            assign(var("x", 2, 1), Expr::Literal(Literal::Int(2)), 2),
        ],
    );

    let lowered = lower_with_capabilities(&parsed, &CapabilityConfig::default()).expect("the assignment lowers");

    match &lowered.stmts[1] {
        model::Stmt::Assign { target, expr, span } => {
            assert!(matches!(target, model::Expr::VarRef { name, .. } if name == "x"));
            match expr {
                model::Expr::Literal { value: model::LiteralValue::Numeric { raw, ty }, .. } => {
                    assert_eq!(raw, "2");
                    assert_eq!(*ty, NumericType::I64);
                }
                other => panic!("expected a sized literal, got {other:?}"),
            }
            assert_eq!((span.line, span.column), (2, 1));
        }
        other => panic!("expected an assignment, got {other:?}"),
    }
}

// let s: String = "a"
// s = "b"
#[test]
fn assignment_to_a_string_local_is_refused() {
    let parsed = program(
        Vec::new(),
        Vec::new(),
        vec![
            let_stmt("s", TypeName::String, Expr::Literal(Literal::String(String::from("a"))), 1),
            assign(var("s", 2, 1), Expr::Literal(Literal::String(String::from("b"))), 2),
        ],
    );

    let error = lower_with_capabilities(&parsed, &CapabilityConfig::default()).expect_err("a String local");

    assert_eq!(
        error.message,
        "assignment target must be a scalar local, dereference a mutable reference, or index a mutable slice, got string"
    );
    assert_eq!((error.line, error.column), (Some(2), Some(1)));
}

// let flag: bool = true
// let x: int = 1
// x = flag
#[test]
fn assignment_of_a_value_of_another_type_is_refused() {
    let parsed = program(
        Vec::new(),
        Vec::new(),
        vec![
            let_stmt("x", TypeName::Int, Expr::Literal(Literal::Int(1)), 1),
            assign(var("x", 2, 1), var("flag", 2, 5), 2),
        ],
    );
    let mut stmts = vec![let_stmt("flag", TypeName::Bool, Expr::Literal(Literal::Bool(true)), 1)];
    stmts.extend(parsed.stmts);
    let parsed = program(Vec::new(), Vec::new(), stmts);

    let error = lower_with_capabilities(&parsed, &CapabilityConfig::default()).expect_err("a bool into an int");

    assert_eq!(error.message, "assignment expects value type int, got bool");
    assert_eq!((error.line, error.column), (Some(2), Some(5)));
}

// fn copy_point(p: Point, q: Point) -> int { p = q; p = q; return 0; }
#[test]
fn assignment_of_a_struct_moves_the_value() {
    let body = vec![assign(var("p", 11, 5), var("q", 11, 9), 11), assign(var("p", 12, 5), var("q", 12, 9), 12)];
    let f = function("copy_point", vec![param("p", named("Point")), param("q", named("Point"))], body);
    let parsed = program(vec![point()], vec![f], Vec::new());

    let error = lower_with_capabilities(&parsed, &CapabilityConfig::default()).expect_err("q was moved");

    assert_eq!(error.message, "use of moved value \"q\"");
    assert_eq!((error.line, error.column), (Some(12), Some(9)));
}

// fn replace(p: Point, q: Point) -> int { p = q; return 0; }
#[test]
fn assignment_to_a_struct_of_scalars_lowers() {
    let f = function("replace", vec![param("p", named("Point")), param("q", named("Point"))], vec![assign(var("p", 11, 5), var("q", 11, 9), 11)]);
    let parsed = program(vec![point()], vec![f], Vec::new());

    let lowered = lower_with_capabilities(&parsed, &CapabilityConfig::default()).expect("the assignment lowers");

    assert!(matches!(&lowered.functions[0].body[0], model::Stmt::Assign { .. }));
}

// fn rename(a: Labelled, b: Labelled) -> int { a = b; return 0; }
#[test]
fn assignment_to_a_struct_holding_a_string_is_refused() {
    let f = function("rename", vec![param("a", named("Labelled")), param("b", named("Labelled"))], vec![assign(var("a", 11, 5), var("b", 11, 9), 11)]);
    let parsed = program(vec![labelled()], vec![f], Vec::new());

    let error = lower_with_capabilities(&parsed, &CapabilityConfig::default()).expect_err("a String field");

    assert_eq!(
        error.message,
        "assignment target must be a scalar local, dereference a mutable reference, or index a mutable slice, got Labelled"
    );
}

fn named(name: &str) -> TypeName {
    TypeName::Named(String::from(name), Vec::new())
}
