use axiomc::lower_program::lower_with_capabilities;
use axiomc::manifest::CapabilityConfig;
use axiomc::model;
use axiomc::syntax::{Expr, Function, Literal, Param, Program, Stmt, TypeName};
use axiomc::types::type_to_string;

fn program(functions: Vec<Function>) -> Program {
    Program {
        path: String::from("main.ax"),
        consts: Vec::new(),
        structs: Vec::new(),
        enums: Vec::new(),
        type_aliases: Vec::new(),
        functions,
        stmts: Vec::new(),
    }
}

fn string_int_map() -> TypeName {
    TypeName::MapOf(Box::new(TypeName::String), Box::new(TypeName::Int))
}

// fn lookup(m: {string: int}) -> <return_ty> { <body> }
fn lookup_fn(param_ty: TypeName, return_ty: TypeName, body: Vec<Stmt>) -> Function {
    Function {
        name: String::from("lookup"),
        source_name: String::from("lookup"),
        path: String::from("main.ax"),
        type_params: Vec::new(),
        params: vec![Param { name: String::from("m"), ty: param_ty, line: 1, column: 11 }],
        return_ty,
        body,
        is_const: false,
        is_async: false,
        is_extern: false,
        extern_abi: None,
        extern_library: None,
        line: 1,
        column: 1,
    }
}

fn var(name: &str, column: usize) -> Expr {
    Expr::VarRef { name: String::from(name), line: 2, column }
}

fn string(value: &str) -> Expr {
    Expr::Literal(Literal::String(String::from(value)))
}

fn int_lit(value: i64) -> Expr {
    Expr::Literal(Literal::Int(value))
}

fn lookup_call(name: &str, type_args: Vec<TypeName>, args: Vec<Expr>) -> Expr {
    Expr::Call { name: String::from(name), type_args, args, line: 2, column: 12 }
}

fn return_stmt(expr: Expr) -> Stmt {
    Stmt::Return { expr, line: 2, column: 5 }
}

fn lower_one(param_ty: TypeName, return_ty: TypeName, body: Vec<Stmt>) -> Result<model::Program, axiomc::diagnostics::Diagnostic> {
    lower_with_capabilities(&program(vec![lookup_fn(param_ty, return_ty, body)]), &CapabilityConfig::default())
}

fn returned_call(p: &model::Program) -> (&String, &Vec<model::Expr>, &model::Type) {
    let f = p.functions.iter().find(|f| f.name == "lookup").expect("the lookup function is lowered");
    match f.body.last() {
        Some(model::Stmt::Return { expr: model::Expr::Call { name, args, ty, .. }, .. }) => (name, args, ty),
        other => panic!("expected a returned call, got {other:?}"),
    }
}

// fn lookup(m: {string: int}) -> int { return get_or_default(m, "a", 0) }
#[test]
fn get_or_default_has_the_value_type() {
    let body = vec![return_stmt(lookup_call("get_or_default", Vec::new(), vec![var("m", 27), string("a"), int_lit(0)]))];
    let lowered = lower_one(string_int_map(), TypeName::Int, body).expect("the lookup lowers");

    let (name, args, ty) = returned_call(&lowered);
    assert_eq!(name, "get_or_default");
    assert_eq!(args.len(), 3);
    assert_eq!(type_to_string(ty), "int");
}

// fn lookup(m: {string: int}) -> Option<int> { return map_get<string, int>(m, "a") }
#[test]
fn map_get_with_matching_type_arguments_is_an_option_of_the_value() {
    let body = vec![return_stmt(lookup_call("map_get", vec![TypeName::String, TypeName::Int], vec![var("m", 20), string("a")]))];
    let lowered = lower_one(string_int_map(), TypeName::Option(Box::new(TypeName::Int)), body).expect("the lookup lowers");

    let (name, args, ty) = returned_call(&lowered);
    assert_eq!(name, "map_get");
    assert_eq!(args.len(), 2);
    assert_eq!(type_to_string(ty), "Option<int>");
}

// fn lookup(m: {string: int}) -> [string] { return keys(m) }
#[test]
fn keys_lists_the_key_type() {
    let body = vec![return_stmt(lookup_call("keys", Vec::new(), vec![var("m", 17)]))];
    let lowered = lower_one(string_int_map(), TypeName::Array(Box::new(TypeName::String), None), body).expect("the keys lower");

    let (_, args, ty) = returned_call(&lowered);
    assert_eq!(args.len(), 1);
    assert_eq!(type_to_string(ty), "[string]");
}

// fn lookup(m: {string: int}) -> bool { return contains(m, "a") }
#[test]
fn contains_is_a_bool() {
    let body = vec![return_stmt(lookup_call("contains", Vec::new(), vec![var("m", 21), string("a")]))];
    let lowered = lower_one(string_int_map(), TypeName::Bool, body).expect("the lookup lowers");

    let (_, _, ty) = returned_call(&lowered);
    assert_eq!(type_to_string(ty), "bool");
}

// fn lookup(m: int) -> bool { return contains(m, 1) }
#[test]
fn lookups_need_a_map() {
    let body = vec![return_stmt(lookup_call("contains", Vec::new(), vec![var("m", 21), int_lit(1)]))];
    let error = lower_one(TypeName::Int, TypeName::Bool, body).expect_err("an int is no map");

    assert_eq!(error.message, "contains expects a map value, got int");
    assert_eq!((error.line, error.column), (Some(2), Some(21)));
}

// fn lookup(m: {string: int}) -> Option<int> { return map_get(m, 1) }
#[test]
fn the_key_must_have_the_key_type() {
    let body = vec![return_stmt(lookup_call("map_get", Vec::new(), vec![var("m", 20), int_lit(1)]))];
    let error = lower_one(string_int_map(), TypeName::Option(Box::new(TypeName::Int)), body).expect_err("an int is no string key");

    assert_eq!(error.message, "map_get expects key type string, got int");
}

// fn lookup(m: {string: int}) -> int { return get_or_default(m, "a", true) }
#[test]
fn the_default_must_have_the_value_type() {
    let body = vec![return_stmt(lookup_call(
        "get_or_default",
        Vec::new(),
        vec![var("m", 27), string("a"), Expr::Literal(Literal::Bool(true))],
    ))];
    let error = lower_one(string_int_map(), TypeName::Int, body).expect_err("a bool is no int");

    assert_eq!(error.message, "get_or_default expects default type int, got bool");
}

// fn lookup(m: {string: int}) -> Option<int> { return map_get<int, int>(m, "a") }
#[test]
fn type_arguments_must_name_the_map_types() {
    let body = vec![return_stmt(lookup_call("map_get", vec![TypeName::Int, TypeName::Int], vec![var("m", 20), string("a")]))];
    let error = lower_one(string_int_map(), TypeName::Option(Box::new(TypeName::Int)), body).expect_err("the key type differs");

    assert_eq!(error.message, "map_get type arguments expect {int: int}, got {string: int}");
}

// fn lookup(m: {string: int}) -> Option<int> { return map_get<int>(m, "a") }
#[test]
fn lookups_take_zero_or_two_type_arguments() {
    let body = vec![return_stmt(lookup_call("map_get", vec![TypeName::Int], vec![var("m", 20), string("a")]))];
    let error = lower_one(string_int_map(), TypeName::Option(Box::new(TypeName::Int)), body).expect_err("one type argument");

    assert_eq!(error.message, "map_get expects 0 or 2 type arguments, got 1");
}

// fn lookup(m: {string: int}) -> int { return get_or_default(m, "a") }
#[test]
fn get_or_default_takes_three_arguments() {
    let body = vec![return_stmt(lookup_call("get_or_default", Vec::new(), vec![var("m", 27), string("a")]))];
    let error = lower_one(string_int_map(), TypeName::Int, body).expect_err("the default is missing");

    assert_eq!(error.message, "get_or_default expects 3 arguments, got 2");
}

// fn lookup(m: {string: int}) -> int {
//     let first: Option<int> = map_get(m, "a")
//     return get_or_default(m, "b", 0)
// }
#[test]
fn a_lookup_moves_the_map() {
    let body = vec![
        Stmt::Let {
            name: String::from("first"),
            ty: TypeName::Option(Box::new(TypeName::Int)),
            expr: Expr::Call { name: String::from("map_get"), type_args: Vec::new(), args: vec![var("m", 30), string("a")], line: 2, column: 26 },
            line: 2,
            column: 5,
        },
        Stmt::Return {
            expr: Expr::Call {
                name: String::from("get_or_default"),
                type_args: Vec::new(),
                args: vec![Expr::VarRef { name: String::from("m"), line: 3, column: 27 }, string("b"), int_lit(0)],
                line: 3,
                column: 12,
            },
            line: 3,
            column: 5,
        },
    ];
    let error = lower_one(string_int_map(), TypeName::Int, body).expect_err("the map was moved");

    assert_eq!(error.kind, "ownership");
    assert_eq!(error.message, "use of moved value \"m\"");
    assert_eq!((error.line, error.column), (Some(3), Some(27)));
}
