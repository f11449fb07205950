use axiomc::call_inference::infer_expr_type;
use axiomc::lower_program::lower;
use axiomc::model;
use axiomc::monomorphize::monomorphize_program;
use axiomc::syntax::{EnumDecl, EnumVariantDecl, Expr, Function, Literal, Param, Program, Stmt, StructDecl, StructField, TypeName};

fn program(functions: Vec<Function>, stmts: Vec<Stmt>) -> Program {
    Program {
        path: String::from("main.ax"),
        consts: Vec::new(),
        structs: Vec::new(),
        enums: Vec::new(),
        type_aliases: Vec::new(),
        functions,
        stmts,
    }
}

fn generic(name: &str, type_params: &[&str], params: Vec<Param>, return_ty: TypeName, body: Vec<Stmt>, line: usize) -> Function {
    Function {
        name: String::from(name),
        source_name: String::from(name),
        path: String::from("main.ax"),
        type_params: type_params.iter().map(|t| String::from(*t)).collect(),
        params,
        return_ty,
        body,
        is_const: false,
        is_async: false,
        is_extern: false,
        extern_abi: None,
        extern_library: None,
        line,
        column: 1,
    }
}

fn param(name: &str, ty: TypeName, line: usize) -> Param {
    Param { name: String::from(name), ty, line, column: 10 }
}

fn tparam(name: &str) -> TypeName {
    TypeName::Named(String::from(name), Vec::new())
}

fn int_lit(value: i64) -> Expr {
    Expr::Literal(Literal::Int(value))
}

fn var(name: &str, line: usize, column: usize) -> Expr {
    Expr::VarRef { name: String::from(name), line, column }
}

fn call(name: &str, type_args: Vec<TypeName>, args: Vec<Expr>, line: usize, column: usize) -> Expr {
    Expr::Call { name: String::from(name), type_args, args, line, column }
}

fn let_stmt(name: &str, ty: TypeName, expr: Expr, line: usize) -> Stmt {
    Stmt::Let { name: String::from(name), ty, expr, line, column: 1 }
}

fn print_stmt(expr: Expr, line: usize) -> Stmt {
    Stmt::Print { expr, line, column: 1 }
}

fn return_stmt(expr: Expr, line: usize) -> Stmt {
    Stmt::Return { expr, line, column: 1 }
}

fn identity() -> Function {
    generic("id", &["T"], vec![param("x", tparam("T"), 1)], tparam("T"), vec![return_stmt(var("x", 2, 12), 2)], 1)
}

#[test]
fn explicit_type_arguments_instantiate_the_generic_function() {
    let parsed = program(
        vec![identity()],
        vec![let_stmt("y", TypeName::Int, call("id", vec![TypeName::Int], vec![int_lit(5)], 4, 14), 4), print_stmt(var("y", 5, 7), 5)],
    );
    let lowered = lower(&parsed).expect("instance lowers");
    let names: Vec<&str> = lowered.functions.iter().map(|f| f.name.as_str()).collect();
    assert_eq!(names, vec!["id__int"]);
    assert_eq!(lowered.functions[0].source_name, "id");
    assert_eq!(lowered.stmts.len(), 2);
}

#[test]
fn omitted_type_arguments_are_inferred_from_the_arguments() {
    let parsed = program(
        vec![identity()],
        vec![
            let_stmt("y", TypeName::Int, call("id", Vec::new(), vec![int_lit(5)], 4, 14), 4),
            let_stmt("b", TypeName::Bool, call("id", Vec::new(), vec![Expr::Literal(Literal::Bool(true))], 5, 14), 5),
            let_stmt("z", TypeName::Int, call("id", Vec::new(), vec![var("y", 6, 17)], 6, 14), 6),
        ],
    );
    let lowered = lower(&parsed).expect("inferred instances lower");
    let names: Vec<&str> = lowered.functions.iter().map(|f| f.name.as_str()).collect();
    assert_eq!(names, vec!["id__int", "id__bool"]);
}

#[test]
fn type_arguments_are_inferred_from_the_expected_type() {
    let pick = generic("pick", &["T"], vec![param("flag", TypeName::Bool, 1)], tparam("T"), vec![return_stmt(var("flag", 2, 12), 2)], 1);
    let parsed = program(vec![pick], vec![let_stmt("b", TypeName::Bool, call("pick", Vec::new(), vec![Expr::Literal(Literal::Bool(true))], 4, 14), 4)]);
    let lowered = lower(&parsed).expect("inferred from the let type");
    assert_eq!(lowered.functions[0].name, "pick__bool");

    let parsed = program(
        vec![generic("pick", &["T"], vec![param("flag", TypeName::Bool, 1)], tparam("T"), vec![return_stmt(var("flag", 2, 12), 2)], 1)],
        vec![print_stmt(call("pick", Vec::new(), vec![Expr::Literal(Literal::Bool(true))], 4, 7), 4)],
    );
    let error = lower(&parsed).expect_err("nothing binds T");
    assert_eq!(error.kind, "type");
    assert_eq!(error.message, "generic function \"pick\" could not infer type parameter \"T\"");
    assert_eq!((error.line, error.column), (Some(4), Some(7)));
}

#[test]
fn conflicting_argument_types_are_refused() {
    let pair = generic(
        "first",
        &["T"],
        vec![param("a", tparam("T"), 1), param("b", tparam("T"), 1)],
        tparam("T"),
        vec![return_stmt(var("a", 2, 12), 2)],
        1,
    );
    let parsed = program(vec![pair], vec![print_stmt(call("first", Vec::new(), vec![int_lit(1), Expr::Literal(Literal::Bool(false))], 4, 7), 4)]);
    let error = lower(&parsed).expect_err("T is both int and bool");
    assert_eq!(
        error.message,
        "generic function \"first\" argument 2 constraint failed: generic type parameter \"T\" inferred as both Int and Bool"
    );
    assert_eq!((error.line, error.column), (Some(4), Some(7)));
}

#[test]
fn return_type_that_contradicts_the_arguments_is_refused() {
    let parsed = program(vec![identity()], vec![let_stmt("b", TypeName::Bool, call("id", Vec::new(), vec![int_lit(5)], 4, 14), 4)]);
    let error = lower(&parsed).expect_err("T is int, the let wants bool");
    assert_eq!(
        error.message,
        "generic function \"id\" return constraint failed: generic type parameter \"T\" inferred as both Int and Bool"
    );
    assert_eq!((error.line, error.column), (Some(4), Some(14)));
}

#[test]
fn argument_of_the_wrong_shape_is_refused() {
    let unwrap = generic(
        "unwrap_or",
        &["T"],
        vec![param("o", TypeName::Option(Box::new(tparam("T"))), 1), param("d", tparam("T"), 1)],
        tparam("T"),
        vec![return_stmt(var("d", 2, 12), 2)],
        1,
    );
    let parsed = program(vec![unwrap], vec![print_stmt(call("unwrap_or", Vec::new(), vec![int_lit(5), int_lit(1)], 4, 7), 4)]);
    let error = lower(&parsed).expect_err("int is no option");
    assert_eq!(
        error.message,
        "generic function \"unwrap_or\" argument 1 constraint failed: expected generic constraint Option(Named(\"T\", [])), got Int"
    );
}

#[test]
fn explicit_type_arguments_must_fit_the_declaration() {
    let plain = generic("plain", &[], vec![param("x", TypeName::Int, 1)], TypeName::Int, vec![return_stmt(var("x", 2, 12), 2)], 1);
    let parsed = program(vec![plain], vec![print_stmt(call("plain", vec![TypeName::Int], vec![int_lit(1)], 4, 7), 4)]);
    let error = lower(&parsed).expect_err("not generic");
    assert_eq!(error.message, "function \"plain\" is not generic");
    assert_eq!((error.line, error.column), (Some(4), Some(7)));

    let parsed = program(vec![identity()], vec![print_stmt(call("id", vec![TypeName::Int, TypeName::Bool], vec![int_lit(1)], 4, 7), 4)]);
    let error = lower(&parsed).expect_err("too many type arguments");
    assert_eq!(error.message, "generic function \"id\" expects 1 type arguments, got 2");
    assert_eq!((error.line, error.column), (Some(1), Some(1)));
}

#[test]
fn unconstrained_type_parameter_is_refused() {
    let bad = generic("bad", &["T"], vec![param("x", TypeName::Int, 1)], TypeName::Int, vec![return_stmt(var("x", 2, 12), 2)], 1);
    let error = lower(&program(vec![bad], Vec::new())).expect_err("T unused");
    assert_eq!(error.message, "generic function \"bad\" has unconstrained type parameter \"T\"");
}

#[test]
fn runaway_instantiation_stops_at_the_limit() {
    let grow = generic(
        "grow",
        &["T"],
        vec![param("x", tparam("T"), 1)],
        TypeName::Int,
        vec![return_stmt(call("grow", vec![TypeName::Option(Box::new(tparam("T")))], vec![var("x", 2, 30)], 2, 12), 2)],
        1,
    );
    let parsed = program(vec![grow], vec![print_stmt(call("grow", vec![TypeName::Int], vec![int_lit(1)], 4, 7), 4)]);
    let error = lower(&parsed).expect_err("limit");
    assert_eq!(error.code.as_deref(), Some("generic_instantiation_limit"));
    assert_eq!(
        error.message,
        "generic instantiation resource limit exceeded while expanding \"grow\"; generic expansion is bounded to prevent runaway recursive instantiations"
    );
}

fn generic_struct(name: &str, type_params: &[&str], fields: Vec<(&str, TypeName)>, line: usize) -> StructDecl {
    StructDecl {
        name: String::from(name),
        type_params: type_params.iter().map(|t| String::from(*t)).collect(),
        fields: fields
            .into_iter()
            .enumerate()
            .map(|(i, (n, ty))| StructField { name: String::from(n), ty, line: line + 1 + i, column: 5 })
            .collect(),
        line,
        column: 1,
    }
}

fn named(name: &str, args: Vec<TypeName>) -> TypeName {
    TypeName::Named(String::from(name), args)
}

fn with_types(structs: Vec<StructDecl>, enums: Vec<EnumDecl>, functions: Vec<Function>) -> Program {
    Program {
        path: String::from("main.ax"),
        consts: Vec::new(),
        structs,
        enums,
        type_aliases: Vec::new(),
        functions,
        stmts: Vec::new(),
    }
}

fn pass_through(make: impl Fn() -> TypeName) -> Function {
    generic("pass", &[], vec![param("x", make(), 1)], make(), vec![return_stmt(var("x", 2, 12), 2)], 1)
}

#[test]
fn generic_struct_is_instantiated_for_each_use() {
    let pair = generic_struct("Pair", &["T"], vec![("first", tparam("T")), ("second", tparam("T"))], 1);
    let parsed = with_types(vec![pair], Vec::new(), vec![pass_through(|| named("Pair", vec![TypeName::Int]))]);
    let lowered = lower(&parsed).expect("instance lowers");
    let names: Vec<&str> = lowered.structs.iter().map(|s| s.name.as_str()).collect();
    assert_eq!(names, vec!["Pair__int"]);
    assert_eq!(lowered.structs[0].fields.len(), 2);
    assert!(matches!(lowered.structs[0].fields[0].ty, model::Type::Int));
    assert!(matches!(&lowered.functions[0].return_ty, model::Type::Struct(n) if n == "Pair__int"));
}

#[test]
fn nested_generic_types_instantiate_inner_first() {
    let pair = generic_struct("Pair", &["T"], vec![("first", tparam("T"))], 1);
    let parsed = with_types(vec![pair], Vec::new(), vec![pass_through(|| named("Pair", vec![named("Pair", vec![TypeName::Bool])]))]);
    let lowered = lower(&parsed).expect("nested instances lower");
    let names: Vec<&str> = lowered.structs.iter().map(|s| s.name.as_str()).collect();
    assert_eq!(names, vec!["Pair__Pair__bool", "Pair__bool"]);
    let outer = &lowered.structs[0];
    assert!(matches!(&outer.fields[0].ty, model::Type::Struct(n) if n == "Pair__bool"));
}

#[test]
fn generic_enum_is_instantiated() {
    let maybe = EnumDecl {
        name: String::from("Maybe"),
        type_params: vec![String::from("T")],
        variants: vec![
            EnumVariantDecl { name: String::from("Just"), payload_tys: vec![tparam("T")], payload_names: Vec::new(), line: 2, column: 5 },
            EnumVariantDecl { name: String::from("Nothing"), payload_tys: Vec::new(), payload_names: Vec::new(), line: 3, column: 5 },
        ],
        line: 1,
        column: 1,
    };
    let parsed = with_types(Vec::new(), vec![maybe], vec![pass_through(|| named("Maybe", vec![TypeName::Int]))]);
    let lowered = lower(&parsed).expect("enum instance lowers");
    assert_eq!(lowered.enums.len(), 1);
    assert_eq!(lowered.enums[0].name, "Maybe__int");
    assert!(matches!(lowered.enums[0].variants[0].payload_tys[0], model::Type::Int));
}

#[test]
fn generic_type_uses_must_fit_the_declaration() {
    let pair = || generic_struct("Pair", &["T"], vec![("first", tparam("T"))], 1);
    let error = lower(&with_types(vec![pair()], Vec::new(), vec![pass_through(|| named("Pair", Vec::new()))])).expect_err("no arguments");
    assert_eq!(error.message, "generic type \"Pair\" requires explicit type arguments");
    assert_eq!((error.line, error.column), (Some(1), Some(10)));

    let error = lower(&with_types(vec![pair()], Vec::new(), vec![pass_through(|| named("Pair", vec![TypeName::Int, TypeName::Bool]))]))
        .expect_err("two arguments");
    assert_eq!(error.message, "generic type \"Pair\" expects 1 type arguments, got 2");

    let plain = generic_struct("Plain", &[], vec![("value", TypeName::Int)], 1);
    let error = lower(&with_types(vec![plain], Vec::new(), vec![pass_through(|| named("Plain", vec![TypeName::Int]))])).expect_err("not generic");
    assert_eq!(error.message, "type \"Plain\" is not generic");
}

#[test]
fn generic_struct_declarations_are_checked() {
    let unused = generic_struct("Holder", &["T"], vec![("value", TypeName::Int)], 1);
    let error = lower(&with_types(vec![unused], Vec::new(), Vec::new())).expect_err("T unused");
    assert_eq!(error.message, "generic struct \"Holder\" has unconstrained type parameter \"T\"");
    assert_eq!((error.line, error.column), (Some(1), Some(1)));

    let twice = vec![generic_struct("S", &[], vec![("a", TypeName::Int)], 1), generic_struct("S", &[], vec![("b", TypeName::Int)], 4)];
    let error = lower(&with_types(twice, Vec::new(), Vec::new())).expect_err("duplicate");
    assert_eq!(error.message, "duplicate struct \"S\"");
    assert_eq!(error.line, Some(4));
}

#[test]
fn monomorphized_program_is_concrete_and_its_calls_resolved() {
    let pair = generic_struct("Pair", &["T"], vec![("first", tparam("T"))], 1);
    let mut parsed = with_types(vec![pair], Vec::new(), vec![identity(), pass_through(|| named("Pair", vec![TypeName::Int]))]);
    parsed.stmts = vec![let_stmt("y", TypeName::Int, call("id", Vec::new(), vec![int_lit(5)], 9, 14), 9)];
    let monomorphized = monomorphize_program(&parsed).expect("monomorphizes");
    assert!(monomorphized.functions.iter().all(|f| f.type_params.is_empty()));
    assert!(monomorphized.structs.iter().all(|s| s.type_params.is_empty()));
    let names: Vec<&str> = monomorphized.functions.iter().map(|f| f.name.as_str()).collect();
    assert_eq!(names, vec!["pass", "id__int"]);
    match &monomorphized.stmts[0] {
        Stmt::Let { expr: Expr::Call { name, type_args, .. }, .. } => {
            assert_eq!(name, "id__int");
            assert!(type_args.is_empty());
        },
        other => panic!("unexpected statement {other:?}"),
    }
    assert_eq!(monomorphized.structs[0].name, "Pair__int");
}

// (1, true) has the type (int, bool) where nothing is expected of it
#[test]
fn tuple_literal_type_is_told_from_its_elements() {
    let tuple = Expr::TupleLiteral { elements: vec![int_lit(1), Expr::Literal(Literal::Bool(true))], line: 1, column: 1 };
    let told = infer_expr_type(&tuple, None, &Vec::new(), &Vec::new());
    match told {
        Some(TypeName::Tuple(ts)) => {
            assert_eq!(ts.len(), 2);
            assert!(matches!(ts[0], TypeName::Int));
            assert!(matches!(ts[1], TypeName::Bool));
        }
        other => panic!("expected a tuple type, got {other:?}"),
    }
}

// let p: (int, bool) = id((1, true))
#[test]
fn generic_call_on_a_tuple_infers_its_type_argument() {
    let pair = Expr::TupleLiteral { elements: vec![int_lit(1), Expr::Literal(Literal::Bool(true))], line: 4, column: 25 };
    let parsed = program(
        vec![identity()],
        vec![let_stmt("p", TypeName::Tuple(vec![TypeName::Int, TypeName::Bool]), call("id", Vec::new(), vec![pair], 4, 22), 4)],
    );
    let lowered = lower(&parsed).expect("T is inferred as (int, bool)");
    assert_eq!(lowered.functions.len(), 1);
    assert!(matches!(&lowered.functions[0].return_ty, model::Type::Tuple(ts) if ts.len() == 2));
}
