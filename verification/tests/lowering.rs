use axiomc::lower_program::{check_program_lowerable, lower, lower_with_capabilities, lower_with_capabilities_recovery};
use axiomc::manifest::CapabilityConfig;
use axiomc::model;
use axiomc::model::SourceSpan;
use axiomc::syntax::{
    ArithmeticOp, ConstDecl, EnumDecl, EnumVariantDecl, Expr, Function, Literal, MatchArm, Param, Program, Stmt, StructDecl,
    StructField, TypeName,
};

fn program(functions: Vec<Function>, stmts: Vec<Stmt>) -> Program {
    Program {
        path: String::from("main.ax"),
        consts: Vec::new(),
        structs: Vec::new(),
        enums: Vec::new(),
        type_aliases: Vec::new(),
        functions,
        stmts,
    }
}

fn function(name: &str, params: Vec<Param>, return_ty: TypeName, body: Vec<Stmt>, line: usize) -> Function {
    Function {
        name: String::from(name),
        source_name: String::from(name),
        path: String::from("main.ax"),
        type_params: Vec::new(),
        params,
        return_ty,
        body,
        is_const: false,
        is_async: false,
        is_extern: false,
        extern_abi: None,
        extern_library: None,
        line,
        column: 1,
    }
}

fn param(name: &str, ty: TypeName, line: usize, column: usize) -> Param {
    Param { name: String::from(name), ty, line, column }
}

fn int_lit(value: i64) -> Expr {
    Expr::Literal(Literal::Int(value))
}

fn boolean(value: bool) -> Expr {
    Expr::Literal(Literal::Bool(value))
}

fn string(value: &str) -> Expr {
    Expr::Literal(Literal::String(String::from(value)))
}

fn var(name: &str, line: usize, column: usize) -> Expr {
    Expr::VarRef { name: String::from(name), line, column }
}

fn call(name: &str, args: Vec<Expr>, line: usize, column: usize) -> Expr {
    Expr::Call { name: String::from(name), type_args: Vec::new(), args, line, column }
}

fn let_stmt(name: &str, ty: TypeName, expr: Expr, line: usize) -> Stmt {
    Stmt::Let { name: String::from(name), ty, expr, line, column: 1 }
}

fn print_stmt(expr: Expr, line: usize) -> Stmt {
    Stmt::Print { expr, line, column: 1 }
}

fn return_stmt(expr: Expr, line: usize) -> Stmt {
    Stmt::Return { expr, line, column: 1 }
}

fn enum_decl(name: &str, variants: &[&str], line: usize) -> EnumDecl {
    EnumDecl {
        name: String::from(name),
        type_params: Vec::new(),
        variants: variants
            .iter()
            .enumerate()
            .map(|(i, v)| EnumVariantDecl { name: String::from(*v), payload_tys: Vec::new(), payload_names: Vec::new(), line: line + 1 + i, column: 1 })
            .collect(),
        line,
        column: 1,
    }
}

fn struct_decl(name: &str, line: usize) -> StructDecl {
    StructDecl {
        name: String::from(name),
        type_params: Vec::new(),
        fields: vec![StructField { name: String::from("value"), ty: TypeName::Int, line: line + 1, column: 1 }],
        line,
        column: 1,
    }
}

fn static_decl(name: &str, ty: TypeName, expr: Expr, line: usize) -> ConstDecl {
    ConstDecl { name: String::from(name), ty, expr, is_static: true, line, column: 1 }
}

#[test]
fn span_point_covers_one_character() {
    let span = SourceSpan::point(3, 4);
    assert_eq!((span.line, span.column, span.end_line, span.end_column), (3, 4, 3, 5));
    let range = SourceSpan::range(1, 2, 3, 4);
    assert_eq!((range.line, range.column, range.end_line, range.end_column), (1, 2, 3, 4));
}

#[test]
fn operator_lexemes() {
    assert_eq!(model::CompareOp::Le.lexeme(), "<=");
    assert_eq!(model::CompareOp::Ne.lexeme(), "!=");
    assert_eq!(model::LogicOp::And.lexeme(), "&&");
    assert_eq!(model::LogicOp::Or.lexeme(), "||");
}

#[test]
fn function_returning_an_int_lowers() {
    let parsed = program(
        vec![function("answer", Vec::new(), TypeName::Int, vec![return_stmt(int_lit(42), 2)], 1)],
        vec![print_stmt(call("answer", Vec::new(), 4, 7), 4)],
    );
    let lowered = lower(&parsed).expect("function with a return lowers");
    assert_eq!(lowered.functions.len(), 1);
    let f = &lowered.functions[0];
    assert_eq!(f.name, "answer");
    assert!(f.body.last().unwrap().always_returns());
    assert_eq!(lowered.stmts.len(), 1);
    assert_eq!(lowered.path, "main.ax");
}

#[test]
fn function_without_return_is_refused() {
    let parsed = program(vec![function("quiet", Vec::new(), TypeName::Int, vec![print_stmt(int_lit(1), 2)], 1)], Vec::new());
    let error = lower(&parsed).expect_err("missing return");
    assert_eq!(error.kind, "control");
    assert_eq!(error.message, "function \"quiet\" does not return along all paths");
    assert_eq!((error.line, error.column), (Some(1), Some(1)));
}

#[test]
fn statement_after_return_is_unreachable() {
    let parsed = program(vec![function("f", Vec::new(), TypeName::Int, vec![return_stmt(int_lit(1), 2), print_stmt(int_lit(2), 3)], 1)], Vec::new());
    let error = lower(&parsed).expect_err("unreachable statement");
    assert_eq!(error.kind, "control");
    assert!(error.message.contains("unreachable statements"));
    assert_eq!(error.line, Some(3));
}

#[test]
fn duplicate_function_is_refused_with_quoted_name() {
    let parsed = program(
        vec![
            function("f", Vec::new(), TypeName::Int, vec![return_stmt(int_lit(1), 2)], 1),
            function("f", Vec::new(), TypeName::Int, vec![return_stmt(int_lit(2), 5)], 4),
        ],
        Vec::new(),
    );
    let error = lower(&parsed).expect_err("duplicate");
    assert_eq!(error.kind, "type");
    assert_eq!(error.message, "duplicate function \"f\"");
    assert_eq!(error.line, Some(4));
}

#[test]
fn duplicate_parameter_is_refused() {
    let parsed = program(
        vec![function(
            "f",
            vec![param("a", TypeName::Int, 1, 6), param("a", TypeName::Int, 1, 14)],
            TypeName::Int,
            vec![return_stmt(var("a", 2, 8), 2)],
            1,
        )],
        Vec::new(),
    );
    let error = lower(&parsed).expect_err("duplicate parameter");
    assert_eq!(error.message, "duplicate parameter \"a\"");
    assert_eq!((error.line, error.column), (Some(1), Some(14)));
}

#[test]
fn parameter_named_like_a_function_is_refused() {
    let parsed = program(
        vec![
            function("g", Vec::new(), TypeName::Int, vec![return_stmt(int_lit(0), 2)], 1),
            function("f", vec![param("g", TypeName::Int, 4, 6)], TypeName::Int, vec![return_stmt(int_lit(1), 5)], 4),
        ],
        Vec::new(),
    );
    let error = lower(&parsed).expect_err("conflict");
    assert_eq!(error.message, "binding name \"g\" conflicts with a function name");
}

#[test]
fn async_function_needs_the_async_capability() {
    let mut f = function("job", Vec::new(), TypeName::Int, vec![return_stmt(int_lit(1), 2)], 1);
    f.is_async = true;
    let parsed = program(vec![f], Vec::new());
    let error = lower(&parsed).expect_err("async without capability");
    assert_eq!(error.kind, "capability");
    assert_eq!(error.message, "call to \"async fn\" requires [capabilities].async = true");

    let capabilities = CapabilityConfig { async_runtime: true, ..CapabilityConfig::default() };
    let lowered = lower_with_capabilities(&parsed, &capabilities).expect("async allowed");
    assert!(lowered.functions[0].is_async);
    assert!(matches!(&lowered.functions[0].return_ty, model::Type::Task(inner) if matches!(**inner, model::Type::Int)));
}

#[test]
fn extern_function_cannot_be_async_and_needs_ffi_types() {
    let mut f = function("native", Vec::new(), TypeName::Int, Vec::new(), 1);
    f.is_extern = true;
    f.is_async = true;
    let capabilities = CapabilityConfig { async_runtime: true, ..CapabilityConfig::default() };
    let error = lower_with_capabilities(&program(vec![f], Vec::new()), &capabilities).expect_err("extern async");
    assert_eq!(error.message, "extern function \"native\" cannot be async");

    let mut g = function("native", vec![param("x", TypeName::Option(Box::new(TypeName::Int)), 1, 15)], TypeName::Int, Vec::new(), 1);
    g.is_extern = true;
    let error = lower(&program(vec![g], Vec::new())).expect_err("bad ffi type");
    assert_eq!(error.message, "FFI signatures only support int, bool, string, ptr<T>, and mutptr<T> in stage1");
    assert_eq!((error.line, error.column), (Some(1), Some(15)));

    let mut h = function("native", vec![param("x", TypeName::Int, 1, 15)], TypeName::Int, Vec::new(), 1);
    h.is_extern = true;
    h.extern_abi = Some(String::from("C"));
    let lowered = lower(&program(vec![h], Vec::new())).expect("extern lowers");
    assert!(lowered.functions[0].body.is_empty());
    assert_eq!(lowered.functions[0].extern_abi.as_deref(), Some("C"));
}

#[test]
fn recovery_reports_every_failing_statement_in_order() {
    let parsed = program(Vec::new(), vec![print_stmt(var("y", 2, 7), 2), print_stmt(var("x", 1, 7), 1)]);
    let errors = lower_with_capabilities_recovery(&parsed, &CapabilityConfig::default()).expect_err("two errors");
    assert_eq!(errors.len(), 2);
    assert_eq!(errors[0].message, "undefined variable \"x\"");
    assert_eq!(errors[1].message, "undefined variable \"y\"");

    let first = lower(&parsed).expect_err("first error");
    assert_eq!(first.message, "undefined variable \"x\"");
    assert_eq!(first.related.len(), 1);
    assert_eq!(first.related[0].message, "undefined variable \"y\"");
}

#[test]
fn failed_let_still_binds_its_name() {
    let parsed = program(Vec::new(), vec![let_stmt("x", TypeName::Int, boolean(true), 1), print_stmt(var("x", 2, 7), 2)]);
    let errors = lower_with_capabilities_recovery(&parsed, &CapabilityConfig::default()).expect_err("bad let");
    assert_eq!(errors.len(), 1);
    assert_eq!(errors[0].message, "let binding \"x\" expects int, got bool");
}

#[test]
fn use_after_move_is_refused() {
    let parsed = program(
        Vec::new(),
        vec![
            let_stmt("a", TypeName::String, string("x"), 1),
            let_stmt("b", TypeName::String, var("a", 2, 18), 2),
            print_stmt(var("a", 3, 7), 3),
        ],
    );
    let error = lower(&parsed).expect_err("moved");
    assert_eq!(error.kind, "ownership");
    assert_eq!(error.message, "use of moved value \"a\"");
    assert_eq!(error.code.as_deref(), Some("use_after_move"));
}

#[test]
fn control_statements_outside_their_context() {
    let error = lower(&program(Vec::new(), vec![return_stmt(int_lit(0), 1)])).expect_err("return at top level");
    assert_eq!(error.message, "return is only valid inside a function");
    let error = lower(&program(Vec::new(), vec![Stmt::Break { line: 1, column: 1 }])).expect_err("break at top level");
    assert_eq!(error.message, "break is only valid inside a loop");
}

#[test]
fn process_status_needs_the_process_capability() {
    let parsed = program(Vec::new(), vec![print_stmt(call("process_status", vec![string("/bin/true")], 1, 7), 1)]);
    let error = lower(&parsed).expect_err("no process capability");
    assert_eq!(error.kind, "capability");
    assert_eq!(error.message, "call to \"process_status\" requires [capabilities].process = true");
}

#[test]
fn match_must_cover_every_variant() {
    let mut parsed = program(
        Vec::new(),
        vec![
            let_stmt("c", TypeName::Named(String::from("Control"), Vec::new()), var("Stop", 5, 18), 5),
            Stmt::Match {
                expr: var("c", 6, 7),
                arms: vec![MatchArm { variant: String::from("Stop"), bindings: Vec::new(), is_named: false, body: vec![print_stmt(int_lit(1), 7)], line: 7, column: 1 }],
                line: 6,
                column: 1,
            },
        ],
    );
    parsed.enums.push(enum_decl("Control", &["Stop", "Next"], 1));
    let error = lower(&parsed).expect_err("not exhaustive");
    assert_eq!(error.message, "match on \"Control\" is not exhaustive; missing Next");
}

#[test]
fn enum_without_variants_is_refused() {
    let mut parsed = program(Vec::new(), Vec::new());
    parsed.enums.push(enum_decl("Empty", &[], 1));
    let error = lower(&parsed).expect_err("no variants");
    assert_eq!(error.message, "enum \"Empty\" must declare at least one variant");
}

#[test]
fn definitions_come_out_ordered_by_name() {
    let mut parsed = program(Vec::new(), Vec::new());
    parsed.structs.push(struct_decl("Zed", 1));
    parsed.structs.push(struct_decl("Alpha", 3));
    parsed.enums.push(enum_decl("Mode", &["On"], 5));
    parsed.enums.push(enum_decl("Color", &["Red"], 7));
    let lowered = lower(&parsed).expect("definitions lower");
    let structs: Vec<&str> = lowered.structs.iter().map(|s| s.name.as_str()).collect();
    let enums: Vec<&str> = lowered.enums.iter().map(|e| e.name.as_str()).collect();
    assert_eq!(structs, vec!["Alpha", "Zed"]);
    assert_eq!(enums, vec!["Color", "Mode"]);
}

#[test]
fn statics_are_checked_and_folded() {
    let mut parsed = program(Vec::new(), Vec::new());
    parsed.consts.push(static_decl("LIMIT", TypeName::Int, int_lit(8), 1));
    parsed.consts.push(static_decl(
        "READY",
        TypeName::Bool,
        Expr::BinaryCompare { op: axiomc::syntax::CompareOp::Lt, lhs: Box::new(int_lit(1)), rhs: Box::new(int_lit(2)), line: 2, column: 20 },
        2,
    ));
    let lowered = lower(&parsed).expect("statics lower");
    assert_eq!(lowered.statics.len(), 2);
    assert!(matches!(lowered.statics[1].expr, model::Expr::Literal { value: model::LiteralValue::Bool(true), .. }));

    let mut wrong = program(Vec::new(), Vec::new());
    wrong.consts.push(static_decl("FLAG", TypeName::Int, boolean(true), 3));
    let error = lower(&wrong).expect_err("type mismatch");
    assert!(error.message.starts_with("static \"FLAG\""), "{error:?}");

    let mut computed = program(Vec::new(), Vec::new());
    computed.consts.push(static_decl(
        "NAME",
        TypeName::String,
        Expr::BinaryAdd { op: ArithmeticOp::Add, lhs: Box::new(string("a")), rhs: Box::new(string("b")), line: 4, column: 20 },
        4,
    ));
    let error = lower(&computed).expect_err("non-literal string");
    assert_eq!(error.message, "static \"NAME\" string initializers must be string literals in stage1");
}

#[test]
fn unknown_array_length_is_refused() {
    let parsed = program(
        Vec::new(),
        vec![let_stmt("a", TypeName::Array(Box::new(TypeName::Int), Some(String::from("N"))), int_lit(0), 1)],
    );
    let error = lower(&parsed).expect_err("unknown length");
    assert_eq!(error.message, "array length \"N\" must be a known int const/static expression");
}

#[test]
fn lowerability_check_rejects_overflowing_consts() {
    let fine = program(Vec::new(), vec![print_stmt(int_lit(1), 1)]);
    assert!(check_program_lowerable(&fine));
    let mut overflowing = program(Vec::new(), Vec::new());
    overflowing.consts.push(ConstDecl {
        name: String::from("BIG"),
        ty: TypeName::Int,
        expr: Expr::BinaryAdd { op: ArithmeticOp::Add, lhs: Box::new(int_lit(i64::MAX)), rhs: Box::new(int_lit(1)), line: 1, column: 13 },
        is_static: false,
        line: 1,
        column: 1,
    });
    assert!(!check_program_lowerable(&overflowing));
    let mut dividing = program(Vec::new(), Vec::new());
    dividing.consts.push(ConstDecl {
        name: String::from("Q"),
        ty: TypeName::Int,
        expr: Expr::BinaryAdd { op: ArithmeticOp::Div, lhs: Box::new(int_lit(7)), rhs: Box::new(int_lit(0)), line: 1, column: 13 },
        is_static: false,
        line: 1,
        column: 1,
    });
    assert!(!check_program_lowerable(&dividing));
}
