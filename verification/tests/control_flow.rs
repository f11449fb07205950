use axiomc::lower_program::lower;
use axiomc::model;
use axiomc::syntax::{EnumDecl, EnumVariantDecl, Expr, Function, Literal, MatchArm, Param, Program, Stmt, TypeName};

fn variant(name: &str, line: usize) -> EnumVariantDecl {
    EnumVariantDecl { name: String::from(name), payload_tys: Vec::new(), payload_names: Vec::new(), line, column: 1 }
}

fn function(name: &str, params: Vec<Param>, return_ty: TypeName, body: Vec<Stmt>, line: usize) -> Function {
    Function {
        name: String::from(name),
        source_name: String::from(name),
        path: String::from("main.ax"),
        type_params: Vec::new(),
        params,
        return_ty,
        body,
        is_const: false,
        is_async: false,
        is_extern: false,
        extern_abi: None,
        extern_library: None,
        line,
        column: 1,
    }
}

fn flag_param(line: usize) -> Param {
    Param { name: String::from("flag"), ty: TypeName::Bool, line, column: 8 }
}

fn brk(line: usize) -> Stmt {
    Stmt::Break { line, column: 1 }
}

fn cont(line: usize) -> Stmt {
    Stmt::Continue { line, column: 1 }
}

fn bool_lit(value: bool) -> Expr {
    Expr::Literal(Literal::Bool(value))
}

fn var(name: &str, line: usize, column: usize) -> Expr {
    Expr::VarRef { name: String::from(name), line, column }
}

fn arm(variant: &str, body: Vec<Stmt>, line: usize) -> MatchArm {
    MatchArm { variant: String::from(variant), bindings: Vec::new(), is_named: false, body, line, column: 1 }
}

/// The statements of one of the loop-body snippets, starting at `line`; the second value
/// is the line after them.
fn snippet(source: &str, line: usize) -> (Vec<Stmt>, usize) {
    match source {
        "break" => (vec![brk(line)], line + 1),
        "continue" => (vec![cont(line)], line + 1),
        "if true {\nbreak\n}" => (
            vec![Stmt::If { cond: bool_lit(true), then_block: vec![brk(line + 1)], else_block: None, line, column: 1 }],
            line + 3,
        ),
        "if false {\ncontinue\n}" => (
            vec![Stmt::If { cond: bool_lit(false), then_block: vec![cont(line + 1)], else_block: None, line, column: 1 }],
            line + 3,
        ),
        "if flag {\nbreak\n}" => (
            vec![Stmt::If { cond: var("flag", line, 4), then_block: vec![brk(line + 1)], else_block: None, line, column: 1 }],
            line + 3,
        ),
        "if flag {\nbreak\n} else {\ncontinue\n}" => (
            vec![Stmt::If {
                cond: var("flag", line, 4),
                then_block: vec![brk(line + 1)],
                else_block: Some(vec![cont(line + 3)]),
                line,
                column: 1,
            }],
            line + 5,
        ),
        "match choice {\nStop {\nbreak\n}\nNext {\ncontinue\n}\n}" => (
            vec![Stmt::Match {
                expr: var("choice", line, 7),
                arms: vec![arm("Stop", vec![brk(line + 2)], line + 1), arm("Next", vec![cont(line + 5)], line + 4)],
                line,
                column: 1,
            }],
            line + 7,
        ),
        _ => panic!("unknown snippet {source}"),
    }
}

/// enum Control {
/// Stop
/// Next
/// }
/// fn run(flag: bool): int {
/// while true {
/// let choice: Control = Stop
/// {body}
/// [print 99]
/// }
/// return 0
/// }
fn source_with_loop(body: &str, then_print: bool) -> Program {
    let (mut loop_body, mut line) = snippet(body, 8);
    loop_body.insert(
        0,
        Stmt::Let {
            name: String::from("choice"),
            ty: TypeName::Named(String::from("Control"), Vec::new()),
            expr: var("Stop", 7, 23),
            line: 7,
            column: 1,
        },
    );
    if then_print {
        loop_body.push(Stmt::Print { expr: Expr::Literal(Literal::Int(99)), line, column: 1 });
        line += 1;
    }
    let body = vec![
        Stmt::While { cond: bool_lit(true), body: loop_body, line: 6, column: 1 },
        Stmt::Return { expr: Expr::Literal(Literal::Int(0)), line: line + 1, column: 1 },
    ];
    Program {
        path: String::from("main.ax"),
        consts: Vec::new(),
        structs: Vec::new(),
        enums: vec![EnumDecl { name: String::from("Control"), type_params: Vec::new(), variants: vec![variant("Stop", 2), variant("Next", 3)], line: 1, column: 1 }],
        type_aliases: Vec::new(),
        functions: vec![function("run", vec![flag_param(5)], TypeName::Int, body, 5)],
        stmts: Vec::new(),
    }
}

#[test]
fn nested_loop_control_rejects_unreachable_statements() {
    for terminating in [
        "break",
        "continue",
        "if true {\nbreak\n}",
        "if flag {\nbreak\n} else {\ncontinue\n}",
        "match choice {\nStop {\nbreak\n}\nNext {\ncontinue\n}\n}",
    ] {
        let parsed = source_with_loop(terminating, true);
        let error = lower(&parsed).expect_err("statement after loop control is unreachable");
        assert_eq!(error.kind, "control", "{terminating}: {error:?}");
        assert!(error.message.contains("unreachable statements"), "{error:?}");
    }
}

#[test]
fn loop_control_terminates_scope_without_returning_from_function() {
    for terminating in [
        "break",
        "continue",
        "if flag {\nbreak\n} else {\ncontinue\n}",
        "match choice {\nStop {\nbreak\n}\nNext {\ncontinue\n}\n}",
    ] {
        let parsed = source_with_loop(terminating, false);
        let lowered = lower(&parsed).expect("loop followed by return should lower");
        let model::Stmt::While { body, .. } = &lowered.functions[0].body[0] else {
            panic!("expected loop");
        };
        let exit = body.last().expect("loop terminator");
        assert!(exit.always_terminates(), "{terminating}");
        assert!(!exit.always_returns(), "{terminating}");
    }
}

// fn run(flag: bool): int {
// let label: string = "x"
// while true {
// let sink: string = label
// print sink
// if flag {
// break
// } else {
// break
// }
// }
// return 0
// }
#[test]
fn nested_break_preserves_existing_loop_exit_ownership_join() {
    let body = vec![
        Stmt::Let { name: String::from("label"), ty: TypeName::String, expr: Expr::Literal(Literal::String(String::from("x"))), line: 2, column: 1 },
        Stmt::While {
            cond: bool_lit(true),
            body: vec![
                Stmt::Let { name: String::from("sink"), ty: TypeName::String, expr: var("label", 4, 20), line: 4, column: 1 },
                Stmt::Print { expr: var("sink", 5, 7), line: 5, column: 1 },
                Stmt::If { cond: var("flag", 6, 4), then_block: vec![brk(7)], else_block: Some(vec![brk(9)]), line: 6, column: 1 },
            ],
            line: 3,
            column: 1,
        },
        Stmt::Return { expr: Expr::Literal(Literal::Int(0)), line: 12, column: 1 },
    ];
    let parsed = Program {
        path: String::from("main.ax"),
        consts: Vec::new(),
        structs: Vec::new(),
        enums: Vec::new(),
        type_aliases: Vec::new(),
        functions: vec![function("run", vec![flag_param(1)], TypeName::Int, body, 1)],
        stmts: Vec::new(),
    };
    lower(&parsed).expect("both branches break before the moved value can be reused");
}

#[test]
fn conditional_loop_control_preserves_reachable_fallthrough() {
    for conditional in ["if flag {\nbreak\n}", "if false {\ncontinue\n}"] {
        let parsed = source_with_loop(conditional, true);
        lower(&parsed).expect("fallthrough remains reachable");
    }
}
