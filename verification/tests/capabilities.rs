use axiomc::lower_program::lower_with_capabilities;
use axiomc::manifest::{CapabilityConfig, ProcessCommandAllowlist, ProcessCommandPolicy};
use axiomc::syntax::{Expr, Literal, Program, Stmt, TypeName};

fn program(stmts: Vec<Stmt>) -> Program {
    Program {
        path: String::from("main.ax"),
        consts: Vec::new(),
        structs: Vec::new(),
        enums: Vec::new(),
        type_aliases: Vec::new(),
        functions: Vec::new(),
        stmts,
    }
}

fn string_lit(value: &str) -> Expr {
    Expr::Literal(Literal::String(String::from(value)))
}

fn var(name: &str, line: usize, column: usize) -> Expr {
    Expr::VarRef { name: String::from(name), line, column }
}

fn call(name: &str, args: Vec<Expr>, line: usize, column: usize) -> Expr {
    Expr::Call { name: String::from(name), type_args: Vec::new(), args, line, column }
}

fn let_stmt(name: &str, ty: TypeName, expr: Expr, line: usize) -> Stmt {
    Stmt::Let { name: String::from(name), ty, expr, line, column: 1 }
}

fn print_stmt(expr: Expr, line: usize) -> Stmt {
    Stmt::Print { expr, line, column: 1 }
}

// let command: string = "/bin/true"
// print process_status(command)
#[test]
fn process_allowlist_empty_shape_fails_closed_for_dynamic_command() {
    let parsed = program(vec![
        let_stmt("command", TypeName::String, string_lit("/bin/true"), 1),
        print_stmt(call("process_status", vec![var("command", 2, 22)], 2, 7), 2),
    ]);
    let capabilities = CapabilityConfig {
        process: true,
        process_commands: ProcessCommandPolicy::Allowlist(ProcessCommandAllowlist::new_unchecked_for_test(Vec::new())),
        ..CapabilityConfig::default()
    };

    let error = lower_with_capabilities(&parsed, &capabilities).expect_err("empty process allowlist shape should fail closed");

    assert_eq!(error.kind, "capability");
    assert!(
        error.message.contains("internal error: process command allowlist must not be empty"),
        "unexpected diagnostic: {error:?}"
    );
}

// let url: string = "http://127.0.0.1:1/health"
// print http_get(url)
#[test]
fn http_get_rejects_dynamic_url_when_net_is_unrestricted() {
    let parsed = program(vec![
        let_stmt("url", TypeName::String, string_lit("http://127.0.0.1:1/health"), 1),
        print_stmt(call("http_get", vec![var("url", 2, 16)], 2, 7), 2),
    ]);
    let capabilities = CapabilityConfig { net: true, ..CapabilityConfig::default() };

    let error = lower_with_capabilities(&parsed, &capabilities).expect_err("dynamic http target should fail closed");

    assert!(
        error.message.contains("requires a static URL literal when [capabilities].net is unrestricted"),
        "unexpected diagnostic: {error:?}"
    );
}

// let port: int = 8080
// print net_tcp_dial("example.com", port, "ping", 1000)
#[test]
fn net_tcp_dial_rejects_dynamic_port_when_net_is_unrestricted() {
    let parsed = program(vec![
        let_stmt("port", TypeName::Int, Expr::Literal(Literal::Int(8080)), 1),
        print_stmt(
            call(
                "net_tcp_dial",
                vec![string_lit("example.com"), var("port", 2, 35), string_lit("ping"), Expr::Literal(Literal::Int(1000))],
                2,
                7,
            ),
            2,
        ),
    ]);
    let capabilities = CapabilityConfig { net: true, ..CapabilityConfig::default() };

    let error = lower_with_capabilities(&parsed, &capabilities).expect_err("dynamic network port should fail closed");

    assert!(
        error.message.contains("requires an integer literal when [capabilities].net ports are unrestricted"),
        "unexpected diagnostic: {error:?}"
    );
}
