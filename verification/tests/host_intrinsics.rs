use axiomc::lower_program::lower_with_capabilities;
use axiomc::manifest::CapabilityConfig;
use axiomc::model;
use axiomc::syntax::{Expr, Literal, Program, Stmt, TypeName};
use axiomc::types::type_to_string;

fn program(stmts: Vec<Stmt>) -> Program {
    Program {
        path: String::from("main.ax"),
        consts: Vec::new(),
        structs: Vec::new(),
        enums: Vec::new(),
        type_aliases: Vec::new(),
        functions: Vec::new(),
        stmts,
    }
}

fn string(value: &str) -> Expr {
    Expr::Literal(Literal::String(String::from(value)))
}

fn int_lit(value: i64) -> Expr {
    Expr::Literal(Literal::Int(value))
}

fn var(name: &str, line: usize, column: usize) -> Expr {
    Expr::VarRef { name: String::from(name), line, column }
}

fn call(name: &str, args: Vec<Expr>, line: usize) -> Expr {
    Expr::Call { name: String::from(name), type_args: Vec::new(), args, line, column: 7 }
}

fn print_stmt(expr: Expr, line: usize) -> Stmt {
    Stmt::Print { expr, line, column: 1 }
}

fn let_stmt(name: &str, ty: TypeName, expr: Expr, line: usize) -> Stmt {
    Stmt::Let { name: String::from(name), ty, expr, line, column: 1 }
}

// let text: Option<string> = fs_read("notes.txt"), without the fs capability
#[test]
fn fs_read_needs_the_fs_capability() {
    let parsed = program(vec![let_stmt("text", TypeName::Option(Box::new(TypeName::String)), call("fs_read", vec![string("notes.txt")], 1), 1)]);

    let error = lower_with_capabilities(&parsed, &CapabilityConfig::default()).expect_err("fs is not granted");

    assert_eq!(error.kind, "capability");
    assert_eq!(error.message, "call to \"fs_read\" requires [capabilities].fs = true");
}

// let text: Option<string> = fs_read("notes.txt")
#[test]
fn fs_read_gives_an_optional_string() {
    let parsed = program(vec![let_stmt("text", TypeName::Option(Box::new(TypeName::String)), call("fs_read", vec![string("notes.txt")], 1), 1)]);
    let capabilities = CapabilityConfig { fs: true, ..CapabilityConfig::default() };

    let lowered = lower_with_capabilities(&parsed, &capabilities).expect("fs_read lowers");

    match &lowered.stmts[0] {
        model::Stmt::Let { expr: model::Expr::Call { name, args, ty, .. }, .. } => {
            assert_eq!(name, "fs_read");
            assert_eq!(args.len(), 1);
            assert_eq!(type_to_string(ty), "Option<string>");
        }
        other => panic!("expected a let of the call, got {other:?}"),
    }
}

// print env_get("HOME"), without the env capability
#[test]
fn env_get_names_the_env_requirement() {
    let parsed = program(vec![print_stmt(call("env_get", vec![string("HOME")], 1), 1)]);

    let error = lower_with_capabilities(&parsed, &CapabilityConfig::default()).expect_err("env is not granted");

    assert_eq!(error.message, "call to \"env_get\" requires [capabilities].env = [\"NAME\"] or env_unrestricted = true");
}

// print clock_sleep_ms(true)
#[test]
fn clock_sleep_ms_expects_an_int() {
    let parsed = program(vec![print_stmt(call("clock_sleep_ms", vec![Expr::Literal(Literal::Bool(true))], 1), 1)]);
    let capabilities = CapabilityConfig { clock: true, ..CapabilityConfig::default() };

    let error = lower_with_capabilities(&parsed, &capabilities).expect_err("a bool is no duration");

    assert_eq!(error.kind, "type");
    assert_eq!(error.message, "clock_sleep_ms expects an int argument, got bool");
}

// print crypto_rand_bytes("16")
#[test]
fn crypto_rand_bytes_expects_an_int_length() {
    let parsed = program(vec![print_stmt(call("crypto_rand_bytes", vec![string("16")], 1), 1)]);
    let capabilities = CapabilityConfig { crypto: true, ..CapabilityConfig::default() };

    let error = lower_with_capabilities(&parsed, &capabilities).expect_err("a string is no length");

    assert_eq!(error.message, "crypto_rand_bytes expects an int length, got string");
}

// print io_readline(1)
#[test]
fn io_readline_takes_no_arguments() {
    let parsed = program(vec![print_stmt(call("io_readline", vec![int_lit(1)], 1), 1)]);

    let error = lower_with_capabilities(&parsed, &CapabilityConfig::default()).expect_err("io_readline takes nothing");

    assert_eq!(error.message, "io_readline expects 0 arguments, got 1");
}

// print json_stringify_int(1, 2)
#[test]
fn json_stringify_int_takes_one_argument() {
    let parsed = program(vec![print_stmt(call("json_stringify_int", vec![int_lit(1), int_lit(2)], 1), 1)]);

    let error = lower_with_capabilities(&parsed, &CapabilityConfig::default()).expect_err("one argument too many");

    assert_eq!(error.message, "json_stringify_int expects 1 argument, got 2");
}

// print json_stringify_bool(true)
#[test]
fn json_stringify_bool_prints_a_string() {
    let parsed = program(vec![print_stmt(call("json_stringify_bool", vec![Expr::Literal(Literal::Bool(true))], 1), 1)]);

    let lowered = lower_with_capabilities(&parsed, &CapabilityConfig::default()).expect("json_stringify_bool lowers");

    match &lowered.stmts[0] {
        model::Stmt::Print { expr: model::Expr::Call { name, ty, .. }, .. } => {
            assert_eq!(name, "json_stringify_bool");
            assert_eq!(type_to_string(ty), "string");
        }
        other => panic!("expected a printed call, got {other:?}"),
    }
}

// let s: string = "x"
// print json_stringify_string(s)
// print s
#[test]
fn a_string_argument_is_moved() {
    let parsed = program(vec![
        let_stmt("s", TypeName::String, string("x"), 1),
        print_stmt(call("json_stringify_string", vec![var("s", 2, 29)], 2), 2),
        print_stmt(var("s", 3, 7), 3),
    ]);

    let error = lower_with_capabilities(&parsed, &CapabilityConfig::default()).expect_err("s was moved");

    assert_eq!(error.kind, "ownership");
    assert_eq!(error.message, "use of moved value \"s\"");
    assert_eq!((error.line, error.column), (Some(3), Some(7)));
}

// let n: int = 1
// print json_stringify_int(n)
// print n
#[test]
fn an_int_argument_is_copied() {
    let parsed = program(vec![
        let_stmt("n", TypeName::Int, int_lit(1), 1),
        print_stmt(call("json_stringify_int", vec![var("n", 2, 26)], 2), 2),
        print_stmt(var("n", 3, 7), 3),
    ]);

    let lowered = lower_with_capabilities(&parsed, &CapabilityConfig::default()).expect("ints are copied");

    assert_eq!(lowered.stmts.len(), 3);
}

// print regex_is_match("a+", "aaa")
#[test]
fn regex_is_match_gives_a_bool() {
    let parsed = program(vec![print_stmt(call("regex_is_match", vec![string("a+"), string("aaa")], 1), 1)]);

    let lowered = lower_with_capabilities(&parsed, &CapabilityConfig::default()).expect("regex_is_match lowers");

    match &lowered.stmts[0] {
        model::Stmt::Print { expr: model::Expr::Call { name, args, ty, .. }, .. } => {
            assert_eq!(name, "regex_is_match");
            assert_eq!(args.len(), 2);
            assert_eq!(type_to_string(ty), "bool");
        }
        other => panic!("expected a printed call, got {other:?}"),
    }
}

// print regex_replace_all("a", "b")
#[test]
fn regex_replace_all_takes_three_arguments() {
    let parsed = program(vec![print_stmt(call("regex_replace_all", vec![string("a"), string("b")], 1), 1)]);

    let error = lower_with_capabilities(&parsed, &CapabilityConfig::default()).expect_err("the replacement is missing");

    assert_eq!(error.message, "regex_replace_all expects 3 arguments, got 2");
}

// let p: string = "a+"
// print regex_is_match(p, p)
#[test]
fn regex_arguments_are_moved_one_by_one() {
    let parsed = program(vec![
        let_stmt("p", TypeName::String, string("a+"), 1),
        print_stmt(call("regex_is_match", vec![var("p", 2, 22), var("p", 2, 25)], 2), 2),
    ]);

    let error = lower_with_capabilities(&parsed, &CapabilityConfig::default()).expect_err("p is moved by the first argument");

    assert_eq!(error.message, "use of moved value \"p\"");
    assert_eq!((error.line, error.column), (Some(2), Some(25)));
}

// let text: string = "{}"
// let v: Option<int> = json_parse_field_int(text, text)
#[test]
fn json_field_arguments_are_moved_after_both_are_checked() {
    let parsed = program(vec![
        let_stmt("text", TypeName::String, string("{}"), 1),
        let_stmt("v", TypeName::Option(Box::new(TypeName::Int)), call("json_parse_field_int", vec![var("text", 2, 42), var("text", 2, 48)], 2), 2),
    ]);

    let lowered = lower_with_capabilities(&parsed, &CapabilityConfig::default()).expect("both arguments are read before the moves");

    assert_eq!(lowered.stmts.len(), 2);
}

// let v: Option<int> = json_parse_field_int("{}", 1)
#[test]
fn json_field_key_must_be_a_string() {
    let parsed = program(vec![let_stmt("v", TypeName::Option(Box::new(TypeName::Int)), call("json_parse_field_int", vec![string("{}"), int_lit(1)], 1), 1)]);

    let error = lower_with_capabilities(&parsed, &CapabilityConfig::default()).expect_err("the key is an int");

    assert_eq!(error.message, "json_parse_field_int expects a string key argument, got int");
}

// let text: string = "a\nb"
// print string_line_at(text, "1")
#[test]
fn string_line_at_expects_an_int_line() {
    let parsed = program(vec![
        let_stmt("text", TypeName::String, string("a\nb"), 1),
        print_stmt(call("string_line_at", vec![var("text", 2, 22), string("1")], 2), 2),
    ]);

    let error = lower_with_capabilities(&parsed, &CapabilityConfig::default()).expect_err("the line is a string");
    assert_eq!(error.kind, "type");

    assert_eq!(error.message, "string_line_at expects argument 2 type int, got string");
}

// print encoding_url_component_encode("a", "b")
#[test]
fn encoding_arity_message_counts_arguments() {
    let parsed = program(vec![print_stmt(call("encoding_url_component_encode", vec![string("a"), string("b")], 1), 1)]);

    let error = lower_with_capabilities(&parsed, &CapabilityConfig::default()).expect_err("one argument too many");

    assert_eq!(error.message, "encoding_url_component_encode expects 1 argument(s), got 2");
}

// print fs_write("out.txt", "data"), without the fs_write capability
#[test]
fn fs_write_needs_the_fs_write_capability() {
    let parsed = program(vec![print_stmt(call("fs_write", vec![string("out.txt"), string("data")], 1), 1)]);

    let error = lower_with_capabilities(&parsed, &CapabilityConfig::default()).expect_err("fs_write is not granted");

    assert_eq!(error.message, "call to \"fs_write\" requires [capabilities].fs_write = true");
}

// print fs_mkdir("out", "x")
#[test]
fn fs_mkdir_takes_one_argument() {
    let parsed = program(vec![print_stmt(call("fs_mkdir", vec![string("out"), string("x")], 1), 1)]);
    let capabilities = CapabilityConfig { fs_write: true, ..CapabilityConfig::default() };

    let error = lower_with_capabilities(&parsed, &capabilities).expect_err("one argument too many");

    assert_eq!(error.message, "fs_mkdir expects 1 argument, got 2");
}

// print string_trim("  a  ")
#[test]
fn string_intrinsics_refuse_a_temporary_string() {
    let parsed = program(vec![print_stmt(call("string_trim", vec![string("  a  ")], 1), 1)]);

    let error = lower_with_capabilities(&parsed, &CapabilityConfig::default()).expect_err("a temporary String cannot be borrowed");

    assert_eq!(error.message, "cannot borrow a temporary String as &str; bind the String to a local first");
}
