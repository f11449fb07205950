use axiomc::lower_program::lower;
use axiomc::syntax::{EnumDecl, EnumVariantDecl, Program, StructDecl, StructField, TypeName};

fn program(structs: Vec<StructDecl>, enums: Vec<EnumDecl>) -> Program {
    Program {
        path: String::from("main.ax"),
        consts: Vec::new(),
        structs,
        enums,
        type_aliases: Vec::new(),
        functions: Vec::new(),
        stmts: Vec::new(),
    }
}

fn struct_decl(name: &str, fields: Vec<(&str, TypeName)>, line: usize) -> StructDecl {
    StructDecl {
        name: String::from(name),
        type_params: Vec::new(),
        fields: fields
            .into_iter()
            .enumerate()
            .map(|(i, (n, ty))| StructField { name: String::from(n), ty, line: line + 1 + i, column: 5 })
            .collect(),
        line,
        column: 1,
    }
}

fn named(name: &str) -> TypeName {
    TypeName::Named(String::from(name), Vec::new())
}

fn variant(name: &str, payload_tys: Vec<TypeName>, line: usize) -> EnumVariantDecl {
    EnumVariantDecl { name: String::from(name), payload_tys, payload_names: Vec::new(), line, column: 3 }
}

#[test]
fn struct_containing_itself_is_refused() {
    let node = struct_decl("Node", vec![("value", TypeName::Int), ("next", named("Node"))], 1);
    let error = lower(&program(vec![node], Vec::new())).expect_err("infinite size");
    assert_eq!(error.kind, "type");
    assert_eq!(
        error.message,
        "recursive field \"next\" in struct \"Node\" requires indirection; unboxed recursive types are not supported"
    );
    assert_eq!((error.line, error.column), (Some(3), Some(5)));
}

#[test]
fn option_is_no_indirection_but_a_pointer_is() {
    let node = struct_decl("Node", vec![("next", TypeName::Option(Box::new(named("Node"))))], 1);
    let error = lower(&program(vec![node], Vec::new())).expect_err("option holds the value");
    assert!(error.message.starts_with("recursive field \"next\" in struct \"Node\""));

    let node = struct_decl("Node", vec![("next", TypeName::Ptr(Box::new(named("Node"))))], 1);
    let lowered = lower(&program(vec![node], Vec::new())).expect("a pointer is indirection");
    assert_eq!(lowered.structs.len(), 1);
}

#[test]
fn mutually_recursive_structs_are_refused_at_the_first() {
    let a = struct_decl("A", vec![("b", TypeName::Tuple(vec![TypeName::Int, named("B")]))], 1);
    let b = struct_decl("B", vec![("a", named("A"))], 4);
    let error = lower(&program(vec![a, b], Vec::new())).expect_err("cycle");
    assert_eq!(
        error.message,
        "recursive field \"b\" in struct \"A\" requires indirection; unboxed recursive types are not supported"
    );
    assert_eq!(error.line, Some(2));
}

#[test]
fn enum_containing_itself_is_refused_at_the_variant() {
    let list = EnumDecl {
        name: String::from("List"),
        type_params: Vec::new(),
        variants: vec![variant("Nil", Vec::new(), 2), variant("Cons", vec![TypeName::Int, named("List")], 3)],
        line: 1,
        column: 1,
    };
    let error = lower(&program(Vec::new(), vec![list])).expect_err("infinite size");
    assert_eq!(
        error.message,
        "recursive payload variant \"Cons\" in enum \"List\" requires indirection; unboxed recursive types are not supported"
    );
    assert_eq!((error.line, error.column), (Some(3), Some(3)));

    let list = EnumDecl {
        name: String::from("List"),
        type_params: Vec::new(),
        variants: vec![variant("Nil", Vec::new(), 2), variant("Cons", vec![TypeName::Slice(Box::new(named("List")))], 3)],
        line: 1,
        column: 1,
    };
    assert!(lower(&program(Vec::new(), vec![list])).is_ok());
}
