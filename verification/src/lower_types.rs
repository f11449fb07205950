//! Lowering of source type names to types, and the declared type names of a program.
use vstd::prelude::*;
use crate::capabilities::{contains_string, type_error};
use crate::const_eval::{consts_safe, non_negative_error, trimmed_array_len, trimmed_len_value};
use crate::derivation::{Derivation, Outcome, Step, deriv_at, seq_outcome, ty_at, tys_at};
use crate::diagnostics::Diagnostic;
use crate::model::Type;
use crate::render::{concat, debug_quoted, quote};
use crate::syntax::{ConstDecl, EnumDecl, StructDecl, TypeAliasDecl, TypeName};

verus! {

/// The struct and enum names a program declares.
#[derive(Debug)]
pub struct TypeNames {
    pub structs: Vec<String>,
    pub enums: Vec<String>,
}

/// `name` is one of `names`.
pub open spec fn listed(names: Seq<String>, name: Seq<char>) -> bool {
    exists|i: int| 0 <= i < names.len() && #[trigger] names[i]@ == name
}

/// The message for a named type that is neither a declared struct nor a declared enum.
pub open spec fn unknown_type_message(name: Seq<char>) -> Seq<char> {
    "unknown type "@ + debug_quoted(name)
}

/// The message for type arguments on a type that takes none.
pub open spec fn type_args_message(name: Seq<char>) -> Seq<char> {
    "type "@ + debug_quoted(name) + " does not take type arguments"@
}

/// `r` lowers the one component type of a wrapper type (`t` records it) and wraps it
/// with `wrap`.
pub open spec fn wrapped(r: Result<Type, Diagnostic>, t: Derivation, wrapped_ok: Type) -> bool {
    match ty_at(t, 0) {
        Err(d) => r == Err::<Type, Diagnostic>(d),
        Ok(_) => r == Ok::<Type, Diagnostic>(wrapped_ok),
    }
}

/// The type names of the async runtime, each written with one type argument.
pub open spec fn is_async_runtime_type(name: Seq<char>) -> bool {
    name == "Task"@ || name == "JoinHandle"@ || name == "AsyncChannel"@ || name == "SelectResult"@
}

/// Decides `is_async_runtime_type`.
pub fn is_async_runtime_type_name(name: &str) -> (r: bool)
    ensures
        r == is_async_runtime_type(name@),
{
    crate::text::str_eq(name, "Task") || crate::text::str_eq(name, "JoinHandle")
        || crate::text::str_eq(name, "AsyncChannel") || crate::text::str_eq(name, "SelectResult")
}

/// The async runtime type `name` of values of type `inner`.
pub open spec fn async_runtime_type(name: Seq<char>, inner: Type) -> Type {
    if name == "Task"@ {
        Type::Task(Box::new(inner))
    } else if name == "JoinHandle"@ {
        Type::JoinHandle(Box::new(inner))
    } else if name == "AsyncChannel"@ {
        Type::AsyncChannel(Box::new(inner))
    } else {
        Type::SelectResult(Box::new(inner))
    }
}

/// `r` is the lowering of the type name `tn`, written at `line`, `column`, and `t`
/// derives it: builtin scalars map to themselves, a name to the declared enum or
/// struct, and compound types component by component, left to right; the first
/// component that fails decides the error.
pub open spec fn type_rel(tn: TypeName, names: TypeNames, consts: Seq<ConstDecl>, line: usize, column: usize, r: Result<Type, Diagnostic>, t: Derivation) -> bool
    decreases tn,
{
    let first = ty_at(t, 0);
    let second = ty_at(t, 1);
    match tn {
        TypeName::Int => r == Ok::<Type, Diagnostic>(Type::Int),
        TypeName::Numeric(n) => r == Ok::<Type, Diagnostic>(Type::Numeric(n)),
        TypeName::Bool => r == Ok::<Type, Diagnostic>(Type::Bool),
        TypeName::String => r == Ok::<Type, Diagnostic>(Type::String),
        TypeName::Str => r == Ok::<Type, Diagnostic>(Type::Str),
        TypeName::Named(name, args) => {
            if is_async_runtime_type(name@) && args.len() == 1 {
                &&& types_rel(args, 0, names, consts, line, column, tys_at(t, 0), deriv_at(t, 0))
                &&& match tys_at(t, 0) {
                    Err(d) => r == Err::<Type, Diagnostic>(d),
                    Ok(xs) => r == Ok::<Type, Diagnostic>(async_runtime_type(name@, xs[0])),
                }
            } else if args.len() > 0 {
                r is Err && type_error(r->Err_0, type_args_message(name@), line, column)
            } else if listed(names.enums@, name@) {
                r == Ok::<Type, Diagnostic>(Type::Enum(name))
            } else if listed(names.structs@, name@) {
                r == Ok::<Type, Diagnostic>(Type::Struct(name))
            } else {
                r is Err && type_error(r->Err_0, unknown_type_message(name@), line, column)
            }
        },
        TypeName::Ptr(inner) => type_rel(*inner, names, consts, line, column, first, deriv_at(t, 0))
            && wrapped(r, t, Type::Ptr(Box::new(first->Ok_0))),
        TypeName::MutPtr(inner) => type_rel(*inner, names, consts, line, column, first, deriv_at(t, 0))
            && wrapped(r, t, Type::MutPtr(Box::new(first->Ok_0))),
        TypeName::MutRef(inner) => type_rel(*inner, names, consts, line, column, first, deriv_at(t, 0))
            && wrapped(r, t, Type::MutRef(Box::new(first->Ok_0))),
        TypeName::Slice(inner) => type_rel(*inner, names, consts, line, column, first, deriv_at(t, 0))
            && wrapped(r, t, Type::Slice(Box::new(first->Ok_0))),
        TypeName::MutSlice(inner) => type_rel(*inner, names, consts, line, column, first, deriv_at(t, 0))
            && wrapped(r, t, Type::MutSlice(Box::new(first->Ok_0))),
        TypeName::LifetimeSlice(_, inner) => type_rel(*inner, names, consts, line, column, first, deriv_at(t, 0))
            && wrapped(r, t, Type::Slice(Box::new(first->Ok_0))),
        TypeName::LifetimeMutSlice(_, inner) => type_rel(*inner, names, consts, line, column, first, deriv_at(t, 0))
            && wrapped(r, t, Type::MutSlice(Box::new(first->Ok_0))),
        TypeName::Option(inner) => type_rel(*inner, names, consts, line, column, first, deriv_at(t, 0))
            && wrapped(r, t, Type::Option(Box::new(first->Ok_0))),
        TypeName::Result(ok, err) | TypeName::MapOf(ok, err) => {
            &&& type_rel(*ok, names, consts, line, column, first, deriv_at(t, 0))
            &&& match first {
                Err(d) => r == Err::<Type, Diagnostic>(d),
                Ok(a) => type_rel(*err, names, consts, line, column, second, deriv_at(t, 1)) && match second {
                    Err(d) => r == Err::<Type, Diagnostic>(d),
                    Ok(b) => r == Ok::<Type, Diagnostic>(if tn is Result {
                        Type::Result(Box::new(a), Box::new(b))
                    } else {
                        Type::MapOf(Box::new(a), Box::new(b))
                    }),
                },
            }
        },
        TypeName::Tuple(elements) => {
            &&& types_rel(elements, 0, names, consts, line, column, tys_at(t, 0), deriv_at(t, 0))
            &&& match tys_at(t, 0) {
                Err(d) => r == Err::<Type, Diagnostic>(d),
                Ok(xs) => r is Ok && r->Ok_0 is Tuple && r->Ok_0->Tuple_0@ == xs,
            }
        },
        TypeName::Array(inner, len) => {
            &&& type_rel(*inner, names, consts, line, column, first, deriv_at(t, 0))
            &&& match first {
                Err(d) => r == Err::<Type, Diagnostic>(d),
                Ok(a) => match len {
                    None => r == Ok::<Type, Diagnostic>(Type::Array(Box::new(a), None)),
                    Some(raw) => match trimmed_len_value(raw@, consts, line, column) {
                        Err((message, l, c)) => r is Err && type_error(r->Err_0, message, l, c),
                        Ok(v) => if v < 0 {
                            r is Err && type_error(r->Err_0, "array length must be non-negative"@, line, column)
                        } else {
                            r == Ok::<Type, Diagnostic>(Type::Array(Box::new(a), Some(v as usize)))
                        },
                    },
                },
            }
        },
        TypeName::Fn(params, ret) => {
            &&& types_rel(params, 0, names, consts, line, column, tys_at(t, 0), deriv_at(t, 0))
            &&& match tys_at(t, 0) {
                Err(d) => r == Err::<Type, Diagnostic>(d),
                Ok(xs) => type_rel(*ret, names, consts, line, column, second, deriv_at(t, 1)) && match second {
                    Err(d) => r == Err::<Type, Diagnostic>(d),
                    Ok(b) => r is Ok && r->Ok_0 is Fn && r->Ok_0->Fn_0@ == xs && *r->Ok_0->Fn_1 == b,
                },
            }
        },
    }
}

/// `r` is the lowering of the type names from position `i` on, in order; the first
/// failure decides the error.
pub open spec fn types_rel(tns: Vec<TypeName>, i: int, names: TypeNames, consts: Seq<ConstDecl>, line: usize, column: usize, r: Result<Seq<Type>, Diagnostic>, t: Derivation) -> bool
    decreases tns, tns.len() - i,
{
    if i < 0 || i >= tns.len() {
        r == Ok::<Seq<Type>, Diagnostic>(Seq::empty())
    } else {
        &&& type_rel(tns[i], names, consts, line, column, ty_at(t, 0), deriv_at(t, 0))
        &&& match ty_at(t, 0) {
            Err(d) => r == Err::<Seq<Type>, Diagnostic>(d),
            Ok(x) => types_rel(tns, i + 1, names, consts, line, column, tys_at(t, 1), deriv_at(t, 1)) && match tys_at(t, 1) {
                Err(d) => r == Err::<Seq<Type>, Diagnostic>(d),
                Ok(xs) => r == Ok::<Seq<Type>, Diagnostic>(seq![x] + xs),
            },
        }
    }
}

/// A derivation with one sub-lowering of a type.
pub open spec fn ty_node(r: Result<Type, Diagnostic>, t: Derivation) -> Derivation {
    Derivation::Node(seq![Step { out: Outcome::Ty(r), env: seq![], edges: seq![], sub: t }])
}

fn type_error_at(message: String, line: usize, column: usize) -> (d: Diagnostic)
    ensures
        type_error(d, message@, line, column),
{
    Diagnostic::new("type", message).with_span(line, column)
}

/// Lowers a source type name written at `line`, `column`.
pub fn lower_type(tn: &TypeName, names: &TypeNames, consts: &Vec<ConstDecl>, line: usize, column: usize) -> (out: (Result<Type, Diagnostic>, Ghost<Derivation>))
    requires
        consts_safe(consts@),
    ensures
        type_rel(*tn, *names, consts@, line, column, out.0, out.1@),
    decreases tn, 1int,
{
    match tn {
        TypeName::Int => (Ok(Type::Int), Ghost(Derivation::Leaf)),
        TypeName::Numeric(n) => (Ok(Type::Numeric(*n)), Ghost(Derivation::Leaf)),
        TypeName::Bool => (Ok(Type::Bool), Ghost(Derivation::Leaf)),
        TypeName::String => (Ok(Type::String), Ghost(Derivation::Leaf)),
        TypeName::Str => (Ok(Type::Str), Ghost(Derivation::Leaf)),
        TypeName::Named(name, args) => {
            if args.len() == 1 && is_async_runtime_type_name(name.as_str()) {
                let (rs, Ghost(ts)) = lower_types(args, 0, names, consts, line, column);
                let ghost t = Derivation::Node(seq![Step { out: Outcome::Tys(seq_outcome(rs)), env: seq![], edges: seq![], sub: ts }]);
                return match rs {
                    Err(d) => (Err(d), Ghost(t)),
                    Ok(v) => {
                        proof {
                            reveal_with_fuel(types_rel, 2);
                            assert(v@.len() == 1);
                        }
                        let ghost vv = v@;
                        let mut v = v;
                        let inner = match v.pop() {
                            Some(x) => x,
                            None => Type::Error,
                        };
                        assert(inner == vv[0]);
                        let b = Box::new(inner);
                        let ty = if crate::text::str_eq(name.as_str(), "Task") {
                            Type::Task(b)
                        } else if crate::text::str_eq(name.as_str(), "JoinHandle") {
                            Type::JoinHandle(b)
                        } else if crate::text::str_eq(name.as_str(), "AsyncChannel") {
                            Type::AsyncChannel(b)
                        } else {
                            Type::SelectResult(b)
                        };
                        (Ok(ty), Ghost(t))
                    },
                };
            }
            if args.len() > 0 {
                let m = concat(concat(String::from_str("type "), quote(name.as_str()).as_str()), " does not take type arguments");
                return (Err(type_error_at(m, line, column)), Ghost(Derivation::Leaf));
            }
            if contains_string(&names.enums, name.as_str()) {
                (Ok(Type::Enum(name.clone())), Ghost(Derivation::Leaf))
            } else if contains_string(&names.structs, name.as_str()) {
                (Ok(Type::Struct(name.clone())), Ghost(Derivation::Leaf))
            } else {
                let m = concat(String::from_str("unknown type "), quote(name.as_str()).as_str());
                (Err(type_error_at(m, line, column)), Ghost(Derivation::Leaf))
            }
        },
        TypeName::Ptr(_) | TypeName::MutPtr(_) | TypeName::MutRef(_) | TypeName::Slice(_)
        | TypeName::MutSlice(_) | TypeName::LifetimeSlice(_, _) | TypeName::LifetimeMutSlice(_, _)
        | TypeName::Option(_) => lower_wrapper_type(tn, names, consts, line, column),
        TypeName::Result(_, _) | TypeName::MapOf(_, _) => lower_pair_type(tn, names, consts, line, column),
        TypeName::Array(_, _) => lower_array_type(tn, names, consts, line, column),
        TypeName::Tuple(_) | TypeName::Fn(_, _) => lower_list_type(tn, names, consts, line, column),
    }
}

fn lower_wrapper_type(tn: &TypeName, names: &TypeNames, consts: &Vec<ConstDecl>, line: usize, column: usize) -> (out: (Result<Type, Diagnostic>, Ghost<Derivation>))
    requires
        consts_safe(consts@),
        tn is Ptr || tn is MutPtr || tn is MutRef || tn is Slice || tn is MutSlice || tn is LifetimeSlice
            || tn is LifetimeMutSlice || tn is Option,
    ensures
        type_rel(*tn, *names, consts@, line, column, out.0, out.1@),
    decreases tn, 0int,
{
    let inner = match tn {
        TypeName::Ptr(inner) | TypeName::MutPtr(inner) | TypeName::MutRef(inner) | TypeName::Slice(inner)
        | TypeName::MutSlice(inner) | TypeName::LifetimeSlice(_, inner) | TypeName::LifetimeMutSlice(_, inner)
        | TypeName::Option(inner) => inner,
        _ => { assert(false); return (Ok(Type::Int), Ghost(Derivation::Leaf)); },
    };
    let (ri, Ghost(ti)) = lower_type(inner, names, consts, line, column);
    let ghost t = ty_node(ri, ti);
    match ri {
        Err(d) => (Err(d), Ghost(t)),
        Ok(x) => {
            let b = Box::new(x);
            let ty = match tn {
                TypeName::Ptr(_) => Type::Ptr(b),
                TypeName::MutPtr(_) => Type::MutPtr(b),
                TypeName::MutRef(_) => Type::MutRef(b),
                TypeName::Slice(_) | TypeName::LifetimeSlice(_, _) => Type::Slice(b),
                TypeName::MutSlice(_) | TypeName::LifetimeMutSlice(_, _) => Type::MutSlice(b),
                _ => Type::Option(b),
            };
            (Ok(ty), Ghost(t))
        },
    }
}

fn lower_pair_type(tn: &TypeName, names: &TypeNames, consts: &Vec<ConstDecl>, line: usize, column: usize) -> (out: (Result<Type, Diagnostic>, Ghost<Derivation>))
    requires
        consts_safe(consts@),
        tn is Result || tn is MapOf,
    ensures
        type_rel(*tn, *names, consts@, line, column, out.0, out.1@),
    decreases tn, 0int,
{
    let (ok, err) = match tn {
        TypeName::Result(ok, err) | TypeName::MapOf(ok, err) => (ok, err),
        _ => { assert(false); return (Ok(Type::Int), Ghost(Derivation::Leaf)); },
    };
    let (ra, Ghost(ta)) = lower_type(ok, names, consts, line, column);
    let a = match ra {
        Err(d) => return (Err(d), Ghost(ty_node(ra, ta))),
        Ok(a) => a,
    };
    let (rb, Ghost(tb)) = lower_type(err, names, consts, line, column);
    let ghost t = Derivation::Node(seq![
        Step { out: Outcome::Ty(ra), env: seq![], edges: seq![], sub: ta },
        Step { out: Outcome::Ty(rb), env: seq![], edges: seq![], sub: tb },
    ]);
    match rb {
        Err(d) => (Err(d), Ghost(t)),
        Ok(b) => {
            let ty = if matches!(tn, TypeName::Result(_, _)) {
                Type::Result(Box::new(a), Box::new(b))
            } else {
                Type::MapOf(Box::new(a), Box::new(b))
            };
            (Ok(ty), Ghost(t))
        },
    }
}

fn lower_array_type(tn: &TypeName, names: &TypeNames, consts: &Vec<ConstDecl>, line: usize, column: usize) -> (out: (Result<Type, Diagnostic>, Ghost<Derivation>))
    requires
        consts_safe(consts@),
        tn is Array,
    ensures
        type_rel(*tn, *names, consts@, line, column, out.0, out.1@),
    decreases tn, 0int,
{
    let (inner, len) = match tn {
        TypeName::Array(inner, len) => (inner, len),
        _ => { assert(false); return (Ok(Type::Int), Ghost(Derivation::Leaf)); },
    };
    let (ri, Ghost(ti)) = lower_type(inner, names, consts, line, column);
    let ghost t = ty_node(ri, ti);
    let a = match ri {
        Err(d) => return (Err(d), Ghost(t)),
        Ok(a) => a,
    };
    match len {
        None => (Ok(Type::Array(Box::new(a), None)), Ghost(t)),
        Some(raw) => {
            let v = match trimmed_array_len(raw, consts, line, column) {
                Err(d) => return (Err(d), Ghost(t)),
                Ok(v) => v,
            };
            if v < 0 {
                return (Err(non_negative_error(line, column)), Ghost(t));
            }
            (Ok(Type::Array(Box::new(a), Some(#[verifier::truncate] (v as usize)))), Ghost(t))
        },
    }
}

fn lower_list_type(tn: &TypeName, names: &TypeNames, consts: &Vec<ConstDecl>, line: usize, column: usize) -> (out: (Result<Type, Diagnostic>, Ghost<Derivation>))
    requires
        consts_safe(consts@),
        tn is Tuple || tn is Fn,
    ensures
        type_rel(*tn, *names, consts@, line, column, out.0, out.1@),
    decreases tn, 0int,
{
    match tn {
        TypeName::Tuple(elements) => {
            let (rs, Ghost(ts)) = lower_types(elements, 0, names, consts, line, column);
            let ghost t = Derivation::Node(seq![Step { out: Outcome::Tys(seq_outcome(rs)), env: seq![], edges: seq![], sub: ts }]);
            match rs {
                Err(d) => (Err(d), Ghost(t)),
                Ok(v) => (Ok(Type::Tuple(v)), Ghost(t)),
            }
        },
        TypeName::Fn(params, ret) => {
            let (rs, Ghost(ts)) = lower_types(params, 0, names, consts, line, column);
            let ghost s0 = Step { out: Outcome::Tys(seq_outcome(rs)), env: seq![], edges: seq![], sub: ts };
            let ps = match rs {
                Err(d) => return (Err(d), Ghost(Derivation::Node(seq![s0]))),
                Ok(v) => v,
            };
            let (rb, Ghost(tb)) = lower_type(ret, names, consts, line, column);
            let ghost t = Derivation::Node(seq![s0, Step { out: Outcome::Ty(rb), env: seq![], edges: seq![], sub: tb }]);
            match rb {
                Err(d) => (Err(d), Ghost(t)),
                Ok(b) => (Ok(Type::Fn(ps, Box::new(b))), Ghost(t)),
            }
        },
        _ => { assert(false); (Ok(Type::Int), Ghost(Derivation::Leaf)) },
    }
}

/// Lowers the type names from position `i` on, in order.
pub fn lower_types(tns: &Vec<TypeName>, i: usize, names: &TypeNames, consts: &Vec<ConstDecl>, line: usize, column: usize) -> (out: (Result<Vec<Type>, Diagnostic>, Ghost<Derivation>))
    requires
        consts_safe(consts@),
        i <= tns.len(),
    ensures
        types_rel(*tns, i as int, *names, consts@, line, column, seq_outcome(out.0), out.1@),
    decreases tns, tns.len() - i,
{
    if i >= tns.len() {
        return (Ok(Vec::new()), Ghost(Derivation::Leaf));
    }
    proof { assert(decreases_to!(tns => tns[i as int])); }
    let (ra, Ghost(ta)) = lower_type(&tns[i], names, consts, line, column);
    let a = match ra {
        Err(d) => return (Err(d), Ghost(ty_node(ra, ta))),
        Ok(a) => a,
    };
    let (rs, Ghost(ts)) = lower_types(tns, i + 1, names, consts, line, column);
    let ghost rsv = seq_outcome(rs);
    let ghost t = Derivation::Node(seq![
        Step { out: Outcome::Ty(ra), env: seq![], edges: seq![], sub: ta },
        Step { out: Outcome::Tys(rsv), env: seq![], edges: seq![], sub: ts },
    ]);
    match rs {
        Err(d) => (Err(d), Ghost(t)),
        Ok(rest) => {
            let mut v: Vec<Type> = Vec::new();
            v.push(a);
            let mut rest = rest;
            v.append(&mut rest);
            proof { assert(v@ =~= seq![ra->Ok_0] + rsv->Ok_0); }
            (Ok(v), Ghost(t))
        },
    }
}

/// The first struct from position `i` on whose name an earlier struct already took.
pub open spec fn struct_name_clash(structs: Vec<StructDecl>, i: int) -> Option<(Seq<char>, usize, usize)>
    decreases structs.len() - i,
{
    if i < 0 || i >= structs.len() {
        None
    } else if exists|j: int| 0 <= j < i && #[trigger] structs[j].name@ == structs[i].name@ {
        Some(("duplicate struct "@ + debug_quoted(structs[i].name@), structs[i].line, structs[i].column))
    } else {
        struct_name_clash(structs, i + 1)
    }
}

/// The first enum from position `i` on whose name a struct or an earlier enum took.
pub open spec fn enum_name_clash(structs: Vec<StructDecl>, enums: Vec<EnumDecl>, i: int) -> Option<(Seq<char>, usize, usize)>
    decreases enums.len() - i,
{
    if i < 0 || i >= enums.len() {
        None
    } else if exists|j: int| 0 <= j < structs.len() && #[trigger] structs[j].name@ == enums[i].name@ {
        Some(("duplicate type name "@ + debug_quoted(enums[i].name@), enums[i].line, enums[i].column))
    } else if exists|j: int| 0 <= j < i && #[trigger] enums[j].name@ == enums[i].name@ {
        Some(("duplicate enum "@ + debug_quoted(enums[i].name@), enums[i].line, enums[i].column))
    } else {
        enum_name_clash(structs, enums, i + 1)
    }
}

/// The first type alias from position `i` on whose name a struct, an enum or an earlier
/// alias took.
pub open spec fn alias_name_clash(structs: Vec<StructDecl>, enums: Vec<EnumDecl>, aliases: Vec<TypeAliasDecl>, i: int) -> Option<(Seq<char>, usize, usize)>
    decreases aliases.len() - i,
{
    if i < 0 || i >= aliases.len() {
        None
    } else if (exists|j: int| 0 <= j < structs.len() && #[trigger] structs[j].name@ == aliases[i].name@)
        || (exists|j: int| 0 <= j < enums.len() && #[trigger] enums[j].name@ == aliases[i].name@) {
        Some(("duplicate type name "@ + debug_quoted(aliases[i].name@), aliases[i].line, aliases[i].column))
    } else if exists|j: int| 0 <= j < i && #[trigger] aliases[j].name@ == aliases[i].name@ {
        Some(("duplicate type alias "@ + debug_quoted(aliases[i].name@), aliases[i].line, aliases[i].column))
    } else {
        alias_name_clash(structs, enums, aliases, i + 1)
    }
}

/// The first clash among the declared type names: structs, then enums, then aliases.
pub open spec fn type_name_clash(structs: Vec<StructDecl>, enums: Vec<EnumDecl>, aliases: Vec<TypeAliasDecl>) -> Option<(Seq<char>, usize, usize)> {
    match struct_name_clash(structs, 0) {
        Some(c) => Some(c),
        None => match enum_name_clash(structs, enums, 0) {
            Some(c) => Some(c),
            None => alias_name_clash(structs, enums, aliases, 0),
        },
    }
}

/// `names` lists exactly the declared struct and enum names, in declaration order.
pub open spec fn names_of(names: TypeNames, structs: Vec<StructDecl>, enums: Vec<EnumDecl>) -> bool {
    &&& names.structs@.len() == structs.len()
    &&& forall|i: int| 0 <= i < structs.len() ==> #[trigger] names.structs@[i]@ == structs[i].name@
    &&& names.enums@.len() == enums.len()
    &&& forall|i: int| 0 <= i < enums.len() ==> #[trigger] names.enums@[i]@ == enums[i].name@
}

/// Collects the declared struct and enum names, refusing a name declared twice.
pub fn collect_type_names(structs: &Vec<StructDecl>, enums: &Vec<EnumDecl>, aliases: &Vec<TypeAliasDecl>) -> (r: Result<TypeNames, Diagnostic>)
    ensures
        match type_name_clash(*structs, *enums, *aliases) {
            Some((message, line, column)) => r is Err && type_error(r->Err_0, message, line, column),
            None => r is Ok && names_of(r->Ok_0, *structs, *enums),
        },
{
    let mut struct_names: Vec<String> = Vec::new();
    let mut i: usize = 0;
    while i < structs.len()
        invariant
            i <= structs.len(),
            struct_names@.len() == i,
            forall|k: int| 0 <= k < i ==> #[trigger] struct_names@[k]@ == structs[k].name@,
            struct_name_clash(*structs, 0) == struct_name_clash(*structs, i as int),
        decreases structs.len() - i,
    {
        let decl = &structs[i];
        if contains_string(&struct_names, decl.name.as_str()) {
            proof {
                let j = choose|j: int| 0 <= j < struct_names@.len() && #[trigger] struct_names@[j]@ == decl.name@;
                assert(structs[j].name@ == structs[i as int].name@);
            }
            let m = concat(String::from_str("duplicate struct "), quote(decl.name.as_str()).as_str());
            return Err(type_error_at(m, decl.line, decl.column));
        }
        proof {
            assert forall|j: int| 0 <= j < i implies #[trigger] structs[j].name@ != structs[i as int].name@ by {
                assert(struct_names@[j]@ == structs[j].name@);
            }
        }
        struct_names.push(decl.name.clone());
        i = i + 1;
    }
    let mut enum_names: Vec<String> = Vec::new();
    let mut i: usize = 0;
    while i < enums.len()
        invariant
            i <= enums.len(),
            struct_names@.len() == structs.len(),
            forall|k: int| 0 <= k < structs.len() ==> #[trigger] struct_names@[k]@ == structs[k].name@,
            struct_name_clash(*structs, 0) is None,
            enum_names@.len() == i,
            forall|k: int| 0 <= k < i ==> #[trigger] enum_names@[k]@ == enums[k].name@,
            enum_name_clash(*structs, *enums, 0) == enum_name_clash(*structs, *enums, i as int),
        decreases enums.len() - i,
    {
        let decl = &enums[i];
        if contains_string(&struct_names, decl.name.as_str()) {
            proof {
                let j = choose|j: int| 0 <= j < struct_names@.len() && #[trigger] struct_names@[j]@ == decl.name@;
                assert(structs[j].name@ == enums[i as int].name@);
            }
            let m = concat(String::from_str("duplicate type name "), quote(decl.name.as_str()).as_str());
            return Err(type_error_at(m, decl.line, decl.column));
        }
        proof {
            assert forall|j: int| 0 <= j < structs.len() implies #[trigger] structs[j].name@ != enums[i as int].name@ by {
                assert(struct_names@[j]@ == structs[j].name@);
            }
        }
        if contains_string(&enum_names, decl.name.as_str()) {
            proof {
                let j = choose|j: int| 0 <= j < enum_names@.len() && #[trigger] enum_names@[j]@ == decl.name@;
                assert(enums[j].name@ == enums[i as int].name@);
            }
            let m = concat(String::from_str("duplicate enum "), quote(decl.name.as_str()).as_str());
            return Err(type_error_at(m, decl.line, decl.column));
        }
        proof {
            assert forall|j: int| 0 <= j < i implies #[trigger] enums[j].name@ != enums[i as int].name@ by {
                assert(enum_names@[j]@ == enums[j].name@);
            }
        }
        enum_names.push(decl.name.clone());
        i = i + 1;
    }
    let mut alias_names: Vec<String> = Vec::new();
    let mut i: usize = 0;
    while i < aliases.len()
        invariant
            i <= aliases.len(),
            struct_names@.len() == structs.len(),
            forall|k: int| 0 <= k < structs.len() ==> #[trigger] struct_names@[k]@ == structs[k].name@,
            enum_names@.len() == enums.len(),
            forall|k: int| 0 <= k < enums.len() ==> #[trigger] enum_names@[k]@ == enums[k].name@,
            struct_name_clash(*structs, 0) is None,
            enum_name_clash(*structs, *enums, 0) is None,
            alias_names@.len() == i,
            forall|k: int| 0 <= k < i ==> #[trigger] alias_names@[k]@ == aliases[k].name@,
            alias_name_clash(*structs, *enums, *aliases, 0) == alias_name_clash(*structs, *enums, *aliases, i as int),
        decreases aliases.len() - i,
    {
        let decl = &aliases[i];
        if contains_string(&struct_names, decl.name.as_str()) || contains_string(&enum_names, decl.name.as_str()) {
            proof {
                if exists|j: int| 0 <= j < struct_names@.len() && #[trigger] struct_names@[j]@ == decl.name@ {
                    let j = choose|j: int| 0 <= j < struct_names@.len() && #[trigger] struct_names@[j]@ == decl.name@;
                    assert(structs[j].name@ == aliases[i as int].name@);
                } else {
                    let j = choose|j: int| 0 <= j < enum_names@.len() && #[trigger] enum_names@[j]@ == decl.name@;
                    assert(enums[j].name@ == aliases[i as int].name@);
                }
            }
            let m = concat(String::from_str("duplicate type name "), quote(decl.name.as_str()).as_str());
            return Err(type_error_at(m, decl.line, decl.column));
        }
        proof {
            assert forall|j: int| 0 <= j < structs.len() implies #[trigger] structs[j].name@ != aliases[i as int].name@ by {
                assert(struct_names@[j]@ == structs[j].name@);
            }
            assert forall|j: int| 0 <= j < enums.len() implies #[trigger] enums[j].name@ != aliases[i as int].name@ by {
                assert(enum_names@[j]@ == enums[j].name@);
            }
        }
        if contains_string(&alias_names, decl.name.as_str()) {
            proof {
                let j = choose|j: int| 0 <= j < alias_names@.len() && #[trigger] alias_names@[j]@ == decl.name@;
                assert(aliases[j].name@ == aliases[i as int].name@);
            }
            let m = concat(String::from_str("duplicate type alias "), quote(decl.name.as_str()).as_str());
            return Err(type_error_at(m, decl.line, decl.column));
        }
        proof {
            assert forall|j: int| 0 <= j < i implies #[trigger] aliases[j].name@ != aliases[i as int].name@ by {
                assert(alias_names@[j]@ == aliases[j].name@);
            }
        }
        alias_names.push(decl.name.clone());
        i = i + 1;
    }
    Ok(TypeNames { structs: struct_names, enums: enum_names })
}

} // verus!
