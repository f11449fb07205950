//! Structs and enums that contain themselves without indirection: a field or payload
//! type from which the declaring struct or enum is reachable through other structs,
//! enums, options, results, tuples or async runtime types (but not through pointers,
//! references, slices, maps, arrays or functions) is refused.
use vstd::prelude::*;
use crate::capabilities::type_error;
use crate::diagnostics::Diagnostic;
use crate::lower_expr::{quoted_message, type_error_at};
use crate::model::{EnumDef, EnumVariantDef, StructDef, StructField, Type};
use crate::render::{concat, debug_quoted, quote};
use crate::syntax::{EnumDecl, StructDecl};

verus! {

/// A struct or an enum, by name.
pub enum AggRef {
    Struct(Seq<char>),
    Enum(Seq<char>),
}

/// A struct or an enum, by name.
pub enum AggregateRef {
    Struct(String),
    Enum(String),
}

impl View for AggregateRef {
    type V = AggRef;

    open spec fn view(&self) -> AggRef {
        match self {
            AggregateRef::Struct(n) => AggRef::Struct(n@),
            AggregateRef::Enum(n) => AggRef::Enum(n@),
        }
    }
}

/// The position of the first struct definition named `name`, from position `i` on.
pub open spec fn struct_def_from(ss: Seq<StructDef>, name: Seq<char>, i: int) -> Option<int>
    decreases ss.len() - i,
{
    if i < 0 || i >= ss.len() {
        None
    } else if ss[i].name@ == name {
        Some(i)
    } else {
        struct_def_from(ss, name, i + 1)
    }
}

/// The position of the first struct definition named `name`.
pub open spec fn struct_def_index(ss: Seq<StructDef>, name: Seq<char>) -> Option<int> {
    struct_def_from(ss, name, 0)
}

/// The position of the first enum definition named `name`, from position `i` on.
pub open spec fn enum_def_from(es: Seq<EnumDef>, name: Seq<char>, i: int) -> Option<int>
    decreases es.len() - i,
{
    if i < 0 || i >= es.len() {
        None
    } else if es[i].name@ == name {
        Some(i)
    } else {
        enum_def_from(es, name, i + 1)
    }
}

/// The position of the first enum definition named `name`.
pub open spec fn enum_def_index(es: Seq<EnumDef>, name: Seq<char>) -> Option<int> {
    enum_def_from(es, name, 0)
}

proof fn lemma_struct_def_from(ss: Seq<StructDef>, name: Seq<char>, i: int)
    requires
        0 <= i,
    ensures
        struct_def_from(ss, name, i) matches Some(k) ==> i <= k < ss.len() && ss[k].name@ == name,
    decreases ss.len() - i,
{
    if i < ss.len() && ss[i].name@ != name {
        lemma_struct_def_from(ss, name, i + 1);
    }
}

proof fn lemma_enum_def_from(es: Seq<EnumDef>, name: Seq<char>, i: int)
    requires
        0 <= i,
    ensures
        enum_def_from(es, name, i) matches Some(k) ==> i <= k < es.len() && es[k].name@ == name,
    decreases es.len() - i,
{
    if i < es.len() && es[i].name@ != name {
        lemma_enum_def_from(es, name, i + 1);
    }
}

/// How many of the first `n` struct definitions the path does not pass through.
pub open spec fn unvisited_structs(ss: Seq<StructDef>, path: Seq<AggRef>, n: int) -> nat
    decreases n,
{
    if n <= 0 {
        0
    } else {
        unvisited_structs(ss, path, n - 1) + if path.contains(AggRef::Struct(ss[n - 1].name@)) { 0nat } else { 1nat }
    }
}

/// How many of the first `n` enum definitions the path does not pass through.
pub open spec fn unvisited_enums(es: Seq<EnumDef>, path: Seq<AggRef>, n: int) -> nat
    decreases n,
{
    if n <= 0 {
        0
    } else {
        unvisited_enums(es, path, n - 1) + if path.contains(AggRef::Enum(es[n - 1].name@)) { 0nat } else { 1nat }
    }
}

/// How many definitions the path does not pass through: what bounds the search.
pub open spec fn unvisited(ss: Seq<StructDef>, es: Seq<EnumDef>, path: Seq<AggRef>) -> nat {
    unvisited_structs(ss, path, ss.len() as int) + unvisited_enums(es, path, es.len() as int)
}

pub proof fn lemma_unvisited_structs_push(ss: Seq<StructDef>, path: Seq<AggRef>, x: AggRef, n: int, k: int)
    requires
        !path.contains(x),
    ensures
        unvisited_structs(ss, path.push(x), n) <= unvisited_structs(ss, path, n),
        0 <= k < n <= ss.len() && x == AggRef::Struct(ss[k].name@) ==> unvisited_structs(ss, path.push(x), n) < unvisited_structs(ss, path, n),
    decreases n,
{
    if n > 0 {
        lemma_unvisited_structs_push(ss, path, x, n - 1, k);
        let y = AggRef::Struct(ss[n - 1].name@);
        if path.contains(y) {
            assert(path.push(x).contains(y)) by {
                let i = choose|i: int| 0 <= i < path.len() && path[i] == y;
                assert(path.push(x)[i] == y);
            }
        }
        if y == x {
            assert(path.push(x)[path.len() as int] == x);
        }
    }
}

pub proof fn lemma_unvisited_enums_push(es: Seq<EnumDef>, path: Seq<AggRef>, x: AggRef, n: int, k: int)
    requires
        !path.contains(x),
    ensures
        unvisited_enums(es, path.push(x), n) <= unvisited_enums(es, path, n),
        0 <= k < n <= es.len() && x == AggRef::Enum(es[k].name@) ==> unvisited_enums(es, path.push(x), n) < unvisited_enums(es, path, n),
    decreases n,
{
    if n > 0 {
        lemma_unvisited_enums_push(es, path, x, n - 1, k);
        let y = AggRef::Enum(es[n - 1].name@);
        if path.contains(y) {
            assert(path.push(x).contains(y)) by {
                let i = choose|i: int| 0 <= i < path.len() && path[i] == y;
                assert(path.push(x)[i] == y);
            }
        }
        if y == x {
            assert(path.push(x)[path.len() as int] == x);
        }
    }
}

/// Entering a definition that the path does not pass through shrinks what is left.
pub proof fn lemma_unvisited_shrinks(ss: Seq<StructDef>, es: Seq<EnumDef>, path: Seq<AggRef>, x: AggRef)
    requires
        !path.contains(x),
        (x matches AggRef::Struct(n) && struct_def_index(ss, n) is Some) || (x matches AggRef::Enum(n) && enum_def_index(es, n) is Some),
    ensures
        unvisited(ss, es, path.push(x)) < unvisited(ss, es, path),
{
    match x {
        AggRef::Struct(n) => {
            let k = struct_def_index(ss, n)->0;
            lemma_struct_def_from(ss, n, 0);
            lemma_unvisited_structs_push(ss, path, x, ss.len() as int, k);
            lemma_unvisited_enums_push(es, path, x, es.len() as int, 0);
        },
        AggRef::Enum(n) => {
            let k = enum_def_index(es, n)->0;
            lemma_enum_def_from(es, n, 0);
            lemma_unvisited_structs_push(ss, path, x, ss.len() as int, 0);
            lemma_unvisited_enums_push(es, path, x, es.len() as int, k);
        },
    }
}

/// Whether `owner` is reachable from the type `t` without indirection, the definitions
/// on `path` being entered already: a struct or enum is `owner` itself or leads to it
/// through its fields or payloads (one on the path leads nowhere new); options, results,
/// tuples and async runtime types lead through their components; anything else leads
/// nowhere.
pub open spec fn reaches(t: Type, owner: AggRef, ss: Seq<StructDef>, es: Seq<EnumDef>, path: Seq<AggRef>) -> bool
    decreases unvisited(ss, es, path), 1int, t, 0int,
{
    match t {
        Type::Struct(n) => if AggRef::Struct(n@) == owner {
            true
        } else if path.contains(AggRef::Struct(n@)) {
            false
        } else {
            match struct_def_index(ss, n@) {
                None => false,
                Some(i) => {
                    proof { lemma_unvisited_shrinks(ss, es, path, AggRef::Struct(n@)); }
                    fields_reach(ss[i].fields@, 0, owner, ss, es, path.push(AggRef::Struct(n@)))
                },
            }
        },
        Type::Enum(n) => if AggRef::Enum(n@) == owner {
            true
        } else if path.contains(AggRef::Enum(n@)) {
            false
        } else {
            match enum_def_index(es, n@) {
                None => false,
                Some(i) => {
                    proof { lemma_unvisited_shrinks(ss, es, path, AggRef::Enum(n@)); }
                    variants_reach(es[i].variants@, 0, owner, ss, es, path.push(AggRef::Enum(n@)))
                },
            }
        },
        Type::Option(x) | Type::Task(x) | Type::JoinHandle(x) | Type::AsyncChannel(x) | Type::SelectResult(x) => {
            reaches(*x, owner, ss, es, path)
        },
        Type::Result(a, b) => reaches(*a, owner, ss, es, path) || reaches(*b, owner, ss, es, path),
        Type::Tuple(items) => tys_reach(items@, 0, owner, ss, es, path),
        _ => false,
    }
}

/// `reaches` for some of the types of `ts` from position `i` on.
pub open spec fn tys_reach(ts: Seq<Type>, i: int, owner: AggRef, ss: Seq<StructDef>, es: Seq<EnumDef>, path: Seq<AggRef>) -> bool
    decreases unvisited(ss, es, path), 1int, ts, ts.len() - i,
{
    if i < 0 || i >= ts.len() {
        false
    } else {
        reaches(ts[i], owner, ss, es, path) || tys_reach(ts, i + 1, owner, ss, es, path)
    }
}

/// `reaches` for some of the types of the fields `fs` from position `j` on.
pub open spec fn fields_reach(fs: Seq<StructField>, j: int, owner: AggRef, ss: Seq<StructDef>, es: Seq<EnumDef>, path: Seq<AggRef>) -> bool
    decreases unvisited(ss, es, path), 2int, fs, fs.len() - j,
{
    if j < 0 || j >= fs.len() {
        false
    } else {
        reaches(fs[j].ty, owner, ss, es, path) || fields_reach(fs, j + 1, owner, ss, es, path)
    }
}

/// `tys_reach` for some of the payloads of the variants `vs` from position `j` on.
pub open spec fn variants_reach(vs: Seq<EnumVariantDef>, j: int, owner: AggRef, ss: Seq<StructDef>, es: Seq<EnumDef>, path: Seq<AggRef>) -> bool
    decreases unvisited(ss, es, path), 3int, vs, vs.len() - j,
{
    if j < 0 || j >= vs.len() {
        false
    } else {
        tys_reach(vs[j].payload_tys@, 0, owner, ss, es, path) || variants_reach(vs, j + 1, owner, ss, es, path)
    }
}

// ---------------------------------------------------------------------------
// The search.

/// The definitions a path of references passes through.
pub open spec fn path_view(p: Seq<AggregateRef>) -> Seq<AggRef> {
    Seq::new(p.len(), |i: int| p[i]@)
}

fn same_ref(a: &AggregateRef, b: &AggregateRef) -> (r: bool)
    ensures
        r == (a@ == b@),
{
    match (a, b) {
        (AggregateRef::Struct(x), AggregateRef::Struct(y)) => crate::text::str_eq(x.as_str(), y.as_str()),
        (AggregateRef::Enum(x), AggregateRef::Enum(y)) => crate::text::str_eq(x.as_str(), y.as_str()),
        _ => false,
    }
}

fn clone_ref(a: &AggregateRef) -> (r: AggregateRef)
    ensures
        r@ == a@,
{
    match a {
        AggregateRef::Struct(x) => AggregateRef::Struct(x.clone()),
        AggregateRef::Enum(x) => AggregateRef::Enum(x.clone()),
    }
}

fn path_contains(path: &Vec<AggregateRef>, x: &AggregateRef) -> (r: bool)
    ensures
        r == path_view(path@).contains(x@),
{
    let mut i: usize = 0;
    while i < path.len()
        invariant
            i <= path.len(),
            forall|k: int| 0 <= k < i ==> path_view(path@)[k] != x@,
        decreases path.len() - i,
    {
        if same_ref(&path[i], x) {
            proof { assert(path_view(path@)[i as int] == x@); }
            return true;
        }
        i = i + 1;
    }
    proof {
        if path_view(path@).contains(x@) {
            let k = choose|k: int| 0 <= k < path_view(path@).len() && path_view(path@)[k] == x@;
            assert(path_view(path@)[k] != x@);
        }
    }
    false
}

fn extended(path: &Vec<AggregateRef>, x: &AggregateRef) -> (r: Vec<AggregateRef>)
    ensures
        path_view(r@) == path_view(path@).push(x@),
{
    let mut out: Vec<AggregateRef> = Vec::new();
    let mut i: usize = 0;
    while i < path.len()
        invariant
            i <= path.len(),
            out.len() == i,
            forall|k: int| 0 <= k < i ==> (#[trigger] out@[k])@ == path@[k]@,
        decreases path.len() - i,
    {
        out.push(clone_ref(&path[i]));
        i = i + 1;
    }
    out.push(clone_ref(x));
    proof { assert(path_view(out@) =~= path_view(path@).push(x@)); }
    out
}

pub(crate) fn find_struct_def(ss: &Vec<StructDef>, name: &str) -> (r: Option<usize>)
    ensures
        r is Some <==> struct_def_index(ss@, name@) is Some,
        r is Some ==> r->0 < ss.len() && struct_def_index(ss@, name@) == Some(r->0 as int),
{
    let mut i: usize = 0;
    while i < ss.len()
        invariant
            i <= ss.len(),
            struct_def_from(ss@, name@, 0) == struct_def_from(ss@, name@, i as int),
        decreases ss.len() - i,
    {
        if crate::text::str_eq(ss[i].name.as_str(), name) {
            proof { lemma_struct_def_from(ss@, name@, i as int); }
            return Some(i);
        }
        i = i + 1;
    }
    None
}

pub(crate) fn find_enum_def(es: &Vec<EnumDef>, name: &str) -> (r: Option<usize>)
    ensures
        r is Some <==> enum_def_index(es@, name@) is Some,
        r is Some ==> r->0 < es.len() && enum_def_index(es@, name@) == Some(r->0 as int),
{
    let mut i: usize = 0;
    while i < es.len()
        invariant
            i <= es.len(),
            enum_def_from(es@, name@, 0) == enum_def_from(es@, name@, i as int),
        decreases es.len() - i,
    {
        if crate::text::str_eq(es[i].name.as_str(), name) {
            proof { lemma_enum_def_from(es@, name@, i as int); }
            return Some(i);
        }
        i = i + 1;
    }
    None
}

/// Whether `owner` is reachable from `t` without indirection (see `reaches`).
pub fn type_has_unboxed_recursive_path(t: &Type, owner: &AggregateRef, ss: &Vec<StructDef>, es: &Vec<EnumDef>, path: &Vec<AggregateRef>) -> (r: bool)
    ensures
        r == reaches(*t, owner@, ss@, es@, path_view(path@)),
    decreases unvisited(ss@, es@, path_view(path@)), 1int, t, 0int,
{
    match t {
        Type::Struct(n) => {
            let current = AggregateRef::Struct(n.clone());
            if same_ref(&current, owner) {
                return true;
            }
            if path_contains(path, &current) {
                return false;
            }
            match find_struct_def(ss, n.as_str()) {
                None => false,
                Some(i) => {
                    let next = extended(path, &current);
                    proof { lemma_unvisited_shrinks(ss@, es@, path_view(path@), current@); }
                    fields_have_unboxed_recursive_path(&ss[i].fields, 0, owner, ss, es, &next)
                },
            }
        },
        Type::Enum(n) => {
            let current = AggregateRef::Enum(n.clone());
            if same_ref(&current, owner) {
                return true;
            }
            if path_contains(path, &current) {
                return false;
            }
            match find_enum_def(es, n.as_str()) {
                None => false,
                Some(i) => {
                    let next = extended(path, &current);
                    proof { lemma_unvisited_shrinks(ss@, es@, path_view(path@), current@); }
                    variants_have_unboxed_recursive_path(&es[i].variants, 0, owner, ss, es, &next)
                },
            }
        },
        Type::Option(x) | Type::Task(x) | Type::JoinHandle(x) | Type::AsyncChannel(x) | Type::SelectResult(x) => {
            type_has_unboxed_recursive_path(x, owner, ss, es, path)
        },
        Type::Result(a, b) => {
            type_has_unboxed_recursive_path(a, owner, ss, es, path) || type_has_unboxed_recursive_path(b, owner, ss, es, path)
        },
        Type::Tuple(items) => types_have_unboxed_recursive_path(items, 0, owner, ss, es, path),
        _ => false,
    }
}

fn types_have_unboxed_recursive_path(ts: &Vec<Type>, i: usize, owner: &AggregateRef, ss: &Vec<StructDef>, es: &Vec<EnumDef>, path: &Vec<AggregateRef>) -> (r: bool)
    ensures
        r == tys_reach(ts@, i as int, owner@, ss@, es@, path_view(path@)),
    decreases unvisited(ss@, es@, path_view(path@)), 1int, ts, ts.len() - i,
{
    if i >= ts.len() {
        return false;
    }
    proof { assert(decreases_to!(ts => ts[i as int])); }
    type_has_unboxed_recursive_path(&ts[i], owner, ss, es, path) || types_have_unboxed_recursive_path(ts, i + 1, owner, ss, es, path)
}

fn fields_have_unboxed_recursive_path(fs: &Vec<StructField>, j: usize, owner: &AggregateRef, ss: &Vec<StructDef>, es: &Vec<EnumDef>, path: &Vec<AggregateRef>) -> (r: bool)
    ensures
        r == fields_reach(fs@, j as int, owner@, ss@, es@, path_view(path@)),
    decreases unvisited(ss@, es@, path_view(path@)), 2int, fs, fs.len() - j,
{
    if j >= fs.len() {
        return false;
    }
    type_has_unboxed_recursive_path(&fs[j].ty, owner, ss, es, path) || fields_have_unboxed_recursive_path(fs, j + 1, owner, ss, es, path)
}

fn variants_have_unboxed_recursive_path(vs: &Vec<EnumVariantDef>, j: usize, owner: &AggregateRef, ss: &Vec<StructDef>, es: &Vec<EnumDef>, path: &Vec<AggregateRef>) -> (r: bool)
    ensures
        r == variants_reach(vs@, j as int, owner@, ss@, es@, path_view(path@)),
    decreases unvisited(ss@, es@, path_view(path@)), 3int, vs, vs.len() - j,
{
    if j >= vs.len() {
        return false;
    }
    types_have_unboxed_recursive_path(&vs[j].payload_tys, 0, owner, ss, es, path)
        || variants_have_unboxed_recursive_path(vs, j + 1, owner, ss, es, path)
}

// ---------------------------------------------------------------------------
// Declarations.

/// The message for a struct field through which the struct contains itself.
pub open spec fn recursive_field_message(field: Seq<char>, owner: Seq<char>) -> Seq<char> {
    "recursive field "@ + debug_quoted(field) + " in struct "@ + debug_quoted(owner)
        + " requires indirection; unboxed recursive types are not supported"@
}

/// The message for an enum variant through whose payload the enum contains itself.
pub open spec fn recursive_variant_message(variant: Seq<char>, owner: Seq<char>) -> Seq<char> {
    "recursive payload variant "@ + debug_quoted(variant) + " in enum "@ + debug_quoted(owner)
        + " requires indirection; unboxed recursive types are not supported"@
}

/// The first field, from field `k` of struct `i` on, in declaration order, whose lowered
/// type (in `ss`, at the same positions) leads back to its struct without indirection.
pub open spec fn recursive_field(decls: Vec<StructDecl>, ss: Seq<StructDef>, es: Seq<EnumDef>, i: int, k: int) -> Option<(Seq<char>, usize, usize)>
    decreases decls.len() - i, decls[i].fields.len() - k,
{
    if i < 0 || i >= decls.len() {
        None
    } else if k < 0 || k >= decls[i].fields.len() {
        recursive_field(decls, ss, es, i + 1, 0)
    } else if i < ss.len() && k < ss[i].fields.len()
        && reaches(ss[i].fields@[k].ty, AggRef::Struct(decls[i].name@), ss, es, Seq::empty()) {
        Some((recursive_field_message(decls[i].fields[k].name@, decls[i].name@), decls[i].fields[k].line, decls[i].fields[k].column))
    } else {
        recursive_field(decls, ss, es, i, k + 1)
    }
}

/// The first variant, from variant `k` of enum `i` on, in declaration order, one of whose
/// lowered payload types (in `es`, at the same positions) leads back to its enum without
/// indirection.
pub open spec fn recursive_variant(decls: Vec<EnumDecl>, ss: Seq<StructDef>, es: Seq<EnumDef>, i: int, k: int) -> Option<(Seq<char>, usize, usize)>
    decreases decls.len() - i, decls[i].variants.len() - k,
{
    if i < 0 || i >= decls.len() {
        None
    } else if k < 0 || k >= decls[i].variants.len() {
        recursive_variant(decls, ss, es, i + 1, 0)
    } else if i < es.len() && k < es[i].variants.len()
        && tys_reach(es[i].variants@[k].payload_tys@, 0, AggRef::Enum(decls[i].name@), ss, es, Seq::empty()) {
        Some((recursive_variant_message(decls[i].variants[k].name@, decls[i].name@), decls[i].variants[k].line, decls[i].variants[k].column))
    } else {
        recursive_variant(decls, ss, es, i, k + 1)
    }
}

/// The first struct or enum that contains itself without indirection: the structs'
/// fields first, then the enums' variants.
pub open spec fn recursion_problem(structs: Vec<StructDecl>, enums: Vec<EnumDecl>, ss: Seq<StructDef>, es: Seq<EnumDef>) -> Option<(Seq<char>, usize, usize)> {
    match recursive_field(structs, ss, es, 0, 0) {
        Some(p) => Some(p),
        None => recursive_variant(enums, ss, es, 0, 0),
    }
}

/// Refuses a struct or enum of `structs`, `enums` that contains itself without
/// indirection, by the lowered definitions `ss`, `es` (see `recursion_problem`).
pub fn validate_recursive_type_cycles(structs: &Vec<StructDecl>, enums: &Vec<EnumDecl>, ss: &Vec<StructDef>, es: &Vec<EnumDef>) -> (r: Result<(), Diagnostic>)
    ensures
        match recursion_problem(*structs, *enums, ss@, es@) {
            None => r is Ok,
            Some((m, l, c)) => r is Err && type_error(r->Err_0, m, l, c),
        },
{
    let empty: Vec<AggregateRef> = Vec::new();
    proof { assert(path_view(empty@) =~= Seq::<AggRef>::empty()); }
    let mut i: usize = 0;
    while i < structs.len()
        invariant
            i <= structs.len(),
            path_view(empty@) == Seq::<AggRef>::empty(),
            recursive_field(*structs, ss@, es@, 0, 0) == recursive_field(*structs, ss@, es@, i as int, 0),
        decreases structs.len() - i,
    {
        let decl = &structs[i];
        let owner = AggregateRef::Struct(decl.name.clone());
        let mut k: usize = 0;
        while k < decl.fields.len()
            invariant
                i < structs.len(),
                *decl == structs@[i as int],
                owner@ == AggRef::Struct(decl.name@),
                k <= decl.fields.len(),
                path_view(empty@) == Seq::<AggRef>::empty(),
                recursive_field(*structs, ss@, es@, 0, 0) == recursive_field(*structs, ss@, es@, i as int, k as int),
            decreases decl.fields.len() - k,
        {
            if i < ss.len() && k < ss[i].fields.len() && type_has_unboxed_recursive_path(&ss[i].fields[k].ty, &owner, ss, es, &empty) {
                let field = &decl.fields[k];
                let m = concat(concat(quoted_message("recursive field ", field.name.as_str(), " in struct "), quote(decl.name.as_str()).as_str()),
                    " requires indirection; unboxed recursive types are not supported");
                proof { assert(m@ =~= recursive_field_message(field.name@, decl.name@)); }
                return Err(type_error_at(m, field.line, field.column));
            }
            k = k + 1;
        }
        i = i + 1;
    }
    let mut i: usize = 0;
    while i < enums.len()
        invariant
            i <= enums.len(),
            path_view(empty@) == Seq::<AggRef>::empty(),
            recursive_field(*structs, ss@, es@, 0, 0) is None,
            recursive_variant(*enums, ss@, es@, 0, 0) == recursive_variant(*enums, ss@, es@, i as int, 0),
        decreases enums.len() - i,
    {
        let decl = &enums[i];
        let owner = AggregateRef::Enum(decl.name.clone());
        let mut k: usize = 0;
        while k < decl.variants.len()
            invariant
                i < enums.len(),
                *decl == enums@[i as int],
                owner@ == AggRef::Enum(decl.name@),
                k <= decl.variants.len(),
                path_view(empty@) == Seq::<AggRef>::empty(),
                recursive_field(*structs, ss@, es@, 0, 0) is None,
                recursive_variant(*enums, ss@, es@, 0, 0) == recursive_variant(*enums, ss@, es@, i as int, k as int),
            decreases decl.variants.len() - k,
        {
            if i < es.len() && k < es[i].variants.len()
                && types_have_unboxed_recursive_path(&es[i].variants[k].payload_tys, 0, &owner, ss, es, &empty) {
                let variant = &decl.variants[k];
                let m = concat(concat(quoted_message("recursive payload variant ", variant.name.as_str(), " in enum "), quote(decl.name.as_str()).as_str()),
                    " requires indirection; unboxed recursive types are not supported");
                proof { assert(m@ =~= recursive_variant_message(variant.name@, decl.name@)); }
                return Err(type_error_at(m, variant.line, variant.column));
            }
            k = k + 1;
        }
        i = i + 1;
    }
    Ok(())
}

} // verus!
