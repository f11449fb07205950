//! Monomorphization of generic structs and enums: every use of a generic type with type
//! arguments, in a declaration, a signature or a body, is replaced by the name of an
//! instance of the type for those arguments, and each instance is declared once, its
//! field and payload types substituted.
use vstd::prelude::*;
use crate::lower_types::{is_async_runtime_type, is_async_runtime_type_name};
use crate::capabilities::type_error;
use crate::diagnostics::Diagnostic;
use crate::lower_expr::{quoted_message, type_error_at};
use crate::monomorphize::{
    GenericInstantiation, QueueEnd, TypeView, bindings_view, generic_instantiation_limit_diagnostic, limit_error, clone_type_name, dedup_append, insts_view, instance_function_name, instance_name,
    lemma_dedup_append_concat, lemma_subst_vs, lemma_tn_views, mentions, queue_instantiation, subst_v, subst_vs, substitute_type_name,
    substitute_type_names, tn_view, tn_views, type_mentions,
};
use crate::render::{concat, debug_quoted, decimal, push_decimal, quote};
use crate::syntax;
use crate::syntax::{ConstDecl, EnumDecl, EnumVariantDecl, Expr, Literal, MatchArm, Stmt, StructDecl, StructField, TypeAliasDecl, TypeName};

verus! {

// ---------------------------------------------------------------------------
// Declarations of generic types.

/// The position of the generic struct named `name`, if any (the first).
pub open spec fn gstruct_index(ss: Seq<StructDecl>, name: Seq<char>) -> Option<int> {
    if exists|i: int| 0 <= i < ss.len() && ss[i].name@ == name && ss[i].type_params.len() > 0 {
        Some(choose|i: int| 0 <= i < ss.len() && ss[i].name@ == name && ss[i].type_params.len() > 0
            && forall|j: int| 0 <= j < i ==> !(ss[j].name@ == name && ss[j].type_params.len() > 0))
    } else {
        None
    }
}

/// The position of the generic enum named `name`, if any (the first).
pub open spec fn genum_index(es: Seq<EnumDecl>, name: Seq<char>) -> Option<int> {
    if exists|i: int| 0 <= i < es.len() && es[i].name@ == name && es[i].type_params.len() > 0 {
        Some(choose|i: int| 0 <= i < es.len() && es[i].name@ == name && es[i].type_params.len() > 0
            && forall|j: int| 0 <= j < i ==> !(es[j].name@ == name && es[j].type_params.len() > 0))
    } else {
        None
    }
}

/// How many type parameters the generic type `name` declares: a generic struct of that
/// name comes before a generic enum of that name.
pub open spec fn decl_arity(ss: Seq<StructDecl>, es: Seq<EnumDecl>, name: Seq<char>) -> Option<nat> {
    match gstruct_index(ss, name) {
        Some(i) => Some(ss[i].type_params.len() as nat),
        None => match genum_index(es, name) {
            Some(i) => Some(es[i].type_params.len() as nat),
            None => None,
        },
    }
}

/// Finds the generic struct named `name`.
pub fn find_generic_struct(ss: &Vec<StructDecl>, name: &str) -> (r: Option<usize>)
    ensures
        r is Some <==> gstruct_index(ss@, name@) is Some,
        r is Some ==> r->0 as int == gstruct_index(ss@, name@)->0 && r->0 < ss.len(),
{
    let mut i: usize = 0;
    while i < ss.len()
        invariant
            i <= ss.len(),
            forall|j: int| 0 <= j < i ==> !(ss@[j].name@ == name@ && ss@[j].type_params.len() > 0),
        decreases ss.len() - i,
    {
        if ss[i].type_params.len() > 0 && crate::text::str_eq(ss[i].name.as_str(), name) {
            proof {
                let k = choose|k: int| 0 <= k < ss@.len() && ss@[k].name@ == name@ && ss@[k].type_params.len() > 0
                    && forall|j: int| 0 <= j < k ==> !(ss@[j].name@ == name@ && ss@[j].type_params.len() > 0);
                if k < i { assert(false); }
                if k > i { assert(!(ss@[i as int].name@ == name@ && ss@[i as int].type_params.len() > 0)); }
            }
            return Some(i);
        }
        i = i + 1;
    }
    None
}

/// Finds the generic enum named `name`.
pub fn find_generic_enum(es: &Vec<EnumDecl>, name: &str) -> (r: Option<usize>)
    ensures
        r is Some <==> genum_index(es@, name@) is Some,
        r is Some ==> r->0 as int == genum_index(es@, name@)->0 && r->0 < es.len(),
{
    let mut i: usize = 0;
    while i < es.len()
        invariant
            i <= es.len(),
            forall|j: int| 0 <= j < i ==> !(es@[j].name@ == name@ && es@[j].type_params.len() > 0),
        decreases es.len() - i,
    {
        if es[i].type_params.len() > 0 && crate::text::str_eq(es[i].name.as_str(), name) {
            proof {
                let k = choose|k: int| 0 <= k < es@.len() && es@[k].name@ == name@ && es@[k].type_params.len() > 0
                    && forall|j: int| 0 <= j < k ==> !(es@[j].name@ == name@ && es@[j].type_params.len() > 0);
                if k < i { assert(false); }
                if k > i { assert(!(es@[i as int].name@ == name@ && es@[i as int].type_params.len() > 0)); }
            }
            return Some(i);
        }
        i = i + 1;
    }
    None
}

fn generic_arity(ss: &Vec<StructDecl>, es: &Vec<EnumDecl>, name: &str) -> (r: Option<usize>)
    ensures
        match decl_arity(ss@, es@, name@) {
            Some(n) => r is Some && r->0 == n,
            None => r is None,
        },
{
    match find_generic_struct(ss, name) {
        Some(i) => Some(ss[i].type_params.len()),
        None => match find_generic_enum(es, name) {
            Some(i) => Some(es[i].type_params.len()),
            None => None,
        },
    }
}

/// Whether the type parameter `name` occurs in the type of a field from position `k` on.
pub open spec fn fields_mention(s: StructDecl, k: int, name: Seq<char>) -> bool
    decreases s.fields.len() - k,
{
    0 <= k < s.fields.len() && (mentions(tn_view(s.fields[k].ty), name) || fields_mention(s, k + 1, name))
}

/// Whether the type parameter `name` occurs in a payload type of a variant from position
/// `k` on (payload `j` on in the first).
pub open spec fn payloads_mention(e: EnumDecl, k: int, j: int, name: Seq<char>) -> bool
    decreases e.variants.len() - k, e.variants[k].payload_tys.len() - j,
{
    if k < 0 || k >= e.variants.len() {
        false
    } else if j < 0 || j >= e.variants[k].payload_tys.len() {
        payloads_mention(e, k + 1, 0, name)
    } else {
        mentions(tn_view(e.variants[k].payload_tys[j]), name) || payloads_mention(e, k, j + 1, name)
    }
}

/// The first type parameter of the struct `s` from position `j` on that no field mentions.
pub open spec fn unconstrained_field_param(s: StructDecl, j: int) -> Option<Seq<char>>
    decreases s.type_params.len() - j,
{
    if j < 0 || j >= s.type_params.len() {
        None
    } else if !fields_mention(s, 0, s.type_params[j]@) {
        Some(s.type_params[j]@)
    } else {
        unconstrained_field_param(s, j + 1)
    }
}

/// The first type parameter of the enum `e` from position `j` on that no payload mentions.
pub open spec fn unconstrained_payload_param(e: EnumDecl, j: int) -> Option<Seq<char>>
    decreases e.type_params.len() - j,
{
    if j < 0 || j >= e.type_params.len() {
        None
    } else if !payloads_mention(e, 0, 0, e.type_params[j]@) {
        Some(e.type_params[j]@)
    } else {
        unconstrained_payload_param(e, j + 1)
    }
}

/// The first problem with the struct declarations from position `i` on: a name declared
/// twice, or a generic struct with a type parameter that no field mentions.
pub open spec fn struct_decl_problem(ss: Vec<StructDecl>, i: int) -> Option<(Seq<char>, usize, usize)>
    decreases ss.len() - i,
{
    if i < 0 || i >= ss.len() {
        None
    } else if exists|j: int| 0 <= j < i && #[trigger] ss[j].name@ == ss[i].name@ {
        Some(("duplicate struct "@ + debug_quoted(ss[i].name@), ss[i].line, ss[i].column))
    } else if ss[i].type_params.len() > 0 && unconstrained_field_param(ss[i], 0) is Some {
        Some(("generic struct "@ + debug_quoted(ss[i].name@) + " has unconstrained type parameter "@
            + debug_quoted(unconstrained_field_param(ss[i], 0)->0), ss[i].line, ss[i].column))
    } else {
        struct_decl_problem(ss, i + 1)
    }
}

/// The first problem with the enum declarations from position `i` on: a name declared
/// twice, or a generic enum with a type parameter that no payload mentions.
pub open spec fn enum_decl_problem(es: Vec<EnumDecl>, i: int) -> Option<(Seq<char>, usize, usize)>
    decreases es.len() - i,
{
    if i < 0 || i >= es.len() {
        None
    } else if exists|j: int| 0 <= j < i && #[trigger] es[j].name@ == es[i].name@ {
        Some(("duplicate enum "@ + debug_quoted(es[i].name@), es[i].line, es[i].column))
    } else if es[i].type_params.len() > 0 && unconstrained_payload_param(es[i], 0) is Some {
        Some(("generic enum "@ + debug_quoted(es[i].name@) + " has unconstrained type parameter "@
            + debug_quoted(unconstrained_payload_param(es[i], 0)->0), es[i].line, es[i].column))
    } else {
        enum_decl_problem(es, i + 1)
    }
}

fn fields_mention_check(s: &StructDecl, name: &str) -> (r: bool)
    ensures
        r == fields_mention(*s, 0, name@),
{
    let mut k: usize = 0;
    while k < s.fields.len()
        invariant
            k <= s.fields.len(),
            fields_mention(*s, 0, name@) == fields_mention(*s, k as int, name@),
        decreases s.fields.len() - k,
    {
        if type_mentions(&s.fields[k].ty, name) {
            return true;
        }
        k = k + 1;
    }
    false
}

fn payloads_mention_check(e: &EnumDecl, name: &str) -> (r: bool)
    ensures
        r == payloads_mention(*e, 0, 0, name@),
{
    let mut k: usize = 0;
    while k < e.variants.len()
        invariant
            k <= e.variants.len(),
            payloads_mention(*e, 0, 0, name@) == payloads_mention(*e, k as int, 0, name@),
        decreases e.variants.len() - k,
    {
        let mut j: usize = 0;
        while j < e.variants[k].payload_tys.len()
            invariant
                k < e.variants.len(),
                j <= e.variants@[k as int].payload_tys.len(),
                payloads_mention(*e, 0, 0, name@) == payloads_mention(*e, k as int, j as int, name@),
            decreases e.variants@[k as int].payload_tys.len() - j,
        {
            if type_mentions(&e.variants[k].payload_tys[j], name) {
                return true;
            }
            j = j + 1;
        }
        k = k + 1;
    }
    false
}

/// Checks the struct declarations: no name declared twice, and every type parameter of a
/// generic struct mentioned by a field.
pub fn check_struct_decls(ss: &Vec<StructDecl>) -> (r: Result<(), Diagnostic>)
    ensures
        match struct_decl_problem(*ss, 0) {
            None => r is Ok,
            Some((m, l, c)) => r is Err && type_error(r->Err_0, m, l, c),
        },
{
    let mut i: usize = 0;
    while i < ss.len()
        invariant
            i <= ss.len(),
            struct_decl_problem(*ss, 0) == struct_decl_problem(*ss, i as int),
        decreases ss.len() - i,
    {
        let s = &ss[i];
        let mut j: usize = 0;
        while j < i
            invariant
                j <= i,
                i < ss.len(),
                *s == ss@[i as int],
                struct_decl_problem(*ss, 0) == struct_decl_problem(*ss, i as int),
                forall|m: int| 0 <= m < j ==> ss@[m].name@ != s.name@,
            decreases i - j,
        {
            if crate::text::str_eq(ss[j].name.as_str(), s.name.as_str()) {
                let m = quoted_message("duplicate struct ", s.name.as_str(), "");
                proof {
                    reveal_strlit("");
                    assert(m@ =~= "duplicate struct "@ + debug_quoted(s.name@));
                    assert(ss@[j as int].name@ == ss@[i as int].name@);
                }
                return Err(type_error_at(m, s.line, s.column));
            }
            j = j + 1;
        }
        if s.type_params.len() > 0 {
            let mut k: usize = 0;
            while k < s.type_params.len()
                invariant
                    i < ss.len(),
                    *s == ss@[i as int],
                    k <= s.type_params.len(),
                    struct_decl_problem(*ss, 0) == struct_decl_problem(*ss, i as int),
                    forall|m: int| 0 <= m < i ==> ss@[m].name@ != s.name@,
                    unconstrained_field_param(*s, 0) == unconstrained_field_param(*s, k as int),
                decreases s.type_params.len() - k,
            {
                if !fields_mention_check(s, s.type_params[k].as_str()) {
                    let m = concat(quoted_message("generic struct ", s.name.as_str(), " has unconstrained type parameter "),
                        quote(s.type_params[k].as_str()).as_str());
                    return Err(type_error_at(m, s.line, s.column));
                }
                k = k + 1;
            }
        }
        i = i + 1;
    }
    Ok(())
}

/// Checks the enum declarations: no name declared twice, and every type parameter of a
/// generic enum mentioned by a payload.
pub fn check_enum_decls(es: &Vec<EnumDecl>) -> (r: Result<(), Diagnostic>)
    ensures
        match enum_decl_problem(*es, 0) {
            None => r is Ok,
            Some((m, l, c)) => r is Err && type_error(r->Err_0, m, l, c),
        },
{
    let mut i: usize = 0;
    while i < es.len()
        invariant
            i <= es.len(),
            enum_decl_problem(*es, 0) == enum_decl_problem(*es, i as int),
        decreases es.len() - i,
    {
        let e = &es[i];
        let mut j: usize = 0;
        while j < i
            invariant
                j <= i,
                i < es.len(),
                *e == es@[i as int],
                enum_decl_problem(*es, 0) == enum_decl_problem(*es, i as int),
                forall|m: int| 0 <= m < j ==> es@[m].name@ != e.name@,
            decreases i - j,
        {
            if crate::text::str_eq(es[j].name.as_str(), e.name.as_str()) {
                let m = quoted_message("duplicate enum ", e.name.as_str(), "");
                proof {
                    reveal_strlit("");
                    assert(m@ =~= "duplicate enum "@ + debug_quoted(e.name@));
                    assert(es@[j as int].name@ == es@[i as int].name@);
                }
                return Err(type_error_at(m, e.line, e.column));
            }
            j = j + 1;
        }
        if e.type_params.len() > 0 {
            let mut k: usize = 0;
            while k < e.type_params.len()
                invariant
                    i < es.len(),
                    *e == es@[i as int],
                    k <= e.type_params.len(),
                    enum_decl_problem(*es, 0) == enum_decl_problem(*es, i as int),
                    forall|m: int| 0 <= m < i ==> es@[m].name@ != e.name@,
                    unconstrained_payload_param(*e, 0) == unconstrained_payload_param(*e, k as int),
                decreases e.type_params.len() - k,
            {
                if !payloads_mention_check(e, e.type_params[k].as_str()) {
                    let m = concat(quoted_message("generic enum ", e.name.as_str(), " has unconstrained type parameter "),
                        quote(e.type_params[k].as_str()).as_str());
                    return Err(type_error_at(m, e.line, e.column));
                }
                k = k + 1;
            }
        }
        i = i + 1;
    }
    Ok(())
}

// ---------------------------------------------------------------------------
// Types.

/// The message for a generic type used without type arguments.
pub open spec fn explicit_args_message(name: Seq<char>) -> Seq<char> {
    "generic type "@ + debug_quoted(name) + " requires explicit type arguments"@
}

/// The message for type arguments given to a type that takes none.
pub open spec fn not_generic_message(name: Seq<char>) -> Seq<char> {
    "type "@ + debug_quoted(name) + " is not generic"@
}

/// The message for a generic type given the wrong number of type arguments.
pub open spec fn arity_message(name: Seq<char>, expected: nat, got: nat) -> Seq<char> {
    "generic type "@ + debug_quoted(name) + " expects "@ + decimal(expected) + " type arguments, got "@ + decimal(got)
}

/// `t` with every generic struct or enum given type arguments replaced by the name of its
/// instance for those arguments (rewritten first), with the instances it needs in order;
/// or the message why it cannot be: a generic type needs as many type arguments as it
/// has type parameters, an async runtime type exactly one, and any other type takes none.
pub open spec fn agg_ty(t: TypeView, ss: Seq<StructDecl>, es: Seq<EnumDecl>) -> Result<(TypeView, Seq<(Seq<char>, Seq<TypeView>)>), Seq<char>>
    decreases t, 0int,
{
    match t {
        TypeView::Named(n, args) => match agg_tys(args, 0, ss, es) {
            Err(m) => Err(m),
            Ok((vs, xs)) => if is_async_runtime_type(n) {
                if vs.len() != 1 {
                    Err("async runtime type "@ + debug_quoted(n) + " expects 1 type argument"@)
                } else {
                    Ok((TypeView::Named(n, vs), xs))
                }
            } else if vs.len() == 0 {
                if decl_arity(ss, es, n) is Some {
                    Err(explicit_args_message(n))
                } else {
                    Ok((TypeView::Named(n, Seq::empty()), xs))
                }
            } else {
                match decl_arity(ss, es, n) {
                    None => Err(not_generic_message(n)),
                    Some(k) => if k != vs.len() {
                        Err(arity_message(n, k, vs.len()))
                    } else {
                        Ok((TypeView::Named(instance_name(n, vs), Seq::empty()), xs + seq![(n, vs)]))
                    },
                }
            },
        },
        TypeView::Ptr(x) => match agg_ty(*x, ss, es) { Err(m) => Err(m), Ok((v, xs)) => Ok((TypeView::Ptr(Box::new(v)), xs)) },
        TypeView::MutPtr(x) => match agg_ty(*x, ss, es) { Err(m) => Err(m), Ok((v, xs)) => Ok((TypeView::MutPtr(Box::new(v)), xs)) },
        TypeView::MutRef(x) => match agg_ty(*x, ss, es) { Err(m) => Err(m), Ok((v, xs)) => Ok((TypeView::MutRef(Box::new(v)), xs)) },
        TypeView::Slice(x) => match agg_ty(*x, ss, es) { Err(m) => Err(m), Ok((v, xs)) => Ok((TypeView::Slice(Box::new(v)), xs)) },
        TypeView::MutSlice(x) => match agg_ty(*x, ss, es) { Err(m) => Err(m), Ok((v, xs)) => Ok((TypeView::MutSlice(Box::new(v)), xs)) },
        TypeView::Option(x) => match agg_ty(*x, ss, es) { Err(m) => Err(m), Ok((v, xs)) => Ok((TypeView::Option(Box::new(v)), xs)) },
        TypeView::LifetimeSlice(l, x) => match agg_ty(*x, ss, es) {
            Err(m) => Err(m),
            Ok((v, xs)) => Ok((TypeView::LifetimeSlice(l, Box::new(v)), xs)),
        },
        TypeView::LifetimeMutSlice(l, x) => match agg_ty(*x, ss, es) {
            Err(m) => Err(m),
            Ok((v, xs)) => Ok((TypeView::LifetimeMutSlice(l, Box::new(v)), xs)),
        },
        TypeView::Array(x, len) => match agg_ty(*x, ss, es) {
            Err(m) => Err(m),
            Ok((v, xs)) => Ok((TypeView::Array(Box::new(v), len), xs)),
        },
        TypeView::Result(a, b) => match agg_ty(*a, ss, es) {
            Err(m) => Err(m),
            Ok((va, xa)) => match agg_ty(*b, ss, es) {
                Err(m) => Err(m),
                Ok((vb, xb)) => Ok((TypeView::Result(Box::new(va), Box::new(vb)), xa + xb)),
            },
        },
        TypeView::MapOf(a, b) => match agg_ty(*a, ss, es) {
            Err(m) => Err(m),
            Ok((va, xa)) => match agg_ty(*b, ss, es) {
                Err(m) => Err(m),
                Ok((vb, xb)) => Ok((TypeView::MapOf(Box::new(va), Box::new(vb)), xa + xb)),
            },
        },
        TypeView::Tuple(items) => match agg_tys(items, 0, ss, es) {
            Err(m) => Err(m),
            Ok((vs, xs)) => Ok((TypeView::Tuple(vs), xs)),
        },
        TypeView::Fn(ps, ret) => match agg_tys(ps, 0, ss, es) {
            Err(m) => Err(m),
            Ok((vs, xs)) => match agg_ty(*ret, ss, es) {
                Err(m) => Err(m),
                Ok((v, ys)) => Ok((TypeView::Fn(vs, Box::new(v)), xs + ys)),
            },
        },
        _ => Ok((t, Seq::empty())),
    }
}

/// `agg_ty` on the types of `ts` from position `i` on, in order: the first failure
/// decides.
pub open spec fn agg_tys(ts: Seq<TypeView>, i: int, ss: Seq<StructDecl>, es: Seq<EnumDecl>) -> Result<(Seq<TypeView>, Seq<(Seq<char>, Seq<TypeView>)>), Seq<char>>
    decreases ts, ts.len() - i,
{
    if i < 0 || i >= ts.len() {
        Ok((Seq::empty(), Seq::empty()))
    } else {
        match agg_ty(ts[i], ss, es) {
            Err(m) => Err(m),
            Ok((v, xs)) => match agg_tys(ts, i + 1, ss, es) {
                Err(m) => Err(m),
                Ok((vs, ys)) => Ok((seq![v] + vs, xs + ys)),
            },
        }
    }
}

proof fn lemma_dedup_append_empty(q: Seq<(Seq<char>, Seq<TypeView>)>)
    ensures
        dedup_append(q, Seq::empty()) == q,
{
}

/// Rewrites the generic types in `t`, written at `line`, `column`, queuing the instances
/// they need (see `agg_ty`).
pub fn rewrite_aggregate_type_name(t: &TypeName, ss: &Vec<StructDecl>, es: &Vec<EnumDecl>, queued: &mut Vec<GenericInstantiation>, line: usize, column: usize) -> (r: Result<TypeName, Diagnostic>)
    ensures
        match agg_ty(tn_view(*t), ss@, es@) {
            Err(m) => r is Err && type_error(r->Err_0, m, line, column),
            Ok((v, xs)) => r is Ok && tn_view(r->Ok_0) == v && insts_view(final(queued)@) == dedup_append(insts_view(old(queued)@), xs),
        },
    decreases t, 1int,
{
    match t {
        TypeName::Named(..) => rewrite_named_type(t, ss, es, queued, line, column),
        TypeName::Result(..) | TypeName::MapOf(..) | TypeName::Tuple(..) | TypeName::Fn(..) => {
            rewrite_composite_type(t, ss, es, queued, line, column)
        },
        TypeName::Int | TypeName::Numeric(_) | TypeName::Bool | TypeName::String | TypeName::Str => {
            proof { lemma_dedup_append_empty(insts_view(queued@)); }
            Ok(crate::monomorphize::clone_type_name(t))
        },
        _ => rewrite_wrapped_type(t, ss, es, queued, line, column),
    }
}

/// Rewrites the generic types in each of `ts` from position `i` on, in order.
pub fn rewrite_aggregate_type_names(ts: &Vec<TypeName>, i: usize, ss: &Vec<StructDecl>, es: &Vec<EnumDecl>, queued: &mut Vec<GenericInstantiation>, line: usize, column: usize) -> (r: Result<Vec<TypeName>, Diagnostic>)
    requires
        i <= ts.len(),
    ensures
        match agg_tys(tn_views(*ts, 0), i as int, ss@, es@) {
            Err(m) => r is Err && type_error(r->Err_0, m, line, column),
            Ok((vs, xs)) => r is Ok && tn_views(r->Ok_0, 0) == vs && insts_view(final(queued)@) == dedup_append(insts_view(old(queued)@), xs),
        },
    decreases ts, ts.len() - i,
{
    let ghost tv = tn_views(*ts, 0);
    proof { lemma_tn_views(*ts, 0); }
    if i >= ts.len() {
        let v: Vec<TypeName> = Vec::new();
        proof {
            lemma_tn_views(v, 0);
            assert(tn_views(v, 0) =~= Seq::<TypeView>::empty());
            lemma_dedup_append_empty(insts_view(queued@));
        }
        return Ok(v);
    }
    proof { assert(decreases_to!(ts => ts[i as int])); }
    let ghost q0 = insts_view(queued@);
    let first = rewrite_aggregate_type_name(&ts[i], ss, es, queued, line, column)?;
    let mut rest = rewrite_aggregate_type_names(ts, i + 1, ss, es, queued, line, column)?;
    let ghost restv = tn_views(rest, 0);
    proof {
        let xs = agg_ty(tv[i as int], ss@, es@)->Ok_0.1;
        let ys = agg_tys(tv, i + 1, ss@, es@)->Ok_0.1;
        lemma_dedup_append_concat(q0, xs, ys);
        lemma_tn_views(rest, 0);
    }
    rest.insert(0, first);
    proof {
        lemma_tn_views(rest, 0);
        assert(tn_views(rest, 0) =~= seq![tn_view(first)] + restv);
    }
    Ok(rest)
}

fn rewrite_named_type(t: &TypeName, ss: &Vec<StructDecl>, es: &Vec<EnumDecl>, queued: &mut Vec<GenericInstantiation>, line: usize, column: usize) -> (r: Result<TypeName, Diagnostic>)
    requires
        t is Named,
    ensures
        match agg_ty(tn_view(*t), ss@, es@) {
            Err(m) => r is Err && type_error(r->Err_0, m, line, column),
            Ok((v, xs)) => r is Ok && tn_view(r->Ok_0) == v && insts_view(final(queued)@) == dedup_append(insts_view(old(queued)@), xs),
        },
    decreases t, 0int,
{
    let (name, args) = match t {
        TypeName::Named(n, a) => (n, a),
        _ => { assert(false); return Ok(TypeName::Int); },
    };
    let ghost q0 = insts_view(queued@);
    let args2 = rewrite_aggregate_type_names(args, 0, ss, es, queued, line, column)?;
    let ghost vs = tn_views(args2, 0);
    let ghost xs = agg_tys(tn_views(*args, 0), 0, ss@, es@)->Ok_0.1;
    proof { lemma_tn_views(args2, 0); }
    if is_async_runtime_type_name(name.as_str()) {
        if args2.len() != 1 {
            let m = quoted_message("async runtime type ", name.as_str(), " expects 1 type argument");
            return Err(type_error_at(m, line, column));
        }
        return Ok(TypeName::Named(name.clone(), args2));
    }
    let arity = generic_arity(ss, es, name.as_str());
    if args2.len() == 0 {
        if arity.is_some() {
            let m = quoted_message("generic type ", name.as_str(), " requires explicit type arguments");
            return Err(type_error_at(m, line, column));
        }
        let empty: Vec<TypeName> = Vec::new();
        proof {
            lemma_tn_views(empty, 0);
            assert(tn_views(empty, 0) =~= Seq::<TypeView>::empty());
        }
        return Ok(TypeName::Named(name.clone(), empty));
    }
    match arity {
        None => {
            let m = quoted_message("type ", name.as_str(), " is not generic");
            Err(type_error_at(m, line, column))
        },
        Some(k) => {
            if k != args2.len() {
                let mut m = quoted_message("generic type ", name.as_str(), " expects ");
                push_decimal(&mut m, k as u64);
                m.append(" type arguments, got ");
                push_decimal(&mut m, args2.len() as u64);
                proof { assert(m@ =~= arity_message(name@, k as nat, args2.len() as nat)); }
                return Err(type_error_at(m, line, column));
            }
            let ghost q1 = insts_view(queued@);
            queue_instantiation(queued, name.as_str(), &args2);
            let inst = instance_function_name(name.as_str(), &args2);
            let empty: Vec<TypeName> = Vec::new();
            proof {
                lemma_dedup_append_concat(q0, xs, seq![(name@, vs)]);
                lemma_tn_views(empty, 0);
                assert(tn_views(empty, 0) =~= Seq::<TypeView>::empty());
            }
            Ok(TypeName::Named(inst, empty))
        },
    }
}

fn clone_len(len: &Option<String>) -> (r: Option<String>)
    ensures
        match *len {
            Some(l) => r is Some && r->0@ == l@,
            None => r is None,
        },
{
    match len {
        Some(l) => Some(l.clone()),
        None => None,
    }
}

fn rewrite_wrapped_type(t: &TypeName, ss: &Vec<StructDecl>, es: &Vec<EnumDecl>, queued: &mut Vec<GenericInstantiation>, line: usize, column: usize) -> (r: Result<TypeName, Diagnostic>)
    requires
        t is Ptr || t is MutPtr || t is MutRef || t is Slice || t is MutSlice || t is LifetimeSlice
            || t is LifetimeMutSlice || t is Option || t is Array,
    ensures
        match agg_ty(tn_view(*t), ss@, es@) {
            Err(m) => r is Err && type_error(r->Err_0, m, line, column),
            Ok((v, xs)) => r is Ok && tn_view(r->Ok_0) == v && insts_view(final(queued)@) == dedup_append(insts_view(old(queued)@), xs),
        },
    decreases t, 0int,
{
    match t {
        TypeName::Ptr(x) => Ok(TypeName::Ptr(Box::new(rewrite_aggregate_type_name(x, ss, es, queued, line, column)?))),
        TypeName::MutPtr(x) => Ok(TypeName::MutPtr(Box::new(rewrite_aggregate_type_name(x, ss, es, queued, line, column)?))),
        TypeName::MutRef(x) => Ok(TypeName::MutRef(Box::new(rewrite_aggregate_type_name(x, ss, es, queued, line, column)?))),
        TypeName::Slice(x) => Ok(TypeName::Slice(Box::new(rewrite_aggregate_type_name(x, ss, es, queued, line, column)?))),
        TypeName::MutSlice(x) => Ok(TypeName::MutSlice(Box::new(rewrite_aggregate_type_name(x, ss, es, queued, line, column)?))),
        TypeName::Option(x) => Ok(TypeName::Option(Box::new(rewrite_aggregate_type_name(x, ss, es, queued, line, column)?))),
        TypeName::LifetimeSlice(l, x) => {
            let v = rewrite_aggregate_type_name(x, ss, es, queued, line, column)?;
            Ok(TypeName::LifetimeSlice(l.clone(), Box::new(v)))
        },
        TypeName::LifetimeMutSlice(l, x) => {
            let v = rewrite_aggregate_type_name(x, ss, es, queued, line, column)?;
            Ok(TypeName::LifetimeMutSlice(l.clone(), Box::new(v)))
        },
        TypeName::Array(x, len) => {
            let v = rewrite_aggregate_type_name(x, ss, es, queued, line, column)?;
            Ok(TypeName::Array(Box::new(v), clone_len(len)))
        },
        _ => { assert(false); Ok(TypeName::Int) },
    }
}

fn rewrite_composite_type(t: &TypeName, ss: &Vec<StructDecl>, es: &Vec<EnumDecl>, queued: &mut Vec<GenericInstantiation>, line: usize, column: usize) -> (r: Result<TypeName, Diagnostic>)
    requires
        t is Result || t is MapOf || t is Tuple || t is Fn,
    ensures
        match agg_ty(tn_view(*t), ss@, es@) {
            Err(m) => r is Err && type_error(r->Err_0, m, line, column),
            Ok((v, xs)) => r is Ok && tn_view(r->Ok_0) == v && insts_view(final(queued)@) == dedup_append(insts_view(old(queued)@), xs),
        },
    decreases t, 0int,
{
    let ghost q0 = insts_view(queued@);
    match t {
        TypeName::Result(a, b) => {
            let x = rewrite_aggregate_type_name(a, ss, es, queued, line, column)?;
            let y = rewrite_aggregate_type_name(b, ss, es, queued, line, column)?;
            proof {
                lemma_dedup_append_concat(q0, agg_ty(tn_view(**a), ss@, es@)->Ok_0.1, agg_ty(tn_view(**b), ss@, es@)->Ok_0.1);
            }
            Ok(TypeName::Result(Box::new(x), Box::new(y)))
        },
        TypeName::MapOf(a, b) => {
            let x = rewrite_aggregate_type_name(a, ss, es, queued, line, column)?;
            let y = rewrite_aggregate_type_name(b, ss, es, queued, line, column)?;
            proof {
                lemma_dedup_append_concat(q0, agg_ty(tn_view(**a), ss@, es@)->Ok_0.1, agg_ty(tn_view(**b), ss@, es@)->Ok_0.1);
            }
            Ok(TypeName::MapOf(Box::new(x), Box::new(y)))
        },
        TypeName::Tuple(items) => {
            let v = rewrite_aggregate_type_names(items, 0, ss, es, queued, line, column)?;
            Ok(TypeName::Tuple(v))
        },
        TypeName::Fn(ps, ret) => {
            let v = rewrite_aggregate_type_names(ps, 0, ss, es, queued, line, column)?;
            let x = rewrite_aggregate_type_name(ret, ss, es, queued, line, column)?;
            proof {
                lemma_dedup_append_concat(q0, agg_tys(tn_views(*ps, 0), 0, ss@, es@)->Ok_0.1, agg_ty(tn_view(**ret), ss@, es@)->Ok_0.1);
            }
            Ok(TypeName::Fn(v, Box::new(x)))
        },
        _ => { assert(false); Ok(TypeName::Int) },
    }
}

// ---------------------------------------------------------------------------
// Expressions.

/// The first failure, in evaluation order, to rewrite the type arguments of a call in
/// `e`, with where the call stands.
pub open spec fn expr_agg_problem(e: Expr, ss: Seq<StructDecl>, es: Seq<EnumDecl>) -> Option<(Seq<char>, usize, usize)>
    decreases e,
{
    match e {
        Expr::Call { type_args, args, line, column, .. } => match agg_tys(tn_views(type_args, 0), 0, ss, es) {
            Err(m) => Some((m, line, column)),
            Ok(_) => args_agg_problem(args, 0, ss, es),
        },
        Expr::BinaryAdd { lhs, rhs, .. } | Expr::BinaryCompare { lhs, rhs, .. } | Expr::BinaryLogic { lhs, rhs, .. } => {
            match expr_agg_problem(*lhs, ss, es) {
                Some(p) => Some(p),
                None => expr_agg_problem(*rhs, ss, es),
            }
        },
        Expr::Unary { expr, .. } => expr_agg_problem(*expr, ss, es),
        Expr::TupleLiteral { elements, .. } => args_agg_problem(elements, 0, ss, es),
        Expr::ArrayLiteral { elements, .. } => args_agg_problem(elements, 0, ss, es),
        Expr::Cast { expr, ty, line, column } => match expr_agg_problem(*expr, ss, es) {
            Some(p) => Some(p),
            None => match agg_ty(tn_view(ty), ss, es) {
                Err(m) => Some((m, line, column)),
                Ok(_) => None,
            },
        },
        _ => None,
    }
}

/// `expr_agg_problem` for the arguments from position `i` on.
pub open spec fn args_agg_problem(args: Vec<Expr>, i: int, ss: Seq<StructDecl>, es: Seq<EnumDecl>) -> Option<(Seq<char>, usize, usize)>
    decreases args, args.len() - i,
{
    if i < 0 || i >= args.len() {
        None
    } else {
        match expr_agg_problem(args[i], ss, es) {
            Some(p) => Some(p),
            None => args_agg_problem(args, i + 1, ss, es),
        }
    }
}

/// The instances that the type arguments of the calls in `e` need, in evaluation order.
pub open spec fn expr_agg_insts(e: Expr, ss: Seq<StructDecl>, es: Seq<EnumDecl>) -> Seq<(Seq<char>, Seq<TypeView>)>
    decreases e,
{
    match e {
        Expr::Call { type_args, args, .. } => agg_tys(tn_views(type_args, 0), 0, ss, es)->Ok_0.1 + args_agg_insts(args, 0, ss, es),
        Expr::BinaryAdd { lhs, rhs, .. } | Expr::BinaryCompare { lhs, rhs, .. } | Expr::BinaryLogic { lhs, rhs, .. } => {
            expr_agg_insts(*lhs, ss, es) + expr_agg_insts(*rhs, ss, es)
        },
        Expr::Unary { expr, .. } => expr_agg_insts(*expr, ss, es),
        Expr::TupleLiteral { elements, .. } => args_agg_insts(elements, 0, ss, es),
        Expr::ArrayLiteral { elements, .. } => args_agg_insts(elements, 0, ss, es),
        Expr::Cast { expr, ty, .. } => expr_agg_insts(*expr, ss, es) + agg_ty(tn_view(ty), ss, es)->Ok_0.1,
        _ => Seq::empty(),
    }
}

/// `expr_agg_insts` for the arguments from position `i` on.
pub open spec fn args_agg_insts(args: Vec<Expr>, i: int, ss: Seq<StructDecl>, es: Seq<EnumDecl>) -> Seq<(Seq<char>, Seq<TypeView>)>
    decreases args, args.len() - i,
{
    if i < 0 || i >= args.len() {
        Seq::empty()
    } else {
        expr_agg_insts(args[i], ss, es) + args_agg_insts(args, i + 1, ss, es)
    }
}

/// `r` is `e` with the type arguments of every call rewritten.
pub open spec fn expr_agg_rewritten(e: Expr, ss: Seq<StructDecl>, es: Seq<EnumDecl>, r: Expr) -> bool
    decreases e,
{
    match e {
        Expr::Call { name, type_args, args, line, column } => {
            &&& r matches Expr::Call { name: n2, type_args: t2, args: a2, line: l2, column: c2 }
            &&& n2 == name && l2 == line && c2 == column
            &&& tn_views(t2, 0) == agg_tys(tn_views(type_args, 0), 0, ss, es)->Ok_0.0
            &&& a2@.len() == args.len()
            &&& args_agg_rewritten(args, a2@, 0, ss, es)
        },
        Expr::BinaryAdd { op, lhs, rhs, line, column } => {
            &&& r matches Expr::BinaryAdd { op: o2, lhs: l2, rhs: r2, line: ln2, column: c2 }
            &&& o2 == op && ln2 == line && c2 == column
            &&& expr_agg_rewritten(*lhs, ss, es, *l2) && expr_agg_rewritten(*rhs, ss, es, *r2)
        },
        Expr::BinaryCompare { op, lhs, rhs, line, column } => {
            &&& r matches Expr::BinaryCompare { op: o2, lhs: l2, rhs: r2, line: ln2, column: c2 }
            &&& o2 == op && ln2 == line && c2 == column
            &&& expr_agg_rewritten(*lhs, ss, es, *l2) && expr_agg_rewritten(*rhs, ss, es, *r2)
        },
        Expr::BinaryLogic { op, lhs, rhs, line, column } => {
            &&& r matches Expr::BinaryLogic { op: o2, lhs: l2, rhs: r2, line: ln2, column: c2 }
            &&& o2 == op && ln2 == line && c2 == column
            &&& expr_agg_rewritten(*lhs, ss, es, *l2) && expr_agg_rewritten(*rhs, ss, es, *r2)
        },
        Expr::Unary { op, expr, line, column } => {
            &&& r matches Expr::Unary { op: o2, expr: x2, line: ln2, column: c2 }
            &&& o2 == op && ln2 == line && c2 == column
            &&& expr_agg_rewritten(*expr, ss, es, *x2)
        },
        Expr::TupleLiteral { elements, line, column } => {
            &&& r matches Expr::TupleLiteral { elements: x2, line: ln2, column: c2 }
            &&& ln2 == line && c2 == column
            &&& x2@.len() == elements.len()
            &&& args_agg_rewritten(elements, x2@, 0, ss, es)
        },
        Expr::ArrayLiteral { elements, line, column } => {
            &&& r matches Expr::ArrayLiteral { elements: x2, line: ln2, column: c2 }
            &&& ln2 == line && c2 == column
            &&& x2@.len() == elements.len()
            &&& args_agg_rewritten(elements, x2@, 0, ss, es)
        },
        Expr::Cast { expr, ty, line, column } => {
            &&& r matches Expr::Cast { expr: x2, ty: t2, line: ln2, column: c2 }
            &&& ln2 == line && c2 == column
            &&& expr_agg_rewritten(*expr, ss, es, *x2)
            &&& tn_view(t2) == agg_ty(tn_view(ty), ss, es)->Ok_0.0
        },
        _ => r == e,
    }
}

/// `expr_agg_rewritten` for the arguments from position `i` on, each against the item at
/// the same position of `out`.
pub open spec fn args_agg_rewritten(args: Vec<Expr>, out: Seq<Expr>, i: int, ss: Seq<StructDecl>, es: Seq<EnumDecl>) -> bool
    decreases args, args.len() - i,
{
    if i < 0 || i >= args.len() {
        true
    } else {
        &&& i < out.len()
        &&& expr_agg_rewritten(args[i], ss, es, out[i])
        &&& args_agg_rewritten(args, out, i + 1, ss, es)
    }
}

proof fn lemma_args_agg_rewritten(args: Vec<Expr>, out: Seq<Expr>, i: int, ss: Seq<StructDecl>, es: Seq<EnumDecl>)
    requires
        0 <= i,
        out.len() == args.len(),
        forall|k: int| 0 <= k < args.len() ==> expr_agg_rewritten(#[trigger] args[k], ss, es, out[k]),
    ensures
        args_agg_rewritten(args, out, i, ss, es),
    decreases args.len() - i,
{
    if i < args.len() {
        lemma_args_agg_rewritten(args, out, i + 1, ss, es);
    }
}

/// Rewrites the type arguments of the calls in `e`, queuing the instances they need.
pub fn rewrite_expr_aggregate_types(e: &Expr, ss: &Vec<StructDecl>, es: &Vec<EnumDecl>, queued: &mut Vec<GenericInstantiation>) -> (r: Result<Expr, Diagnostic>)
    ensures
        match expr_agg_problem(*e, ss@, es@) {
            Some((m, l, c)) => r is Err && type_error(r->Err_0, m, l, c),
            None => {
                &&& r is Ok
                &&& expr_agg_rewritten(*e, ss@, es@, r->Ok_0)
                &&& insts_view(final(queued)@) == dedup_append(insts_view(old(queued)@), expr_agg_insts(*e, ss@, es@))
            },
        },
    decreases e,
{
    let ghost q0 = insts_view(queued@);
    match e {
        Expr::Literal(lit) => {
            let copy = match lit {
                Literal::Int(v) => Literal::Int(*v),
                Literal::Bool(v) => Literal::Bool(*v),
                Literal::String(v) => Literal::String(v.clone()),
            };
            proof { lemma_dedup_append_empty(q0); }
            Ok(Expr::Literal(copy))
        },
        Expr::VarRef { name, line, column } => {
            proof { lemma_dedup_append_empty(q0); }
            Ok(Expr::VarRef { name: name.clone(), line: *line, column: *column })
        },
        Expr::Call { name, type_args, args, line, column } => {
            let t = rewrite_aggregate_type_names(type_args, 0, ss, es, queued, *line, *column)?;
            let a = rewrite_args_aggregate_types(args, ss, es, queued)?;
            proof {
                lemma_dedup_append_concat(q0, agg_tys(tn_views(*type_args, 0), 0, ss@, es@)->Ok_0.1, args_agg_insts(*args, 0, ss@, es@));
            }
            Ok(Expr::Call { name: name.clone(), type_args: t, args: a, line: *line, column: *column })
        },
        Expr::BinaryAdd { op, lhs, rhs, line, column } => {
            let l = rewrite_expr_aggregate_types(lhs, ss, es, queued)?;
            let r = rewrite_expr_aggregate_types(rhs, ss, es, queued)?;
            proof { lemma_dedup_append_concat(q0, expr_agg_insts(**lhs, ss@, es@), expr_agg_insts(**rhs, ss@, es@)); }
            Ok(Expr::BinaryAdd { op: *op, lhs: Box::new(l), rhs: Box::new(r), line: *line, column: *column })
        },
        Expr::BinaryCompare { op, lhs, rhs, line, column } => {
            let l = rewrite_expr_aggregate_types(lhs, ss, es, queued)?;
            let r = rewrite_expr_aggregate_types(rhs, ss, es, queued)?;
            proof { lemma_dedup_append_concat(q0, expr_agg_insts(**lhs, ss@, es@), expr_agg_insts(**rhs, ss@, es@)); }
            Ok(Expr::BinaryCompare { op: *op, lhs: Box::new(l), rhs: Box::new(r), line: *line, column: *column })
        },
        Expr::BinaryLogic { op, lhs, rhs, line, column } => {
            let l = rewrite_expr_aggregate_types(lhs, ss, es, queued)?;
            let r = rewrite_expr_aggregate_types(rhs, ss, es, queued)?;
            proof { lemma_dedup_append_concat(q0, expr_agg_insts(**lhs, ss@, es@), expr_agg_insts(**rhs, ss@, es@)); }
            Ok(Expr::BinaryLogic { op: *op, lhs: Box::new(l), rhs: Box::new(r), line: *line, column: *column })
        },
        Expr::Unary { op, expr, line, column } => {
            let x = rewrite_expr_aggregate_types(expr, ss, es, queued)?;
            Ok(Expr::Unary { op: *op, expr: Box::new(x), line: *line, column: *column })
        },
        Expr::TupleLiteral { elements, line, column } => {
            let x = rewrite_args_aggregate_types(elements, ss, es, queued)?;
            Ok(Expr::TupleLiteral { elements: x, line: *line, column: *column })
        },
        Expr::ArrayLiteral { elements, line, column } => {
            let x = rewrite_args_aggregate_types(elements, ss, es, queued)?;
            Ok(Expr::ArrayLiteral { elements: x, line: *line, column: *column })
        },
        Expr::Cast { expr, ty, line, column } => {
            let x = rewrite_expr_aggregate_types(expr, ss, es, queued)?;
            let t = rewrite_aggregate_type_name(ty, ss, es, queued, *line, *column)?;
            proof { lemma_dedup_append_concat(q0, expr_agg_insts(**expr, ss@, es@), agg_ty(tn_view(*ty), ss@, es@)->Ok_0.1); }
            Ok(Expr::Cast { expr: Box::new(x), ty: t, line: *line, column: *column })
        },
    }
}

/// Rewrites the type arguments of the calls in each of `args`, in order.
fn rewrite_args_aggregate_types(args: &Vec<Expr>, ss: &Vec<StructDecl>, es: &Vec<EnumDecl>, queued: &mut Vec<GenericInstantiation>) -> (r: Result<Vec<Expr>, Diagnostic>)
    ensures
        match args_agg_problem(*args, 0, ss@, es@) {
            Some((m, l, c)) => r is Err && type_error(r->Err_0, m, l, c),
            None => {
                &&& r is Ok
                &&& r->Ok_0@.len() == args.len()
                &&& args_agg_rewritten(*args, r->Ok_0@, 0, ss@, es@)
                &&& insts_view(final(queued)@) == dedup_append(insts_view(old(queued)@), args_agg_insts(*args, 0, ss@, es@))
            },
        },
    decreases args, 0int,
{
    let ghost target = dedup_append(insts_view(queued@), args_agg_insts(*args, 0, ss@, es@));
    let mut out: Vec<Expr> = Vec::new();
    let mut i: usize = 0;
    while i < args.len()
        invariant
            i <= args.len(),
            out.len() == i,
            args_agg_problem(*args, 0, ss@, es@) == args_agg_problem(*args, i as int, ss@, es@),
            forall|k: int| 0 <= k < i ==> expr_agg_rewritten(#[trigger] args@[k], ss@, es@, out@[k]),
            dedup_append(insts_view(queued@), args_agg_insts(*args, i as int, ss@, es@)) == target,
        decreases args.len() - i,
    {
        proof { assert(decreases_to!(args => args[i as int])); }
        let ghost q = insts_view(queued@);
        let x = rewrite_expr_aggregate_types(&args[i], ss, es, queued)?;
        proof { lemma_dedup_append_concat(q, expr_agg_insts(args@[i as int], ss@, es@), args_agg_insts(*args, i + 1, ss@, es@)); }
        out.push(x);
        i = i + 1;
    }
    proof {
        lemma_args_agg_rewritten(*args, out@, 0, ss@, es@);
        assert(args_agg_insts(*args, i as int, ss@, es@) =~= Seq::empty());
    }
    Ok(out)
}

// ---------------------------------------------------------------------------
// Statements.

/// The first failure to rewrite a type in `s`, in order: a `let`'s declared type (at the
/// `let`), then the calls of its expressions and blocks.
pub open spec fn stmt_agg_problem(s: Stmt, ss: Seq<StructDecl>, es: Seq<EnumDecl>) -> Option<(Seq<char>, usize, usize)>
    decreases s,
{
    match s {
        Stmt::Let { ty, expr, line, column, .. } => match agg_ty(tn_view(ty), ss, es) {
            Err(m) => Some((m, line, column)),
            Ok(_) => expr_agg_problem(expr, ss, es),
        },
        Stmt::Print { expr, .. } | Stmt::Panic { expr, .. } | Stmt::Defer { expr, .. } | Stmt::Return { expr, .. } => expr_agg_problem(expr, ss, es),
        Stmt::Assign { target, expr, .. } => match expr_agg_problem(target, ss, es) {
            Some(p) => Some(p),
            None => expr_agg_problem(expr, ss, es),
        },
        Stmt::If { cond, then_block, else_block, .. } => match expr_agg_problem(cond, ss, es) {
            Some(p) => Some(p),
            None => match block_agg_problem(then_block, 0, ss, es) {
                Some(p) => Some(p),
                None => match else_block {
                    Some(x) => block_agg_problem(x, 0, ss, es),
                    None => None,
                },
            },
        },
        Stmt::While { cond, body, .. } => match expr_agg_problem(cond, ss, es) {
            Some(p) => Some(p),
            None => block_agg_problem(body, 0, ss, es),
        },
        Stmt::Match { expr, arms, .. } => match expr_agg_problem(expr, ss, es) {
            Some(p) => Some(p),
            None => arms_agg_problem(arms, 0, ss, es),
        },
        Stmt::Break { .. } | Stmt::Continue { .. } => None,
    }
}

/// `stmt_agg_problem` for the statements from position `i` on.
pub open spec fn block_agg_problem(block: Vec<Stmt>, i: int, ss: Seq<StructDecl>, es: Seq<EnumDecl>) -> Option<(Seq<char>, usize, usize)>
    decreases block, block.len() - i,
{
    if i < 0 || i >= block.len() {
        None
    } else {
        match stmt_agg_problem(block[i], ss, es) {
            Some(p) => Some(p),
            None => block_agg_problem(block, i + 1, ss, es),
        }
    }
}

/// `block_agg_problem` for the bodies of the arms from position `i` on.
pub open spec fn arms_agg_problem(arms: Vec<MatchArm>, i: int, ss: Seq<StructDecl>, es: Seq<EnumDecl>) -> Option<(Seq<char>, usize, usize)>
    decreases arms, arms.len() - i,
{
    if i < 0 || i >= arms.len() {
        None
    } else {
        match block_agg_problem(arms[i].body, 0, ss, es) {
            Some(p) => Some(p),
            None => arms_agg_problem(arms, i + 1, ss, es),
        }
    }
}

/// The instances that the types in `s` need, in order.
pub open spec fn stmt_agg_insts(s: Stmt, ss: Seq<StructDecl>, es: Seq<EnumDecl>) -> Seq<(Seq<char>, Seq<TypeView>)>
    decreases s,
{
    match s {
        Stmt::Let { ty, expr, .. } => agg_ty(tn_view(ty), ss, es)->Ok_0.1 + expr_agg_insts(expr, ss, es),
        Stmt::Print { expr, .. } | Stmt::Panic { expr, .. } | Stmt::Defer { expr, .. } | Stmt::Return { expr, .. } => expr_agg_insts(expr, ss, es),
        Stmt::Assign { target, expr, .. } => expr_agg_insts(target, ss, es) + expr_agg_insts(expr, ss, es),
        Stmt::If { cond, then_block, else_block, .. } => expr_agg_insts(cond, ss, es) + block_agg_insts(then_block, 0, ss, es)
            + match else_block {
                Some(x) => block_agg_insts(x, 0, ss, es),
                None => Seq::empty(),
            },
        Stmt::While { cond, body, .. } => expr_agg_insts(cond, ss, es) + block_agg_insts(body, 0, ss, es),
        Stmt::Match { expr, arms, .. } => expr_agg_insts(expr, ss, es) + arms_agg_insts(arms, 0, ss, es),
        Stmt::Break { .. } | Stmt::Continue { .. } => Seq::empty(),
    }
}

/// `stmt_agg_insts` for the statements from position `i` on.
pub open spec fn block_agg_insts(block: Vec<Stmt>, i: int, ss: Seq<StructDecl>, es: Seq<EnumDecl>) -> Seq<(Seq<char>, Seq<TypeView>)>
    decreases block, block.len() - i,
{
    if i < 0 || i >= block.len() {
        Seq::empty()
    } else {
        stmt_agg_insts(block[i], ss, es) + block_agg_insts(block, i + 1, ss, es)
    }
}

/// `block_agg_insts` for the bodies of the arms from position `i` on.
pub open spec fn arms_agg_insts(arms: Vec<MatchArm>, i: int, ss: Seq<StructDecl>, es: Seq<EnumDecl>) -> Seq<(Seq<char>, Seq<TypeView>)>
    decreases arms, arms.len() - i,
{
    if i < 0 || i >= arms.len() {
        Seq::empty()
    } else {
        block_agg_insts(arms[i].body, 0, ss, es) + arms_agg_insts(arms, i + 1, ss, es)
    }
}

/// `r` is `s` with its types and the type arguments of its calls rewritten.
pub open spec fn stmt_agg_rewritten(s: Stmt, ss: Seq<StructDecl>, es: Seq<EnumDecl>, r: Stmt) -> bool
    decreases s,
{
    match s {
        Stmt::Let { name, ty, expr, line, column } => {
            &&& r matches Stmt::Let { name: n2, ty: t2, expr: e2, line: l2, column: c2 }
            &&& n2 == name && tn_view(t2) == agg_ty(tn_view(ty), ss, es)->Ok_0.0 && l2 == line && c2 == column
            &&& expr_agg_rewritten(expr, ss, es, e2)
        },
        Stmt::Print { expr, line, column } => {
            &&& r matches Stmt::Print { expr: e2, line: l2, column: c2 }
            &&& l2 == line && c2 == column && expr_agg_rewritten(expr, ss, es, e2)
        },
        Stmt::Panic { expr, line, column } => {
            &&& r matches Stmt::Panic { expr: e2, line: l2, column: c2 }
            &&& l2 == line && c2 == column && expr_agg_rewritten(expr, ss, es, e2)
        },
        Stmt::Defer { expr, line, column } => {
            &&& r matches Stmt::Defer { expr: e2, line: l2, column: c2 }
            &&& l2 == line && c2 == column && expr_agg_rewritten(expr, ss, es, e2)
        },
        Stmt::Assign { target, expr, line, column } => {
            &&& r matches Stmt::Assign { target: t2, expr: e2, line: l2, column: c2 }
            &&& l2 == line && c2 == column && expr_agg_rewritten(target, ss, es, t2) && expr_agg_rewritten(expr, ss, es, e2)
        },
        Stmt::Return { expr, line, column } => {
            &&& r matches Stmt::Return { expr: e2, line: l2, column: c2 }
            &&& l2 == line && c2 == column && expr_agg_rewritten(expr, ss, es, e2)
        },
        Stmt::If { cond, then_block, else_block, line, column } => {
            &&& r matches Stmt::If { cond: c2, then_block: t2, else_block: e2, line: l2, column: col2 }
            &&& l2 == line && col2 == column && expr_agg_rewritten(cond, ss, es, c2)
            &&& t2@.len() == then_block.len() && block_agg_rewritten(then_block, t2@, 0, ss, es)
            &&& match (else_block, e2) {
                (Some(x), Some(y)) => y@.len() == x.len() && block_agg_rewritten(x, y@, 0, ss, es),
                (None, None) => true,
                _ => false,
            }
        },
        Stmt::While { cond, body, line, column } => {
            &&& r matches Stmt::While { cond: c2, body: b2, line: l2, column: col2 }
            &&& l2 == line && col2 == column && expr_agg_rewritten(cond, ss, es, c2)
            &&& b2@.len() == body.len() && block_agg_rewritten(body, b2@, 0, ss, es)
        },
        Stmt::Match { expr, arms, line, column } => {
            &&& r matches Stmt::Match { expr: e2, arms: a2, line: l2, column: c2 }
            &&& l2 == line && c2 == column && expr_agg_rewritten(expr, ss, es, e2)
            &&& a2@.len() == arms.len() && arms_agg_rewritten(arms, a2@, 0, ss, es)
        },
        Stmt::Break { .. } | Stmt::Continue { .. } => r == s,
    }
}

/// `stmt_agg_rewritten` for the statements from position `i` on, against the same
/// positions of `out`.
pub open spec fn block_agg_rewritten(block: Vec<Stmt>, out: Seq<Stmt>, i: int, ss: Seq<StructDecl>, es: Seq<EnumDecl>) -> bool
    decreases block, block.len() - i,
{
    if i < 0 || i >= block.len() {
        true
    } else {
        &&& i < out.len()
        &&& stmt_agg_rewritten(block[i], ss, es, out[i])
        &&& block_agg_rewritten(block, out, i + 1, ss, es)
    }
}

/// The arms from position `i` on are those of `out` at the same positions: the same
/// variants and bindings, their bodies rewritten.
pub open spec fn arms_agg_rewritten(arms: Vec<MatchArm>, out: Seq<MatchArm>, i: int, ss: Seq<StructDecl>, es: Seq<EnumDecl>) -> bool
    decreases arms, arms.len() - i,
{
    if i < 0 || i >= arms.len() {
        true
    } else {
        &&& i < out.len()
        &&& out[i].variant == arms[i].variant && out[i].bindings@ == arms[i].bindings@ && out[i].is_named == arms[i].is_named
        &&& out[i].line == arms[i].line && out[i].column == arms[i].column
        &&& out[i].body@.len() == arms[i].body.len() && block_agg_rewritten(arms[i].body, out[i].body@, 0, ss, es)
        &&& arms_agg_rewritten(arms, out, i + 1, ss, es)
    }
}

proof fn lemma_block_agg_rewritten(block: Vec<Stmt>, out: Seq<Stmt>, i: int, ss: Seq<StructDecl>, es: Seq<EnumDecl>)
    requires
        0 <= i,
        out.len() == block.len(),
        forall|k: int| 0 <= k < block.len() ==> stmt_agg_rewritten(#[trigger] block[k], ss, es, out[k]),
    ensures
        block_agg_rewritten(block, out, i, ss, es),
    decreases block.len() - i,
{
    if i < block.len() {
        lemma_block_agg_rewritten(block, out, i + 1, ss, es);
    }
}

proof fn lemma_arms_agg_rewritten(arms: Vec<MatchArm>, out: Seq<MatchArm>, i: int, ss: Seq<StructDecl>, es: Seq<EnumDecl>)
    requires
        0 <= i,
        out.len() == arms.len(),
        forall|k: int| 0 <= k < arms.len() ==> {
            &&& (#[trigger] out[k]).variant == arms[k].variant && out[k].bindings@ == arms[k].bindings@ && out[k].is_named == arms[k].is_named
            &&& out[k].line == arms[k].line && out[k].column == arms[k].column
            &&& out[k].body@.len() == arms[k].body.len() && block_agg_rewritten(arms[k].body, out[k].body@, 0, ss, es)
        },
    ensures
        arms_agg_rewritten(arms, out, i, ss, es),
    decreases arms.len() - i,
{
    if i < arms.len() {
        lemma_arms_agg_rewritten(arms, out, i + 1, ss, es);
    }
}

/// Rewrites the types in `s`, queuing the instances they need.
pub fn rewrite_stmt_aggregate_types(s: &Stmt, ss: &Vec<StructDecl>, es: &Vec<EnumDecl>, queued: &mut Vec<GenericInstantiation>) -> (r: Result<Stmt, Diagnostic>)
    ensures
        match stmt_agg_problem(*s, ss@, es@) {
            Some((m, l, c)) => r is Err && type_error(r->Err_0, m, l, c),
            None => {
                &&& r is Ok
                &&& stmt_agg_rewritten(*s, ss@, es@, r->Ok_0)
                &&& insts_view(final(queued)@) == dedup_append(insts_view(old(queued)@), stmt_agg_insts(*s, ss@, es@))
            },
        },
    decreases s,
{
    let ghost q0 = insts_view(queued@);
    match s {
        Stmt::Let { name, ty, expr, line, column } => {
            let t = rewrite_aggregate_type_name(ty, ss, es, queued, *line, *column)?;
            let e = rewrite_expr_aggregate_types(expr, ss, es, queued)?;
            proof { lemma_dedup_append_concat(q0, agg_ty(tn_view(*ty), ss@, es@)->Ok_0.1, expr_agg_insts(*expr, ss@, es@)); }
            Ok(Stmt::Let { name: name.clone(), ty: t, expr: e, line: *line, column: *column })
        },
        Stmt::Print { expr, line, column } => {
            let e = rewrite_expr_aggregate_types(expr, ss, es, queued)?;
            Ok(Stmt::Print { expr: e, line: *line, column: *column })
        },
        Stmt::Panic { expr, line, column } => {
            let e = rewrite_expr_aggregate_types(expr, ss, es, queued)?;
            Ok(Stmt::Panic { expr: e, line: *line, column: *column })
        },
        Stmt::Defer { expr, line, column } => {
            let e = rewrite_expr_aggregate_types(expr, ss, es, queued)?;
            Ok(Stmt::Defer { expr: e, line: *line, column: *column })
        },
        Stmt::Assign { target, expr, line, column } => {
            let t = rewrite_expr_aggregate_types(target, ss, es, queued)?;
            let e = rewrite_expr_aggregate_types(expr, ss, es, queued)?;
            proof { lemma_dedup_append_concat(q0, expr_agg_insts(*target, ss@, es@), expr_agg_insts(*expr, ss@, es@)); }
            Ok(Stmt::Assign { target: t, expr: e, line: *line, column: *column })
        },
        Stmt::Return { expr, line, column } => {
            let e = rewrite_expr_aggregate_types(expr, ss, es, queued)?;
            Ok(Stmt::Return { expr: e, line: *line, column: *column })
        },
        Stmt::If { cond, then_block, else_block, line, column } => {
            let c = rewrite_expr_aggregate_types(cond, ss, es, queued)?;
            let t = rewrite_block_aggregate_types(then_block, ss, es, queued)?;
            let ghost q2 = insts_view(queued@);
            let e = match else_block {
                Some(x) => Some(rewrite_block_aggregate_types(x, ss, es, queued)?),
                None => None,
            };
            proof {
                let xs = expr_agg_insts(*cond, ss@, es@);
                let ys = block_agg_insts(*then_block, 0, ss@, es@);
                let zs = match else_block {
                    Some(x) => block_agg_insts(*x, 0, ss@, es@),
                    None => Seq::empty(),
                };
                lemma_dedup_append_concat(q0, xs, ys);
                lemma_dedup_append_concat(q0, xs + ys, zs);
                if else_block is None {
                    lemma_dedup_append_empty(q2);
                }
            }
            Ok(Stmt::If { cond: c, then_block: t, else_block: e, line: *line, column: *column })
        },
        Stmt::While { cond, body, line, column } => {
            let c = rewrite_expr_aggregate_types(cond, ss, es, queued)?;
            let bd = rewrite_block_aggregate_types(body, ss, es, queued)?;
            proof { lemma_dedup_append_concat(q0, expr_agg_insts(*cond, ss@, es@), block_agg_insts(*body, 0, ss@, es@)); }
            Ok(Stmt::While { cond: c, body: bd, line: *line, column: *column })
        },
        Stmt::Match { expr, arms, line, column } => {
            let e = rewrite_expr_aggregate_types(expr, ss, es, queued)?;
            let a = rewrite_arms_aggregate_types(arms, ss, es, queued)?;
            proof { lemma_dedup_append_concat(q0, expr_agg_insts(*expr, ss@, es@), arms_agg_insts(*arms, 0, ss@, es@)); }
            Ok(Stmt::Match { expr: e, arms: a, line: *line, column: *column })
        },
        Stmt::Break { line, column } => {
            proof { lemma_dedup_append_empty(q0); }
            Ok(Stmt::Break { line: *line, column: *column })
        },
        Stmt::Continue { line, column } => {
            proof { lemma_dedup_append_empty(q0); }
            Ok(Stmt::Continue { line: *line, column: *column })
        },
    }
}

/// Rewrites the types in each statement of `block`, in order.
pub fn rewrite_block_aggregate_types(block: &Vec<Stmt>, ss: &Vec<StructDecl>, es: &Vec<EnumDecl>, queued: &mut Vec<GenericInstantiation>) -> (r: Result<Vec<Stmt>, Diagnostic>)
    ensures
        match block_agg_problem(*block, 0, ss@, es@) {
            Some((m, l, c)) => r is Err && type_error(r->Err_0, m, l, c),
            None => {
                &&& r is Ok
                &&& r->Ok_0@.len() == block.len()
                &&& block_agg_rewritten(*block, r->Ok_0@, 0, ss@, es@)
                &&& insts_view(final(queued)@) == dedup_append(insts_view(old(queued)@), block_agg_insts(*block, 0, ss@, es@))
            },
        },
    decreases block, 0int,
{
    let ghost target = dedup_append(insts_view(queued@), block_agg_insts(*block, 0, ss@, es@));
    let mut out: Vec<Stmt> = Vec::new();
    let mut i: usize = 0;
    while i < block.len()
        invariant
            i <= block.len(),
            out.len() == i,
            block_agg_problem(*block, 0, ss@, es@) == block_agg_problem(*block, i as int, ss@, es@),
            forall|k: int| 0 <= k < i ==> stmt_agg_rewritten(#[trigger] block@[k], ss@, es@, out@[k]),
            dedup_append(insts_view(queued@), block_agg_insts(*block, i as int, ss@, es@)) == target,
        decreases block.len() - i,
    {
        proof { assert(decreases_to!(block => block[i as int])); }
        let ghost q = insts_view(queued@);
        let x = rewrite_stmt_aggregate_types(&block[i], ss, es, queued)?;
        proof { lemma_dedup_append_concat(q, stmt_agg_insts(block@[i as int], ss@, es@), block_agg_insts(*block, i + 1, ss@, es@)); }
        out.push(x);
        i = i + 1;
    }
    proof {
        lemma_block_agg_rewritten(*block, out@, 0, ss@, es@);
        assert(block_agg_insts(*block, i as int, ss@, es@) =~= Seq::empty());
    }
    Ok(out)
}

/// Rewrites the types in the body of each arm, in order.
fn rewrite_arms_aggregate_types(arms: &Vec<MatchArm>, ss: &Vec<StructDecl>, es: &Vec<EnumDecl>, queued: &mut Vec<GenericInstantiation>) -> (r: Result<Vec<MatchArm>, Diagnostic>)
    ensures
        match arms_agg_problem(*arms, 0, ss@, es@) {
            Some((m, l, c)) => r is Err && type_error(r->Err_0, m, l, c),
            None => {
                &&& r is Ok
                &&& r->Ok_0@.len() == arms.len()
                &&& arms_agg_rewritten(*arms, r->Ok_0@, 0, ss@, es@)
                &&& insts_view(final(queued)@) == dedup_append(insts_view(old(queued)@), arms_agg_insts(*arms, 0, ss@, es@))
            },
        },
    decreases arms, 0int,
{
    let ghost target = dedup_append(insts_view(queued@), arms_agg_insts(*arms, 0, ss@, es@));
    let mut out: Vec<MatchArm> = Vec::new();
    let mut i: usize = 0;
    while i < arms.len()
        invariant
            i <= arms.len(),
            out.len() == i,
            arms_agg_problem(*arms, 0, ss@, es@) == arms_agg_problem(*arms, i as int, ss@, es@),
            forall|k: int| 0 <= k < i ==> {
                &&& (#[trigger] out@[k]).variant == arms@[k].variant && out@[k].bindings@ == arms@[k].bindings@ && out@[k].is_named == arms@[k].is_named
                &&& out@[k].line == arms@[k].line && out@[k].column == arms@[k].column
                &&& out@[k].body@.len() == arms@[k].body.len() && block_agg_rewritten(arms@[k].body, out@[k].body@, 0, ss@, es@)
            },
            dedup_append(insts_view(queued@), arms_agg_insts(*arms, i as int, ss@, es@)) == target,
        decreases arms.len() - i,
    {
        proof { assert(decreases_to!(arms => arms[i as int])); }
        let ghost q = insts_view(queued@);
        let arm = &arms[i];
        let body = rewrite_block_aggregate_types(&arm.body, ss, es, queued)?;
        proof { lemma_dedup_append_concat(q, block_agg_insts(arms@[i as int].body, 0, ss@, es@), arms_agg_insts(*arms, i + 1, ss@, es@)); }
        out.push(MatchArm {
            variant: arm.variant.clone(),
            bindings: crate::lower_stmt::clone_strings(&arm.bindings),
            is_named: arm.is_named,
            body,
            line: arm.line,
            column: arm.column,
        });
        i = i + 1;
    }
    proof {
        lemma_arms_agg_rewritten(*arms, out@, 0, ss@, es@);
        assert(arms_agg_insts(*arms, i as int, ss@, es@) =~= Seq::empty());
    }
    Ok(out)
}

// ---------------------------------------------------------------------------
// Declarations.

/// The first failure to rewrite the type of a field from position `i` on, the type
/// parameters bound as in `b`, at the field.
pub open spec fn fields_agg_problem(fields: Vec<StructField>, i: int, b: Seq<(Seq<char>, TypeView)>, ss: Seq<StructDecl>, es: Seq<EnumDecl>) -> Option<(Seq<char>, usize, usize)>
    decreases fields.len() - i,
{
    if i < 0 || i >= fields.len() {
        None
    } else {
        match agg_ty(subst_v(tn_view(fields[i].ty), b), ss, es) {
            Err(m) => Some((m, fields[i].line, fields[i].column)),
            Ok(_) => fields_agg_problem(fields, i + 1, b, ss, es),
        }
    }
}

/// The instances that the field types from position `i` on need, in order.
pub open spec fn fields_agg_insts(fields: Vec<StructField>, i: int, b: Seq<(Seq<char>, TypeView)>, ss: Seq<StructDecl>, es: Seq<EnumDecl>) -> Seq<(Seq<char>, Seq<TypeView>)>
    decreases fields.len() - i,
{
    if i < 0 || i >= fields.len() {
        Seq::empty()
    } else {
        agg_ty(subst_v(tn_view(fields[i].ty), b), ss, es)->Ok_0.1 + fields_agg_insts(fields, i + 1, b, ss, es)
    }
}

/// `r` is the struct `s` declared under `name`, not generic, its field types with the
/// type parameters bound in `b` substituted and rewritten.
pub open spec fn struct_agg_rewritten(s: StructDecl, b: Seq<(Seq<char>, TypeView)>, ss: Seq<StructDecl>, es: Seq<EnumDecl>, name: Seq<char>, r: StructDecl) -> bool {
    &&& r.name@ == name && r.type_params@.len() == 0 && r.line == s.line && r.column == s.column
    &&& r.fields@.len() == s.fields.len()
    &&& forall|k: int| 0 <= k < s.fields.len() ==> {
        &&& (#[trigger] r.fields@[k]).name == s.fields[k].name
        &&& tn_view(r.fields@[k].ty) == agg_ty(subst_v(tn_view(s.fields[k].ty), b), ss, es)->Ok_0.0
        &&& r.fields@[k].line == s.fields[k].line && r.fields@[k].column == s.fields[k].column
    }
}

/// The payload types of the variant `v`, the type parameters bound as in `b`, rewritten.
pub open spec fn payloads_agg(v: EnumVariantDecl, b: Seq<(Seq<char>, TypeView)>, ss: Seq<StructDecl>, es: Seq<EnumDecl>) -> Result<(Seq<TypeView>, Seq<(Seq<char>, Seq<TypeView>)>), Seq<char>> {
    agg_tys(subst_vs(tn_views(v.payload_tys, 0), 0, b), 0, ss, es)
}

/// The first failure to rewrite the payload types of a variant from position `i` on, at
/// the variant.
pub open spec fn variants_agg_problem(vs: Vec<EnumVariantDecl>, i: int, b: Seq<(Seq<char>, TypeView)>, ss: Seq<StructDecl>, es: Seq<EnumDecl>) -> Option<(Seq<char>, usize, usize)>
    decreases vs.len() - i,
{
    if i < 0 || i >= vs.len() {
        None
    } else {
        match payloads_agg(vs[i], b, ss, es) {
            Err(m) => Some((m, vs[i].line, vs[i].column)),
            Ok(_) => variants_agg_problem(vs, i + 1, b, ss, es),
        }
    }
}

/// The instances that the payload types of the variants from position `i` on need.
pub open spec fn variants_agg_insts(vs: Vec<EnumVariantDecl>, i: int, b: Seq<(Seq<char>, TypeView)>, ss: Seq<StructDecl>, es: Seq<EnumDecl>) -> Seq<(Seq<char>, Seq<TypeView>)>
    decreases vs.len() - i,
{
    if i < 0 || i >= vs.len() {
        Seq::empty()
    } else {
        payloads_agg(vs[i], b, ss, es)->Ok_0.1 + variants_agg_insts(vs, i + 1, b, ss, es)
    }
}

/// `r` is the enum `e` declared under `name`, not generic, its payload types with the
/// type parameters bound in `b` substituted and rewritten.
pub open spec fn enum_agg_rewritten(e: EnumDecl, b: Seq<(Seq<char>, TypeView)>, ss: Seq<StructDecl>, es: Seq<EnumDecl>, name: Seq<char>, r: EnumDecl) -> bool {
    &&& r.name@ == name && r.type_params@.len() == 0 && r.line == e.line && r.column == e.column
    &&& r.variants@.len() == e.variants.len()
    &&& forall|k: int| 0 <= k < e.variants.len() ==> {
        &&& (#[trigger] r.variants@[k]).name == e.variants[k].name
        &&& tn_views(r.variants@[k].payload_tys, 0) == payloads_agg(e.variants[k], b, ss, es)->Ok_0.0
        &&& r.variants@[k].payload_names@ == e.variants[k].payload_names@
        &&& r.variants@[k].line == e.variants[k].line && r.variants@[k].column == e.variants[k].column
    }
}

/// Declares the struct `s` under `name`, its type parameters bound as in `b`.
fn rewrite_struct_decl_aggregate_types(s: &StructDecl, b: &Vec<(String, TypeName)>, ss: &Vec<StructDecl>, es: &Vec<EnumDecl>, queued: &mut Vec<GenericInstantiation>, name: String) -> (r: Result<StructDecl, Diagnostic>)
    ensures
        match fields_agg_problem(s.fields, 0, bindings_view(b@), ss@, es@) {
            Some((m, l, c)) => r is Err && type_error(r->Err_0, m, l, c),
            None => {
                &&& r is Ok
                &&& struct_agg_rewritten(*s, bindings_view(b@), ss@, es@, name@, r->Ok_0)
                &&& insts_view(final(queued)@) == dedup_append(insts_view(old(queued)@), fields_agg_insts(s.fields, 0, bindings_view(b@), ss@, es@))
            },
        },
{
    let ghost bv = bindings_view(b@);
    let ghost target = dedup_append(insts_view(queued@), fields_agg_insts(s.fields, 0, bv, ss@, es@));
    let mut fields: Vec<StructField> = Vec::new();
    let mut k: usize = 0;
    while k < s.fields.len()
        invariant
            k <= s.fields.len(),
            fields.len() == k,
            bv == bindings_view(b@),
            fields_agg_problem(s.fields, 0, bv, ss@, es@) == fields_agg_problem(s.fields, k as int, bv, ss@, es@),
            dedup_append(insts_view(queued@), fields_agg_insts(s.fields, k as int, bv, ss@, es@)) == target,
            forall|j: int| 0 <= j < k ==> {
                &&& (#[trigger] fields@[j]).name == s.fields@[j].name
                &&& tn_view(fields@[j].ty) == agg_ty(subst_v(tn_view(s.fields@[j].ty), bv), ss@, es@)->Ok_0.0
                &&& fields@[j].line == s.fields@[j].line && fields@[j].column == s.fields@[j].column
            },
        decreases s.fields.len() - k,
    {
        let f = &s.fields[k];
        let ghost q = insts_view(queued@);
        let substituted = substitute_type_name(&f.ty, b);
        let ty = rewrite_aggregate_type_name(&substituted, ss, es, queued, f.line, f.column)?;
        proof {
            lemma_dedup_append_concat(q, agg_ty(subst_v(tn_view(f.ty), bv), ss@, es@)->Ok_0.1, fields_agg_insts(s.fields, k + 1, bv, ss@, es@));
        }
        fields.push(StructField { name: f.name.clone(), ty, line: f.line, column: f.column });
        k = k + 1;
    }
    proof { assert(fields_agg_insts(s.fields, k as int, bv, ss@, es@) =~= Seq::empty()); }
    Ok(StructDecl { name, type_params: Vec::new(), fields, line: s.line, column: s.column })
}

/// Declares the enum `e` under `name`, its type parameters bound as in `b`.
fn rewrite_enum_decl_aggregate_types(e: &EnumDecl, b: &Vec<(String, TypeName)>, ss: &Vec<StructDecl>, es: &Vec<EnumDecl>, queued: &mut Vec<GenericInstantiation>, name: String) -> (r: Result<EnumDecl, Diagnostic>)
    ensures
        match variants_agg_problem(e.variants, 0, bindings_view(b@), ss@, es@) {
            Some((m, l, c)) => r is Err && type_error(r->Err_0, m, l, c),
            None => {
                &&& r is Ok
                &&& enum_agg_rewritten(*e, bindings_view(b@), ss@, es@, name@, r->Ok_0)
                &&& insts_view(final(queued)@) == dedup_append(insts_view(old(queued)@), variants_agg_insts(e.variants, 0, bindings_view(b@), ss@, es@))
            },
        },
{
    let ghost bv = bindings_view(b@);
    let ghost target = dedup_append(insts_view(queued@), variants_agg_insts(e.variants, 0, bv, ss@, es@));
    let mut variants: Vec<EnumVariantDecl> = Vec::new();
    let mut k: usize = 0;
    while k < e.variants.len()
        invariant
            k <= e.variants.len(),
            variants.len() == k,
            bv == bindings_view(b@),
            variants_agg_problem(e.variants, 0, bv, ss@, es@) == variants_agg_problem(e.variants, k as int, bv, ss@, es@),
            dedup_append(insts_view(queued@), variants_agg_insts(e.variants, k as int, bv, ss@, es@)) == target,
            forall|j: int| 0 <= j < k ==> {
                &&& (#[trigger] variants@[j]).name == e.variants@[j].name
                &&& tn_views(variants@[j].payload_tys, 0) == payloads_agg(e.variants@[j], bv, ss@, es@)->Ok_0.0
                &&& variants@[j].payload_names@ == e.variants@[j].payload_names@
                &&& variants@[j].line == e.variants@[j].line && variants@[j].column == e.variants@[j].column
            },
        decreases e.variants.len() - k,
    {
        let v = &e.variants[k];
        let ghost q = insts_view(queued@);
        let substituted = substitute_type_names(&v.payload_tys, b);
        proof {
            lemma_tn_views(substituted, 0);
            lemma_subst_vs(tn_views(v.payload_tys, 0), 0, bv);
        }
        let tys = rewrite_aggregate_type_names(&substituted, 0, ss, es, queued, v.line, v.column)?;
        proof {
            lemma_dedup_append_concat(q, payloads_agg(*v, bv, ss@, es@)->Ok_0.1, variants_agg_insts(e.variants, k + 1, bv, ss@, es@));
        }
        variants.push(EnumVariantDecl {
            name: v.name.clone(),
            payload_tys: tys,
            payload_names: crate::lower_stmt::clone_strings(&v.payload_names),
            line: v.line,
            column: v.column,
        });
        k = k + 1;
    }
    proof { assert(variants_agg_insts(e.variants, k as int, bv, ss@, es@) =~= Seq::empty()); }
    Ok(EnumDecl { name, type_params: Vec::new(), variants, line: e.line, column: e.column })
}

// ---------------------------------------------------------------------------
// Functions, aliases and constants.

/// The first failure to rewrite the type of a parameter from position `i` on, at the
/// parameter.
pub open spec fn params_agg_problem(params: Vec<syntax::Param>, i: int, ss: Seq<StructDecl>, es: Seq<EnumDecl>) -> Option<(Seq<char>, usize, usize)>
    decreases params.len() - i,
{
    if i < 0 || i >= params.len() {
        None
    } else {
        match agg_ty(tn_view(params[i].ty), ss, es) {
            Err(m) => Some((m, params[i].line, params[i].column)),
            Ok(_) => params_agg_problem(params, i + 1, ss, es),
        }
    }
}

/// The instances that the parameter types from position `i` on need, in order.
pub open spec fn params_agg_insts(params: Vec<syntax::Param>, i: int, ss: Seq<StructDecl>, es: Seq<EnumDecl>) -> Seq<(Seq<char>, Seq<TypeView>)>
    decreases params.len() - i,
{
    if i < 0 || i >= params.len() {
        Seq::empty()
    } else {
        agg_ty(tn_view(params[i].ty), ss, es)->Ok_0.1 + params_agg_insts(params, i + 1, ss, es)
    }
}

/// The first failure to rewrite a type of `f`: its parameters', its return type (at the
/// function), then its body's.
pub open spec fn fn_agg_problem(f: syntax::Function, ss: Seq<StructDecl>, es: Seq<EnumDecl>) -> Option<(Seq<char>, usize, usize)> {
    match params_agg_problem(f.params, 0, ss, es) {
        Some(p) => Some(p),
        None => match agg_ty(tn_view(f.return_ty), ss, es) {
            Err(m) => Some((m, f.line, f.column)),
            Ok(_) => block_agg_problem(f.body, 0, ss, es),
        },
    }
}

/// The instances that the types of `f` need, in order.
pub open spec fn fn_agg_insts(f: syntax::Function, ss: Seq<StructDecl>, es: Seq<EnumDecl>) -> Seq<(Seq<char>, Seq<TypeView>)> {
    params_agg_insts(f.params, 0, ss, es) + agg_ty(tn_view(f.return_ty), ss, es)->Ok_0.1 + block_agg_insts(f.body, 0, ss, es)
}

/// `r` is `f` with its types rewritten.
#[verifier::opaque]
pub open spec fn fn_agg_rewritten(f: syntax::Function, ss: Seq<StructDecl>, es: Seq<EnumDecl>, r: syntax::Function) -> bool {
    &&& r.name == f.name && r.source_name == f.source_name && r.path == f.path && r.type_params@ == f.type_params@
    &&& r.params@.len() == f.params.len()
    &&& forall|k: int| 0 <= k < f.params.len() ==> {
        &&& (#[trigger] r.params@[k]).name == f.params[k].name
        &&& tn_view(r.params@[k].ty) == agg_ty(tn_view(f.params[k].ty), ss, es)->Ok_0.0
        &&& r.params@[k].line == f.params[k].line && r.params@[k].column == f.params[k].column
    }
    &&& tn_view(r.return_ty) == agg_ty(tn_view(f.return_ty), ss, es)->Ok_0.0
    &&& r.body@.len() == f.body.len() && block_agg_rewritten(f.body, r.body@, 0, ss, es)
    &&& r.is_const == f.is_const && r.is_async == f.is_async && r.is_extern == f.is_extern
    &&& r.extern_abi == f.extern_abi && r.extern_library == f.extern_library
    &&& r.line == f.line && r.column == f.column
}

fn clone_opt_text(s: &Option<String>) -> (r: Option<String>)
    ensures
        r == *s,
{
    match s {
        Some(v) => Some(v.clone()),
        None => None,
    }
}

/// Rewrites the types of `f`, queuing the instances they need.
fn rewrite_function_aggregate_types(f: &syntax::Function, ss: &Vec<StructDecl>, es: &Vec<EnumDecl>, queued: &mut Vec<GenericInstantiation>) -> (r: Result<syntax::Function, Diagnostic>)
    ensures
        match fn_agg_problem(*f, ss@, es@) {
            Some((m, l, c)) => r is Err && type_error(r->Err_0, m, l, c),
            None => {
                &&& r is Ok
                &&& fn_agg_rewritten(*f, ss@, es@, r->Ok_0)
                &&& insts_view(final(queued)@) == dedup_append(insts_view(old(queued)@), fn_agg_insts(*f, ss@, es@))
            },
        },
{
    let ghost q0 = insts_view(queued@);
    let ghost target = dedup_append(q0, params_agg_insts(f.params, 0, ss@, es@));
    let mut params: Vec<syntax::Param> = Vec::new();
    let mut k: usize = 0;
    while k < f.params.len()
        invariant
            k <= f.params.len(),
            params.len() == k,
            params_agg_problem(f.params, 0, ss@, es@) == params_agg_problem(f.params, k as int, ss@, es@),
            dedup_append(insts_view(queued@), params_agg_insts(f.params, k as int, ss@, es@)) == target,
            forall|j: int| 0 <= j < k ==> {
                &&& (#[trigger] params@[j]).name == f.params@[j].name
                &&& tn_view(params@[j].ty) == agg_ty(tn_view(f.params@[j].ty), ss@, es@)->Ok_0.0
                &&& params@[j].line == f.params@[j].line && params@[j].column == f.params@[j].column
            },
        decreases f.params.len() - k,
    {
        let p = &f.params[k];
        let ghost q = insts_view(queued@);
        let ty = rewrite_aggregate_type_name(&p.ty, ss, es, queued, p.line, p.column)?;
        proof { lemma_dedup_append_concat(q, agg_ty(tn_view(p.ty), ss@, es@)->Ok_0.1, params_agg_insts(f.params, k + 1, ss@, es@)); }
        params.push(syntax::Param { name: p.name.clone(), ty, line: p.line, column: p.column });
        k = k + 1;
    }
    proof { assert(params_agg_insts(f.params, k as int, ss@, es@) =~= Seq::empty()); }
    let ghost q1 = insts_view(queued@);
    let return_ty = rewrite_aggregate_type_name(&f.return_ty, ss, es, queued, f.line, f.column)?;
    let ghost q2 = insts_view(queued@);
    let body = rewrite_block_aggregate_types(&f.body, ss, es, queued)?;
    proof {
        let xs = params_agg_insts(f.params, 0, ss@, es@);
        let ys = agg_ty(tn_view(f.return_ty), ss@, es@)->Ok_0.1;
        let zs = block_agg_insts(f.body, 0, ss@, es@);
        lemma_dedup_append_concat(q0, xs, ys);
        lemma_dedup_append_concat(q0, xs + ys, zs);
        reveal(fn_agg_rewritten);
    }
    Ok(syntax::Function {
        name: f.name.clone(),
        source_name: f.source_name.clone(),
        path: f.path.clone(),
        type_params: crate::lower_stmt::clone_strings(&f.type_params),
        params,
        return_ty,
        body,
        is_const: f.is_const,
        is_async: f.is_async,
        is_extern: f.is_extern,
        extern_abi: clone_opt_text(&f.extern_abi),
        extern_library: clone_opt_text(&f.extern_library),
        line: f.line,
        column: f.column,
    })
}

/// The first failure to rewrite the type of an alias from position `i` on, at the alias.
pub open spec fn aliases_agg_problem(aliases: Vec<TypeAliasDecl>, i: int, ss: Seq<StructDecl>, es: Seq<EnumDecl>) -> Option<(Seq<char>, usize, usize)>
    decreases aliases.len() - i,
{
    if i < 0 || i >= aliases.len() {
        None
    } else {
        match agg_ty(tn_view(aliases[i].ty), ss, es) {
            Err(m) => Some((m, aliases[i].line, aliases[i].column)),
            Ok(_) => aliases_agg_problem(aliases, i + 1, ss, es),
        }
    }
}

/// The instances that the alias types from position `i` on need, in order.
pub open spec fn aliases_agg_insts(aliases: Vec<TypeAliasDecl>, i: int, ss: Seq<StructDecl>, es: Seq<EnumDecl>) -> Seq<(Seq<char>, Seq<TypeView>)>
    decreases aliases.len() - i,
{
    if i < 0 || i >= aliases.len() {
        Seq::empty()
    } else {
        agg_ty(tn_view(aliases[i].ty), ss, es)->Ok_0.1 + aliases_agg_insts(aliases, i + 1, ss, es)
    }
}

/// `r` is the alias `a` with its type rewritten.
pub open spec fn alias_agg_rewritten(a: TypeAliasDecl, ss: Seq<StructDecl>, es: Seq<EnumDecl>, r: TypeAliasDecl) -> bool {
    r.name == a.name && tn_view(r.ty) == agg_ty(tn_view(a.ty), ss, es)->Ok_0.0 && r.line == a.line && r.column == a.column
}

/// Rewrites the types of the aliases, in order.
fn rewrite_aliases(aliases: &Vec<TypeAliasDecl>, ss: &Vec<StructDecl>, es: &Vec<EnumDecl>, queued: &mut Vec<GenericInstantiation>) -> (r: Result<Vec<TypeAliasDecl>, Diagnostic>)
    ensures
        match aliases_agg_problem(*aliases, 0, ss@, es@) {
            Some((m, l, c)) => r is Err && type_error(r->Err_0, m, l, c),
            None => {
                &&& r is Ok
                &&& r->Ok_0@.len() == aliases.len()
                &&& forall|k: int| 0 <= k < aliases.len() ==> alias_agg_rewritten(aliases@[k], ss@, es@, #[trigger] r->Ok_0@[k])
                &&& insts_view(final(queued)@) == dedup_append(insts_view(old(queued)@), aliases_agg_insts(*aliases, 0, ss@, es@))
            },
        },
{
    let ghost target = dedup_append(insts_view(queued@), aliases_agg_insts(*aliases, 0, ss@, es@));
    let mut out: Vec<TypeAliasDecl> = Vec::new();
    let mut k: usize = 0;
    while k < aliases.len()
        invariant
            k <= aliases.len(),
            out.len() == k,
            aliases_agg_problem(*aliases, 0, ss@, es@) == aliases_agg_problem(*aliases, k as int, ss@, es@),
            dedup_append(insts_view(queued@), aliases_agg_insts(*aliases, k as int, ss@, es@)) == target,
            forall|j: int| 0 <= j < k ==> alias_agg_rewritten(aliases@[j], ss@, es@, #[trigger] out@[j]),
        decreases aliases.len() - k,
    {
        let a = &aliases[k];
        let ghost q = insts_view(queued@);
        let ty = rewrite_aggregate_type_name(&a.ty, ss, es, queued, a.line, a.column)?;
        proof { lemma_dedup_append_concat(q, agg_ty(tn_view(a.ty), ss@, es@)->Ok_0.1, aliases_agg_insts(*aliases, k + 1, ss@, es@)); }
        out.push(TypeAliasDecl { name: a.name.clone(), ty, line: a.line, column: a.column });
        k = k + 1;
    }
    proof { assert(aliases_agg_insts(*aliases, k as int, ss@, es@) =~= Seq::empty()); }
    Ok(out)
}

/// The first failure to rewrite a const from position `i` on: its type (at the const),
/// then the calls of its initializer.
pub open spec fn consts_agg_problem(consts: Vec<ConstDecl>, i: int, ss: Seq<StructDecl>, es: Seq<EnumDecl>) -> Option<(Seq<char>, usize, usize)>
    decreases consts.len() - i,
{
    if i < 0 || i >= consts.len() {
        None
    } else {
        match agg_ty(tn_view(consts[i].ty), ss, es) {
            Err(m) => Some((m, consts[i].line, consts[i].column)),
            Ok(_) => match expr_agg_problem(consts[i].expr, ss, es) {
                Some(p) => Some(p),
                None => consts_agg_problem(consts, i + 1, ss, es),
            },
        }
    }
}

/// The instances that the consts from position `i` on need, in order.
pub open spec fn consts_agg_insts(consts: Vec<ConstDecl>, i: int, ss: Seq<StructDecl>, es: Seq<EnumDecl>) -> Seq<(Seq<char>, Seq<TypeView>)>
    decreases consts.len() - i,
{
    if i < 0 || i >= consts.len() {
        Seq::empty()
    } else {
        agg_ty(tn_view(consts[i].ty), ss, es)->Ok_0.1 + expr_agg_insts(consts[i].expr, ss, es) + consts_agg_insts(consts, i + 1, ss, es)
    }
}

/// `r` is the const `c` with its type and initializer rewritten.
pub open spec fn const_agg_rewritten(c: ConstDecl, ss: Seq<StructDecl>, es: Seq<EnumDecl>, r: ConstDecl) -> bool {
    &&& r.name == c.name && tn_view(r.ty) == agg_ty(tn_view(c.ty), ss, es)->Ok_0.0
    &&& expr_agg_rewritten(c.expr, ss, es, r.expr)
    &&& r.is_static == c.is_static && r.line == c.line && r.column == c.column
}

/// Rewrites the types of the consts, in order.
fn rewrite_consts(consts: &Vec<ConstDecl>, ss: &Vec<StructDecl>, es: &Vec<EnumDecl>, queued: &mut Vec<GenericInstantiation>) -> (r: Result<Vec<ConstDecl>, Diagnostic>)
    ensures
        match consts_agg_problem(*consts, 0, ss@, es@) {
            Some((m, l, c)) => r is Err && type_error(r->Err_0, m, l, c),
            None => {
                &&& r is Ok
                &&& r->Ok_0@.len() == consts.len()
                &&& forall|k: int| 0 <= k < consts.len() ==> const_agg_rewritten(consts@[k], ss@, es@, #[trigger] r->Ok_0@[k])
                &&& insts_view(final(queued)@) == dedup_append(insts_view(old(queued)@), consts_agg_insts(*consts, 0, ss@, es@))
            },
        },
{
    let ghost target = dedup_append(insts_view(queued@), consts_agg_insts(*consts, 0, ss@, es@));
    let mut out: Vec<ConstDecl> = Vec::new();
    let mut k: usize = 0;
    while k < consts.len()
        invariant
            k <= consts.len(),
            out.len() == k,
            consts_agg_problem(*consts, 0, ss@, es@) == consts_agg_problem(*consts, k as int, ss@, es@),
            dedup_append(insts_view(queued@), consts_agg_insts(*consts, k as int, ss@, es@)) == target,
            forall|j: int| 0 <= j < k ==> const_agg_rewritten(consts@[j], ss@, es@, #[trigger] out@[j]),
        decreases consts.len() - k,
    {
        let c = &consts[k];
        let ghost q = insts_view(queued@);
        let ty = rewrite_aggregate_type_name(&c.ty, ss, es, queued, c.line, c.column)?;
        let expr = rewrite_expr_aggregate_types(&c.expr, ss, es, queued)?;
        proof {
            let xs = agg_ty(tn_view(c.ty), ss@, es@)->Ok_0.1;
            let ys = expr_agg_insts(c.expr, ss@, es@);
            let zs = consts_agg_insts(*consts, k + 1, ss@, es@);
            lemma_dedup_append_concat(q, xs, ys);
            lemma_dedup_append_concat(q, xs + ys, zs);
        }
        out.push(ConstDecl { name: c.name.clone(), ty, expr, is_static: c.is_static, line: c.line, column: c.column });
        k = k + 1;
    }
    proof { assert(consts_agg_insts(*consts, k as int, ss@, es@) =~= Seq::empty()); }
    Ok(out)
}

// ---------------------------------------------------------------------------
// Programs.

/// The concrete (not generic) structs among the first `n` of `ss`, in order.
pub open spec fn concrete_structs(ss: Seq<StructDecl>, n: int) -> Seq<StructDecl>
    decreases n,
{
    if n <= 0 || n > ss.len() {
        Seq::empty()
    } else if ss[n - 1].type_params.len() == 0 {
        concrete_structs(ss, n - 1).push(ss[n - 1])
    } else {
        concrete_structs(ss, n - 1)
    }
}

/// The concrete (not generic) enums among the first `n` of `es`, in order.
pub open spec fn concrete_enums(es: Seq<EnumDecl>, n: int) -> Seq<EnumDecl>
    decreases n,
{
    if n <= 0 || n > es.len() {
        Seq::empty()
    } else if es[n - 1].type_params.len() == 0 {
        concrete_enums(es, n - 1).push(es[n - 1])
    } else {
        concrete_enums(es, n - 1)
    }
}

/// The first failure to rewrite a concrete struct from position `i` on.
pub open spec fn cstructs_agg_problem(ss: Vec<StructDecl>, i: int, es: Seq<EnumDecl>) -> Option<(Seq<char>, usize, usize)>
    decreases ss.len() - i,
{
    if i < 0 || i >= ss.len() {
        None
    } else if ss[i].type_params.len() == 0 && fields_agg_problem(ss[i].fields, 0, Seq::empty(), ss@, es) is Some {
        fields_agg_problem(ss[i].fields, 0, Seq::empty(), ss@, es)
    } else {
        cstructs_agg_problem(ss, i + 1, es)
    }
}

/// The instances that the concrete structs from position `i` on need, in order.
pub open spec fn cstructs_agg_insts(ss: Vec<StructDecl>, i: int, es: Seq<EnumDecl>) -> Seq<(Seq<char>, Seq<TypeView>)>
    decreases ss.len() - i,
{
    if i < 0 || i >= ss.len() {
        Seq::empty()
    } else if ss[i].type_params.len() == 0 {
        fields_agg_insts(ss[i].fields, 0, Seq::empty(), ss@, es) + cstructs_agg_insts(ss, i + 1, es)
    } else {
        cstructs_agg_insts(ss, i + 1, es)
    }
}

/// The first failure to rewrite a concrete enum from position `i` on.
pub open spec fn cenums_agg_problem(es: Vec<EnumDecl>, i: int, ss: Seq<StructDecl>) -> Option<(Seq<char>, usize, usize)>
    decreases es.len() - i,
{
    if i < 0 || i >= es.len() {
        None
    } else if es[i].type_params.len() == 0 && variants_agg_problem(es[i].variants, 0, Seq::empty(), ss, es@) is Some {
        variants_agg_problem(es[i].variants, 0, Seq::empty(), ss, es@)
    } else {
        cenums_agg_problem(es, i + 1, ss)
    }
}

/// The instances that the concrete enums from position `i` on need, in order.
pub open spec fn cenums_agg_insts(es: Vec<EnumDecl>, i: int, ss: Seq<StructDecl>) -> Seq<(Seq<char>, Seq<TypeView>)>
    decreases es.len() - i,
{
    if i < 0 || i >= es.len() {
        Seq::empty()
    } else if es[i].type_params.len() == 0 {
        variants_agg_insts(es[i].variants, 0, Seq::empty(), ss, es@) + cenums_agg_insts(es, i + 1, ss)
    } else {
        cenums_agg_insts(es, i + 1, ss)
    }
}

/// The first failure to rewrite a function from position `i` on.
pub open spec fn fns_agg_problem(fs: Vec<syntax::Function>, i: int, ss: Seq<StructDecl>, es: Seq<EnumDecl>) -> Option<(Seq<char>, usize, usize)>
    decreases fs.len() - i,
{
    if i < 0 || i >= fs.len() {
        None
    } else if fn_agg_problem(fs[i], ss, es) is Some {
        fn_agg_problem(fs[i], ss, es)
    } else {
        fns_agg_problem(fs, i + 1, ss, es)
    }
}

/// The instances that the functions from position `i` on need, in order.
pub open spec fn fns_agg_insts(fs: Vec<syntax::Function>, i: int, ss: Seq<StructDecl>, es: Seq<EnumDecl>) -> Seq<(Seq<char>, Seq<TypeView>)>
    decreases fs.len() - i,
{
    if i < 0 || i >= fs.len() {
        Seq::empty()
    } else {
        fn_agg_insts(fs[i], ss, es) + fns_agg_insts(fs, i + 1, ss, es)
    }
}

/// The bindings of the type parameters `tps` to the type arguments `args`.
pub open spec fn decl_bindings(tps: Vec<String>, args: Seq<TypeView>) -> Seq<(Seq<char>, TypeView)> {
    Seq::new(tps@.len(), |i: int| (tps@[i]@, args[i]))
}

/// Declares the queued instance at position `k` of `q`: the queue it leaves (the
/// declaration may queue more), or the problem with the declaration. A struct template
/// comes before an enum template of the same name.
pub open spec fn agg_step(ss: Vec<StructDecl>, es: Vec<EnumDecl>, q: Seq<(Seq<char>, Seq<TypeView>)>, k: int) -> Result<Seq<(Seq<char>, Seq<TypeView>)>, (Seq<char>, usize, usize)> {
    match gstruct_index(ss@, q[k].0) {
        Some(g) => if q[k].1.len() != ss@[g].type_params.len() {
            Err((arity_message(q[k].0, ss@[g].type_params.len() as nat, q[k].1.len()), ss@[g].line, ss@[g].column))
        } else {
            let b = decl_bindings(ss@[g].type_params, q[k].1);
            match fields_agg_problem(ss@[g].fields, 0, b, ss@, es@) {
                Some(p) => Err(p),
                None => Ok(dedup_append(q, fields_agg_insts(ss@[g].fields, 0, b, ss@, es@))),
            }
        },
        None => match genum_index(es@, q[k].0) {
            Some(g) => if q[k].1.len() != es@[g].type_params.len() {
                Err((arity_message(q[k].0, es@[g].type_params.len() as nat, q[k].1.len()), es@[g].line, es@[g].column))
            } else {
                let b = decl_bindings(es@[g].type_params, q[k].1);
                match variants_agg_problem(es@[g].variants, 0, b, ss@, es@) {
                    Some(p) => Err(p),
                    None => Ok(dedup_append(q, variants_agg_insts(es@[g].variants, 0, b, ss@, es@))),
                }
            },
            None => Ok(q),
        },
    }
}

/// Declares the queued instances `q` from position `k` on, each possibly queuing more;
/// at most `MAX_GENERIC_INSTANTIATIONS` are declared.
pub open spec fn agg_queue(ss: Vec<StructDecl>, es: Vec<EnumDecl>, q: Seq<(Seq<char>, Seq<TypeView>)>, k: int) -> QueueEnd
    decreases 256 - k,
{
    if k < 0 || k >= q.len() {
        QueueEnd::Done(q)
    } else if k >= 256 {
        QueueEnd::Limit(q[k].0)
    } else {
        match agg_step(ss, es, q, k) {
            Err((m, l, c)) => QueueEnd::Problem(m, l, c),
            Ok(q2) => agg_queue(ss, es, q2, k + 1),
        }
    }
}

/// The entries among the first `n` of `q` that name a generic struct, in order.
pub open spec fn struct_entries(ss: Seq<StructDecl>, q: Seq<(Seq<char>, Seq<TypeView>)>, n: int) -> Seq<(Seq<char>, Seq<TypeView>)>
    decreases n,
{
    if n <= 0 || n > q.len() {
        Seq::empty()
    } else if gstruct_index(ss, q[n - 1].0) is Some {
        struct_entries(ss, q, n - 1).push(q[n - 1])
    } else {
        struct_entries(ss, q, n - 1)
    }
}

/// The entries among the first `n` of `q` that name a generic enum and no generic
/// struct, in order.
pub open spec fn enum_entries(ss: Seq<StructDecl>, es: Seq<EnumDecl>, q: Seq<(Seq<char>, Seq<TypeView>)>, n: int) -> Seq<(Seq<char>, Seq<TypeView>)>
    decreases n,
{
    if n <= 0 || n > q.len() {
        Seq::empty()
    } else if gstruct_index(ss, q[n - 1].0) is None && genum_index(es, q[n - 1].0) is Some {
        enum_entries(ss, es, q, n - 1).push(q[n - 1])
    } else {
        enum_entries(ss, es, q, n - 1)
    }
}

proof fn lemma_entries_prefix(ss: Seq<StructDecl>, es: Seq<EnumDecl>, q1: Seq<(Seq<char>, Seq<TypeView>)>, q2: Seq<(Seq<char>, Seq<TypeView>)>, n: int)
    requires
        0 <= n <= q1.len(),
        n <= q2.len(),
        forall|j: int| 0 <= j < n ==> q1[j] == q2[j],
    ensures
        struct_entries(ss, q1, n) == struct_entries(ss, q2, n),
        enum_entries(ss, es, q1, n) == enum_entries(ss, es, q2, n),
    decreases n,
{
    if n > 0 {
        lemma_entries_prefix(ss, es, q1, q2, n - 1);
    }
}

/// `r` declares the instance `x` of a generic struct.
pub open spec fn struct_instance(ss: Seq<StructDecl>, es: Seq<EnumDecl>, x: (Seq<char>, Seq<TypeView>), r: StructDecl) -> bool {
    let g = gstruct_index(ss, x.0)->0;
    struct_agg_rewritten(ss[g], decl_bindings(ss[g].type_params, x.1), ss, es, instance_name(x.0, x.1), r)
}

/// `r` declares the instance `x` of a generic enum.
pub open spec fn enum_instance(ss: Seq<StructDecl>, es: Seq<EnumDecl>, x: (Seq<char>, Seq<TypeView>), r: EnumDecl) -> bool {
    let g = genum_index(es, x.0)->0;
    enum_agg_rewritten(es[g], decl_bindings(es[g].type_params, x.1), ss, es, instance_name(x.0, x.1), r)
}

/// The first of two possible problems.
pub open spec fn first_some(a: Option<(Seq<char>, usize, usize)>, b: Option<(Seq<char>, usize, usize)>) -> Option<(Seq<char>, usize, usize)> {
    if a is Some { a } else { b }
}

/// The first problem with the aggregates of `p`, once its functions are `fs` and its
/// top-level statements `top`: the struct and enum declarations, then the types of the
/// aliases, consts, concrete structs and enums, functions and top-level statements, in
/// that order.
pub open spec fn agg_first_problem(p: syntax::Program, fs: Vec<syntax::Function>, top: Vec<Stmt>) -> Option<(Seq<char>, usize, usize)> {
    let ss = p.structs@;
    let es = p.enums@;
    first_some(struct_decl_problem(p.structs, 0), first_some(enum_decl_problem(p.enums, 0),
        first_some(aliases_agg_problem(p.type_aliases, 0, ss, es), first_some(consts_agg_problem(p.consts, 0, ss, es),
        first_some(cstructs_agg_problem(p.structs, 0, es), first_some(cenums_agg_problem(p.enums, 0, ss),
        first_some(fns_agg_problem(fs, 0, ss, es), block_agg_problem(top, 0, ss, es))))))))
}

/// The instances that the aliases, consts, concrete structs and enums, functions and
/// top-level statements need, in that order.
pub open spec fn agg_all_insts(p: syntax::Program, fs: Vec<syntax::Function>, top: Vec<Stmt>) -> Seq<(Seq<char>, Seq<TypeView>)> {
    let ss = p.structs@;
    let es = p.enums@;
    aliases_agg_insts(p.type_aliases, 0, ss, es) + consts_agg_insts(p.consts, 0, ss, es) + cstructs_agg_insts(p.structs, 0, es)
        + cenums_agg_insts(p.enums, 0, ss) + fns_agg_insts(fs, 0, ss, es) + block_agg_insts(top, 0, ss, es)
}

/// `out` is `p` with the functions `fs` and the top-level statements `top`, every type
/// rewritten, the concrete structs and enums followed by the instances of the queue `q`
/// (structs and enums each in queue order).
pub open spec fn agg_out(p: syntax::Program, fs: Vec<syntax::Function>, top: Vec<Stmt>, q: Seq<(Seq<char>, Seq<TypeView>)>, out: syntax::Program) -> bool {
    let ss = p.structs@;
    let es = p.enums@;
    let cs = concrete_structs(ss, ss.len() as int);
    let ce = concrete_enums(es, es.len() as int);
    let si = struct_entries(ss, q, q.len() as int);
    let ei = enum_entries(ss, es, q, q.len() as int);
    &&& out.path == p.path
    &&& out.type_aliases@.len() == p.type_aliases.len()
    &&& forall|k: int| 0 <= k < p.type_aliases.len() ==> alias_agg_rewritten(p.type_aliases@[k], ss, es, #[trigger] out.type_aliases@[k])
    &&& out.consts@.len() == p.consts.len()
    &&& forall|k: int| 0 <= k < p.consts.len() ==> const_agg_rewritten(p.consts@[k], ss, es, #[trigger] out.consts@[k])
    &&& out.structs@.len() == cs.len() + si.len()
    &&& forall|j: int| 0 <= j < cs.len() ==> struct_agg_rewritten(cs[j], Seq::empty(), ss, es, cs[j].name@, #[trigger] out.structs@[j])
    &&& forall|k: int| 0 <= k < si.len() ==> struct_instance(ss, es, si[k], #[trigger] out.structs@[cs.len() + k])
    &&& out.enums@.len() == ce.len() + ei.len()
    &&& forall|j: int| 0 <= j < ce.len() ==> enum_agg_rewritten(ce[j], Seq::empty(), ss, es, ce[j].name@, #[trigger] out.enums@[j])
    &&& forall|k: int| 0 <= k < ei.len() ==> enum_instance(ss, es, ei[k], #[trigger] out.enums@[ce.len() + k])
    &&& out.functions@.len() == fs.len()
    &&& forall|i: int| 0 <= i < fs.len() ==> fn_agg_rewritten(fs@[i], ss, es, #[trigger] out.functions@[i])
    &&& out.stmts@.len() == top.len() && block_agg_rewritten(top, out.stmts@, 0, ss, es)
}

/// `r` is the monomorphization of the generic structs and enums of `p`, whose functions
/// are `fs` and top-level statements `top`: the declarations are checked; every type is
/// rewritten, queuing the instances it needs; then the queued instances are declared in
/// order, each possibly queuing more.
pub open spec fn agg_rel(p: syntax::Program, fs: Vec<syntax::Function>, top: Vec<Stmt>, r: Result<syntax::Program, Diagnostic>) -> bool {
    match agg_first_problem(p, fs, top) {
        Some((m, l, c)) => r is Err && type_error(r->Err_0, m, l, c),
        None => match agg_queue(p.structs, p.enums, dedup_append(Seq::empty(), agg_all_insts(p, fs, top)), 0) {
            QueueEnd::Problem(m, l, c) => r is Err && type_error(r->Err_0, m, l, c),
            QueueEnd::Limit(name) => r is Err && limit_error(r->Err_0, name),
            QueueEnd::Done(q) => r is Ok && agg_out(p, fs, top, q, r->Ok_0),
        },
    }
}

/// Rewrites the concrete structs of `ss`, in order.
fn rewrite_concrete_structs(ss: &Vec<StructDecl>, es: &Vec<EnumDecl>, queued: &mut Vec<GenericInstantiation>) -> (r: Result<Vec<StructDecl>, Diagnostic>)
    ensures
        match cstructs_agg_problem(*ss, 0, es@) {
            Some((m, l, c)) => r is Err && type_error(r->Err_0, m, l, c),
            None => {
                let cs = concrete_structs(ss@, ss.len() as int);
                &&& r is Ok
                &&& r->Ok_0@.len() == cs.len()
                &&& forall|j: int| 0 <= j < cs.len() ==> struct_agg_rewritten(cs[j], Seq::empty(), ss@, es@, cs[j].name@, #[trigger] r->Ok_0@[j])
                &&& insts_view(final(queued)@) == dedup_append(insts_view(old(queued)@), cstructs_agg_insts(*ss, 0, es@))
            },
        },
{
    let ghost target = dedup_append(insts_view(queued@), cstructs_agg_insts(*ss, 0, es@));
    let empty: Vec<(String, TypeName)> = Vec::new();
    proof { assert(bindings_view(empty@) =~= Seq::<(Seq<char>, TypeView)>::empty()); }
    let mut out: Vec<StructDecl> = Vec::new();
    let mut i: usize = 0;
    while i < ss.len()
        invariant
            i <= ss.len(),
            bindings_view(empty@) == Seq::<(Seq<char>, TypeView)>::empty(),
            cstructs_agg_problem(*ss, 0, es@) == cstructs_agg_problem(*ss, i as int, es@),
            dedup_append(insts_view(queued@), cstructs_agg_insts(*ss, i as int, es@)) == target,
            out@.len() == concrete_structs(ss@, i as int).len(),
            forall|j: int| 0 <= j < out@.len() ==> struct_agg_rewritten(concrete_structs(ss@, i as int)[j], Seq::empty(), ss@, es@,
                concrete_structs(ss@, i as int)[j].name@, #[trigger] out@[j]),
        decreases ss.len() - i,
    {
        let ghost pre = concrete_structs(ss@, i as int);
        if ss[i].type_params.len() == 0 {
            let ghost q = insts_view(queued@);
            let s = rewrite_struct_decl_aggregate_types(&ss[i], &empty, ss, es, queued, ss[i].name.clone())?;
            proof { lemma_dedup_append_concat(q, fields_agg_insts(ss@[i as int].fields, 0, Seq::empty(), ss@, es@), cstructs_agg_insts(*ss, i + 1, es@)); }
            out.push(s);
            proof {
                assert(concrete_structs(ss@, i + 1) == pre.push(ss@[i as int]));
                assert forall|j: int| 0 <= j < out@.len() implies struct_agg_rewritten(concrete_structs(ss@, i + 1)[j], Seq::empty(), ss@, es@,
                    concrete_structs(ss@, i + 1)[j].name@, #[trigger] out@[j]) by {
                    if j < pre.len() {
                        assert(concrete_structs(ss@, i + 1)[j] == pre[j]);
                    }
                }
            }
        } else {
            proof { assert(concrete_structs(ss@, i + 1) == pre); }
        }
        i = i + 1;
    }
    proof { assert(cstructs_agg_insts(*ss, i as int, es@) =~= Seq::empty()); }
    Ok(out)
}

/// Rewrites the concrete enums of `es`, in order.
fn rewrite_concrete_enums(ss: &Vec<StructDecl>, es: &Vec<EnumDecl>, queued: &mut Vec<GenericInstantiation>) -> (r: Result<Vec<EnumDecl>, Diagnostic>)
    ensures
        match cenums_agg_problem(*es, 0, ss@) {
            Some((m, l, c)) => r is Err && type_error(r->Err_0, m, l, c),
            None => {
                let ce = concrete_enums(es@, es.len() as int);
                &&& r is Ok
                &&& r->Ok_0@.len() == ce.len()
                &&& forall|j: int| 0 <= j < ce.len() ==> enum_agg_rewritten(ce[j], Seq::empty(), ss@, es@, ce[j].name@, #[trigger] r->Ok_0@[j])
                &&& insts_view(final(queued)@) == dedup_append(insts_view(old(queued)@), cenums_agg_insts(*es, 0, ss@))
            },
        },
{
    let ghost target = dedup_append(insts_view(queued@), cenums_agg_insts(*es, 0, ss@));
    let empty: Vec<(String, TypeName)> = Vec::new();
    proof { assert(bindings_view(empty@) =~= Seq::<(Seq<char>, TypeView)>::empty()); }
    let mut out: Vec<EnumDecl> = Vec::new();
    let mut i: usize = 0;
    while i < es.len()
        invariant
            i <= es.len(),
            bindings_view(empty@) == Seq::<(Seq<char>, TypeView)>::empty(),
            cenums_agg_problem(*es, 0, ss@) == cenums_agg_problem(*es, i as int, ss@),
            dedup_append(insts_view(queued@), cenums_agg_insts(*es, i as int, ss@)) == target,
            out@.len() == concrete_enums(es@, i as int).len(),
            forall|j: int| 0 <= j < out@.len() ==> enum_agg_rewritten(concrete_enums(es@, i as int)[j], Seq::empty(), ss@, es@,
                concrete_enums(es@, i as int)[j].name@, #[trigger] out@[j]),
        decreases es.len() - i,
    {
        let ghost pre = concrete_enums(es@, i as int);
        if es[i].type_params.len() == 0 {
            let ghost q = insts_view(queued@);
            let e = rewrite_enum_decl_aggregate_types(&es[i], &empty, ss, es, queued, es[i].name.clone())?;
            proof { lemma_dedup_append_concat(q, variants_agg_insts(es@[i as int].variants, 0, Seq::empty(), ss@, es@), cenums_agg_insts(*es, i + 1, ss@)); }
            out.push(e);
            proof {
                assert(concrete_enums(es@, i + 1) == pre.push(es@[i as int]));
                assert forall|j: int| 0 <= j < out@.len() implies enum_agg_rewritten(concrete_enums(es@, i + 1)[j], Seq::empty(), ss@, es@,
                    concrete_enums(es@, i + 1)[j].name@, #[trigger] out@[j]) by {
                    if j < pre.len() {
                        assert(concrete_enums(es@, i + 1)[j] == pre[j]);
                    }
                }
            }
        } else {
            proof { assert(concrete_enums(es@, i + 1) == pre); }
        }
        i = i + 1;
    }
    proof { assert(cenums_agg_insts(*es, i as int, ss@) =~= Seq::empty()); }
    Ok(out)
}

/// Rewrites the types of every function, in order.
fn rewrite_functions_aggregate_types(fs: &Vec<syntax::Function>, ss: &Vec<StructDecl>, es: &Vec<EnumDecl>, queued: &mut Vec<GenericInstantiation>) -> (r: Result<Vec<syntax::Function>, Diagnostic>)
    ensures
        match fns_agg_problem(*fs, 0, ss@, es@) {
            Some((m, l, c)) => r is Err && type_error(r->Err_0, m, l, c),
            None => {
                &&& r is Ok
                &&& r->Ok_0@.len() == fs.len()
                &&& forall|i: int| 0 <= i < fs.len() ==> fn_agg_rewritten(fs@[i], ss@, es@, #[trigger] r->Ok_0@[i])
                &&& insts_view(final(queued)@) == dedup_append(insts_view(old(queued)@), fns_agg_insts(*fs, 0, ss@, es@))
            },
        },
{
    let ghost target = dedup_append(insts_view(queued@), fns_agg_insts(*fs, 0, ss@, es@));
    let mut out: Vec<syntax::Function> = Vec::new();
    let mut i: usize = 0;
    while i < fs.len()
        invariant
            i <= fs.len(),
            out.len() == i,
            fns_agg_problem(*fs, 0, ss@, es@) == fns_agg_problem(*fs, i as int, ss@, es@),
            dedup_append(insts_view(queued@), fns_agg_insts(*fs, i as int, ss@, es@)) == target,
            forall|j: int| 0 <= j < i ==> fn_agg_rewritten(fs@[j], ss@, es@, #[trigger] out@[j]),
        decreases fs.len() - i,
    {
        let ghost q = insts_view(queued@);
        let f = rewrite_function_aggregate_types(&fs[i], ss, es, queued)?;
        proof { lemma_dedup_append_concat(q, fn_agg_insts(fs@[i as int], ss@, es@), fns_agg_insts(*fs, i + 1, ss@, es@)); }
        out.push(f);
        i = i + 1;
    }
    proof { assert(fns_agg_insts(*fs, i as int, ss@, es@) =~= Seq::empty()); }
    Ok(out)
}

fn generic_decl_type_bindings(tps: &Vec<String>, args: &Vec<TypeName>) -> (r: Vec<(String, TypeName)>)
    requires
        args.len() == tps.len(),
    ensures
        bindings_view(r@) == decl_bindings(*tps, tn_views(*args, 0)),
{
    proof { lemma_tn_views(*args, 0); }
    let mut out: Vec<(String, TypeName)> = Vec::new();
    let mut i: usize = 0;
    while i < args.len()
        invariant
            i <= args.len(),
            args.len() == tps.len(),
            out.len() == i,
            tn_views(*args, 0).len() == args.len(),
            forall|k: int| 0 <= k < args.len() ==> #[trigger] tn_views(*args, 0)[k] == tn_view(args@[k]),
            forall|k: int| 0 <= k < i ==> (#[trigger] out@[k]).0@ == tps@[k]@ && tn_view(out@[k].1) == tn_view(args@[k]),
        decreases args.len() - i,
    {
        out.push((tps[i].clone(), clone_type_name(&args[i])));
        i = i + 1;
    }
    proof { assert(bindings_view(out@) =~= decl_bindings(*tps, tn_views(*args, 0))); }
    out
}

fn arity_diagnostic(name: &str, expected: usize, got: usize, line: usize, column: usize) -> (d: Diagnostic)
    ensures
        type_error(d, arity_message(name@, expected as nat, got as nat), line, column),
{
    let mut m = quoted_message("generic type ", name, " expects ");
    push_decimal(&mut m, expected as u64);
    m.append(" type arguments, got ");
    push_decimal(&mut m, got as u64);
    proof { assert(m@ =~= arity_message(name@, expected as nat, got as nat)); }
    type_error_at(m, line, column)
}

/// Declares the queued instance at position `k`, appending it to `structs` or `enums`.
fn emit_instance(ss: &Vec<StructDecl>, es: &Vec<EnumDecl>, queued: &mut Vec<GenericInstantiation>, structs: &mut Vec<StructDecl>, enums: &mut Vec<EnumDecl>, k: usize) -> (r: Result<(), Diagnostic>)
    requires
        k < old(queued).len(),
    ensures
        match agg_step(*ss, *es, insts_view(old(queued)@), k as int) {
            Err((m, l, c)) => r is Err && type_error(r->Err_0, m, l, c),
            Ok(q2) => {
                let x = insts_view(old(queued)@)[k as int];
                &&& r is Ok
                &&& insts_view(final(queued)@) == q2
                &&& gstruct_index(ss@, x.0) is Some ==> {
                    &&& final(structs)@.len() == old(structs)@.len() + 1
                    &&& final(structs)@.take(old(structs)@.len() as int) == old(structs)@
                    &&& struct_instance(ss@, es@, x, final(structs)@[old(structs)@.len() as int])
                    &&& final(enums)@ == old(enums)@
                }
                &&& gstruct_index(ss@, x.0) is None && genum_index(es@, x.0) is Some ==> {
                    &&& final(enums)@.len() == old(enums)@.len() + 1
                    &&& final(enums)@.take(old(enums)@.len() as int) == old(enums)@
                    &&& enum_instance(ss@, es@, x, final(enums)@[old(enums)@.len() as int])
                    &&& final(structs)@ == old(structs)@
                }
                &&& gstruct_index(ss@, x.0) is None && genum_index(es@, x.0) is None ==> {
                    &&& final(structs)@ == old(structs)@ && final(enums)@ == old(enums)@
                }
            },
        },
{
    proof { lemma_tn_views(queued@[k as int].type_args, 0); }
    let name = instance_function_name(queued[k].name.as_str(), &queued[k].type_args);
    match find_generic_struct(ss, queued[k].name.as_str()) {
        Some(g) => {
            let template = &ss[g];
            if queued[k].type_args.len() != template.type_params.len() {
                return Err(arity_diagnostic(queued[k].name.as_str(), template.type_params.len(), queued[k].type_args.len(), template.line, template.column));
            }
            let bindings = generic_decl_type_bindings(&template.type_params, &queued[k].type_args);
            let s = rewrite_struct_decl_aggregate_types(template, &bindings, ss, es, queued, name)?;
            structs.push(s);
            Ok(())
        },
        None => match find_generic_enum(es, queued[k].name.as_str()) {
            Some(g) => {
                let template = &es[g];
                if queued[k].type_args.len() != template.type_params.len() {
                    return Err(arity_diagnostic(queued[k].name.as_str(), template.type_params.len(), queued[k].type_args.len(), template.line, template.column));
                }
                let bindings = generic_decl_type_bindings(&template.type_params, &queued[k].type_args);
                let e = rewrite_enum_decl_aggregate_types(template, &bindings, ss, es, queued, name)?;
                enums.push(e);
                Ok(())
            },
            None => Ok(()),
        },
    }
}

/// Declares the queued instances, appending the struct instances to `structs` and the
/// enum instances to `enums`, each in queue order.
fn emit_aggregate_instances(ss: &Vec<StructDecl>, es: &Vec<EnumDecl>, queued: &mut Vec<GenericInstantiation>, structs: &mut Vec<StructDecl>, enums: &mut Vec<EnumDecl>) -> (r: Result<(), Diagnostic>)
    ensures
        match agg_queue(*ss, *es, insts_view(old(queued)@), 0) {
            QueueEnd::Problem(m, l, c) => r is Err && type_error(r->Err_0, m, l, c),
            QueueEnd::Limit(name) => r is Err && limit_error(r->Err_0, name),
            QueueEnd::Done(q) => {
                let si = struct_entries(ss@, q, q.len() as int);
                let ei = enum_entries(ss@, es@, q, q.len() as int);
                &&& r is Ok
                &&& final(structs)@.len() == old(structs)@.len() + si.len()
                &&& forall|j: int| 0 <= j < old(structs)@.len() ==> final(structs)@[j] == old(structs)@[j]
                &&& forall|k: int| 0 <= k < si.len() ==> struct_instance(ss@, es@, si[k], #[trigger] final(structs)@[old(structs)@.len() + k])
                &&& final(enums)@.len() == old(enums)@.len() + ei.len()
                &&& forall|j: int| 0 <= j < old(enums)@.len() ==> final(enums)@[j] == old(enums)@[j]
                &&& forall|k: int| 0 <= k < ei.len() ==> enum_instance(ss@, es@, ei[k], #[trigger] final(enums)@[old(enums)@.len() + k])
            },
        },
{
    let ghost q0 = insts_view(queued@);
    let ghost s0 = structs@;
    let ghost e0 = enums@;
    let mut k: usize = 0;
    while k < queued.len()
        invariant
            k <= queued.len(),
            q0 == insts_view(old(queued)@),
            s0 == old(structs)@,
            e0 == old(enums)@,
            agg_queue(*ss, *es, q0, 0) == agg_queue(*ss, *es, insts_view(queued@), k as int),
            structs@.len() == s0.len() + struct_entries(ss@, insts_view(queued@), k as int).len(),
            forall|j: int| 0 <= j < s0.len() ==> structs@[j] == s0[j],
            forall|j: int| 0 <= j < struct_entries(ss@, insts_view(queued@), k as int).len() ==>
                struct_instance(ss@, es@, struct_entries(ss@, insts_view(queued@), k as int)[j], #[trigger] structs@[s0.len() + j]),
            enums@.len() == e0.len() + enum_entries(ss@, es@, insts_view(queued@), k as int).len(),
            forall|j: int| 0 <= j < e0.len() ==> enums@[j] == e0[j],
            forall|j: int| 0 <= j < enum_entries(ss@, es@, insts_view(queued@), k as int).len() ==>
                enum_instance(ss@, es@, enum_entries(ss@, es@, insts_view(queued@), k as int)[j], #[trigger] enums@[e0.len() + j]),
        decreases 256 - k,
    {
        let ghost qv = insts_view(queued@);
        let ghost sk = struct_entries(ss@, qv, k as int);
        let ghost ek = enum_entries(ss@, es@, qv, k as int);
        let ghost sl = structs@;
        let ghost el = enums@;
        if k >= crate::monomorphize::MAX_GENERIC_INSTANTIATIONS {
            return Err(generic_instantiation_limit_diagnostic(queued[k].name.as_str()));
        }
        emit_instance(ss, es, queued, structs, enums, k)?;
        proof {
            let qn = insts_view(queued@);
            let x = qv[k as int];
            match agg_step(*ss, *es, qv, k as int) {
                Ok(q2) => {
                    assert(qn == q2);
                    if gstruct_index(ss@, x.0) is Some {
                        crate::monomorphize::lemma_dedup_append_extends(Seq::empty(), qv,
                            fields_agg_insts(ss@[gstruct_index(ss@, x.0)->0].fields, 0,
                                decl_bindings(ss@[gstruct_index(ss@, x.0)->0].type_params, x.1), ss@, es@));
                    } else if genum_index(es@, x.0) is Some {
                        crate::monomorphize::lemma_dedup_append_extends(Seq::empty(), qv,
                            variants_agg_insts(es@[genum_index(es@, x.0)->0].variants, 0,
                                decl_bindings(es@[genum_index(es@, x.0)->0].type_params, x.1), ss@, es@));
                    }
                    assert forall|j: int| 0 <= j < qv.len() implies qn[j] == qv[j] by {
                        assert(qn.take(qv.len() as int)[j] == qv[j]);
                    }
                    lemma_entries_prefix(ss@, es@, qn, qv, k as int);
                    lemma_entries_prefix(ss@, es@, qn, qv, k + 1);
                    assert(qn[k as int] == x);
                },
                Err(_) => {},
            }
            let s1 = struct_entries(ss@, qn, k + 1);
            let e1 = enum_entries(ss@, es@, qn, k + 1);
            assert forall|j: int| 0 <= j < s1.len() implies
                struct_instance(ss@, es@, s1[j], #[trigger] structs@[s0.len() + j]) by {
                if j < sk.len() {
                    assert(s1[j] == sk[j]);
                    assert(structs@[s0.len() + j] == sl[s0.len() + j]) by {
                        if structs@ != sl {
                            assert(structs@.take(sl.len() as int)[s0.len() + j] == sl[s0.len() + j]);
                        }
                    }
                }
            }
            assert forall|j: int| 0 <= j < e1.len() implies
                enum_instance(ss@, es@, e1[j], #[trigger] enums@[e0.len() + j]) by {
                if j < ek.len() {
                    assert(e1[j] == ek[j]);
                    assert(enums@[e0.len() + j] == el[e0.len() + j]) by {
                        if enums@ != el {
                            assert(enums@.take(el.len() as int)[e0.len() + j] == el[e0.len() + j]);
                        }
                    }
                }
            }
            assert forall|j: int| 0 <= j < s0.len() implies structs@[j] == s0[j] by {
                if structs@ != sl {
                    assert(structs@.take(sl.len() as int)[j] == sl[j]);
                }
            }
            assert forall|j: int| 0 <= j < e0.len() implies enums@[j] == e0[j] by {
                if enums@ != el {
                    assert(enums@.take(el.len() as int)[j] == el[j]);
                }
            }
        }
        k = k + 1;
    }
    Ok(())
}

/// Replaces the generic structs and enums of `p`, whose functions are `fs` and top-level
/// statements `top`, by the instances that its types need (see `agg_rel`).
#[verifier::rlimit(40)]
pub fn monomorphize_aggregates(p: &syntax::Program, fs: Vec<syntax::Function>, top: Vec<Stmt>) -> (r: Result<syntax::Program, Diagnostic>)
    ensures
        agg_rel(*p, fs, top, r),
{
    check_struct_decls(&p.structs)?;
    check_enum_decls(&p.enums)?;
    let ss = &p.structs;
    let es = &p.enums;
    let mut queued: Vec<GenericInstantiation> = Vec::new();
    let ghost q0 = insts_view(queued@);
    proof { assert(q0 =~= Seq::empty()); }
    let aliases = rewrite_aliases(&p.type_aliases, ss, es, &mut queued)?;
    let consts = rewrite_consts(&p.consts, ss, es, &mut queued)?;
    let mut structs = rewrite_concrete_structs(ss, es, &mut queued)?;
    let mut enums = rewrite_concrete_enums(ss, es, &mut queued)?;
    let functions = rewrite_functions_aggregate_types(&fs, ss, es, &mut queued)?;
    let stmts = rewrite_block_aggregate_types(&top, ss, es, &mut queued)?;
    proof {
        let a = aliases_agg_insts(p.type_aliases, 0, ss@, es@);
        let b = consts_agg_insts(p.consts, 0, ss@, es@);
        let c = cstructs_agg_insts(p.structs, 0, es@);
        let d = cenums_agg_insts(p.enums, 0, ss@);
        let e = fns_agg_insts(fs, 0, ss@, es@);
        let f = block_agg_insts(top, 0, ss@, es@);
        lemma_dedup_append_concat(q0, a, b);
        lemma_dedup_append_concat(q0, a + b, c);
        lemma_dedup_append_concat(q0, a + b + c, d);
        lemma_dedup_append_concat(q0, a + b + c + d, e);
        lemma_dedup_append_concat(q0, a + b + c + d + e, f);
        assert(insts_view(queued@) == dedup_append(Seq::empty(), agg_all_insts(*p, fs, top)));
    }
    emit_aggregate_instances(ss, es, &mut queued, &mut structs, &mut enums)?;
    Ok(syntax::Program { path: p.path.clone(), consts, structs, enums, type_aliases: aliases, functions, stmts })
}

// ---------------------------------------------------------------------------
// What lowering asks of a program survives.

proof fn lemma_expr_agg_keeps(e: Expr, ss: Seq<StructDecl>, es: Seq<EnumDecl>, r: Expr)
    requires
        expr_agg_rewritten(e, ss, es, r),
    ensures
        syntax::expr_spans_ok(e) ==> syntax::expr_spans_ok(r),
        crate::const_eval::const_value(r) == crate::const_eval::const_value(e),
        crate::const_eval::const_eval_safe(e) ==> crate::const_eval::const_eval_safe(r),
    decreases e,
{
    match e {
        Expr::Call { args, .. } => {
            if let Expr::Call { args: a2, .. } = r {
                lemma_args_agg_keeps(args, a2, 0, ss, es);
            }
        },
        Expr::BinaryAdd { lhs, rhs, .. } => {
            if let Expr::BinaryAdd { lhs: l2, rhs: r2, .. } = r {
                lemma_expr_agg_keeps(*lhs, ss, es, *l2);
                lemma_expr_agg_keeps(*rhs, ss, es, *r2);
            }
        },
        Expr::BinaryCompare { lhs, rhs, .. } => {
            if let Expr::BinaryCompare { lhs: l2, rhs: r2, .. } = r {
                lemma_expr_agg_keeps(*lhs, ss, es, *l2);
                lemma_expr_agg_keeps(*rhs, ss, es, *r2);
            }
        },
        Expr::BinaryLogic { lhs, rhs, .. } => {
            if let Expr::BinaryLogic { lhs: l2, rhs: r2, .. } = r {
                lemma_expr_agg_keeps(*lhs, ss, es, *l2);
                lemma_expr_agg_keeps(*rhs, ss, es, *r2);
            }
        },
        Expr::Unary { expr, .. } => {
            if let Expr::Unary { expr: x2, .. } = r {
                lemma_expr_agg_keeps(*expr, ss, es, *x2);
            }
        },
        Expr::TupleLiteral { elements, .. } => {
            if let Expr::TupleLiteral { elements: x2, .. } = r {
                lemma_args_agg_keeps(elements, x2, 0, ss, es);
            }
        },
        Expr::ArrayLiteral { elements, .. } => {
            if let Expr::ArrayLiteral { elements: x2, .. } = r {
                lemma_args_agg_keeps(elements, x2, 0, ss, es);
            }
        },
        Expr::Cast { expr, .. } => {
            if let Expr::Cast { expr: x2, .. } = r {
                lemma_expr_agg_keeps(*expr, ss, es, *x2);
            }
        },
        _ => {},
    }
}

proof fn lemma_args_agg_keeps(args: Vec<Expr>, out: Vec<Expr>, i: int, ss: Seq<StructDecl>, es: Seq<EnumDecl>)
    requires
        out@.len() == args.len(),
        args_agg_rewritten(args, out@, i, ss, es),
    ensures
        syntax::args_spans_ok(args, i) ==> syntax::args_spans_ok(out, i),
    decreases args, args.len() - i,
{
    if 0 <= i < args.len() {
        lemma_expr_agg_keeps(args[i], ss, es, out@[i]);
        lemma_args_agg_keeps(args, out, i + 1, ss, es);
    }
}

proof fn lemma_stmt_agg_spans(s: Stmt, ss: Seq<StructDecl>, es: Seq<EnumDecl>, r: Stmt)
    requires
        stmt_agg_rewritten(s, ss, es, r),
        syntax::stmt_spans_ok(s),
    ensures
        syntax::stmt_spans_ok(r),
    decreases s,
{
    match s {
        Stmt::Let { expr, .. } => {
            if let Stmt::Let { expr: e2, .. } = r { lemma_expr_agg_keeps(expr, ss, es, e2); }
        },
        Stmt::Print { expr, .. } => {
            if let Stmt::Print { expr: e2, .. } = r { lemma_expr_agg_keeps(expr, ss, es, e2); }
        },
        Stmt::Panic { expr, .. } => {
            if let Stmt::Panic { expr: e2, .. } = r { lemma_expr_agg_keeps(expr, ss, es, e2); }
        },
        Stmt::Defer { expr, .. } => {
            if let Stmt::Defer { expr: e2, .. } = r { lemma_expr_agg_keeps(expr, ss, es, e2); }
        },
        Stmt::Assign { target, expr, .. } => {
            if let Stmt::Assign { target: t2, expr: e2, .. } = r {
                lemma_expr_agg_keeps(target, ss, es, t2);
                lemma_expr_agg_keeps(expr, ss, es, e2);
            }
        },
        Stmt::Return { expr, .. } => {
            if let Stmt::Return { expr: e2, .. } = r { lemma_expr_agg_keeps(expr, ss, es, e2); }
        },
        Stmt::If { cond, then_block, else_block, .. } => {
            if let Stmt::If { cond: c2, then_block: t2, else_block: e2, .. } = r {
                lemma_expr_agg_keeps(cond, ss, es, c2);
                lemma_block_agg_spans(then_block, t2, 0, ss, es);
                match (else_block, e2) {
                    (Some(x), Some(y)) => lemma_block_agg_spans(x, y, 0, ss, es),
                    _ => {},
                }
            }
        },
        Stmt::While { cond, body, .. } => {
            if let Stmt::While { cond: c2, body: b2, .. } = r {
                lemma_expr_agg_keeps(cond, ss, es, c2);
                lemma_block_agg_spans(body, b2, 0, ss, es);
            }
        },
        Stmt::Match { expr, arms, .. } => {
            if let Stmt::Match { expr: e2, arms: a2, .. } = r {
                lemma_expr_agg_keeps(expr, ss, es, e2);
                lemma_arms_agg_spans(arms, a2, 0, ss, es);
            }
        },
        _ => {},
    }
}

proof fn lemma_block_agg_spans(block: Vec<Stmt>, out: Vec<Stmt>, i: int, ss: Seq<StructDecl>, es: Seq<EnumDecl>)
    requires
        out@.len() == block.len(),
        block_agg_rewritten(block, out@, i, ss, es),
        syntax::block_spans_ok(block, i),
    ensures
        syntax::block_spans_ok(out, i),
    decreases block, block.len() - i,
{
    if 0 <= i < block.len() {
        lemma_stmt_agg_spans(block[i], ss, es, out@[i]);
        lemma_block_agg_spans(block, out, i + 1, ss, es);
    }
}

proof fn lemma_arms_agg_spans(arms: Vec<MatchArm>, out: Vec<MatchArm>, i: int, ss: Seq<StructDecl>, es: Seq<EnumDecl>)
    requires
        out@.len() == arms.len(),
        arms_agg_rewritten(arms, out@, i, ss, es),
        syntax::arms_spans_ok(arms, i),
    ensures
        syntax::arms_spans_ok(out, i),
    decreases arms, arms.len() - i,
{
    if 0 <= i < arms.len() {
        lemma_block_agg_spans(arms[i].body, out@[i].body, 0, ss, es);
        lemma_arms_agg_spans(arms, out, i + 1, ss, es);
    }
}

/// A program whose aggregates are rewritten still meets what lowering asks, where the
/// program it was rewritten from did.
pub proof fn lemma_agg_lowerable(p: syntax::Program, fs: Vec<syntax::Function>, top: Vec<Stmt>, q: Seq<(Seq<char>, Seq<TypeView>)>, out: syntax::Program)
    requires
        agg_out(p, fs, top, q, out),
        crate::const_eval::consts_safe(p.consts@),
        crate::lower_program::statics_spans_ok(p.consts@),
        crate::lower_functions::functions_spans_ok(fs@),
        syntax::block_spans_ok(top, 0),
    ensures
        crate::lower_program::program_lowerable(out),
{
    let ss = p.structs@;
    let es = p.enums@;
    assert forall|i: int| 0 <= i < out.consts@.len() implies crate::const_eval::const_eval_safe(#[trigger] out.consts@[i].expr) by {
        assert(const_agg_rewritten(p.consts@[i], ss, es, out.consts@[i]));
        lemma_expr_agg_keeps(p.consts@[i].expr, ss, es, out.consts@[i].expr);
    }
    assert forall|i: int| 0 <= i < out.consts@.len() && out.consts@[i].is_static implies syntax::expr_spans_ok(#[trigger] out.consts@[i].expr) by {
        assert(const_agg_rewritten(p.consts@[i], ss, es, out.consts@[i]));
        lemma_expr_agg_keeps(p.consts@[i].expr, ss, es, out.consts@[i].expr);
    }
    assert forall|i: int| 0 <= i < out.functions@.len() implies syntax::block_spans_ok(#[trigger] out.functions@[i].body, 0) by {
        assert(fn_agg_rewritten(fs@[i], ss, es, out.functions@[i]));
        reveal(fn_agg_rewritten);
        lemma_block_agg_spans(fs@[i].body, out.functions@[i].body, 0, ss, es);
    }
    lemma_block_agg_spans(top, out.stmts, 0, ss, es);
}

} // verus!
