//! Monomorphization of generic functions: every call of a generic function with type
//! arguments is redirected to an instance of the function for those arguments, and each
//! instance is emitted once, its types substituted.
use vstd::prelude::*;
use crate::call_inference::{infer_generic_call_type_args, lemma_program_inferred_spans, program_infer_problem, program_inferred};
use crate::aggregates::{agg_all_insts, agg_queue, agg_rel, lemma_agg_lowerable, monomorphize_aggregates};
use crate::capabilities::type_error;
use crate::lower_program::program_lowerable;
use crate::diagnostics::{Diagnostic, diag_fields};
use crate::lower_expr::{preserves_intrinsic_type_args, preserves_intrinsic_type_args_name, quoted_message, type_error_at};
use crate::model::NumericType;
use crate::render::{debug_quoted, decimal, push_decimal};
use crate::syntax;
use crate::syntax::{Expr, Literal, MatchArm, Stmt, TypeName, args_spans_ok, arms_spans_ok, block_spans_ok, expr_spans_ok, stmt_spans_ok};
use crate::types::numeric_name;

verus! {

// ---------------------------------------------------------------------------
// Source types as values.

/// A source type as a mathematical value.
pub enum TypeView {
    Int,
    Numeric(NumericType),
    Bool,
    String,
    Str,
    Named(Seq<char>, Seq<TypeView>),
    Ptr(Box<TypeView>),
    MutPtr(Box<TypeView>),
    MutRef(Box<TypeView>),
    Slice(Box<TypeView>),
    MutSlice(Box<TypeView>),
    LifetimeSlice(Seq<char>, Box<TypeView>),
    LifetimeMutSlice(Seq<char>, Box<TypeView>),
    Option(Box<TypeView>),
    Result(Box<TypeView>, Box<TypeView>),
    MapOf(Box<TypeView>, Box<TypeView>),
    Tuple(Seq<TypeView>),
    Array(Box<TypeView>, Option<Seq<char>>),
    Fn(Seq<TypeView>, Box<TypeView>),
}

/// The value of a source type.
pub open spec fn tn_view(t: TypeName) -> TypeView
    decreases t,
{
    match t {
        TypeName::Int => TypeView::Int,
        TypeName::Numeric(n) => TypeView::Numeric(n),
        TypeName::Bool => TypeView::Bool,
        TypeName::String => TypeView::String,
        TypeName::Str => TypeView::Str,
        TypeName::Named(name, args) => TypeView::Named(name@, tn_views(args, 0)),
        TypeName::Ptr(inner) => TypeView::Ptr(Box::new(tn_view(*inner))),
        TypeName::MutPtr(inner) => TypeView::MutPtr(Box::new(tn_view(*inner))),
        TypeName::MutRef(inner) => TypeView::MutRef(Box::new(tn_view(*inner))),
        TypeName::Slice(inner) => TypeView::Slice(Box::new(tn_view(*inner))),
        TypeName::MutSlice(inner) => TypeView::MutSlice(Box::new(tn_view(*inner))),
        TypeName::LifetimeSlice(l, inner) => TypeView::LifetimeSlice(l@, Box::new(tn_view(*inner))),
        TypeName::LifetimeMutSlice(l, inner) => TypeView::LifetimeMutSlice(l@, Box::new(tn_view(*inner))),
        TypeName::Option(inner) => TypeView::Option(Box::new(tn_view(*inner))),
        TypeName::Result(ok, err) => TypeView::Result(Box::new(tn_view(*ok)), Box::new(tn_view(*err))),
        TypeName::MapOf(key, value) => TypeView::MapOf(Box::new(tn_view(*key)), Box::new(tn_view(*value))),
        TypeName::Tuple(elements) => TypeView::Tuple(tn_views(elements, 0)),
        TypeName::Array(inner, len) => TypeView::Array(Box::new(tn_view(*inner)), match len {
            Some(l) => Some(l@),
            None => None,
        }),
        TypeName::Fn(params, ret) => TypeView::Fn(tn_views(params, 0), Box::new(tn_view(*ret))),
    }
}

/// The values of the source types of `ts` from position `i` on.
pub open spec fn tn_views(ts: Vec<TypeName>, i: int) -> Seq<TypeView>
    decreases ts, ts.len() - i,
{
    if i < 0 || i >= ts.len() {
        Seq::empty()
    } else {
        seq![tn_view(ts[i])] + tn_views(ts, i + 1)
    }
}

/// `tn_views` lists the value of each type in order.
pub proof fn lemma_tn_views(ts: Vec<TypeName>, i: int)
    requires
        0 <= i <= ts.len(),
    ensures
        tn_views(ts, i).len() == ts.len() - i,
        forall|k: int| 0 <= k < ts.len() - i ==> #[trigger] tn_views(ts, i)[k] == tn_view(ts[i + k]),
    decreases ts.len() - i,
{
    if i < ts.len() {
        lemma_tn_views(ts, i + 1);
        assert forall|k: int| 0 <= k < ts.len() - i implies #[trigger] tn_views(ts, i)[k] == tn_view(ts[i + k]) by {
            if k > 0 {
                assert(tn_views(ts, i)[k] == tn_views(ts, i + 1)[k - 1]);
            }
        }
    }
}

/// Two type lists whose items have equal values have equal values.
pub proof fn lemma_tn_views_eq(a: Vec<TypeName>, b: Vec<TypeName>)
    requires
        a.len() == b.len(),
        forall|k: int| 0 <= k < a.len() ==> tn_view(#[trigger] a[k]) == tn_view(b[k]),
    ensures
        tn_views(a, 0) == tn_views(b, 0),
{
    lemma_tn_views(a, 0);
    lemma_tn_views(b, 0);
    assert(tn_views(a, 0) =~= tn_views(b, 0));
}

/// A copy of a source type.
pub fn clone_type_name(t: &TypeName) -> (r: TypeName)
    ensures
        tn_view(r) == tn_view(*t),
    decreases t,
{
    match t {
        TypeName::Int => TypeName::Int,
        TypeName::Numeric(n) => TypeName::Numeric(*n),
        TypeName::Bool => TypeName::Bool,
        TypeName::String => TypeName::String,
        TypeName::Str => TypeName::Str,
        TypeName::Named(name, args) => TypeName::Named(name.clone(), clone_type_names(args)),
        TypeName::Ptr(inner) => TypeName::Ptr(Box::new(clone_type_name(inner))),
        TypeName::MutPtr(inner) => TypeName::MutPtr(Box::new(clone_type_name(inner))),
        TypeName::MutRef(inner) => TypeName::MutRef(Box::new(clone_type_name(inner))),
        TypeName::Slice(inner) => TypeName::Slice(Box::new(clone_type_name(inner))),
        TypeName::MutSlice(inner) => TypeName::MutSlice(Box::new(clone_type_name(inner))),
        TypeName::LifetimeSlice(l, inner) => TypeName::LifetimeSlice(l.clone(), Box::new(clone_type_name(inner))),
        TypeName::LifetimeMutSlice(l, inner) => TypeName::LifetimeMutSlice(l.clone(), Box::new(clone_type_name(inner))),
        TypeName::Option(inner) => TypeName::Option(Box::new(clone_type_name(inner))),
        TypeName::Result(ok, err) => TypeName::Result(Box::new(clone_type_name(ok)), Box::new(clone_type_name(err))),
        TypeName::MapOf(key, value) => TypeName::MapOf(Box::new(clone_type_name(key)), Box::new(clone_type_name(value))),
        TypeName::Tuple(elements) => TypeName::Tuple(clone_type_names(elements)),
        TypeName::Array(inner, len) => TypeName::Array(Box::new(clone_type_name(inner)), match len {
            Some(l) => Some(l.clone()),
            None => None,
        }),
        TypeName::Fn(params, ret) => TypeName::Fn(clone_type_names(params), Box::new(clone_type_name(ret))),
    }
}

/// A copy of a list of source types.
pub fn clone_type_names(ts: &Vec<TypeName>) -> (r: Vec<TypeName>)
    ensures
        tn_views(r, 0) == tn_views(*ts, 0),
    decreases ts, 0int,
{
    let mut out: Vec<TypeName> = Vec::new();
    let mut i: usize = 0;
    while i < ts.len()
        invariant
            i <= ts.len(),
            out.len() == i,
            forall|k: int| 0 <= k < i ==> tn_view(#[trigger] out@[k]) == tn_view(ts@[k]),
        decreases ts.len() - i,
    {
        proof { assert(decreases_to!(ts => ts[i as int])); }
        out.push(clone_type_name(&ts[i]));
        i = i + 1;
    }
    proof { lemma_tn_views_eq(out, *ts); }
    out
}

/// Decides whether two source types are the same type.
pub fn type_names_equal(a: &TypeName, b: &TypeName) -> (r: bool)
    ensures
        r == (tn_view(*a) == tn_view(*b)),
    decreases a,
{
    match (a, b) {
        (TypeName::Int, TypeName::Int) | (TypeName::Bool, TypeName::Bool) | (TypeName::String, TypeName::String)
        | (TypeName::Str, TypeName::Str) => true,
        (TypeName::Numeric(x), TypeName::Numeric(y)) => *x == *y,
        (TypeName::Named(x, xs), TypeName::Named(y, ys)) => {
            if !crate::text::str_eq(x.as_str(), y.as_str()) {
                return false;
            }
            type_name_lists_equal(xs, ys)
        },
        (TypeName::Ptr(x), TypeName::Ptr(y)) | (TypeName::MutPtr(x), TypeName::MutPtr(y)) | (TypeName::MutRef(x), TypeName::MutRef(y))
        | (TypeName::Slice(x), TypeName::Slice(y)) | (TypeName::MutSlice(x), TypeName::MutSlice(y))
        | (TypeName::Option(x), TypeName::Option(y)) => type_names_equal(x, y),
        (TypeName::LifetimeSlice(l, x), TypeName::LifetimeSlice(m, y)) | (TypeName::LifetimeMutSlice(l, x), TypeName::LifetimeMutSlice(m, y)) => {
            crate::text::str_eq(l.as_str(), m.as_str()) && type_names_equal(x, y)
        },
        (TypeName::Result(x1, x2), TypeName::Result(y1, y2)) | (TypeName::MapOf(x1, x2), TypeName::MapOf(y1, y2)) => {
            type_names_equal(x1, y1) && type_names_equal(x2, y2)
        },
        (TypeName::Tuple(xs), TypeName::Tuple(ys)) => type_name_lists_equal(xs, ys),
        (TypeName::Array(x, n), TypeName::Array(y, m)) => {
            let same_len = match (n, m) {
                (Some(n), Some(m)) => crate::text::str_eq(n.as_str(), m.as_str()),
                (None, None) => true,
                _ => false,
            };
            same_len && type_names_equal(x, y)
        },
        (TypeName::Fn(xs, x), TypeName::Fn(ys, y)) => type_name_lists_equal(xs, ys) && type_names_equal(x, y),
        _ => false,
    }
}

/// Decides whether two lists of source types are the same types, in order.
pub fn type_name_lists_equal(a: &Vec<TypeName>, b: &Vec<TypeName>) -> (r: bool)
    ensures
        r == (tn_views(*a, 0) == tn_views(*b, 0)),
    decreases a, 0int,
{
    proof {
        lemma_tn_views(*a, 0);
        lemma_tn_views(*b, 0);
    }
    if a.len() != b.len() {
        return false;
    }
    let mut i: usize = 0;
    while i < a.len()
        invariant
            i <= a.len(),
            a.len() == b.len(),
            tn_views(*a, 0).len() == a.len(),
            tn_views(*b, 0).len() == b.len(),
            forall|k: int| 0 <= k < a.len() ==> #[trigger] tn_views(*a, 0)[k] == tn_view(a@[k]),
            forall|k: int| 0 <= k < b.len() ==> #[trigger] tn_views(*b, 0)[k] == tn_view(b@[k]),
            forall|k: int| 0 <= k < i ==> tn_view(#[trigger] a@[k]) == tn_view(b@[k]),
        decreases a.len() - i,
    {
        proof { assert(decreases_to!(a => a[i as int])); }
        if !type_names_equal(&a[i], &b[i]) {
            proof { assert(tn_views(*a, 0)[i as int] != tn_views(*b, 0)[i as int]); }
            return false;
        }
        i = i + 1;
    }
    proof { lemma_tn_views_eq(*a, *b); }
    true
}

// ---------------------------------------------------------------------------
// Substitution of type parameters.

/// The type bound to `name`: the last binding of that name, if any.
pub open spec fn binding_lookup(b: Seq<(Seq<char>, TypeView)>, name: Seq<char>) -> Option<TypeView>
    decreases b.len(),
{
    if b.len() == 0 {
        None
    } else if b.last().0 == name {
        Some(b.last().1)
    } else {
        binding_lookup(b.drop_last(), name)
    }
}

/// `t` with every type parameter bound in `b` (a name without type arguments) replaced
/// by its binding.
pub open spec fn subst_v(t: TypeView, b: Seq<(Seq<char>, TypeView)>) -> TypeView
    decreases t,
{
    match t {
        TypeView::Named(name, args) => if args.len() == 0 {
            match binding_lookup(b, name) {
                Some(v) => v,
                None => TypeView::Named(name, Seq::empty()),
            }
        } else {
            TypeView::Named(name, subst_vs(args, 0, b))
        },
        TypeView::Ptr(inner) => TypeView::Ptr(Box::new(subst_v(*inner, b))),
        TypeView::MutPtr(inner) => TypeView::MutPtr(Box::new(subst_v(*inner, b))),
        TypeView::MutRef(inner) => TypeView::MutRef(Box::new(subst_v(*inner, b))),
        TypeView::Slice(inner) => TypeView::Slice(Box::new(subst_v(*inner, b))),
        TypeView::MutSlice(inner) => TypeView::MutSlice(Box::new(subst_v(*inner, b))),
        TypeView::LifetimeSlice(l, inner) => TypeView::LifetimeSlice(l, Box::new(subst_v(*inner, b))),
        TypeView::LifetimeMutSlice(l, inner) => TypeView::LifetimeMutSlice(l, Box::new(subst_v(*inner, b))),
        TypeView::Option(inner) => TypeView::Option(Box::new(subst_v(*inner, b))),
        TypeView::Result(ok, err) => TypeView::Result(Box::new(subst_v(*ok, b)), Box::new(subst_v(*err, b))),
        TypeView::MapOf(key, value) => TypeView::MapOf(Box::new(subst_v(*key, b)), Box::new(subst_v(*value, b))),
        TypeView::Tuple(elements) => TypeView::Tuple(subst_vs(elements, 0, b)),
        TypeView::Array(inner, len) => TypeView::Array(Box::new(subst_v(*inner, b)), len),
        TypeView::Fn(params, ret) => TypeView::Fn(subst_vs(params, 0, b), Box::new(subst_v(*ret, b))),
        _ => t,
    }
}

/// `subst_v` on each of `ts` from position `i` on.
pub open spec fn subst_vs(ts: Seq<TypeView>, i: int, b: Seq<(Seq<char>, TypeView)>) -> Seq<TypeView>
    decreases ts, ts.len() - i,
{
    if i < 0 || i >= ts.len() {
        Seq::empty()
    } else {
        seq![subst_v(ts[i], b)] + subst_vs(ts, i + 1, b)
    }
}

/// `subst_vs` substitutes in each item, in order.
pub proof fn lemma_subst_vs(ts: Seq<TypeView>, i: int, b: Seq<(Seq<char>, TypeView)>)
    requires
        0 <= i <= ts.len(),
    ensures
        subst_vs(ts, i, b).len() == ts.len() - i,
        forall|k: int| 0 <= k < ts.len() - i ==> #[trigger] subst_vs(ts, i, b)[k] == subst_v(ts[i + k], b),
    decreases ts.len() - i,
{
    if i < ts.len() {
        lemma_subst_vs(ts, i + 1, b);
        assert forall|k: int| 0 <= k < ts.len() - i implies #[trigger] subst_vs(ts, i, b)[k] == subst_v(ts[i + k], b) by {
            if k > 0 {
                assert(subst_vs(ts, i, b)[k] == subst_vs(ts, i + 1, b)[k - 1]);
            }
        }
    }
}

/// The value of a list of bindings from names to source types.
pub open spec fn bindings_view(b: Seq<(String, TypeName)>) -> Seq<(Seq<char>, TypeView)> {
    Seq::new(b.len(), |i: int| (b[i].0@, tn_view(b[i].1)))
}

pub fn lookup_binding<'a>(b: &'a Vec<(String, TypeName)>, name: &str) -> (r: Option<&'a TypeName>)
    ensures
        match binding_lookup(bindings_view(b@), name@) {
            Some(v) => r is Some && tn_view(*r->0) == v,
            None => r is None,
        },
{
    let mut i: usize = b.len();
    proof { assert(bindings_view(b@).take(i as int) =~= bindings_view(b@)); }
    while i > 0
        invariant
            i <= b.len(),
            binding_lookup(bindings_view(b@), name@) == binding_lookup(bindings_view(b@).take(i as int), name@),
        decreases i,
    {
        let ghost bv = bindings_view(b@).take(i as int);
        proof { assert(bv.drop_last() =~= bindings_view(b@).take(i - 1)); }
        if crate::text::str_eq(b[i - 1].0.as_str(), name) {
            return Some(&b[i - 1].1);
        }
        i = i - 1;
    }
    None
}

/// `t` with the type parameters bound in `b` replaced by their bindings.
pub fn substitute_type_name(t: &TypeName, b: &Vec<(String, TypeName)>) -> (r: TypeName)
    ensures
        tn_view(r) == subst_v(tn_view(*t), bindings_view(b@)),
    decreases t,
{
    match t {
        TypeName::Named(name, args) => {
            if args.len() == 0 {
                proof { lemma_tn_views(*args, 0); assert(tn_views(*args, 0) =~= Seq::empty()); }
                match lookup_binding(b, name.as_str()) {
                    Some(bound) => clone_type_name(bound),
                    None => {
                        let empty: Vec<TypeName> = Vec::new();
                        proof { lemma_tn_views(empty, 0); assert(tn_views(empty, 0) =~= Seq::empty()); }
                        TypeName::Named(name.clone(), empty)
                    },
                }
            } else {
                TypeName::Named(name.clone(), substitute_type_names(args, b))
            }
        },
        TypeName::Int => TypeName::Int,
        TypeName::Numeric(n) => TypeName::Numeric(*n),
        TypeName::Bool => TypeName::Bool,
        TypeName::String => TypeName::String,
        TypeName::Str => TypeName::Str,
        TypeName::Ptr(inner) => TypeName::Ptr(Box::new(substitute_type_name(inner, b))),
        TypeName::MutPtr(inner) => TypeName::MutPtr(Box::new(substitute_type_name(inner, b))),
        TypeName::MutRef(inner) => TypeName::MutRef(Box::new(substitute_type_name(inner, b))),
        TypeName::Slice(inner) => TypeName::Slice(Box::new(substitute_type_name(inner, b))),
        TypeName::MutSlice(inner) => TypeName::MutSlice(Box::new(substitute_type_name(inner, b))),
        TypeName::LifetimeSlice(l, inner) => TypeName::LifetimeSlice(l.clone(), Box::new(substitute_type_name(inner, b))),
        TypeName::LifetimeMutSlice(l, inner) => TypeName::LifetimeMutSlice(l.clone(), Box::new(substitute_type_name(inner, b))),
        TypeName::Option(inner) => TypeName::Option(Box::new(substitute_type_name(inner, b))),
        TypeName::Result(ok, err) => TypeName::Result(Box::new(substitute_type_name(ok, b)), Box::new(substitute_type_name(err, b))),
        TypeName::MapOf(key, value) => TypeName::MapOf(Box::new(substitute_type_name(key, b)), Box::new(substitute_type_name(value, b))),
        TypeName::Tuple(elements) => TypeName::Tuple(substitute_type_names(elements, b)),
        TypeName::Array(inner, len) => TypeName::Array(Box::new(substitute_type_name(inner, b)), match len {
            Some(l) => Some(l.clone()),
            None => None,
        }),
        TypeName::Fn(params, ret) => TypeName::Fn(substitute_type_names(params, b), Box::new(substitute_type_name(ret, b))),
    }
}

/// Each of `ts` with the type parameters bound in `b` replaced by their bindings.
pub fn substitute_type_names(ts: &Vec<TypeName>, b: &Vec<(String, TypeName)>) -> (r: Vec<TypeName>)
    ensures
        tn_views(r, 0) == subst_vs(tn_views(*ts, 0), 0, bindings_view(b@)),
    decreases ts, 0int,
{
    let ghost bv = bindings_view(b@);
    proof {
        lemma_tn_views(*ts, 0);
        lemma_subst_vs(tn_views(*ts, 0), 0, bv);
    }
    let mut out: Vec<TypeName> = Vec::new();
    let mut i: usize = 0;
    while i < ts.len()
        invariant
            i <= ts.len(),
            out.len() == i,
            bv == bindings_view(b@),
            forall|k: int| 0 <= k < i ==> tn_view(#[trigger] out@[k]) == subst_v(tn_view(ts@[k]), bv),
        decreases ts.len() - i,
    {
        proof { assert(decreases_to!(ts => ts[i as int])); }
        out.push(substitute_type_name(&ts[i], b));
        i = i + 1;
    }
    proof {
        lemma_tn_views(out, 0);
        assert(tn_views(out, 0) =~= subst_vs(tn_views(*ts, 0), 0, bv)) by {
            assert forall|k: int| 0 <= k < out.len() implies tn_views(out, 0)[k] == subst_vs(tn_views(*ts, 0), 0, bv)[k] by {
                assert(tn_views(*ts, 0)[k] == tn_view(ts@[k]));
            }
        }
    }
    out
}

// ---------------------------------------------------------------------------
// Names of instances.

/// How a type argument is spelled inside the name of an instance.
pub open spec fn mangle(t: TypeView) -> Seq<char>
    decreases t,
{
    match t {
        TypeView::Int => "int"@,
        TypeView::Numeric(n) => numeric_name(n),
        TypeView::Bool => "bool"@,
        TypeView::String => "string"@,
        TypeView::Str => "str"@,
        TypeView::Named(name, args) => if args.len() == 0 { name } else { name + "_"@ + mangles(args) },
        TypeView::Ptr(inner) => "ptr_"@ + mangle(*inner),
        TypeView::MutPtr(inner) => "mutptr_"@ + mangle(*inner),
        TypeView::MutRef(inner) => "mutref_"@ + mangle(*inner),
        TypeView::Slice(inner) => "slice_"@ + mangle(*inner),
        TypeView::MutSlice(inner) => "mutslice_"@ + mangle(*inner),
        TypeView::LifetimeSlice(_, inner) => "slice_"@ + mangle(*inner),
        TypeView::LifetimeMutSlice(_, inner) => "mutslice_"@ + mangle(*inner),
        TypeView::Option(inner) => "Option_"@ + mangle(*inner),
        TypeView::Result(ok, err) => "Result_"@ + mangle(*ok) + "_"@ + mangle(*err),
        TypeView::MapOf(key, value) => "Map_"@ + mangle(*key) + "_"@ + mangle(*value),
        TypeView::Tuple(elements) => "tuple_"@ + mangles(elements),
        TypeView::Array(inner, _) => "array_"@ + mangle(*inner),
        TypeView::Fn(params, ret) => "fn_"@ + mangles(params) + "_"@ + mangle(*ret),
    }
}

/// The spellings of `ts`, joined by `_`.
pub open spec fn mangles(ts: Seq<TypeView>) -> Seq<char>
    decreases ts,
{
    if ts.len() == 0 {
        Seq::empty()
    } else if ts.len() == 1 {
        mangle(ts[0])
    } else {
        mangle(ts[0]) + "_"@ + mangles(ts.drop_first())
    }
}

/// The name of the instance of the generic function `name` for the type arguments `args`.
pub open spec fn instance_name(name: Seq<char>, args: Seq<TypeView>) -> Seq<char> {
    name + "__"@ + mangles(args)
}

/// Appends the spelling of `t` inside instance names to `out`.
pub fn push_mangled(out: &mut String, t: &TypeName)
    ensures
        final(out)@ == old(out)@ + mangle(tn_view(*t)),
    decreases t,
{
    let ghost start = out@;
    match t {
        TypeName::Int => out.append("int"),
        TypeName::Numeric(n) => out.append(n.as_str()),
        TypeName::Bool => out.append("bool"),
        TypeName::String => out.append("string"),
        TypeName::Str => out.append("str"),
        TypeName::Named(name, args) => {
            out.append(name.as_str());
            if args.len() > 0 {
                out.append("_");
                push_mangles(out, args, 0);
            } else {
                proof { lemma_tn_views(*args, 0); }
            }
        },
        TypeName::Ptr(inner) => {
            out.append("ptr_");
            push_mangled(out, inner);
        },
        TypeName::MutPtr(inner) => {
            out.append("mutptr_");
            push_mangled(out, inner);
        },
        TypeName::MutRef(inner) => {
            out.append("mutref_");
            push_mangled(out, inner);
        },
        TypeName::Slice(inner) | TypeName::LifetimeSlice(_, inner) => {
            out.append("slice_");
            push_mangled(out, inner);
        },
        TypeName::MutSlice(inner) | TypeName::LifetimeMutSlice(_, inner) => {
            out.append("mutslice_");
            push_mangled(out, inner);
        },
        TypeName::Option(inner) => {
            out.append("Option_");
            push_mangled(out, inner);
        },
        TypeName::Result(ok, err) => {
            out.append("Result_");
            push_mangled(out, ok);
            out.append("_");
            push_mangled(out, err);
        },
        TypeName::MapOf(key, value) => {
            out.append("Map_");
            push_mangled(out, key);
            out.append("_");
            push_mangled(out, value);
        },
        TypeName::Tuple(elements) => {
            out.append("tuple_");
            push_mangles(out, elements, 0);
        },
        TypeName::Array(inner, _) => {
            out.append("array_");
            push_mangled(out, inner);
        },
        TypeName::Fn(params, ret) => {
            out.append("fn_");
            push_mangles(out, params, 0);
            out.append("_");
            push_mangled(out, ret);
        },
    }
    proof {
        assert(out@ =~= start + mangle(tn_view(*t)));
    }
}

/// Appends the spellings of `ts` from position `i` on, joined by `_`, to `out`.
pub fn push_mangles(out: &mut String, ts: &Vec<TypeName>, i: usize)
    requires
        i <= ts.len(),
    ensures
        final(out)@ == old(out)@ + mangles(tn_views(*ts, i as int)),
    decreases ts, ts.len() - i,
{
    let ghost start = out@;
    proof { lemma_tn_views(*ts, i as int); }
    if i >= ts.len() {
        proof { assert(out@ =~= start + mangles(tn_views(*ts, i as int))); }
        return;
    }
    proof {
        assert(decreases_to!(ts => ts[i as int]));
        assert(tn_views(*ts, i as int).drop_first() =~= tn_views(*ts, i + 1));
        lemma_tn_views(*ts, i + 1);
    }
    push_mangled(out, &ts[i]);
    if i + 1 < ts.len() {
        out.append("_");
        push_mangles(out, ts, i + 1);
    }
    proof {
        assert(out@ =~= start + mangles(tn_views(*ts, i as int)));
    }
}

/// The name of the instance of the generic function `name` for the type arguments `args`.
pub fn instance_function_name(name: &str, args: &Vec<TypeName>) -> (r: String)
    ensures
        r@ == instance_name(name@, tn_views(*args, 0)),
{
    let mut out = String::from_str(name);
    out.append("__");
    push_mangles(&mut out, args, 0);
    proof { assert(out@ =~= instance_name(name@, tn_views(*args, 0))); }
    out
}

// ---------------------------------------------------------------------------
// Calls of generic functions.

/// An instance of a generic function to emit: its name and type arguments.
#[derive(Debug)]
pub struct GenericInstantiation {
    pub name: String,
    pub type_args: Vec<TypeName>,
}

/// The value of an instance: the function's name and the values of its type arguments.
pub open spec fn inst_view(i: GenericInstantiation) -> (Seq<char>, Seq<TypeView>) {
    (i.name@, tn_views(i.type_args, 0))
}

/// The values of a list of instances.
pub open spec fn insts_view(q: Seq<GenericInstantiation>) -> Seq<(Seq<char>, Seq<TypeView>)> {
    Seq::new(q.len(), |i: int| inst_view(q[i]))
}

/// `q` followed by those of `xs`, in order, that it does not hold yet.
pub open spec fn dedup_append(q: Seq<(Seq<char>, Seq<TypeView>)>, xs: Seq<(Seq<char>, Seq<TypeView>)>) -> Seq<(Seq<char>, Seq<TypeView>)>
    decreases xs.len(),
{
    if xs.len() == 0 {
        q
    } else {
        dedup_append(if q.contains(xs[0]) { q } else { q.push(xs[0]) }, xs.drop_first())
    }
}

/// Appending two lists one after the other appends their concatenation.
pub proof fn lemma_dedup_append_concat(q: Seq<(Seq<char>, Seq<TypeView>)>, xs: Seq<(Seq<char>, Seq<TypeView>)>, ys: Seq<(Seq<char>, Seq<TypeView>)>)
    ensures
        dedup_append(dedup_append(q, xs), ys) == dedup_append(q, xs + ys),
    decreases xs.len(),
{
    if xs.len() == 0 {
        assert(xs + ys =~= ys);
    } else {
        let q2 = if q.contains(xs[0]) { q } else { q.push(xs[0]) };
        lemma_dedup_append_concat(q2, xs.drop_first(), ys);
        assert((xs + ys).drop_first() =~= xs.drop_first() + ys);
        assert((xs + ys)[0] == xs[0]);
    }
}

/// The position of the generic function named `name` among `fs`, if any (the first).
pub open spec fn generic_index(fs: Seq<syntax::Function>, name: Seq<char>) -> Option<int> {
    if exists|i: int| 0 <= i < fs.len() && fs[i].name@ == name && fs[i].type_params.len() > 0 {
        Some(choose|i: int| 0 <= i < fs.len() && fs[i].name@ == name && fs[i].type_params.len() > 0
            && forall|j: int| 0 <= j < i ==> !(fs[j].name@ == name && fs[j].type_params.len() > 0))
    } else {
        None
    }
}

/// Finds the generic function named `name`.
pub fn find_generic(fs: &Vec<syntax::Function>, name: &str) -> (r: Option<usize>)
    ensures
        r is Some <==> generic_index(fs@, name@) is Some,
        r is Some ==> r->0 as int == generic_index(fs@, name@)->0 && r->0 < fs.len(),
{
    let mut i: usize = 0;
    while i < fs.len()
        invariant
            i <= fs.len(),
            forall|j: int| 0 <= j < i ==> !(fs@[j].name@ == name@ && fs@[j].type_params.len() > 0),
        decreases fs.len() - i,
    {
        if fs[i].type_params.len() > 0 && crate::text::str_eq(fs[i].name.as_str(), name) {
            proof {
                let k = choose|k: int| 0 <= k < fs@.len() && fs@[k].name@ == name@ && fs@[k].type_params.len() > 0
                    && forall|j: int| 0 <= j < k ==> !(fs@[j].name@ == name@ && fs@[j].type_params.len() > 0);
                if k < i { assert(false); }
                if k > i { assert(!(fs@[i as int].name@ == name@ && fs@[i as int].type_params.len() > 0)); }
            }
            return Some(i);
        }
        i = i + 1;
    }
    None
}

/// What is wrong, if anything, with a call of `name` with the (substituted) type
/// arguments `targs` at `line`, `column`: a generic function needs as many type
/// arguments as it has type parameters; any other function takes none.
pub open spec fn call_problem(name: Seq<char>, targs: Seq<TypeView>, fs: Seq<syntax::Function>, line: usize, column: usize) -> Option<(Seq<char>, usize, usize)> {
    match generic_index(fs, name) {
        Some(k) => if targs.len() == 0 {
            Some(("generic function "@ + debug_quoted(name) + " requires explicit type arguments"@, line, column))
        } else if targs.len() != fs[k].type_params.len() {
            Some(("generic function "@ + debug_quoted(fs[k].name@) + " expects "@ + decimal(fs[k].type_params.len() as nat)
                + " type arguments, got "@ + decimal(targs.len()), fs[k].line, fs[k].column))
        } else {
            None
        },
        None => if targs.len() > 0 && !preserves_intrinsic_type_args(name) {
            Some(("function "@ + debug_quoted(name) + " is not generic"@, line, column))
        } else {
            None
        },
    }
}

/// The first problem, in evaluation order, with the calls in `e` once the type
/// parameters bound in `b` are substituted.
pub open spec fn expr_problem(e: Expr, b: Seq<(Seq<char>, TypeView)>, fs: Seq<syntax::Function>) -> Option<(Seq<char>, usize, usize)>
    decreases e,
{
    match e {
        Expr::Call { name, type_args, args, line, column } => match args_problem(args, 0, b, fs) {
            Some(p) => Some(p),
            None => call_problem(name@, subst_vs(tn_views(type_args, 0), 0, b), fs, line, column),
        },
        Expr::BinaryAdd { lhs, rhs, .. } | Expr::BinaryCompare { lhs, rhs, .. } | Expr::BinaryLogic { lhs, rhs, .. } => {
            match expr_problem(*lhs, b, fs) {
                Some(p) => Some(p),
                None => expr_problem(*rhs, b, fs),
            }
        },
        Expr::Unary { expr, .. } => expr_problem(*expr, b, fs),
        Expr::TupleLiteral { elements, .. } => args_problem(elements, 0, b, fs),
        Expr::ArrayLiteral { elements, .. } => args_problem(elements, 0, b, fs),
        Expr::Cast { expr, .. } => expr_problem(*expr, b, fs),
        _ => None,
    }
}

/// `expr_problem` for the arguments from position `i` on.
pub open spec fn args_problem(args: Vec<Expr>, i: int, b: Seq<(Seq<char>, TypeView)>, fs: Seq<syntax::Function>) -> Option<(Seq<char>, usize, usize)>
    decreases args, args.len() - i,
{
    if i < 0 || i >= args.len() {
        None
    } else {
        match expr_problem(args[i], b, fs) {
            Some(p) => Some(p),
            None => args_problem(args, i + 1, b, fs),
        }
    }
}

/// The instances that the calls of generic functions in `e` need, in evaluation order.
pub open spec fn expr_insts(e: Expr, b: Seq<(Seq<char>, TypeView)>, fs: Seq<syntax::Function>) -> Seq<(Seq<char>, Seq<TypeView>)>
    decreases e,
{
    match e {
        Expr::Call { name, type_args, args, .. } => args_insts(args, 0, b, fs) + if generic_index(fs, name@) is Some {
            seq![(name@, subst_vs(tn_views(type_args, 0), 0, b))]
        } else {
            Seq::empty()
        },
        Expr::BinaryAdd { lhs, rhs, .. } | Expr::BinaryCompare { lhs, rhs, .. } | Expr::BinaryLogic { lhs, rhs, .. } => {
            expr_insts(*lhs, b, fs) + expr_insts(*rhs, b, fs)
        },
        Expr::Unary { expr, .. } => expr_insts(*expr, b, fs),
        Expr::TupleLiteral { elements, .. } => args_insts(elements, 0, b, fs),
        Expr::ArrayLiteral { elements, .. } => args_insts(elements, 0, b, fs),
        Expr::Cast { expr, .. } => expr_insts(*expr, b, fs),
        _ => Seq::empty(),
    }
}

/// `expr_insts` for the arguments from position `i` on.
pub open spec fn args_insts(args: Vec<Expr>, i: int, b: Seq<(Seq<char>, TypeView)>, fs: Seq<syntax::Function>) -> Seq<(Seq<char>, Seq<TypeView>)>
    decreases args, args.len() - i,
{
    if i < 0 || i >= args.len() {
        Seq::empty()
    } else {
        expr_insts(args[i], b, fs) + args_insts(args, i + 1, b, fs)
    }
}

/// `r` is `e` with every call of a generic function redirected to its instance for the
/// (substituted) type arguments.
pub open spec fn expr_rewritten(e: Expr, b: Seq<(Seq<char>, TypeView)>, fs: Seq<syntax::Function>, r: Expr) -> bool
    decreases e,
{
    match e {
        Expr::Call { name, type_args, args, line, column } => {
            &&& r matches Expr::Call { name: n2, type_args: t2, args: a2, line: l2, column: c2 }
            &&& l2 == line && c2 == column
            &&& tn_views(t2, 0) == (if generic_index(fs, name@) is None && preserves_intrinsic_type_args(name@) {
                subst_vs(tn_views(type_args, 0), 0, b)
            } else {
                Seq::empty()
            })
            &&& n2@ == (if generic_index(fs, name@) is Some { instance_name(name@, subst_vs(tn_views(type_args, 0), 0, b)) } else { name@ })
            &&& a2@.len() == args.len()
            &&& args_rewritten(args, a2@, 0, b, fs)
        },
        Expr::BinaryAdd { op, lhs, rhs, line, column } => {
            &&& r matches Expr::BinaryAdd { op: o2, lhs: l2, rhs: r2, line: ln2, column: c2 }
            &&& o2 == op && ln2 == line && c2 == column
            &&& expr_rewritten(*lhs, b, fs, *l2) && expr_rewritten(*rhs, b, fs, *r2)
        },
        Expr::BinaryCompare { op, lhs, rhs, line, column } => {
            &&& r matches Expr::BinaryCompare { op: o2, lhs: l2, rhs: r2, line: ln2, column: c2 }
            &&& o2 == op && ln2 == line && c2 == column
            &&& expr_rewritten(*lhs, b, fs, *l2) && expr_rewritten(*rhs, b, fs, *r2)
        },
        Expr::BinaryLogic { op, lhs, rhs, line, column } => {
            &&& r matches Expr::BinaryLogic { op: o2, lhs: l2, rhs: r2, line: ln2, column: c2 }
            &&& o2 == op && ln2 == line && c2 == column
            &&& expr_rewritten(*lhs, b, fs, *l2) && expr_rewritten(*rhs, b, fs, *r2)
        },
        Expr::Unary { op, expr, line, column } => {
            &&& r matches Expr::Unary { op: o2, expr: x2, line: ln2, column: c2 }
            &&& o2 == op && ln2 == line && c2 == column
            &&& expr_rewritten(*expr, b, fs, *x2)
        },
        Expr::TupleLiteral { elements, line, column } => {
            &&& r matches Expr::TupleLiteral { elements: x2, line: ln2, column: c2 }
            &&& ln2 == line && c2 == column
            &&& x2@.len() == elements.len()
            &&& args_rewritten(elements, x2@, 0, b, fs)
        },
        Expr::ArrayLiteral { elements, line, column } => {
            &&& r matches Expr::ArrayLiteral { elements: x2, line: ln2, column: c2 }
            &&& ln2 == line && c2 == column
            &&& x2@.len() == elements.len()
            &&& args_rewritten(elements, x2@, 0, b, fs)
        },
        Expr::Cast { expr, ty, line, column } => {
            &&& r matches Expr::Cast { expr: x2, ty: t2, line: ln2, column: c2 }
            &&& ln2 == line && c2 == column
            &&& expr_rewritten(*expr, b, fs, *x2)
            &&& tn_view(t2) == subst_v(tn_view(ty), b)
        },
        _ => r == e,
    }
}

/// `expr_rewritten` for the arguments from position `i` on, each against the item at the
/// same position of `out`.
pub open spec fn args_rewritten(args: Vec<Expr>, out: Seq<Expr>, i: int, b: Seq<(Seq<char>, TypeView)>, fs: Seq<syntax::Function>) -> bool
    decreases args, args.len() - i,
{
    if i < 0 || i >= args.len() {
        true
    } else {
        &&& i < out.len()
        &&& expr_rewritten(args[i], b, fs, out[i])
        &&& args_rewritten(args, out, i + 1, b, fs)
    }
}

/// Queues the instance `name` with the type arguments `type_args`, unless it is queued.
pub fn queue_instantiation(queued: &mut Vec<GenericInstantiation>, name: &str, type_args: &Vec<TypeName>)
    ensures
        insts_view(final(queued)@) == dedup_append(insts_view(old(queued)@), seq![(name@, tn_views(*type_args, 0))]),
{
    let ghost x = (name@, tn_views(*type_args, 0));
    let ghost before = insts_view(queued@);
    proof {
        let q2 = if before.contains(x) { before } else { before.push(x) };
        assert(seq![x].drop_first() =~= Seq::<(Seq<char>, Seq<TypeView>)>::empty());
        assert(dedup_append(q2, Seq::<(Seq<char>, Seq<TypeView>)>::empty()) == q2);
        assert(dedup_append(before, seq![x]) == q2);
    }
    let mut i: usize = 0;
    while i < queued.len()
        invariant
            i <= queued.len(),
            before == insts_view(queued@),
            x == (name@, tn_views(*type_args, 0)),
            dedup_append(before, seq![x]) == (if before.contains(x) { before } else { before.push(x) }),
            forall|k: int| 0 <= k < i ==> before[k] != x,
        decreases queued.len() - i,
    {
        proof { assert(before[i as int] == inst_view(queued@[i as int])); }
        if crate::text::str_eq(queued[i].name.as_str(), name) && type_name_lists_equal(&queued[i].type_args, type_args) {
            proof { assert(before[i as int] == x); assert(before.contains(x)); }
            return;
        }
        i = i + 1;
    }
    proof {
        assert(!before.contains(x)) by {
            if before.contains(x) {
                let k = choose|k: int| 0 <= k < before.len() && before[k] == x;
                assert(before[k] != x);
            }
        }
    }
    queued.push(GenericInstantiation { name: String::from_str(name), type_args: clone_type_names(type_args) });
    proof {
        assert(insts_view(queued@) =~= before.push(x));
    }
}

/// The call of `name` with the arguments `args`, already rewritten, and the type
/// arguments `type_args`, already substituted: redirected to an instance when `name` is
/// generic, which is then queued.
fn rewrite_call(name: &String, type_args: Vec<TypeName>, args: Vec<Expr>, line: usize, column: usize, fs: &Vec<syntax::Function>, queued: &mut Vec<GenericInstantiation>) -> (r: Result<Expr, Diagnostic>)
    ensures
        match call_problem(name@, tn_views(type_args, 0), fs@, line, column) {
            Some((m, l, c)) => r is Err && type_error(r->Err_0, m, l, c),
            None => {
                &&& r is Ok
                &&& r->Ok_0 matches Expr::Call { name: n2, type_args: t2, args: a2, line: l2, column: c2 }
                &&& l2 == line && c2 == column && a2 == args
                &&& tn_views(t2, 0) == (if generic_index(fs@, name@) is None && preserves_intrinsic_type_args(name@) { tn_views(type_args, 0) } else { Seq::empty() })
                &&& n2@ == (if generic_index(fs@, name@) is Some { instance_name(name@, tn_views(type_args, 0)) } else { name@ })
                &&& insts_view(final(queued)@) == dedup_append(insts_view(old(queued)@),
                    if generic_index(fs@, name@) is Some { seq![(name@, tn_views(type_args, 0))] } else { Seq::empty() })
            },
        },
{
    proof { lemma_tn_views(type_args, 0); }
    match find_generic(fs, name.as_str()) {
        Some(k) => {
            if type_args.len() == 0 {
                let m = quoted_message("generic function ", name.as_str(), " requires explicit type arguments");
                return Err(type_error_at(m, line, column));
            }
            let template = &fs[k];
            if type_args.len() != template.type_params.len() {
                let mut m = quoted_message("generic function ", template.name.as_str(), " expects ");
                push_decimal(&mut m, template.type_params.len() as u64);
                m.append(" type arguments, got ");
                push_decimal(&mut m, type_args.len() as u64);
                return Err(type_error_at(m, template.line, template.column));
            }
            queue_instantiation(queued, name.as_str(), &type_args);
            let instance = instance_function_name(name.as_str(), &type_args);
            let none: Vec<TypeName> = Vec::new();
            proof { lemma_tn_views(none, 0); assert(tn_views(none, 0) =~= Seq::<TypeView>::empty()); }
            Ok(Expr::Call { name: instance, type_args: none, args, line, column })
        },
        None => {
            let keep = preserves_intrinsic_type_args_name(name.as_str());
            if type_args.len() > 0 && !keep {
                let m = quoted_message("function ", name.as_str(), " is not generic");
                return Err(type_error_at(m, line, column));
            }
            proof { assert(Seq::<(Seq<char>, Seq<TypeView>)>::empty().len() == 0); }
            let kept: Vec<TypeName> = if keep { type_args } else { Vec::new() };
            proof { lemma_tn_views(kept, 0); if !keep { assert(tn_views(kept, 0) =~= Seq::<TypeView>::empty()); } }
            Ok(Expr::Call { name: name.clone(), type_args: kept, args, line, column })
        },
    }
}

/// Rewrites the calls of generic functions in `e` (type parameters bound as in `b`),
/// queuing the instances they need.
pub fn rewrite_expr_generic_calls(e: &Expr, b: &Vec<(String, TypeName)>, fs: &Vec<syntax::Function>, queued: &mut Vec<GenericInstantiation>) -> (r: Result<Expr, Diagnostic>)
    ensures
        match expr_problem(*e, bindings_view(b@), fs@) {
            Some((m, l, c)) => r is Err && type_error(r->Err_0, m, l, c),
            None => {
                &&& r is Ok
                &&& expr_rewritten(*e, bindings_view(b@), fs@, r->Ok_0)
                &&& insts_view(final(queued)@) == dedup_append(insts_view(old(queued)@), expr_insts(*e, bindings_view(b@), fs@))
            },
        },
    decreases e,
{
    let ghost bv = bindings_view(b@);
    match e {
        Expr::Literal(lit) => {
            let copy = match lit {
                Literal::Int(v) => Literal::Int(*v),
                Literal::Bool(v) => Literal::Bool(*v),
                Literal::String(v) => Literal::String(v.clone()),
            };
            Ok(Expr::Literal(copy))
        },
        Expr::VarRef { name, line, column } => Ok(Expr::VarRef { name: name.clone(), line: *line, column: *column }),
        Expr::Call { name, type_args, args, line, column } => {
            let ghost q0 = insts_view(queued@);
            let rewritten = rewrite_args_generic_calls(args, b, fs, queued)?;
            let ghost q1 = insts_view(queued@);
            let substituted = substitute_type_names(type_args, b);
            let r = rewrite_call(name, substituted, rewritten, *line, *column, fs, queued);
            proof {
                lemma_dedup_append_concat(q0, args_insts(*args, 0, bv, fs@),
                    if generic_index(fs@, name@) is Some { seq![(name@, subst_vs(tn_views(*type_args, 0), 0, bv))] } else { Seq::empty() });
            }
            r
        },
        Expr::BinaryAdd { op, lhs, rhs, line, column } => {
            let ghost q0 = insts_view(queued@);
            let l = rewrite_expr_generic_calls(lhs, b, fs, queued)?;
            let r = rewrite_expr_generic_calls(rhs, b, fs, queued)?;
            proof { lemma_dedup_append_concat(q0, expr_insts(**lhs, bv, fs@), expr_insts(**rhs, bv, fs@)); }
            Ok(Expr::BinaryAdd { op: *op, lhs: Box::new(l), rhs: Box::new(r), line: *line, column: *column })
        },
        Expr::BinaryCompare { op, lhs, rhs, line, column } => {
            let ghost q0 = insts_view(queued@);
            let l = rewrite_expr_generic_calls(lhs, b, fs, queued)?;
            let r = rewrite_expr_generic_calls(rhs, b, fs, queued)?;
            proof { lemma_dedup_append_concat(q0, expr_insts(**lhs, bv, fs@), expr_insts(**rhs, bv, fs@)); }
            Ok(Expr::BinaryCompare { op: *op, lhs: Box::new(l), rhs: Box::new(r), line: *line, column: *column })
        },
        Expr::BinaryLogic { op, lhs, rhs, line, column } => {
            let ghost q0 = insts_view(queued@);
            let l = rewrite_expr_generic_calls(lhs, b, fs, queued)?;
            let r = rewrite_expr_generic_calls(rhs, b, fs, queued)?;
            proof { lemma_dedup_append_concat(q0, expr_insts(**lhs, bv, fs@), expr_insts(**rhs, bv, fs@)); }
            Ok(Expr::BinaryLogic { op: *op, lhs: Box::new(l), rhs: Box::new(r), line: *line, column: *column })
        },
        Expr::Unary { op, expr, line, column } => {
            let x = rewrite_expr_generic_calls(expr, b, fs, queued)?;
            Ok(Expr::Unary { op: *op, expr: Box::new(x), line: *line, column: *column })
        },
        Expr::TupleLiteral { elements, line, column } => {
            let x = rewrite_args_generic_calls(elements, b, fs, queued)?;
            Ok(Expr::TupleLiteral { elements: x, line: *line, column: *column })
        },
        Expr::ArrayLiteral { elements, line, column } => {
            let x = rewrite_args_generic_calls(elements, b, fs, queued)?;
            Ok(Expr::ArrayLiteral { elements: x, line: *line, column: *column })
        },
        Expr::Cast { expr, ty, line, column } => {
            let x = rewrite_expr_generic_calls(expr, b, fs, queued)?;
            Ok(Expr::Cast { expr: Box::new(x), ty: substitute_type_name(ty, b), line: *line, column: *column })
        },
    }
}

/// Rewrites the calls of generic functions in each of `args`, in order.
fn rewrite_args_generic_calls(args: &Vec<Expr>, b: &Vec<(String, TypeName)>, fs: &Vec<syntax::Function>, queued: &mut Vec<GenericInstantiation>) -> (r: Result<Vec<Expr>, Diagnostic>)
    ensures
        match args_problem(*args, 0, bindings_view(b@), fs@) {
            Some((m, l, c)) => r is Err && type_error(r->Err_0, m, l, c),
            None => {
                &&& r is Ok
                &&& r->Ok_0@.len() == args.len()
                &&& args_rewritten(*args, r->Ok_0@, 0, bindings_view(b@), fs@)
                &&& insts_view(final(queued)@) == dedup_append(insts_view(old(queued)@), args_insts(*args, 0, bindings_view(b@), fs@))
            },
        },
    decreases args, 0int,
{
    let ghost bv = bindings_view(b@);
    let ghost target = dedup_append(insts_view(queued@), args_insts(*args, 0, bv, fs@));
    let mut out: Vec<Expr> = Vec::new();
    let mut i: usize = 0;
    while i < args.len()
        invariant
            i <= args.len(),
            out.len() == i,
            bv == bindings_view(b@),
            args_problem(*args, 0, bv, fs@) == args_problem(*args, i as int, bv, fs@),
            forall|k: int| 0 <= k < i ==> expr_rewritten(#[trigger] args@[k], bv, fs@, out@[k]),
            dedup_append(insts_view(queued@), args_insts(*args, i as int, bv, fs@)) == target,
        decreases args.len() - i,
    {
        proof { assert(decreases_to!(args => args[i as int])); }
        let ghost q = insts_view(queued@);
        let x = rewrite_expr_generic_calls(&args[i], b, fs, queued)?;
        proof { lemma_dedup_append_concat(q, expr_insts(args@[i as int], bv, fs@), args_insts(*args, i + 1, bv, fs@)); }
        out.push(x);
        i = i + 1;
    }
    proof {
        lemma_args_rewritten(*args, out@, 0, bv, fs@);
        assert(args_insts(*args, i as int, bv, fs@) =~= Seq::empty());
    }
    Ok(out)
}

proof fn lemma_args_rewritten(args: Vec<Expr>, out: Seq<Expr>, i: int, b: Seq<(Seq<char>, TypeView)>, fs: Seq<syntax::Function>)
    requires
        0 <= i,
        out.len() == args.len(),
        forall|k: int| 0 <= k < args.len() ==> expr_rewritten(#[trigger] args[k], b, fs, out[k]),
    ensures
        args_rewritten(args, out, i, b, fs),
    decreases args.len() - i,
{
    if i < args.len() {
        lemma_args_rewritten(args, out, i + 1, b, fs);
    }
}

// ---------------------------------------------------------------------------
// Statements.

/// The first problem, in order, with the calls of generic functions in `s`.
pub open spec fn stmt_problem(s: Stmt, b: Seq<(Seq<char>, TypeView)>, fs: Seq<syntax::Function>) -> Option<(Seq<char>, usize, usize)>
    decreases s,
{
    match s {
        Stmt::Let { expr, .. } | Stmt::Print { expr, .. } | Stmt::Panic { expr, .. } | Stmt::Defer { expr, .. }
        | Stmt::Return { expr, .. } => expr_problem(expr, b, fs),
        Stmt::Assign { target, expr, .. } => match expr_problem(target, b, fs) {
            Some(p) => Some(p),
            None => expr_problem(expr, b, fs),
        },
        Stmt::If { cond, then_block, else_block, .. } => match expr_problem(cond, b, fs) {
            Some(p) => Some(p),
            None => match block_problem(then_block, 0, b, fs) {
                Some(p) => Some(p),
                None => match else_block {
                    Some(e) => block_problem(e, 0, b, fs),
                    None => None,
                },
            },
        },
        Stmt::While { cond, body, .. } => match expr_problem(cond, b, fs) {
            Some(p) => Some(p),
            None => block_problem(body, 0, b, fs),
        },
        Stmt::Match { expr, arms, .. } => match expr_problem(expr, b, fs) {
            Some(p) => Some(p),
            None => arms_problem(arms, 0, b, fs),
        },
        Stmt::Break { .. } | Stmt::Continue { .. } => None,
    }
}

/// `stmt_problem` for the statements from position `i` on.
pub open spec fn block_problem(block: Vec<Stmt>, i: int, b: Seq<(Seq<char>, TypeView)>, fs: Seq<syntax::Function>) -> Option<(Seq<char>, usize, usize)>
    decreases block, block.len() - i,
{
    if i < 0 || i >= block.len() {
        None
    } else {
        match stmt_problem(block[i], b, fs) {
            Some(p) => Some(p),
            None => block_problem(block, i + 1, b, fs),
        }
    }
}

/// `stmt_problem` for the bodies of the arms from position `i` on.
pub open spec fn arms_problem(arms: Vec<MatchArm>, i: int, b: Seq<(Seq<char>, TypeView)>, fs: Seq<syntax::Function>) -> Option<(Seq<char>, usize, usize)>
    decreases arms, arms.len() - i,
{
    if i < 0 || i >= arms.len() {
        None
    } else {
        match block_problem(arms[i].body, 0, b, fs) {
            Some(p) => Some(p),
            None => arms_problem(arms, i + 1, b, fs),
        }
    }
}

/// The instances that the calls of generic functions in `s` need, in order.
pub open spec fn stmt_insts(s: Stmt, b: Seq<(Seq<char>, TypeView)>, fs: Seq<syntax::Function>) -> Seq<(Seq<char>, Seq<TypeView>)>
    decreases s,
{
    match s {
        Stmt::Let { expr, .. } | Stmt::Print { expr, .. } | Stmt::Panic { expr, .. } | Stmt::Defer { expr, .. }
        | Stmt::Return { expr, .. } => expr_insts(expr, b, fs),
        Stmt::Assign { target, expr, .. } => expr_insts(target, b, fs) + expr_insts(expr, b, fs),
        Stmt::If { cond, then_block, else_block, .. } => expr_insts(cond, b, fs) + block_insts(then_block, 0, b, fs) + match else_block {
            Some(e) => block_insts(e, 0, b, fs),
            None => Seq::empty(),
        },
        Stmt::While { cond, body, .. } => expr_insts(cond, b, fs) + block_insts(body, 0, b, fs),
        Stmt::Match { expr, arms, .. } => expr_insts(expr, b, fs) + arms_insts(arms, 0, b, fs),
        Stmt::Break { .. } | Stmt::Continue { .. } => Seq::empty(),
    }
}

/// `stmt_insts` for the statements from position `i` on.
pub open spec fn block_insts(block: Vec<Stmt>, i: int, b: Seq<(Seq<char>, TypeView)>, fs: Seq<syntax::Function>) -> Seq<(Seq<char>, Seq<TypeView>)>
    decreases block, block.len() - i,
{
    if i < 0 || i >= block.len() {
        Seq::empty()
    } else {
        stmt_insts(block[i], b, fs) + block_insts(block, i + 1, b, fs)
    }
}

/// `stmt_insts` for the bodies of the arms from position `i` on.
pub open spec fn arms_insts(arms: Vec<MatchArm>, i: int, b: Seq<(Seq<char>, TypeView)>, fs: Seq<syntax::Function>) -> Seq<(Seq<char>, Seq<TypeView>)>
    decreases arms, arms.len() - i,
{
    if i < 0 || i >= arms.len() {
        Seq::empty()
    } else {
        block_insts(arms[i].body, 0, b, fs) + arms_insts(arms, i + 1, b, fs)
    }
}

/// `r` is `s` with its calls of generic functions redirected to their instances and the
/// type parameters bound in `b` substituted in its `let` types.
pub open spec fn stmt_rewritten(s: Stmt, b: Seq<(Seq<char>, TypeView)>, fs: Seq<syntax::Function>, r: Stmt) -> bool
    decreases s,
{
    match s {
        Stmt::Let { name, ty, expr, line, column } => {
            &&& r matches Stmt::Let { name: n2, ty: t2, expr: e2, line: l2, column: c2 }
            &&& n2 == name && tn_view(t2) == subst_v(tn_view(ty), b) && l2 == line && c2 == column
            &&& expr_rewritten(expr, b, fs, e2)
        },
        Stmt::Print { expr, line, column } => {
            &&& r matches Stmt::Print { expr: e2, line: l2, column: c2 }
            &&& l2 == line && c2 == column && expr_rewritten(expr, b, fs, e2)
        },
        Stmt::Panic { expr, line, column } => {
            &&& r matches Stmt::Panic { expr: e2, line: l2, column: c2 }
            &&& l2 == line && c2 == column && expr_rewritten(expr, b, fs, e2)
        },
        Stmt::Defer { expr, line, column } => {
            &&& r matches Stmt::Defer { expr: e2, line: l2, column: c2 }
            &&& l2 == line && c2 == column && expr_rewritten(expr, b, fs, e2)
        },
        Stmt::Return { expr, line, column } => {
            &&& r matches Stmt::Return { expr: e2, line: l2, column: c2 }
            &&& l2 == line && c2 == column && expr_rewritten(expr, b, fs, e2)
        },
        Stmt::Assign { target, expr, line, column } => {
            &&& r matches Stmt::Assign { target: t2, expr: e2, line: l2, column: c2 }
            &&& l2 == line && c2 == column && expr_rewritten(target, b, fs, t2) && expr_rewritten(expr, b, fs, e2)
        },
        Stmt::If { cond, then_block, else_block, line, column } => {
            &&& r matches Stmt::If { cond: c2, then_block: t2, else_block: e2, line: l2, column: col2 }
            &&& l2 == line && col2 == column && expr_rewritten(cond, b, fs, c2)
            &&& t2@.len() == then_block.len() && block_rewritten(then_block, t2@, 0, b, fs)
            &&& match (else_block, e2) {
                (Some(x), Some(y)) => y@.len() == x.len() && block_rewritten(x, y@, 0, b, fs),
                (None, None) => true,
                _ => false,
            }
        },
        Stmt::While { cond, body, line, column } => {
            &&& r matches Stmt::While { cond: c2, body: b2, line: l2, column: col2 }
            &&& l2 == line && col2 == column && expr_rewritten(cond, b, fs, c2)
            &&& b2@.len() == body.len() && block_rewritten(body, b2@, 0, b, fs)
        },
        Stmt::Match { expr, arms, line, column } => {
            &&& r matches Stmt::Match { expr: e2, arms: a2, line: l2, column: c2 }
            &&& l2 == line && c2 == column && expr_rewritten(expr, b, fs, e2)
            &&& a2@.len() == arms.len() && arms_rewritten(arms, a2@, 0, b, fs)
        },
        Stmt::Break { .. } | Stmt::Continue { .. } => r == s,
    }
}

/// `stmt_rewritten` for the statements from position `i` on, against the same positions
/// of `out`.
pub open spec fn block_rewritten(block: Vec<Stmt>, out: Seq<Stmt>, i: int, b: Seq<(Seq<char>, TypeView)>, fs: Seq<syntax::Function>) -> bool
    decreases block, block.len() - i,
{
    if i < 0 || i >= block.len() {
        true
    } else {
        &&& i < out.len()
        &&& stmt_rewritten(block[i], b, fs, out[i])
        &&& block_rewritten(block, out, i + 1, b, fs)
    }
}

/// The arms from position `i` on are rewritten as the same positions of `out`: the same
/// variants and bindings, their bodies rewritten.
pub open spec fn arms_rewritten(arms: Vec<MatchArm>, out: Seq<MatchArm>, i: int, b: Seq<(Seq<char>, TypeView)>, fs: Seq<syntax::Function>) -> bool
    decreases arms, arms.len() - i,
{
    if i < 0 || i >= arms.len() {
        true
    } else {
        &&& i < out.len()
        &&& out[i].variant == arms[i].variant && out[i].bindings@ == arms[i].bindings@ && out[i].is_named == arms[i].is_named
        &&& out[i].line == arms[i].line && out[i].column == arms[i].column
        &&& out[i].body@.len() == arms[i].body.len() && block_rewritten(arms[i].body, out[i].body@, 0, b, fs)
        &&& arms_rewritten(arms, out, i + 1, b, fs)
    }
}

proof fn lemma_block_rewritten(block: Vec<Stmt>, out: Seq<Stmt>, i: int, b: Seq<(Seq<char>, TypeView)>, fs: Seq<syntax::Function>)
    requires
        0 <= i,
        out.len() == block.len(),
        forall|k: int| 0 <= k < block.len() ==> stmt_rewritten(#[trigger] block[k], b, fs, out[k]),
    ensures
        block_rewritten(block, out, i, b, fs),
    decreases block.len() - i,
{
    if i < block.len() {
        lemma_block_rewritten(block, out, i + 1, b, fs);
    }
}

proof fn lemma_arms_rewritten(arms: Vec<MatchArm>, out: Seq<MatchArm>, i: int, b: Seq<(Seq<char>, TypeView)>, fs: Seq<syntax::Function>)
    requires
        0 <= i,
        out.len() == arms.len(),
        forall|k: int| 0 <= k < arms.len() ==> {
            &&& (#[trigger] out[k]).variant == arms[k].variant && out[k].bindings@ == arms[k].bindings@ && out[k].is_named == arms[k].is_named
            &&& out[k].line == arms[k].line && out[k].column == arms[k].column
            &&& out[k].body@.len() == arms[k].body.len() && block_rewritten(arms[k].body, out[k].body@, 0, b, fs)
        },
    ensures
        arms_rewritten(arms, out, i, b, fs),
    decreases arms.len() - i,
{
    if i < arms.len() {
        lemma_arms_rewritten(arms, out, i + 1, b, fs);
    }
}

/// Rewrites the calls of generic functions in `s` (type parameters bound as in `b`),
/// queuing the instances they need.
pub fn rewrite_stmt_generic_calls(s: &Stmt, b: &Vec<(String, TypeName)>, fs: &Vec<syntax::Function>, queued: &mut Vec<GenericInstantiation>) -> (r: Result<Stmt, Diagnostic>)
    ensures
        match stmt_problem(*s, bindings_view(b@), fs@) {
            Some((m, l, c)) => r is Err && type_error(r->Err_0, m, l, c),
            None => {
                &&& r is Ok
                &&& stmt_rewritten(*s, bindings_view(b@), fs@, r->Ok_0)
                &&& insts_view(final(queued)@) == dedup_append(insts_view(old(queued)@), stmt_insts(*s, bindings_view(b@), fs@))
            },
        },
    decreases s,
{
    let ghost bv = bindings_view(b@);
    let ghost q0 = insts_view(queued@);
    match s {
        Stmt::Let { name, ty, expr, line, column } => {
            let e = rewrite_expr_generic_calls(expr, b, fs, queued)?;
            Ok(Stmt::Let { name: name.clone(), ty: substitute_type_name(ty, b), expr: e, line: *line, column: *column })
        },
        Stmt::Print { expr, line, column } => {
            let e = rewrite_expr_generic_calls(expr, b, fs, queued)?;
            Ok(Stmt::Print { expr: e, line: *line, column: *column })
        },
        Stmt::Panic { expr, line, column } => {
            let e = rewrite_expr_generic_calls(expr, b, fs, queued)?;
            Ok(Stmt::Panic { expr: e, line: *line, column: *column })
        },
        Stmt::Defer { expr, line, column } => {
            let e = rewrite_expr_generic_calls(expr, b, fs, queued)?;
            Ok(Stmt::Defer { expr: e, line: *line, column: *column })
        },
        Stmt::Return { expr, line, column } => {
            let e = rewrite_expr_generic_calls(expr, b, fs, queued)?;
            Ok(Stmt::Return { expr: e, line: *line, column: *column })
        },
        Stmt::Assign { target, expr, line, column } => {
            let t = rewrite_expr_generic_calls(target, b, fs, queued)?;
            let e = rewrite_expr_generic_calls(expr, b, fs, queued)?;
            proof { lemma_dedup_append_concat(q0, expr_insts(*target, bv, fs@), expr_insts(*expr, bv, fs@)); }
            Ok(Stmt::Assign { target: t, expr: e, line: *line, column: *column })
        },
        Stmt::If { cond, then_block, else_block, line, column } => {
            let c = rewrite_expr_generic_calls(cond, b, fs, queued)?;
            let ghost q1 = insts_view(queued@);
            let t = rewrite_block_generic_calls(then_block, b, fs, queued)?;
            let ghost q2 = insts_view(queued@);
            let e = match else_block {
                Some(x) => Some(rewrite_block_generic_calls(x, b, fs, queued)?),
                None => None,
            };
            proof {
                let xs = expr_insts(*cond, bv, fs@);
                let ys = block_insts(*then_block, 0, bv, fs@);
                let zs = match else_block {
                    Some(x) => block_insts(*x, 0, bv, fs@),
                    None => Seq::empty(),
                };
                lemma_dedup_append_concat(q0, xs, ys);
                lemma_dedup_append_concat(q0, xs + ys, zs);
                if else_block is None {
                    assert(dedup_append(q2, zs) == q2);
                }
            }
            Ok(Stmt::If { cond: c, then_block: t, else_block: e, line: *line, column: *column })
        },
        Stmt::While { cond, body, line, column } => {
            let c = rewrite_expr_generic_calls(cond, b, fs, queued)?;
            let bd = rewrite_block_generic_calls(body, b, fs, queued)?;
            proof { lemma_dedup_append_concat(q0, expr_insts(*cond, bv, fs@), block_insts(*body, 0, bv, fs@)); }
            Ok(Stmt::While { cond: c, body: bd, line: *line, column: *column })
        },
        Stmt::Match { expr, arms, line, column } => {
            let e = rewrite_expr_generic_calls(expr, b, fs, queued)?;
            let a = rewrite_arms_generic_calls(arms, b, fs, queued)?;
            proof { lemma_dedup_append_concat(q0, expr_insts(*expr, bv, fs@), arms_insts(*arms, 0, bv, fs@)); }
            Ok(Stmt::Match { expr: e, arms: a, line: *line, column: *column })
        },
        Stmt::Break { line, column } => Ok(Stmt::Break { line: *line, column: *column }),
        Stmt::Continue { line, column } => Ok(Stmt::Continue { line: *line, column: *column }),
    }
}

/// Rewrites the calls of generic functions in each statement of `block`, in order.
pub fn rewrite_block_generic_calls(block: &Vec<Stmt>, b: &Vec<(String, TypeName)>, fs: &Vec<syntax::Function>, queued: &mut Vec<GenericInstantiation>) -> (r: Result<Vec<Stmt>, Diagnostic>)
    ensures
        match block_problem(*block, 0, bindings_view(b@), fs@) {
            Some((m, l, c)) => r is Err && type_error(r->Err_0, m, l, c),
            None => {
                &&& r is Ok
                &&& r->Ok_0@.len() == block.len()
                &&& block_rewritten(*block, r->Ok_0@, 0, bindings_view(b@), fs@)
                &&& insts_view(final(queued)@) == dedup_append(insts_view(old(queued)@), block_insts(*block, 0, bindings_view(b@), fs@))
            },
        },
    decreases block, 0int,
{
    let ghost bv = bindings_view(b@);
    let ghost target = dedup_append(insts_view(queued@), block_insts(*block, 0, bv, fs@));
    let mut out: Vec<Stmt> = Vec::new();
    let mut i: usize = 0;
    while i < block.len()
        invariant
            i <= block.len(),
            out.len() == i,
            bv == bindings_view(b@),
            block_problem(*block, 0, bv, fs@) == block_problem(*block, i as int, bv, fs@),
            forall|k: int| 0 <= k < i ==> stmt_rewritten(#[trigger] block@[k], bv, fs@, out@[k]),
            dedup_append(insts_view(queued@), block_insts(*block, i as int, bv, fs@)) == target,
        decreases block.len() - i,
    {
        proof { assert(decreases_to!(block => block[i as int])); }
        let ghost q = insts_view(queued@);
        let x = rewrite_stmt_generic_calls(&block[i], b, fs, queued)?;
        proof { lemma_dedup_append_concat(q, stmt_insts(block@[i as int], bv, fs@), block_insts(*block, i + 1, bv, fs@)); }
        out.push(x);
        i = i + 1;
    }
    proof {
        lemma_block_rewritten(*block, out@, 0, bv, fs@);
        assert(block_insts(*block, i as int, bv, fs@) =~= Seq::empty());
    }
    Ok(out)
}

/// Rewrites the calls of generic functions in the body of each arm, in order.
fn rewrite_arms_generic_calls(arms: &Vec<MatchArm>, b: &Vec<(String, TypeName)>, fs: &Vec<syntax::Function>, queued: &mut Vec<GenericInstantiation>) -> (r: Result<Vec<MatchArm>, Diagnostic>)
    ensures
        match arms_problem(*arms, 0, bindings_view(b@), fs@) {
            Some((m, l, c)) => r is Err && type_error(r->Err_0, m, l, c),
            None => {
                &&& r is Ok
                &&& r->Ok_0@.len() == arms.len()
                &&& arms_rewritten(*arms, r->Ok_0@, 0, bindings_view(b@), fs@)
                &&& insts_view(final(queued)@) == dedup_append(insts_view(old(queued)@), arms_insts(*arms, 0, bindings_view(b@), fs@))
            },
        },
    decreases arms, 0int,
{
    let ghost bv = bindings_view(b@);
    let ghost target = dedup_append(insts_view(queued@), arms_insts(*arms, 0, bv, fs@));
    let mut out: Vec<MatchArm> = Vec::new();
    let mut i: usize = 0;
    while i < arms.len()
        invariant
            i <= arms.len(),
            out.len() == i,
            bv == bindings_view(b@),
            arms_problem(*arms, 0, bv, fs@) == arms_problem(*arms, i as int, bv, fs@),
            forall|k: int| 0 <= k < i ==> {
                &&& (#[trigger] out@[k]).variant == arms@[k].variant && out@[k].bindings@ == arms@[k].bindings@ && out@[k].is_named == arms@[k].is_named
                &&& out@[k].line == arms@[k].line && out@[k].column == arms@[k].column
                &&& out@[k].body@.len() == arms@[k].body.len() && block_rewritten(arms@[k].body, out@[k].body@, 0, bv, fs@)
            },
            dedup_append(insts_view(queued@), arms_insts(*arms, i as int, bv, fs@)) == target,
        decreases arms.len() - i,
    {
        proof { assert(decreases_to!(arms => arms[i as int])); }
        let ghost q = insts_view(queued@);
        let arm = &arms[i];
        let body = rewrite_block_generic_calls(&arm.body, b, fs, queued)?;
        proof { lemma_dedup_append_concat(q, block_insts(arms@[i as int].body, 0, bv, fs@), arms_insts(*arms, i + 1, bv, fs@)); }
        out.push(MatchArm {
            variant: arm.variant.clone(),
            bindings: crate::lower_stmt::clone_strings(&arm.bindings),
            is_named: arm.is_named,
            body,
            line: arm.line,
            column: arm.column,
        });
        i = i + 1;
    }
    proof {
        lemma_arms_rewritten(*arms, out@, 0, bv, fs@);
        assert(arms_insts(*arms, i as int, bv, fs@) =~= Seq::empty());
    }
    Ok(out)
}

// ---------------------------------------------------------------------------
// Instances that can be emitted.

/// `x` names a generic function of `fs` and gives it one type argument per type parameter.
pub open spec fn inst_valid(fs: Seq<syntax::Function>, x: (Seq<char>, Seq<TypeView>)) -> bool {
    &&& generic_index(fs, x.0) is Some
    &&& x.1.len() == fs[generic_index(fs, x.0)->0].type_params.len()
}

/// Every instance of `q` can be emitted.
pub open spec fn insts_valid(fs: Seq<syntax::Function>, q: Seq<(Seq<char>, Seq<TypeView>)>) -> bool {
    forall|i: int| 0 <= i < q.len() ==> inst_valid(fs, #[trigger] q[i])
}

proof fn lemma_insts_valid_concat(fs: Seq<syntax::Function>, xs: Seq<(Seq<char>, Seq<TypeView>)>, ys: Seq<(Seq<char>, Seq<TypeView>)>)
    requires
        insts_valid(fs, xs),
        insts_valid(fs, ys),
    ensures
        insts_valid(fs, xs + ys),
{
    assert forall|i: int| 0 <= i < (xs + ys).len() implies inst_valid(fs, #[trigger] (xs + ys)[i]) by {
        if i < xs.len() {
            assert((xs + ys)[i] == xs[i]);
        } else {
            assert((xs + ys)[i] == ys[i - xs.len()]);
        }
    }
}

/// Appending keeps what was queued, in place, and adds only what was appended.
pub proof fn lemma_dedup_append_extends(fs: Seq<syntax::Function>, q: Seq<(Seq<char>, Seq<TypeView>)>, xs: Seq<(Seq<char>, Seq<TypeView>)>)
    ensures
        dedup_append(q, xs).len() >= q.len(),
        dedup_append(q, xs).take(q.len() as int) == q,
        insts_valid(fs, q) && insts_valid(fs, xs) ==> insts_valid(fs, dedup_append(q, xs)),
    decreases xs.len(),
{
    if xs.len() > 0 {
        let q2 = if q.contains(xs[0]) { q } else { q.push(xs[0]) };
        lemma_dedup_append_extends(fs, q2, xs.drop_first());
        assert(q2.take(q.len() as int) =~= q);
        assert(dedup_append(q, xs).take(q.len() as int) =~= dedup_append(q2, xs.drop_first()).take(q2.len() as int).take(q.len() as int));
        if insts_valid(fs, q) && insts_valid(fs, xs) {
            assert(insts_valid(fs, xs.drop_first())) by {
                assert forall|i: int| 0 <= i < xs.drop_first().len() implies inst_valid(fs, #[trigger] xs.drop_first()[i]) by {
                    assert(xs.drop_first()[i] == xs[i + 1]);
                }
            }
            assert(insts_valid(fs, q2)) by {
                assert forall|i: int| 0 <= i < q2.len() implies inst_valid(fs, #[trigger] q2[i]) by {
                    if i < q.len() {
                        assert(q2[i] == q[i]);
                    } else {
                        assert(q2[i] == xs[0]);
                    }
                }
            }
        }
    }
}

/// The calls of a rewritable expression need instances that can be emitted.
pub proof fn lemma_expr_insts_valid(e: Expr, b: Seq<(Seq<char>, TypeView)>, fs: Seq<syntax::Function>)
    requires
        expr_problem(e, b, fs) is None,
    ensures
        insts_valid(fs, expr_insts(e, b, fs)),
    decreases e,
{
    match e {
        Expr::Call { name, type_args, args, .. } => {
            lemma_args_insts_valid(args, 0, b, fs);
            let own = if generic_index(fs, name@) is Some { seq![(name@, subst_vs(tn_views(type_args, 0), 0, b))] } else { Seq::empty() };
            assert(insts_valid(fs, own)) by {
                if generic_index(fs, name@) is Some {
                    assert(own[0] == (name@, subst_vs(tn_views(type_args, 0), 0, b)));
                }
            }
            lemma_insts_valid_concat(fs, args_insts(args, 0, b, fs), own);
        },
        Expr::BinaryAdd { lhs, rhs, .. } | Expr::BinaryCompare { lhs, rhs, .. } | Expr::BinaryLogic { lhs, rhs, .. } => {
            lemma_expr_insts_valid(*lhs, b, fs);
            lemma_expr_insts_valid(*rhs, b, fs);
            lemma_insts_valid_concat(fs, expr_insts(*lhs, b, fs), expr_insts(*rhs, b, fs));
        },
        Expr::Unary { expr, .. } => lemma_expr_insts_valid(*expr, b, fs),
        Expr::TupleLiteral { elements, .. } => lemma_args_insts_valid(elements, 0, b, fs),
        Expr::ArrayLiteral { elements, .. } => lemma_args_insts_valid(elements, 0, b, fs),
        Expr::Cast { expr, .. } => lemma_expr_insts_valid(*expr, b, fs),
        _ => {},
    }
}

proof fn lemma_args_insts_valid(args: Vec<Expr>, i: int, b: Seq<(Seq<char>, TypeView)>, fs: Seq<syntax::Function>)
    requires
        args_problem(args, i, b, fs) is None,
    ensures
        insts_valid(fs, args_insts(args, i, b, fs)),
    decreases args, args.len() - i,
{
    if 0 <= i < args.len() {
        lemma_expr_insts_valid(args[i], b, fs);
        lemma_args_insts_valid(args, i + 1, b, fs);
        lemma_insts_valid_concat(fs, expr_insts(args[i], b, fs), args_insts(args, i + 1, b, fs));
    }
}

/// The calls of a rewritable statement need instances that can be emitted.
pub proof fn lemma_stmt_insts_valid(s: Stmt, b: Seq<(Seq<char>, TypeView)>, fs: Seq<syntax::Function>)
    requires
        stmt_problem(s, b, fs) is None,
    ensures
        insts_valid(fs, stmt_insts(s, b, fs)),
    decreases s,
{
    match s {
        Stmt::Let { expr, .. } | Stmt::Print { expr, .. } | Stmt::Panic { expr, .. } | Stmt::Defer { expr, .. }
        | Stmt::Return { expr, .. } => lemma_expr_insts_valid(expr, b, fs),
        Stmt::Assign { target, expr, .. } => {
            lemma_expr_insts_valid(target, b, fs);
            lemma_expr_insts_valid(expr, b, fs);
            lemma_insts_valid_concat(fs, expr_insts(target, b, fs), expr_insts(expr, b, fs));
        },
        Stmt::If { cond, then_block, else_block, .. } => {
            lemma_expr_insts_valid(cond, b, fs);
            lemma_block_insts_valid(then_block, 0, b, fs);
            lemma_insts_valid_concat(fs, expr_insts(cond, b, fs), block_insts(then_block, 0, b, fs));
            let rest = match else_block {
                Some(x) => block_insts(x, 0, b, fs),
                None => Seq::empty(),
            };
            if let Some(x) = else_block {
                lemma_block_insts_valid(x, 0, b, fs);
            }
            lemma_insts_valid_concat(fs, expr_insts(cond, b, fs) + block_insts(then_block, 0, b, fs), rest);
        },
        Stmt::While { cond, body, .. } => {
            lemma_expr_insts_valid(cond, b, fs);
            lemma_block_insts_valid(body, 0, b, fs);
            lemma_insts_valid_concat(fs, expr_insts(cond, b, fs), block_insts(body, 0, b, fs));
        },
        Stmt::Match { expr, arms, .. } => {
            lemma_expr_insts_valid(expr, b, fs);
            lemma_arms_insts_valid(arms, 0, b, fs);
            lemma_insts_valid_concat(fs, expr_insts(expr, b, fs), arms_insts(arms, 0, b, fs));
        },
        _ => {},
    }
}

/// The calls of a rewritable block need instances that can be emitted.
pub proof fn lemma_block_insts_valid(block: Vec<Stmt>, i: int, b: Seq<(Seq<char>, TypeView)>, fs: Seq<syntax::Function>)
    requires
        block_problem(block, i, b, fs) is None,
    ensures
        insts_valid(fs, block_insts(block, i, b, fs)),
    decreases block, block.len() - i,
{
    if 0 <= i < block.len() {
        lemma_stmt_insts_valid(block[i], b, fs);
        lemma_block_insts_valid(block, i + 1, b, fs);
        lemma_insts_valid_concat(fs, stmt_insts(block[i], b, fs), block_insts(block, i + 1, b, fs));
    }
}

proof fn lemma_arms_insts_valid(arms: Vec<MatchArm>, i: int, b: Seq<(Seq<char>, TypeView)>, fs: Seq<syntax::Function>)
    requires
        arms_problem(arms, i, b, fs) is None,
    ensures
        insts_valid(fs, arms_insts(arms, i, b, fs)),
    decreases arms, arms.len() - i,
{
    if 0 <= i < arms.len() {
        lemma_block_insts_valid(arms[i].body, 0, b, fs);
        lemma_arms_insts_valid(arms, i + 1, b, fs);
        lemma_insts_valid_concat(fs, block_insts(arms[i].body, 0, b, fs), arms_insts(arms, i + 1, b, fs));
    }
}

// ---------------------------------------------------------------------------
// Declarations of generic functions.

/// Whether the type parameter `name` occurs in `t`.
pub open spec fn mentions(t: TypeView, name: Seq<char>) -> bool
    decreases t,
{
    match t {
        TypeView::Named(n, args) => if args.len() == 0 { n == name } else { mentions_any(args, name) },
        TypeView::Ptr(inner) | TypeView::MutPtr(inner) | TypeView::MutRef(inner) | TypeView::Slice(inner)
        | TypeView::MutSlice(inner) | TypeView::Option(inner) => mentions(*inner, name),
        TypeView::LifetimeSlice(_, inner) | TypeView::LifetimeMutSlice(_, inner) => mentions(*inner, name),
        TypeView::Array(inner, _) => mentions(*inner, name),
        TypeView::Result(a, c) | TypeView::MapOf(a, c) => mentions(*a, name) || mentions(*c, name),
        TypeView::Tuple(elements) => mentions_any(elements, name),
        TypeView::Fn(params, ret) => mentions_any(params, name) || mentions(*ret, name),
        _ => false,
    }
}

/// Whether the type parameter `name` occurs in one of `ts`.
pub open spec fn mentions_any(ts: Seq<TypeView>, name: Seq<char>) -> bool
    decreases ts,
{
    ts.len() > 0 && (mentions(ts[0], name) || mentions_any(ts.drop_first(), name))
}

/// Decides whether the type parameter `name` occurs in `t`.
pub fn type_mentions(t: &TypeName, name: &str) -> (r: bool)
    ensures
        r == mentions(tn_view(*t), name@),
    decreases t,
{
    match t {
        TypeName::Named(n, args) => {
            if args.len() == 0 {
                proof { lemma_tn_views(*args, 0); }
                crate::text::str_eq(n.as_str(), name)
            } else {
                types_mention(args, 0, name)
            }
        },
        TypeName::Ptr(inner) | TypeName::MutPtr(inner) | TypeName::MutRef(inner) | TypeName::Slice(inner)
        | TypeName::MutSlice(inner) | TypeName::Option(inner) => type_mentions(inner, name),
        TypeName::LifetimeSlice(_, inner) | TypeName::LifetimeMutSlice(_, inner) => type_mentions(inner, name),
        TypeName::Array(inner, _) => type_mentions(inner, name),
        TypeName::Result(a, c) | TypeName::MapOf(a, c) => type_mentions(a, name) || type_mentions(c, name),
        TypeName::Tuple(elements) => types_mention(elements, 0, name),
        TypeName::Fn(params, ret) => types_mention(params, 0, name) || type_mentions(ret, name),
        _ => false,
    }
}

/// Decides whether the type parameter `name` occurs in one of `ts` from position `i` on.
fn types_mention(ts: &Vec<TypeName>, i: usize, name: &str) -> (r: bool)
    requires
        i <= ts.len(),
    ensures
        r == mentions_any(tn_views(*ts, i as int), name@),
    decreases ts, ts.len() - i,
{
    proof { lemma_tn_views(*ts, i as int); }
    if i >= ts.len() {
        return false;
    }
    proof {
        assert(decreases_to!(ts => ts[i as int]));
        assert(tn_views(*ts, i as int).drop_first() =~= tn_views(*ts, i + 1));
    }
    type_mentions(&ts[i], name) || types_mention(ts, i + 1, name)
}

/// Whether the type parameter `name` occurs in the type of a parameter from position `k` on.
pub open spec fn params_mention(params: Vec<syntax::Param>, k: int, name: Seq<char>) -> bool
    decreases params.len() - k,
{
    0 <= k < params.len() && (mentions(tn_view(params[k].ty), name) || params_mention(params, k + 1, name))
}

/// The first type parameter of `f` from position `j` on that neither a parameter type nor
/// the return type mentions.
pub open spec fn unconstrained_param(f: syntax::Function, j: int) -> Option<Seq<char>>
    decreases f.type_params.len() - j,
{
    if j < 0 || j >= f.type_params.len() {
        None
    } else if !params_mention(f.params, 0, f.type_params[j]@) && !mentions(tn_view(f.return_ty), f.type_params[j]@) {
        Some(f.type_params[j]@)
    } else {
        unconstrained_param(f, j + 1)
    }
}

/// The first problem with the function declarations from position `i` on: a name
/// declared twice, or a generic function with a type parameter that its signature does
/// not mention.
pub open spec fn decl_problem(fs: Vec<syntax::Function>, i: int) -> Option<(Seq<char>, usize, usize)>
    decreases fs.len() - i,
{
    if i < 0 || i >= fs.len() {
        None
    } else if exists|j: int| 0 <= j < i && #[trigger] fs[j].name@ == fs[i].name@ {
        Some(("duplicate function "@ + debug_quoted(fs[i].name@), fs[i].line, fs[i].column))
    } else if fs[i].type_params.len() > 0 && unconstrained_param(fs[i], 0) is Some {
        Some(("generic function "@ + debug_quoted(fs[i].name@) + " has unconstrained type parameter "@
            + debug_quoted(unconstrained_param(fs[i], 0)->0), fs[i].line, fs[i].column))
    } else {
        decl_problem(fs, i + 1)
    }
}

fn params_mention_check(params: &Vec<syntax::Param>, name: &str) -> (r: bool)
    ensures
        r == params_mention(*params, 0, name@),
{
    let mut k: usize = 0;
    while k < params.len()
        invariant
            k <= params.len(),
            params_mention(*params, 0, name@) == params_mention(*params, k as int, name@),
        decreases params.len() - k,
    {
        if type_mentions(&params[k].ty, name) {
            return true;
        }
        k = k + 1;
    }
    false
}

fn find_unconstrained(f: &syntax::Function) -> (r: Option<usize>)
    ensures
        match unconstrained_param(*f, 0) {
            None => r is None,
            Some(n) => r is Some && r->0 < f.type_params.len() && f.type_params@[r->0 as int]@ == n,
        },
{
    let mut j: usize = 0;
    while j < f.type_params.len()
        invariant
            j <= f.type_params.len(),
            unconstrained_param(*f, 0) == unconstrained_param(*f, j as int),
        decreases f.type_params.len() - j,
    {
        let name = f.type_params[j].as_str();
        if !params_mention_check(&f.params, name) && !type_mentions(&f.return_ty, name) {
            return Some(j);
        }
        j = j + 1;
    }
    None
}

/// Checks the function declarations: no name declared twice, and every type parameter of
/// a generic function mentioned by its signature.
pub fn check_function_decls(fs: &Vec<syntax::Function>) -> (r: Result<(), Diagnostic>)
    ensures
        match decl_problem(*fs, 0) {
            None => r is Ok,
            Some((m, l, c)) => r is Err && type_error(r->Err_0, m, l, c),
        },
{
    let mut i: usize = 0;
    while i < fs.len()
        invariant
            i <= fs.len(),
            decl_problem(*fs, 0) == decl_problem(*fs, i as int),
        decreases fs.len() - i,
    {
        let f = &fs[i];
        let mut j: usize = 0;
        while j < i
            invariant
                j <= i,
                i < fs.len(),
                *f == fs@[i as int],
                decl_problem(*fs, 0) == decl_problem(*fs, i as int),
                forall|m: int| 0 <= m < j ==> fs@[m].name@ != f.name@,
            decreases i - j,
        {
            if crate::text::str_eq(fs[j].name.as_str(), f.name.as_str()) {
                let m = quoted_message("duplicate function ", f.name.as_str(), "");
                proof {
                    reveal_strlit("");
                    assert(m@ =~= "duplicate function "@ + debug_quoted(f.name@));
                    assert(fs@[j as int].name@ == fs@[i as int].name@);
                }
                return Err(type_error_at(m, f.line, f.column));
            }
            j = j + 1;
        }
        if f.type_params.len() > 0 {
            if let Some(k) = find_unconstrained(f) {
                let m = crate::render::concat(quoted_message("generic function ", f.name.as_str(), " has unconstrained type parameter "),
                    crate::render::quote(f.type_params[k].as_str()).as_str());
                return Err(type_error_at(m, f.line, f.column));
            }
        }
        i = i + 1;
    }
    Ok(())
}

// ---------------------------------------------------------------------------
// Functions and instances.

/// `r` is `f` emitted under `name`: not generic, the type parameters bound in `b`
/// substituted in its signature, the calls of generic functions in its body redirected.
#[verifier::opaque]
pub open spec fn fn_rewritten(f: syntax::Function, b: Seq<(Seq<char>, TypeView)>, fs: Seq<syntax::Function>, name: Seq<char>, r: syntax::Function) -> bool {
    &&& r.name@ == name && r.source_name == f.source_name && r.path == f.path && r.type_params@.len() == 0
    &&& r.params@.len() == f.params.len()
    &&& forall|k: int| 0 <= k < f.params.len() ==> {
        &&& (#[trigger] r.params@[k]).name == f.params[k].name
        &&& tn_view(r.params@[k].ty) == subst_v(tn_view(f.params[k].ty), b)
        &&& r.params@[k].line == f.params[k].line && r.params@[k].column == f.params[k].column
    }
    &&& tn_view(r.return_ty) == subst_v(tn_view(f.return_ty), b)
    &&& r.body@.len() == f.body.len() && block_rewritten(f.body, r.body@, 0, b, fs)
    &&& r.is_const == f.is_const && r.is_async == f.is_async && r.is_extern == f.is_extern
    &&& r.extern_abi == f.extern_abi && r.extern_library == f.extern_library
    &&& r.line == f.line && r.column == f.column
}

/// The bindings of the type parameters of `f` to the type arguments `args`.
pub open spec fn inst_bindings(f: syntax::Function, args: Seq<TypeView>) -> Seq<(Seq<char>, TypeView)> {
    Seq::new(f.type_params@.len(), |i: int| (f.type_params@[i]@, args[i]))
}

/// `r` is the instance `x` of a generic function of `fs`.
pub open spec fn instance_emitted(fs: Seq<syntax::Function>, x: (Seq<char>, Seq<TypeView>), r: syntax::Function) -> bool {
    let g = generic_index(fs, x.0)->0;
    fn_rewritten(fs[g], inst_bindings(fs[g], x.1), fs, instance_name(x.0, x.1), r)
}

fn clone_opt_text(s: &Option<String>) -> (r: Option<String>)
    ensures
        r == *s,
{
    match s {
        Some(v) => Some(v.clone()),
        None => None,
    }
}

/// Emits `f` under `name`, its type parameters bound as in `b`.
fn rewrite_function(f: &syntax::Function, b: &Vec<(String, TypeName)>, fs: &Vec<syntax::Function>, queued: &mut Vec<GenericInstantiation>, name: String) -> (r: Result<syntax::Function, Diagnostic>)
    ensures
        match block_problem(f.body, 0, bindings_view(b@), fs@) {
            Some((m, l, c)) => r is Err && type_error(r->Err_0, m, l, c),
            None => {
                &&& r is Ok
                &&& fn_rewritten(*f, bindings_view(b@), fs@, name@, r->Ok_0)
                &&& insts_view(final(queued)@) == dedup_append(insts_view(old(queued)@), block_insts(f.body, 0, bindings_view(b@), fs@))
            },
        },
{
    let ghost bv = bindings_view(b@);
    let mut params: Vec<syntax::Param> = Vec::new();
    let mut k: usize = 0;
    while k < f.params.len()
        invariant
            k <= f.params.len(),
            params.len() == k,
            bv == bindings_view(b@),
            forall|j: int| 0 <= j < k ==> {
                &&& (#[trigger] params@[j]).name == f.params@[j].name
                &&& tn_view(params@[j].ty) == subst_v(tn_view(f.params@[j].ty), bv)
                &&& params@[j].line == f.params@[j].line && params@[j].column == f.params@[j].column
            },
        decreases f.params.len() - k,
    {
        let p = &f.params[k];
        params.push(syntax::Param { name: p.name.clone(), ty: substitute_type_name(&p.ty, b), line: p.line, column: p.column });
        k = k + 1;
    }
    let body = rewrite_block_generic_calls(&f.body, b, fs, queued)?;
    proof { reveal(fn_rewritten); }
    Ok(syntax::Function {
        name,
        source_name: f.source_name.clone(),
        path: f.path.clone(),
        type_params: Vec::new(),
        params,
        return_ty: substitute_type_name(&f.return_ty, b),
        body,
        is_const: f.is_const,
        is_async: f.is_async,
        is_extern: f.is_extern,
        extern_abi: clone_opt_text(&f.extern_abi),
        extern_library: clone_opt_text(&f.extern_library),
        line: f.line,
        column: f.column,
    })
}

pub fn generic_type_bindings(f: &syntax::Function, args: &Vec<TypeName>) -> (r: Vec<(String, TypeName)>)
    requires
        args.len() == f.type_params.len(),
    ensures
        bindings_view(r@) == inst_bindings(*f, tn_views(*args, 0)),
{
    proof { lemma_tn_views(*args, 0); }
    let mut out: Vec<(String, TypeName)> = Vec::new();
    let mut i: usize = 0;
    while i < args.len()
        invariant
            i <= args.len(),
            args.len() == f.type_params.len(),
            out.len() == i,
            tn_views(*args, 0).len() == args.len(),
            forall|k: int| 0 <= k < args.len() ==> #[trigger] tn_views(*args, 0)[k] == tn_view(args@[k]),
            forall|k: int| 0 <= k < i ==> (#[trigger] out@[k]).0@ == f.type_params@[k]@ && tn_view(out@[k].1) == tn_view(args@[k]),
        decreases args.len() - i,
    {
        out.push((f.type_params[i].clone(), clone_type_name(&args[i])));
        i = i + 1;
    }
    proof { assert(bindings_view(out@) =~= inst_bindings(*f, tn_views(*args, 0))); }
    out
}

// ---------------------------------------------------------------------------
// Programs.

/// How many instances may be emitted before expansion is refused.
pub const MAX_GENERIC_INSTANTIATIONS: usize = 256;

/// The concrete (not generic) functions among the first `n` of `fs`, in order.
pub open spec fn concrete_prefix(fs: Seq<syntax::Function>, n: int) -> Seq<syntax::Function>
    decreases n,
{
    if n <= 0 || n > fs.len() {
        Seq::empty()
    } else if fs[n - 1].type_params.len() == 0 {
        concrete_prefix(fs, n - 1).push(fs[n - 1])
    } else {
        concrete_prefix(fs, n - 1)
    }
}

/// The first problem, in order, in the bodies of the concrete functions from position `i` on.
pub open spec fn concrete_problem(cs: Vec<syntax::Function>, i: int, fs: Seq<syntax::Function>) -> Option<(Seq<char>, usize, usize)>
    decreases cs.len() - i,
{
    if i < 0 || i >= cs.len() {
        None
    } else if cs[i].type_params.len() == 0 && block_problem(cs[i].body, 0, Seq::empty(), fs) is Some {
        block_problem(cs[i].body, 0, Seq::empty(), fs)
    } else {
        concrete_problem(cs, i + 1, fs)
    }
}

/// The instances that the bodies of the concrete functions from position `i` on need, in order.
pub open spec fn concrete_insts(cs: Vec<syntax::Function>, i: int, fs: Seq<syntax::Function>) -> Seq<(Seq<char>, Seq<TypeView>)>
    decreases cs.len() - i,
{
    if i < 0 || i >= cs.len() {
        Seq::empty()
    } else if cs[i].type_params.len() == 0 {
        block_insts(cs[i].body, 0, Seq::empty(), fs) + concrete_insts(cs, i + 1, fs)
    } else {
        concrete_insts(cs, i + 1, fs)
    }
}

/// How emitting the queued instances `q` from position `k` on ends.
pub enum QueueEnd {
    /// Every instance emitted; the final queue.
    Done(Seq<(Seq<char>, Seq<TypeView>)>),
    /// A body failed to rewrite: the message and where.
    Problem(Seq<char>, usize, usize),
    /// Too many instances; the generic function being expanded.
    Limit(Seq<char>),
}

/// Emits the queued instances from position `k` on: each instance's body may queue more;
/// at most `MAX_GENERIC_INSTANTIATIONS` are emitted.
pub open spec fn process_queue(fs: Seq<syntax::Function>, q: Seq<(Seq<char>, Seq<TypeView>)>, k: int) -> QueueEnd
    decreases 256 - k,
{
    if k < 0 || k >= q.len() {
        QueueEnd::Done(q)
    } else if k >= 256 {
        QueueEnd::Limit(q[k].0)
    } else {
        let g = generic_index(fs, q[k].0)->0;
        let b = inst_bindings(fs[g], q[k].1);
        match block_problem(fs[g].body, 0, b, fs) {
            Some((m, l, c)) => QueueEnd::Problem(m, l, c),
            None => process_queue(fs, dedup_append(q, block_insts(fs[g].body, 0, b, fs)), k + 1),
        }
    }
}

/// `d` refuses to expand the generic function `name` any further.
pub open spec fn limit_error(d: Diagnostic, name: Seq<char>) -> bool {
    diag_fields(d, "type"@, "generic instantiation resource limit exceeded while expanding "@ + debug_quoted(name)
        + "; generic expansion is bounded to prevent runaway recursive instantiations"@,
        Some("generic_instantiation_limit"@), None, None, None)
}

/// A monomorphization outcome over sequences.
pub open spec fn mono_outcome(r: Result<(Vec<syntax::Function>, Vec<Stmt>), Diagnostic>) -> Result<(Seq<syntax::Function>, Seq<Stmt>), Diagnostic> {
    match r {
        Ok((fs, stmts)) => Ok((fs@, stmts@)),
        Err(d) => Err(d),
    }
}

/// `r` is the monomorphization of the functions `fns` and the top-level statements
/// `stmts`: the concrete functions and the top-level statements are rewritten, queuing
/// the instances their calls need; then the queued instances are emitted in order, each
/// possibly queuing more. The functions come out concrete ones first, then the instances.
pub open spec fn mono_parts_rel(fns: Vec<syntax::Function>, stmts: Vec<Stmt>, r: Result<(Seq<syntax::Function>, Seq<Stmt>), Diagnostic>) -> bool {
    let fs = fns@;
    let nb = Seq::<(Seq<char>, TypeView)>::empty();
    match concrete_problem(fns, 0, fs) {
        Some((m, l, c)) => r is Err && type_error(r->Err_0, m, l, c),
        None => match block_problem(stmts, 0, nb, fs) {
            Some((m, l, c)) => r is Err && type_error(r->Err_0, m, l, c),
            None => {
                let q0 = dedup_append(dedup_append(Seq::empty(), concrete_insts(fns, 0, fs)), block_insts(stmts, 0, nb, fs));
                match process_queue(fs, q0, 0) {
                    QueueEnd::Problem(m, l, c) => r is Err && type_error(r->Err_0, m, l, c),
                    QueueEnd::Limit(name) => r is Err && limit_error(r->Err_0, name),
                    QueueEnd::Done(q) => {
                        let cs = concrete_prefix(fs, fs.len() as int);
                        &&& r is Ok
                        &&& r->Ok_0.0.len() == cs.len() + q.len()
                        &&& forall|j: int| 0 <= j < cs.len() ==> fn_rewritten(cs[j], nb, fs, cs[j].name@, #[trigger] r->Ok_0.0[j])
                        &&& forall|k: int| 0 <= k < q.len() ==> instance_emitted(fs, q[k], #[trigger] r->Ok_0.0[cs.len() + k])
                        &&& r->Ok_0.1.len() == stmts.len() && block_rewritten(stmts, r->Ok_0.1, 0, nb, fs)
                    },
                }
            },
        },
    }
}

/// `r` monomorphizes `p` once its declarations are checked and its omitted type
/// arguments inferred (to the functions `fs2` and the top-level statements `st2`): the
/// generic functions first, stopping at an error; then the generic structs and enums.
pub open spec fn staged_rel(p: syntax::Program, fs2: Vec<syntax::Function>, st2: Vec<Stmt>, r: Result<syntax::Program, Diagnostic>) -> bool {
    ||| exists|d: Diagnostic| #[trigger] mono_parts_rel(fs2, st2, Err(d)) && r == Err::<syntax::Program, Diagnostic>(d)
    ||| exists|fs3: Vec<syntax::Function>, st3: Vec<Stmt>|
        #[trigger] mono_parts_rel(fs2, st2, Ok((fs3@, st3@))) && agg_rel(p, fs3, st3, r)
}

/// `r` is the monomorphization of `p`: the function declarations are checked; the type
/// arguments that calls of generic functions omit are inferred; then the generic
/// functions, and after them the generic structs and enums, are monomorphized.
pub open spec fn mono_rel(p: syntax::Program, r: Result<syntax::Program, Diagnostic>) -> bool {
    match decl_problem(p.functions, 0) {
        Some((m, l, c)) => r is Err && type_error(r->Err_0, m, l, c),
        None => match program_infer_problem(p.functions, p.stmts) {
            Some((m, l, c)) => r is Err && type_error(r->Err_0, m, l, c),
            None => exists|fs2: Vec<syntax::Function>, st2: Vec<Stmt>|
                #[trigger] program_inferred(p.functions, p.stmts, fs2@, st2@) && staged_rel(p, fs2, st2, r),
        },
    }
}

pub fn generic_instantiation_limit_diagnostic(name: &str) -> (d: Diagnostic)
    ensures
        limit_error(d, name@),
{
    let m = quoted_message("generic instantiation resource limit exceeded while expanding ", name,
        "; generic expansion is bounded to prevent runaway recursive instantiations");
    Diagnostic::new("type", m).with_code("generic_instantiation_limit")
}

/// Replaces every generic function, struct and enum of `program` by the instances that
/// its calls and types need.
pub fn monomorphize_program(program: &syntax::Program) -> (r: Result<syntax::Program, Diagnostic>)
    requires
        program_lowerable(*program),
    ensures
        mono_rel(*program, r),
        r is Ok ==> program_lowerable(r->Ok_0),
{
    check_function_decls(&program.functions)?;
    let (fs2, st2) = infer_generic_call_type_args(&program.functions, &program.stmts)?;
    proof { lemma_program_inferred_spans(program.functions, program.stmts, fs2, st2); }
    let parts = monomorphize_inferred(&fs2, &st2);
    let (fs3, st3) = match parts {
        Ok(x) => x,
        Err(d) => {
            let ghost gd = d;
            proof {
                assert(mono_parts_rel(fs2, st2, Err(gd)));
                assert(staged_rel(*program, fs2, st2, Err(gd)));
                assert(program_inferred(program.functions, program.stmts, fs2@, st2@));
            }
            return Err(d);
        },
    };
    let ghost gf = fs3;
    let ghost gs = st3;
    let r = monomorphize_aggregates(program, fs3, st3);
    proof {
        assert(mono_parts_rel(fs2, st2, Ok((gf@, gs@))));
        assert(staged_rel(*program, fs2, st2, r));
        assert(program_inferred(program.functions, program.stmts, fs2@, st2@));
        if r is Ok {
            let q0 = dedup_append(Seq::empty(), agg_all_insts(*program, gf, gs));
            match agg_queue(program.structs, program.enums, q0, 0) {
                QueueEnd::Done(q) => lemma_agg_lowerable(*program, gf, gs, q, r->Ok_0),
                _ => {},
            }
        }
    }
    r
}

/// Monomorphizes the functions `fs` and the top-level statements `top`, whose calls
/// give all their type arguments.
#[verifier::rlimit(60)]
fn monomorphize_inferred(fs: &Vec<syntax::Function>, top: &Vec<Stmt>) -> (r: Result<(Vec<syntax::Function>, Vec<Stmt>), Diagnostic>)
    requires
        forall|i: int| 0 <= i < fs.len() ==> block_spans_ok(#[trigger] fs[i].body, 0),
        block_spans_ok(*top, 0),
    ensures
        mono_parts_rel(*fs, *top, mono_outcome(r)),
        r is Ok ==> block_spans_ok(r->Ok_0.1, 0),
        r is Ok ==> forall|i: int| 0 <= i < r->Ok_0.0.len() ==> block_spans_ok(#[trigger] r->Ok_0.0[i].body, 0),
{
    let ghost gfs = fs@;
    let ghost nb = Seq::<(Seq<char>, TypeView)>::empty();
    let empty: Vec<(String, TypeName)> = Vec::new();
    proof { assert(bindings_view(empty@) =~= nb); }
    let mut queued: Vec<GenericInstantiation> = Vec::new();
    let mut out: Vec<syntax::Function> = Vec::new();
    let ghost target = dedup_append(Seq::empty(), concrete_insts(*fs, 0, gfs));
    proof {
        assert(insts_view(queued@) =~= Seq::<(Seq<char>, Seq<TypeView>)>::empty());
    }
    let mut i: usize = 0;
    while i < fs.len()
        invariant
            i <= fs.len(),
            gfs == fs@,
            bindings_view(empty@) == nb,
            nb == Seq::<(Seq<char>, TypeView)>::empty(),
            forall|j: int| 0 <= j < fs.len() ==> block_spans_ok(#[trigger] fs@[j].body, 0),
            forall|j: int| 0 <= j < out.len() ==> block_spans_ok(#[trigger] out@[j].body, 0),
            concrete_problem(*fs, 0, gfs) == concrete_problem(*fs, i as int, gfs),
            out@.len() == concrete_prefix(gfs, i as int).len(),
            forall|j: int| 0 <= j < out@.len() ==> fn_rewritten(concrete_prefix(gfs, i as int)[j], nb, gfs, concrete_prefix(gfs, i as int)[j].name@, #[trigger] out@[j]),
            dedup_append(insts_view(queued@), concrete_insts(*fs, i as int, gfs)) == target,
        decreases fs.len() - i,
    {
        let ghost q = insts_view(queued@);
        let ghost pre = concrete_prefix(gfs, i as int);
        if fs[i].type_params.len() == 0 {
            let f = match rewrite_function(&fs[i], &empty, fs, &mut queued, fs[i].name.clone()) {
                Ok(f) => f,
                Err(d) => {
                    proof {
                        assert(block_problem(fs@[i as int].body, 0, nb, gfs) is Some);
                        assert(concrete_problem(*fs, i as int, gfs) == block_problem(fs@[i as int].body, 0, nb, gfs));
                    }
                    return Err(d);
                },
            };
            proof {
                lemma_dedup_append_concat(q, block_insts(fs@[i as int].body, 0, nb, gfs), concrete_insts(*fs, i + 1, gfs));
                lemma_fn_rewritten_spans(fs@[i as int], nb, gfs, fs@[i as int].name@, f);
            }
            out.push(f);
            proof {
                assert(concrete_prefix(gfs, i + 1) == pre.push(fs@[i as int]));
                assert forall|j: int| 0 <= j < out@.len() implies fn_rewritten(concrete_prefix(gfs, i + 1)[j], nb, gfs, concrete_prefix(gfs, i + 1)[j].name@, #[trigger] out@[j]) by {
                    if j < pre.len() {
                        assert(concrete_prefix(gfs, i + 1)[j] == pre[j]);
                    }
                }
            }
        } else {
            proof { assert(concrete_prefix(gfs, i + 1) == pre); }
        }
        i = i + 1;
    }
    proof { assert(concrete_insts(*fs, i as int, gfs) =~= Seq::empty()); }
    let ghost q1 = insts_view(queued@);
    let stmts = rewrite_block_generic_calls(top, &empty, fs, &mut queued)?;
    let ghost q0 = insts_view(queued@);
    proof {
        lemma_block_rewritten_spans(*top, stmts, 0, nb, gfs);
        assert(q1 == dedup_append(Seq::empty(), concrete_insts(*fs, 0, gfs)));
        lemma_concrete_insts_valid(*fs, 0, gfs);
        lemma_dedup_append_extends(gfs, Seq::empty(), concrete_insts(*fs, 0, gfs));
        lemma_block_insts_valid(*top, 0, nb, gfs);
        lemma_dedup_append_extends(gfs, q1, block_insts(*top, 0, nb, gfs));
        assert(insts_valid(gfs, Seq::<(Seq<char>, Seq<TypeView>)>::empty()));
    }
    let ghost cs = concrete_prefix(gfs, gfs.len() as int);
    let n_concrete = out.len();
    let mut k: usize = 0;
    while k < queued.len()
        invariant
            gfs == fs@,
            nb == Seq::<(Seq<char>, TypeView)>::empty(),
            concrete_problem(*fs, 0, gfs) is None,
            block_problem(*top, 0, nb, gfs) is None,
            q0 == dedup_append(dedup_append(Seq::empty(), concrete_insts(*fs, 0, gfs)), block_insts(*top, 0, nb, gfs)),
            k <= queued.len(),
            forall|j: int| 0 <= j < fs.len() ==> block_spans_ok(#[trigger] fs@[j].body, 0),
            forall|j: int| 0 <= j < out.len() ==> block_spans_ok(#[trigger] out@[j].body, 0),
            block_spans_ok(stmts, 0),
            n_concrete == cs.len(),
            out@.len() == n_concrete + k,
            insts_valid(gfs, insts_view(queued@)),
            process_queue(gfs, q0, 0) == process_queue(gfs, insts_view(queued@), k as int),
            forall|j: int| 0 <= j < cs.len() ==> fn_rewritten(cs[j], nb, gfs, cs[j].name@, #[trigger] out@[j]),
            forall|j: int| 0 <= j < k ==> instance_emitted(gfs, insts_view(queued@)[j], #[trigger] out@[n_concrete + j]),
        decreases 256 - k,
    {
        let ghost qv = insts_view(queued@);
        proof { assert(inst_valid(gfs, qv[k as int])); }
        if k >= MAX_GENERIC_INSTANTIATIONS {
            return Err(generic_instantiation_limit_diagnostic(queued[k].name.as_str()));
        }
        let g = match find_generic(fs, queued[k].name.as_str()) {
            Some(g) => g,
            None => {
                proof { assert(false); }
                return Err(generic_instantiation_limit_diagnostic(queued[k].name.as_str()));
            },
        };
        proof { lemma_tn_views(queued@[k as int].type_args, 0); }
        let bindings = generic_type_bindings(&fs[g], &queued[k].type_args);
        let name = instance_function_name(queued[k].name.as_str(), &queued[k].type_args);
        let ghost b = inst_bindings(fs@[g as int], qv[k as int].1);
        let ghost gname = name@;
        let f = rewrite_function(&fs[g], &bindings, fs, &mut queued, name)?;
        proof {
            lemma_fn_rewritten_spans(fs@[g as int], bindings_view(bindings@), gfs, gname, f);
            lemma_block_insts_valid(fs@[g as int].body, 0, b, gfs);
            lemma_dedup_append_extends(gfs, qv, block_insts(fs@[g as int].body, 0, b, gfs));
            let qn = insts_view(queued@);
            assert forall|j: int| 0 <= j < qv.len() implies qn[j] == qv[j] by {
                assert(qn.take(qv.len() as int)[j] == qv[j]);
            }
        }
        out.push(f);
        proof {
            let qn = insts_view(queued@);
            assert forall|j: int| 0 <= j < k + 1 implies instance_emitted(gfs, qn[j], #[trigger] out@[n_concrete + j]) by {
                assert(qn[j] == qv[j]);
            }
        }
        k = k + 1;
    }
    Ok((out, stmts))
}

proof fn lemma_concrete_insts_valid(cs: Vec<syntax::Function>, i: int, fs: Seq<syntax::Function>)
    requires
        concrete_problem(cs, i, fs) is None,
    ensures
        insts_valid(fs, concrete_insts(cs, i, fs)),
    decreases cs.len() - i,
{
    if 0 <= i < cs.len() {
        lemma_concrete_insts_valid(cs, i + 1, fs);
        if cs[i].type_params.len() == 0 {
            lemma_block_insts_valid(cs[i].body, 0, Seq::empty(), fs);
            lemma_insts_valid_concat(fs, block_insts(cs[i].body, 0, Seq::empty(), fs), concrete_insts(cs, i + 1, fs));
        }
    }
}

// ---------------------------------------------------------------------------
// Rewriting keeps positions.

/// A rewritten expression sits at the columns of the expression it rewrites.
pub proof fn lemma_expr_rewritten_spans(e: Expr, b: Seq<(Seq<char>, TypeView)>, fs: Seq<syntax::Function>, r: Expr)
    requires
        expr_rewritten(e, b, fs, r),
        expr_spans_ok(e),
    ensures
        expr_spans_ok(r),
    decreases e,
{
    match e {
        Expr::Call { args, .. } => {
            if let Expr::Call { args: a2, .. } = r {
                lemma_args_rewritten_spans(args, a2, 0, b, fs);
            }
        },
        Expr::BinaryAdd { lhs, rhs, .. } => {
            if let Expr::BinaryAdd { lhs: l2, rhs: r2, .. } = r {
                lemma_expr_rewritten_spans(*lhs, b, fs, *l2);
                lemma_expr_rewritten_spans(*rhs, b, fs, *r2);
            }
        },
        Expr::BinaryCompare { lhs, rhs, .. } => {
            if let Expr::BinaryCompare { lhs: l2, rhs: r2, .. } = r {
                lemma_expr_rewritten_spans(*lhs, b, fs, *l2);
                lemma_expr_rewritten_spans(*rhs, b, fs, *r2);
            }
        },
        Expr::BinaryLogic { lhs, rhs, .. } => {
            if let Expr::BinaryLogic { lhs: l2, rhs: r2, .. } = r {
                lemma_expr_rewritten_spans(*lhs, b, fs, *l2);
                lemma_expr_rewritten_spans(*rhs, b, fs, *r2);
            }
        },
        Expr::Unary { expr, .. } => {
            if let Expr::Unary { expr: x2, .. } = r {
                lemma_expr_rewritten_spans(*expr, b, fs, *x2);
            }
        },
        Expr::TupleLiteral { elements, .. } => {
            if let Expr::TupleLiteral { elements: x2, .. } = r {
                lemma_args_rewritten_spans(elements, x2, 0, b, fs);
            }
        },
        Expr::ArrayLiteral { elements, .. } => {
            if let Expr::ArrayLiteral { elements: x2, .. } = r {
                lemma_args_rewritten_spans(elements, x2, 0, b, fs);
            }
        },
        Expr::Cast { expr, .. } => {
            if let Expr::Cast { expr: x2, .. } = r {
                lemma_expr_rewritten_spans(*expr, b, fs, *x2);
            }
        },
        _ => {},
    }
}

proof fn lemma_args_rewritten_spans(args: Vec<Expr>, out: Vec<Expr>, i: int, b: Seq<(Seq<char>, TypeView)>, fs: Seq<syntax::Function>)
    requires
        out@.len() == args.len(),
        args_rewritten(args, out@, i, b, fs),
        args_spans_ok(args, i),
    ensures
        args_spans_ok(out, i),
    decreases args, args.len() - i,
{
    if 0 <= i < args.len() {
        lemma_expr_rewritten_spans(args[i], b, fs, out@[i]);
        lemma_args_rewritten_spans(args, out, i + 1, b, fs);
    }
}

/// A rewritten statement sits at the columns of the statement it rewrites.
pub proof fn lemma_stmt_rewritten_spans(s: Stmt, b: Seq<(Seq<char>, TypeView)>, fs: Seq<syntax::Function>, r: Stmt)
    requires
        stmt_rewritten(s, b, fs, r),
        stmt_spans_ok(s),
    ensures
        stmt_spans_ok(r),
    decreases s,
{
    match s {
        Stmt::Let { expr, .. } => {
            if let Stmt::Let { expr: e2, .. } = r { lemma_expr_rewritten_spans(expr, b, fs, e2); }
        },
        Stmt::Print { expr, .. } => {
            if let Stmt::Print { expr: e2, .. } = r { lemma_expr_rewritten_spans(expr, b, fs, e2); }
        },
        Stmt::Panic { expr, .. } => {
            if let Stmt::Panic { expr: e2, .. } = r { lemma_expr_rewritten_spans(expr, b, fs, e2); }
        },
        Stmt::Defer { expr, .. } => {
            if let Stmt::Defer { expr: e2, .. } = r { lemma_expr_rewritten_spans(expr, b, fs, e2); }
        },
        Stmt::Return { expr, .. } => {
            if let Stmt::Return { expr: e2, .. } = r { lemma_expr_rewritten_spans(expr, b, fs, e2); }
        },
        Stmt::Assign { target, expr, .. } => {
            if let Stmt::Assign { target: t2, expr: e2, .. } = r {
                lemma_expr_rewritten_spans(target, b, fs, t2);
                lemma_expr_rewritten_spans(expr, b, fs, e2);
            }
        },
        Stmt::If { cond, then_block, else_block, .. } => {
            if let Stmt::If { cond: c2, then_block: t2, else_block: e2, .. } = r {
                lemma_expr_rewritten_spans(cond, b, fs, c2);
                lemma_block_rewritten_spans(then_block, t2, 0, b, fs);
                match (else_block, e2) {
                    (Some(x), Some(y)) => lemma_block_rewritten_spans(x, y, 0, b, fs),
                    _ => {},
                }
            }
        },
        Stmt::While { cond, body, .. } => {
            if let Stmt::While { cond: c2, body: b2, .. } = r {
                lemma_expr_rewritten_spans(cond, b, fs, c2);
                lemma_block_rewritten_spans(body, b2, 0, b, fs);
            }
        },
        Stmt::Match { expr, arms, .. } => {
            if let Stmt::Match { expr: e2, arms: a2, .. } = r {
                lemma_expr_rewritten_spans(expr, b, fs, e2);
                lemma_arms_rewritten_spans(arms, a2, 0, b, fs);
            }
        },
        _ => {},
    }
}

/// A rewritten block sits at the columns of the block it rewrites.
pub proof fn lemma_block_rewritten_spans(block: Vec<Stmt>, out: Vec<Stmt>, i: int, b: Seq<(Seq<char>, TypeView)>, fs: Seq<syntax::Function>)
    requires
        out@.len() == block.len(),
        block_rewritten(block, out@, i, b, fs),
        block_spans_ok(block, i),
    ensures
        block_spans_ok(out, i),
    decreases block, block.len() - i,
{
    if 0 <= i < block.len() {
        lemma_stmt_rewritten_spans(block[i], b, fs, out@[i]);
        lemma_block_rewritten_spans(block, out, i + 1, b, fs);
    }
}

proof fn lemma_arms_rewritten_spans(arms: Vec<MatchArm>, out: Vec<MatchArm>, i: int, b: Seq<(Seq<char>, TypeView)>, fs: Seq<syntax::Function>)
    requires
        out@.len() == arms.len(),
        arms_rewritten(arms, out@, i, b, fs),
        arms_spans_ok(arms, i),
    ensures
        arms_spans_ok(out, i),
    decreases arms, arms.len() - i,
{
    if 0 <= i < arms.len() {
        lemma_block_rewritten_spans(arms[i].body, out@[i].body, 0, b, fs);
        lemma_arms_rewritten_spans(arms, out, i + 1, b, fs);
    }
}

proof fn lemma_fn_rewritten_spans(f: syntax::Function, b: Seq<(Seq<char>, TypeView)>, fs: Seq<syntax::Function>, name: Seq<char>, r: syntax::Function)
    requires
        fn_rewritten(f, b, fs, name, r),
        block_spans_ok(f.body, 0),
    ensures
        block_spans_ok(r.body, 0),
{
    reveal(fn_rewritten);
    lemma_block_rewritten_spans(f.body, r.body, 0, b, fs);
}


} // verus!
