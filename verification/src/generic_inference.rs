//! Inference of the type arguments of calls of generic functions that give none: the
//! types of the arguments, and the type the call is expected to have, are unified with
//! the generic function's signature.
use vstd::prelude::*;
use crate::model::NumericType;
use crate::monomorphize::{
    TypeView, binding_lookup, bindings_view, clone_type_name, lemma_tn_views, lookup_binding, tn_view, tn_views,
    type_names_equal,
};
use crate::render::{concat, debug_quoted, quote};
use crate::syntax::TypeName;

verus! {

// ---------------------------------------------------------------------------
// How a source type is written out in diagnostics.

/// The name of a numeric type's variant.
pub open spec fn numeric_variant(n: NumericType) -> Seq<char> {
    match n {
        NumericType::I8 => "I8"@,
        NumericType::I16 => "I16"@,
        NumericType::I32 => "I32"@,
        NumericType::I64 => "I64"@,
        NumericType::U8 => "U8"@,
        NumericType::U16 => "U16"@,
        NumericType::U32 => "U32"@,
        NumericType::U64 => "U64"@,
        NumericType::F32 => "F32"@,
        NumericType::F64 => "F64"@,
    }
}

fn numeric_variant_str(n: NumericType) -> (s: &'static str)
    ensures
        s@ == numeric_variant(n),
{
    match n {
        NumericType::I8 => "I8",
        NumericType::I16 => "I16",
        NumericType::I32 => "I32",
        NumericType::I64 => "I64",
        NumericType::U8 => "U8",
        NumericType::U16 => "U16",
        NumericType::U32 => "U32",
        NumericType::U64 => "U64",
        NumericType::F32 => "F32",
        NumericType::F64 => "F64",
    }
}

/// A source type written out structurally, as its `{:?}` rendering spells it.
pub open spec fn tn_debug(t: TypeView) -> Seq<char>
    decreases t,
{
    match t {
        TypeView::Int => "Int"@,
        TypeView::Numeric(n) => "Numeric("@ + numeric_variant(n) + ")"@,
        TypeView::Bool => "Bool"@,
        TypeView::String => "String"@,
        TypeView::Str => "Str"@,
        TypeView::Named(name, args) => "Named("@ + debug_quoted(name) + ", ["@ + tn_debug_list(args) + "])"@,
        TypeView::Ptr(inner) => "Ptr("@ + tn_debug(*inner) + ")"@,
        TypeView::MutPtr(inner) => "MutPtr("@ + tn_debug(*inner) + ")"@,
        TypeView::MutRef(inner) => "MutRef("@ + tn_debug(*inner) + ")"@,
        TypeView::Slice(inner) => "Slice("@ + tn_debug(*inner) + ")"@,
        TypeView::MutSlice(inner) => "MutSlice("@ + tn_debug(*inner) + ")"@,
        TypeView::LifetimeSlice(l, inner) => "LifetimeSlice("@ + debug_quoted(l) + ", "@ + tn_debug(*inner) + ")"@,
        TypeView::LifetimeMutSlice(l, inner) => "LifetimeMutSlice("@ + debug_quoted(l) + ", "@ + tn_debug(*inner) + ")"@,
        TypeView::Option(inner) => "Option("@ + tn_debug(*inner) + ")"@,
        TypeView::Result(ok, err) => "Result("@ + tn_debug(*ok) + ", "@ + tn_debug(*err) + ")"@,
        TypeView::MapOf(key, value) => "Map("@ + tn_debug(*key) + ", "@ + tn_debug(*value) + ")"@,
        TypeView::Tuple(elements) => "Tuple(["@ + tn_debug_list(elements) + "])"@,
        TypeView::Array(inner, len) => "Array("@ + tn_debug(*inner) + ", "@ + match len {
            Some(l) => "Some("@ + debug_quoted(l) + ")"@,
            None => "None"@,
        } + ")"@,
        TypeView::Fn(params, ret) => "Fn(["@ + tn_debug_list(params) + "], "@ + tn_debug(*ret) + ")"@,
    }
}

/// The renderings of `ts`, joined by `, `.
pub open spec fn tn_debug_list(ts: Seq<TypeView>) -> Seq<char>
    decreases ts,
{
    if ts.len() == 0 {
        Seq::empty()
    } else if ts.len() == 1 {
        tn_debug(ts[0])
    } else {
        tn_debug(ts[0]) + ", "@ + tn_debug_list(ts.drop_first())
    }
}

fn push_quoted(out: &mut String, s: &str)
    ensures
        final(out)@ == old(out)@ + debug_quoted(s@),
{
    let q = quote(s);
    out.append(q.as_str());
}

/// Appends the rendering of `t` to `out`.
pub fn push_tn_debug(out: &mut String, t: &TypeName)
    ensures
        final(out)@ == old(out)@ + tn_debug(tn_view(*t)),
    decreases t,
{
    let ghost start = out@;
    match t {
        TypeName::Int => out.append("Int"),
        TypeName::Numeric(n) => {
            out.append("Numeric(");
            out.append(numeric_variant_str(*n));
            out.append(")");
        },
        TypeName::Bool => out.append("Bool"),
        TypeName::String => out.append("String"),
        TypeName::Str => out.append("Str"),
        TypeName::Named(name, args) => {
            out.append("Named(");
            push_quoted(out, name.as_str());
            out.append(", [");
            push_tn_debug_list(out, args, 0);
            out.append("])");
        },
        TypeName::Ptr(inner) => {
            out.append("Ptr(");
            push_tn_debug(out, inner);
            out.append(")");
        },
        TypeName::MutPtr(inner) => {
            out.append("MutPtr(");
            push_tn_debug(out, inner);
            out.append(")");
        },
        TypeName::MutRef(inner) => {
            out.append("MutRef(");
            push_tn_debug(out, inner);
            out.append(")");
        },
        TypeName::Slice(inner) => {
            out.append("Slice(");
            push_tn_debug(out, inner);
            out.append(")");
        },
        TypeName::MutSlice(inner) => {
            out.append("MutSlice(");
            push_tn_debug(out, inner);
            out.append(")");
        },
        TypeName::LifetimeSlice(l, inner) => {
            out.append("LifetimeSlice(");
            push_quoted(out, l.as_str());
            out.append(", ");
            push_tn_debug(out, inner);
            out.append(")");
        },
        TypeName::LifetimeMutSlice(l, inner) => {
            out.append("LifetimeMutSlice(");
            push_quoted(out, l.as_str());
            out.append(", ");
            push_tn_debug(out, inner);
            out.append(")");
        },
        TypeName::Option(inner) => {
            out.append("Option(");
            push_tn_debug(out, inner);
            out.append(")");
        },
        TypeName::Result(ok, err) => {
            out.append("Result(");
            push_tn_debug(out, ok);
            out.append(", ");
            push_tn_debug(out, err);
            out.append(")");
        },
        TypeName::MapOf(key, value) => {
            out.append("Map(");
            push_tn_debug(out, key);
            out.append(", ");
            push_tn_debug(out, value);
            out.append(")");
        },
        TypeName::Tuple(elements) => {
            out.append("Tuple([");
            push_tn_debug_list(out, elements, 0);
            out.append("])");
        },
        TypeName::Array(inner, len) => {
            out.append("Array(");
            push_tn_debug(out, inner);
            out.append(", ");
            match len {
                Some(l) => {
                    out.append("Some(");
                    push_quoted(out, l.as_str());
                    out.append(")");
                },
                None => out.append("None"),
            }
            out.append(")");
        },
        TypeName::Fn(params, ret) => {
            out.append("Fn([");
            push_tn_debug_list(out, params, 0);
            out.append("], ");
            push_tn_debug(out, ret);
            out.append(")");
        },
    }
    proof {
        assert(out@ =~= start + tn_debug(tn_view(*t)));
    }
}

/// Appends the renderings of `ts` from position `i` on, joined by `, `, to `out`.
pub fn push_tn_debug_list(out: &mut String, ts: &Vec<TypeName>, i: usize)
    requires
        i <= ts.len(),
    ensures
        final(out)@ == old(out)@ + tn_debug_list(tn_views(*ts, i as int)),
    decreases ts, ts.len() - i,
{
    let ghost start = out@;
    proof { lemma_tn_views(*ts, i as int); }
    if i >= ts.len() {
        proof { assert(out@ =~= start + tn_debug_list(tn_views(*ts, i as int))); }
        return;
    }
    proof {
        assert(decreases_to!(ts => ts[i as int]));
        assert(tn_views(*ts, i as int).drop_first() =~= tn_views(*ts, i + 1));
        lemma_tn_views(*ts, i + 1);
    }
    push_tn_debug(out, &ts[i]);
    if i + 1 < ts.len() {
        out.append(", ");
        push_tn_debug_list(out, ts, i + 1);
    }
    proof {
        assert(out@ =~= start + tn_debug_list(tn_views(*ts, i as int)));
    }
}

// ---------------------------------------------------------------------------
// Unification of a signature type with an argument type.

/// Whether one of the type parameters `tps` occurs in `t`.
pub open spec fn contains_param(t: TypeView, tps: Seq<Seq<char>>) -> bool
    decreases t,
{
    match t {
        TypeView::Named(n, args) => (args.len() == 0 && tps.contains(n)) || contains_param_any(args, tps),
        TypeView::Ptr(inner) | TypeView::MutPtr(inner) | TypeView::MutRef(inner) | TypeView::Slice(inner)
        | TypeView::MutSlice(inner) | TypeView::Option(inner) => contains_param(*inner, tps),
        TypeView::LifetimeSlice(_, inner) | TypeView::LifetimeMutSlice(_, inner) => contains_param(*inner, tps),
        TypeView::Array(inner, _) => contains_param(*inner, tps),
        TypeView::Result(a, c) | TypeView::MapOf(a, c) => contains_param(*a, tps) || contains_param(*c, tps),
        TypeView::Tuple(elements) => contains_param_any(elements, tps),
        TypeView::Fn(params, ret) => contains_param_any(params, tps) || contains_param(*ret, tps),
        _ => false,
    }
}

/// Whether one of the type parameters `tps` occurs in one of `ts`.
pub open spec fn contains_param_any(ts: Seq<TypeView>, tps: Seq<Seq<char>>) -> bool
    decreases ts,
{
    ts.len() > 0 && (contains_param(ts[0], tps) || contains_param_any(ts.drop_first(), tps))
}

/// The message for a type that does not have the shape a signature type requires.
pub open spec fn mismatch_message(pattern: TypeView, actual: TypeView) -> Seq<char> {
    "expected generic constraint "@ + tn_debug(pattern) + ", got "@ + tn_debug(actual)
}

/// Unifies the signature type `p` with the type `a` of what is given for it, extending
/// the bindings `b` of the type parameters `tps`: a type parameter binds to the type
/// given for it, and must bind to one type only; a type built around a type parameter
/// must be given a type of the same shape.
pub open spec fn unify_v(p: TypeView, a: TypeView, tps: Seq<Seq<char>>, b: Seq<(Seq<char>, TypeView)>) -> Result<Seq<(Seq<char>, TypeView)>, Seq<char>>
    decreases p,
{
    let fail = if contains_param(p, tps) { Err(mismatch_message(p, a)) } else { Ok(b) };
    match p {
        TypeView::Named(n, args) => if args.len() == 0 && tps.contains(n) {
            match binding_lookup(b, n) {
                Some(bound) => if bound != a {
                    Err("generic type parameter "@ + debug_quoted(n) + " inferred as both "@ + tn_debug(bound) + " and "@ + tn_debug(a))
                } else {
                    Ok(b)
                },
                None => Ok(b.push((n, a))),
            }
        } else {
            match a {
                TypeView::Named(m, rargs) => if n == m && args.len() == rargs.len() { unify_list(args, rargs, 0, tps, b) } else { fail },
                _ => fail,
            }
        },
        TypeView::Ptr(x) => match a { TypeView::Ptr(y) => unify_v(*x, *y, tps, b), _ => fail },
        TypeView::MutPtr(x) => match a { TypeView::MutPtr(y) => unify_v(*x, *y, tps, b), _ => fail },
        TypeView::MutRef(x) => match a { TypeView::MutRef(y) => unify_v(*x, *y, tps, b), _ => fail },
        TypeView::Slice(x) => match a { TypeView::Slice(y) => unify_v(*x, *y, tps, b), _ => fail },
        TypeView::MutSlice(x) => match a { TypeView::MutSlice(y) => unify_v(*x, *y, tps, b), _ => fail },
        TypeView::LifetimeSlice(_, x) => match a { TypeView::LifetimeSlice(_, y) => unify_v(*x, *y, tps, b), _ => fail },
        TypeView::LifetimeMutSlice(_, x) => match a { TypeView::LifetimeMutSlice(_, y) => unify_v(*x, *y, tps, b), _ => fail },
        TypeView::Option(x) => match a { TypeView::Option(y) => unify_v(*x, *y, tps, b), _ => fail },
        TypeView::Result(x1, x2) => match a {
            TypeView::Result(y1, y2) => match unify_v(*x1, *y1, tps, b) {
                Err(e) => Err(e),
                Ok(b2) => unify_v(*x2, *y2, tps, b2),
            },
            _ => fail,
        },
        TypeView::MapOf(x1, x2) => match a {
            TypeView::MapOf(y1, y2) => match unify_v(*x1, *y1, tps, b) {
                Err(e) => Err(e),
                Ok(b2) => unify_v(*x2, *y2, tps, b2),
            },
            _ => fail,
        },
        TypeView::Tuple(xs) => match a {
            TypeView::Tuple(ys) => if xs.len() != ys.len() && contains_param(p, tps) {
                Err(mismatch_message(p, a))
            } else {
                unify_list(xs, ys, 0, tps, b)
            },
            _ => fail,
        },
        TypeView::Array(x, _) => match a { TypeView::Array(y, _) => unify_v(*x, *y, tps, b), _ => fail },
        TypeView::Fn(xs, x) => match a {
            TypeView::Fn(ys, y) => if xs.len() != ys.len() && contains_param(p, tps) {
                Err(mismatch_message(p, a))
            } else {
                match unify_list(xs, ys, 0, tps, b) {
                    Err(e) => Err(e),
                    Ok(b2) => unify_v(*x, *y, tps, b2),
                }
            },
            _ => fail,
        },
        _ => Ok(b),
    }
}

/// `unify_v` on the pairs of `xs` and `ys` from position `i` on, as far as both go.
pub open spec fn unify_list(xs: Seq<TypeView>, ys: Seq<TypeView>, i: int, tps: Seq<Seq<char>>, b: Seq<(Seq<char>, TypeView)>) -> Result<Seq<(Seq<char>, TypeView)>, Seq<char>>
    decreases xs, xs.len() - i,
{
    if i < 0 || i >= xs.len() || i >= ys.len() {
        Ok(b)
    } else {
        match unify_v(xs[i], ys[i], tps, b) {
            Err(e) => Err(e),
            Ok(b2) => unify_list(xs, ys, i + 1, tps, b2),
        }
    }
}

/// The texts of a list of names.
pub open spec fn names_view(v: Seq<String>) -> Seq<Seq<char>> {
    Seq::new(v.len(), |i: int| v[i]@)
}

fn is_type_param(tps: &Vec<String>, name: &str) -> (r: bool)
    ensures
        r == names_view(tps@).contains(name@),
{
    let mut i: usize = 0;
    while i < tps.len()
        invariant
            i <= tps.len(),
            forall|k: int| 0 <= k < i ==> names_view(tps@)[k] != name@,
        decreases tps.len() - i,
    {
        if crate::text::str_eq(tps[i].as_str(), name) {
            proof { assert(names_view(tps@)[i as int] == name@); }
            return true;
        }
        i = i + 1;
    }
    proof {
        if names_view(tps@).contains(name@) {
            let k = choose|k: int| 0 <= k < names_view(tps@).len() && names_view(tps@)[k] == name@;
            assert(names_view(tps@)[k] != name@);
        }
    }
    false
}

fn contains_type_param(t: &TypeName, tps: &Vec<String>) -> (r: bool)
    ensures
        r == contains_param(tn_view(*t), names_view(tps@)),
    decreases t,
{
    match t {
        TypeName::Named(n, args) => {
            proof { lemma_tn_views(*args, 0); }
            (args.len() == 0 && is_type_param(tps, n.as_str())) || contains_type_param_list(args, 0, tps)
        },
        TypeName::Ptr(inner) | TypeName::MutPtr(inner) | TypeName::MutRef(inner) | TypeName::Slice(inner)
        | TypeName::MutSlice(inner) | TypeName::Option(inner) => contains_type_param(inner, tps),
        TypeName::LifetimeSlice(_, inner) | TypeName::LifetimeMutSlice(_, inner) => contains_type_param(inner, tps),
        TypeName::Array(inner, _) => contains_type_param(inner, tps),
        TypeName::Result(a, c) | TypeName::MapOf(a, c) => contains_type_param(a, tps) || contains_type_param(c, tps),
        TypeName::Tuple(elements) => contains_type_param_list(elements, 0, tps),
        TypeName::Fn(params, ret) => contains_type_param_list(params, 0, tps) || contains_type_param(ret, tps),
        _ => false,
    }
}

fn contains_type_param_list(ts: &Vec<TypeName>, i: usize, tps: &Vec<String>) -> (r: bool)
    requires
        i <= ts.len(),
    ensures
        r == contains_param_any(tn_views(*ts, i as int), names_view(tps@)),
    decreases ts, ts.len() - i,
{
    proof { lemma_tn_views(*ts, i as int); }
    if i >= ts.len() {
        return false;
    }
    proof {
        assert(decreases_to!(ts => ts[i as int]));
        assert(tn_views(*ts, i as int).drop_first() =~= tn_views(*ts, i + 1));
    }
    contains_type_param(&ts[i], tps) || contains_type_param_list(ts, i + 1, tps)
}

fn mismatch(p: &TypeName, a: &TypeName) -> (m: String)
    ensures
        m@ == mismatch_message(tn_view(*p), tn_view(*a)),
{
    let mut m = String::from_str("expected generic constraint ");
    push_tn_debug(&mut m, p);
    m.append(", got ");
    push_tn_debug(&mut m, a);
    m
}

fn fallback(p: &TypeName, a: &TypeName, tps: &Vec<String>) -> (r: Result<(), String>)
    ensures
        r is Ok <==> !contains_param(tn_view(*p), names_view(tps@)),
        r is Err ==> r->Err_0@ == mismatch_message(tn_view(*p), tn_view(*a)),
{
    if contains_type_param(p, tps) {
        Err(mismatch(p, a))
    } else {
        Ok(())
    }
}

/// Unifies the signature type `p` with the type `a`, extending the bindings `b`.
/// `new` holds every binding of `old`, in place, possibly followed by more: unification
/// never overwrites a binding, whether it succeeds or fails.
pub open spec fn bindings_extend(old: Seq<(String, TypeName)>, new: Seq<(String, TypeName)>) -> bool {
    &&& old.len() <= new.len()
    &&& forall|i: int| 0 <= i < old.len() ==> #[trigger] new[i] == old[i]
}

pub fn unify_generic_type_name(p: &TypeName, a: &TypeName, tps: &Vec<String>, b: &mut Vec<(String, TypeName)>) -> (r: Result<(), String>)
    ensures
        bindings_extend(old(b)@, final(b)@),
        match unify_v(tn_view(*p), tn_view(*a), names_view(tps@), bindings_view(old(b)@)) {
            Ok(b2) => r is Ok && bindings_view(final(b)@) == b2,
            Err(m) => r is Err && r->Err_0@ == m,
        },
    decreases p, 1int,
{
    match p {
        TypeName::Named(..) => unify_named(p, a, tps, b),
        TypeName::Result(..) | TypeName::MapOf(..) | TypeName::Tuple(..) | TypeName::Fn(..) => unify_composite(p, a, tps, b),
        TypeName::Int | TypeName::Numeric(_) | TypeName::Bool | TypeName::String | TypeName::Str => Ok(()),
        _ => unify_wrapped(p, a, tps, b),
    }
}

fn unify_named(p: &TypeName, a: &TypeName, tps: &Vec<String>, b: &mut Vec<(String, TypeName)>) -> (r: Result<(), String>)
    requires
        p is Named,
    ensures
        bindings_extend(old(b)@, final(b)@),
        match unify_v(tn_view(*p), tn_view(*a), names_view(tps@), bindings_view(old(b)@)) {
            Ok(b2) => r is Ok && bindings_view(final(b)@) == b2,
            Err(m) => r is Err && r->Err_0@ == m,
        },
    decreases p, 0int,
{
    let ghost av = tn_view(*a);
    let (n, args) = match p {
        TypeName::Named(n, args) => (n, args),
        _ => { assert(false); return Ok(()); },
    };
    proof { lemma_tn_views(*args, 0); }
    if args.len() == 0 && is_type_param(tps, n.as_str()) {
        match lookup_binding(b, n.as_str()) {
            Some(bound) => {
                if !type_names_equal(bound, a) {
                    let mut m = crate::lower_expr::quoted_message("generic type parameter ", n.as_str(), " inferred as both ");
                    push_tn_debug(&mut m, bound);
                    m.append(" and ");
                    push_tn_debug(&mut m, a);
                    return Err(m);
                }
                Ok(())
            },
            None => {
                let ghost old_b = bindings_view(b@);
                b.push((n.clone(), clone_type_name(a)));
                proof { assert(bindings_view(b@) =~= old_b.push((n@, av))); }
                Ok(())
            },
        }
    } else {
        match a {
            TypeName::Named(m, rargs) => {
                proof { lemma_tn_views(*rargs, 0); }
                if crate::text::str_eq(n.as_str(), m.as_str()) && args.len() == rargs.len() {
                    unify_generic_type_name_list(args, rargs, tps, b)
                } else {
                    fallback(p, a, tps)
                }
            },
            _ => fallback(p, a, tps),
        }
    }
}

fn unify_wrapped(p: &TypeName, a: &TypeName, tps: &Vec<String>, b: &mut Vec<(String, TypeName)>) -> (r: Result<(), String>)
    requires
        p is Ptr || p is MutPtr || p is MutRef || p is Slice || p is MutSlice || p is LifetimeSlice
            || p is LifetimeMutSlice || p is Option || p is Array,
    ensures
        bindings_extend(old(b)@, final(b)@),
        match unify_v(tn_view(*p), tn_view(*a), names_view(tps@), bindings_view(old(b)@)) {
            Ok(b2) => r is Ok && bindings_view(final(b)@) == b2,
            Err(m) => r is Err && r->Err_0@ == m,
        },
    decreases p, 0int,
{
    match (p, a) {
        (TypeName::Ptr(x), TypeName::Ptr(y)) | (TypeName::MutPtr(x), TypeName::MutPtr(y)) | (TypeName::MutRef(x), TypeName::MutRef(y))
        | (TypeName::Slice(x), TypeName::Slice(y)) | (TypeName::MutSlice(x), TypeName::MutSlice(y))
        | (TypeName::Option(x), TypeName::Option(y)) => unify_generic_type_name(x, y, tps, b),
        (TypeName::LifetimeSlice(_, x), TypeName::LifetimeSlice(_, y)) | (TypeName::LifetimeMutSlice(_, x), TypeName::LifetimeMutSlice(_, y)) => {
            unify_generic_type_name(x, y, tps, b)
        },
        (TypeName::Array(x, _), TypeName::Array(y, _)) => unify_generic_type_name(x, y, tps, b),
        _ => fallback(p, a, tps),
    }
}

fn unify_composite(p: &TypeName, a: &TypeName, tps: &Vec<String>, b: &mut Vec<(String, TypeName)>) -> (r: Result<(), String>)
    requires
        p is Result || p is MapOf || p is Tuple || p is Fn,
    ensures
        bindings_extend(old(b)@, final(b)@),
        match unify_v(tn_view(*p), tn_view(*a), names_view(tps@), bindings_view(old(b)@)) {
            Ok(b2) => r is Ok && bindings_view(final(b)@) == b2,
            Err(m) => r is Err && r->Err_0@ == m,
        },
    decreases p, 0int,
{
    match (p, a) {
        (TypeName::Result(x1, x2), TypeName::Result(y1, y2)) | (TypeName::MapOf(x1, x2), TypeName::MapOf(y1, y2)) => {
            unify_generic_type_name(x1, y1, tps, b)?;
            unify_generic_type_name(x2, y2, tps, b)
        },
        (TypeName::Tuple(xs), TypeName::Tuple(ys)) => {
            proof { lemma_tn_views(*xs, 0); lemma_tn_views(*ys, 0); }
            if xs.len() != ys.len() && contains_type_param(p, tps) {
                Err(mismatch(p, a))
            } else {
                unify_generic_type_name_list(xs, ys, tps, b)
            }
        },
        (TypeName::Fn(xs, x), TypeName::Fn(ys, y)) => {
            proof { lemma_tn_views(*xs, 0); lemma_tn_views(*ys, 0); }
            if xs.len() != ys.len() && contains_type_param(p, tps) {
                Err(mismatch(p, a))
            } else {
                unify_generic_type_name_list(xs, ys, tps, b)?;
                unify_generic_type_name(x, y, tps, b)
            }
        },
        _ => fallback(p, a, tps),
    }
}

/// Unifies the pairs of `xs` and `ys`, in order, as far as both go.
pub fn unify_generic_type_name_list(xs: &Vec<TypeName>, ys: &Vec<TypeName>, tps: &Vec<String>, b: &mut Vec<(String, TypeName)>) -> (r: Result<(), String>)
    ensures
        bindings_extend(old(b)@, final(b)@),
        match unify_list(tn_views(*xs, 0), tn_views(*ys, 0), 0, names_view(tps@), bindings_view(old(b)@)) {
            Ok(b2) => r is Ok && bindings_view(final(b)@) == b2,
            Err(m) => r is Err && r->Err_0@ == m,
        },
    decreases xs, 0int, 0int,
{
    let ghost xv = tn_views(*xs, 0);
    let ghost yv = tn_views(*ys, 0);
    let ghost tv = names_view(tps@);
    let ghost target = unify_list(xv, yv, 0, tv, bindings_view(b@));
    proof { lemma_tn_views(*xs, 0); lemma_tn_views(*ys, 0); }
    let mut i: usize = 0;
    while i < xs.len() && i < ys.len()
        invariant
            i <= xs.len(),
            xv == tn_views(*xs, 0),
            yv == tn_views(*ys, 0),
            tv == names_view(tps@),
            xv.len() == xs.len(),
            yv.len() == ys.len(),
            forall|k: int| 0 <= k < xs.len() ==> #[trigger] xv[k] == tn_view(xs@[k]),
            forall|k: int| 0 <= k < ys.len() ==> #[trigger] yv[k] == tn_view(ys@[k]),
            unify_list(xv, yv, i as int, tv, bindings_view(b@)) == target,
            target == unify_list(tn_views(*xs, 0), tn_views(*ys, 0), 0, names_view(tps@), bindings_view(old(b)@)),
            bindings_extend(old(b)@, b@),
        decreases xs.len() - i,
    {
        proof { assert(decreases_to!(xs => xs[i as int])); }
        let ghost bi = bindings_view(b@);
        proof {
            assert(xv[i as int] == tn_view(xs@[i as int]));
            assert(yv[i as int] == tn_view(ys@[i as int]));
            assert(unify_list(xv, yv, i as int, tv, bi) == match unify_v(xv[i as int], yv[i as int], tv, bi) {
                Err(e) => Err(e),
                Ok(b2) => unify_list(xv, yv, i + 1, tv, b2),
            });
        }
        let r = unify_generic_type_name(&xs[i], &ys[i], tps, b);
        if r.is_err() {
            return r;
        }
        i = i + 1;
    }
    Ok(())
}

} // verus!
