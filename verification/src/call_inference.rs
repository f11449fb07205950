//! Inference of omitted type arguments: a call of a generic function that gives no type
//! arguments gets them from the types of its arguments and from the type its context
//! expects, before the generic functions are instantiated.
use vstd::prelude::*;
use crate::capabilities::type_error;
use crate::diagnostics::Diagnostic;
use crate::generic_inference::{names_view, unify_generic_type_name, unify_v};
use crate::lower_expr::{quoted_message, type_error_at};
use crate::monomorphize::{
    TypeView, binding_lookup, bindings_view, clone_type_name, clone_type_names, find_generic, generic_index,
    inst_bindings, lemma_tn_views, lookup_binding, generic_type_bindings, subst_v, substitute_type_name, tn_view, tn_views,
};
use crate::render::{concat, debug_quoted, decimal, push_decimal, quote};
use crate::syntax;
use crate::syntax::{Expr, Literal, MatchArm, Stmt, TypeName};

verus! {

// ---------------------------------------------------------------------------
// The type of an expression, as far as inference can tell.

/// The value of an optional source type.
pub open spec fn opt_view(t: Option<&TypeName>) -> Option<TypeView> {
    match t {
        Some(x) => Some(tn_view(*x)),
        None => None,
    }
}

/// The constructors whose type is the one their context expects.
pub open spec fn is_context_ctor(n: Seq<char>) -> bool {
    n == "None"@ || n == "Some"@ || n == "Ok"@ || n == "Err"@
}

/// The type of `e`, where it can be told, given the type `expected` of its context and
/// the types `env` of the variables in scope (the last binding of a name counts): a
/// literal has its own type; a variable the type it was declared with; a call of a
/// generic function the return type of its signature under the (given or inferred)
/// type arguments; anything else the type its context expects.
pub open spec fn infer_ty(e: Expr, expected: Option<TypeView>, env: Seq<(Seq<char>, TypeView)>, fs: Seq<syntax::Function>) -> Option<TypeView>
    decreases e, 0int,
{
    match e {
        Expr::Literal(Literal::Int(_)) => Some(TypeView::Int),
        Expr::Literal(Literal::Bool(_)) => Some(TypeView::Bool),
        Expr::Literal(Literal::String(_)) => Some(TypeView::String),
        Expr::VarRef { name, .. } => if is_context_ctor(name@) && expected is Some {
            expected
        } else {
            binding_lookup(env, name@)
        },
        Expr::Call { name, type_args, args, .. } => match generic_index(fs, name@) {
            Some(k) => {
                let targs = if type_args.len() == 0 {
                    infer_targs(fs[k], args, expected, env, fs)
                } else {
                    Ok(tn_views(type_args, 0))
                };
                match targs {
                    Ok(t) => if t.len() == fs[k].type_params.len() {
                        Some(subst_v(tn_view(fs[k].return_ty), inst_bindings(fs[k], t)))
                    } else {
                        None
                    },
                    Err(_) => None,
                }
            },
            None => expected,
        },
        Expr::TupleLiteral { elements, .. } => match infer_tys(elements, 0, env, fs) {
            Some(ts) => Some(TypeView::Tuple(ts)),
            None => None,
        },
        Expr::ArrayLiteral { elements, .. } => if elements.len() == 0 {
            None
        } else {
            match infer_ty(elements[0], None, env, fs) {
                Some(t) => Some(TypeView::Array(Box::new(t), None)),
                None => None,
            }
        },
        Expr::Unary { op: syntax::UnaryOp::Await, expr, .. } => infer_ty(*expr, expected, env, fs),
        _ => expected,
    }
}

/// The types of the expressions of `es` from position `i` on, each told with nothing
/// expected (see `infer_ty`), where every one of them can be told.
pub open spec fn infer_tys(es: Vec<Expr>, i: int, env: Seq<(Seq<char>, TypeView)>, fs: Seq<syntax::Function>) -> Option<Seq<TypeView>>
    decreases es, es.len() - i,
{
    if i < 0 || i >= es.len() {
        Some(Seq::empty())
    } else {
        match (infer_ty(es[i], None, env, fs), infer_tys(es, i + 1, env, fs)) {
            (Some(t), Some(ts)) => Some(seq![t] + ts),
            _ => None,
        }
    }
}

/// The message for an argument whose type does not fit its parameter.
pub open spec fn argument_failure(name: Seq<char>, pos: nat, m: Seq<char>) -> Seq<char> {
    "generic function "@ + debug_quoted(name) + " argument "@ + decimal(pos) + " constraint failed: "@ + m
}

/// The message for a return type that does not fit the type the context expects.
pub open spec fn return_failure(name: Seq<char>, m: Seq<char>) -> Seq<char> {
    "generic function "@ + debug_quoted(name) + " return constraint failed: "@ + m
}

/// The message for a type parameter that nothing binds.
pub open spec fn uninferred(name: Seq<char>, param: Seq<char>) -> Seq<char> {
    "generic function "@ + debug_quoted(name) + " could not infer type parameter "@ + debug_quoted(param)
}

/// Extends the bindings `b` by unifying the parameters of `f` from position `i` on with
/// the types of the arguments at the same positions, where those can be told.
pub open spec fn bind_args(f: syntax::Function, args: Vec<Expr>, i: int, env: Seq<(Seq<char>, TypeView)>, fs: Seq<syntax::Function>, b: Seq<(Seq<char>, TypeView)>) -> Result<Seq<(Seq<char>, TypeView)>, Seq<char>>
    decreases args, args.len() - i,
{
    if i < 0 || i >= args.len() || i >= f.params.len() {
        Ok(b)
    } else {
        match infer_ty(args[i], None, env, fs) {
            Some(at) => match unify_v(tn_view(f.params[i].ty), at, names_view(f.type_params@), b) {
                Ok(b2) => bind_args(f, args, i + 1, env, fs, b2),
                Err(m) => Err(argument_failure(f.name@, (i + 1) as nat, m)),
            },
            None => bind_args(f, args, i + 1, env, fs, b),
        }
    }
}

/// The position of the first of `tps`, from position `j` on, that `b` does not bind.
pub open spec fn first_unbound(tps: Seq<Seq<char>>, b: Seq<(Seq<char>, TypeView)>, j: int) -> Option<int>
    decreases tps.len() - j,
{
    if j < 0 || j >= tps.len() {
        None
    } else if binding_lookup(b, tps[j]) is None {
        Some(j)
    } else {
        first_unbound(tps, b, j + 1)
    }
}

/// The type arguments of a call of the generic function `f` that gives none: the
/// arguments' types bind the type parameters first, then the type the context expects
/// binds the return type; every type parameter must end up bound.
pub open spec fn infer_targs(f: syntax::Function, args: Vec<Expr>, expected: Option<TypeView>, env: Seq<(Seq<char>, TypeView)>, fs: Seq<syntax::Function>) -> Result<Seq<TypeView>, Seq<char>>
    decreases args, args.len() + 1,
{
    let tps = names_view(f.type_params@);
    match bind_args(f, args, 0, env, fs, Seq::empty()) {
        Err(m) => Err(m),
        Ok(b) => {
            let r = match expected {
                Some(x) => match unify_v(tn_view(f.return_ty), x, tps, b) {
                    Ok(b2) => Ok(b2),
                    Err(m) => Err(return_failure(f.name@, m)),
                },
                None => Ok(b),
            };
            match r {
                Err(m) => Err(m),
                Ok(b2) => match first_unbound(tps, b2, 0) {
                    Some(j) => Err(uninferred(f.name@, tps[j])),
                    None => Ok(Seq::new(tps.len(), |j: int| binding_lookup(b2, tps[j])->0)),
                },
            }
        },
    }
}

fn is_context_ctor_name(n: &str) -> (r: bool)
    ensures
        r == is_context_ctor(n@),
{
    crate::text::str_eq(n, "None") || crate::text::str_eq(n, "Some") || crate::text::str_eq(n, "Ok")
        || crate::text::str_eq(n, "Err")
}

fn clone_opt_type(t: Option<&TypeName>) -> (r: Option<TypeName>)
    ensures
        match t {
            Some(x) => r is Some && tn_view(r->0) == tn_view(*x),
            None => r is None,
        },
{
    match t {
        Some(x) => Some(clone_type_name(x)),
        None => None,
    }
}

/// The type of `e`, where it can be told (see `infer_ty`).
pub fn infer_expr_type(e: &Expr, expected: Option<&TypeName>, env: &Vec<(String, TypeName)>, fs: &Vec<syntax::Function>) -> (r: Option<TypeName>)
    ensures
        match infer_ty(*e, opt_view(expected), bindings_view(env@), fs@) {
            Some(t) => r is Some && tn_view(r->0) == t,
            None => r is None,
        },
    decreases e, 0int,
{
    match e {
        Expr::Literal(Literal::Int(_)) => Some(TypeName::Int),
        Expr::Literal(Literal::Bool(_)) => Some(TypeName::Bool),
        Expr::Literal(Literal::String(_)) => Some(TypeName::String),
        Expr::VarRef { name, .. } => {
            if is_context_ctor_name(name.as_str()) && expected.is_some() {
                return clone_opt_type(expected);
            }
            match lookup_binding(env, name.as_str()) {
                Some(t) => Some(clone_type_name(t)),
                None => None,
            }
        },
        Expr::Call { name, type_args, args, .. } => {
            match find_generic(fs, name.as_str()) {
                Some(k) => {
                    let f = &fs[k];
                    let targs = if type_args.len() == 0 {
                        match infer_type_args_for_call(f, args, expected, env, fs) {
                            Ok(t) => t,
                            Err(_) => return None,
                        }
                    } else {
                        clone_type_names(type_args)
                    };
                    proof { lemma_tn_views(targs, 0); }
                    if targs.len() != f.type_params.len() {
                        return None;
                    }
                    let b = generic_type_bindings(f, &targs);
                    Some(substitute_type_name(&f.return_ty, &b))
                },
                None => clone_opt_type(expected),
            }
        },
        Expr::TupleLiteral { elements, .. } => match infer_exprs_types(elements, 0, env, fs) {
            Some(ts) => Some(TypeName::Tuple(ts)),
            None => None,
        },
        Expr::ArrayLiteral { elements, .. } => {
            if elements.len() == 0 {
                return None;
            }
            proof { assert(decreases_to!(elements => elements[0])); }
            match infer_expr_type(&elements[0], None, env, fs) {
                Some(t) => Some(TypeName::Array(Box::new(t), None)),
                None => None,
            }
        },
        Expr::Unary { op: syntax::UnaryOp::Await, expr, .. } => infer_expr_type(expr, expected, env, fs),
        _ => clone_opt_type(expected),
    }
}

/// The types of the expressions of `es` from position `i` on (see `infer_tys`).
fn infer_exprs_types(es: &Vec<Expr>, i: usize, env: &Vec<(String, TypeName)>, fs: &Vec<syntax::Function>) -> (r: Option<Vec<TypeName>>)
    requires
        i <= es.len(),
    ensures
        match infer_tys(*es, i as int, bindings_view(env@), fs@) {
            Some(ts) => r is Some && tn_views(r->0, 0) == ts,
            None => r is None,
        },
    decreases es, es.len() - i,
{
    if i >= es.len() {
        let v: Vec<TypeName> = Vec::new();
        proof { assert(tn_views(v, 0) =~= Seq::<TypeView>::empty()); }
        return Some(v);
    }
    proof { assert(decreases_to!(es => es[i as int])); }
    let t = match infer_expr_type(&es[i], None, env, fs) {
        Some(t) => t,
        None => return None,
    };
    let rest = match infer_exprs_types(es, i + 1, env, fs) {
        Some(rest) => rest,
        None => return None,
    };
    let ghost rest_views = tn_views(rest, 0);
    let ghost first = tn_view(t);
    let mut v: Vec<TypeName> = Vec::new();
    v.push(t);
    let mut rest = rest;
    let ghost rest_copy = rest;
    v.append(&mut rest);
    proof {
        lemma_tn_views(v, 0);
        lemma_tn_views(rest_copy, 0);
        assert(tn_views(v, 0) =~= seq![first] + rest_views);
    }
    Some(v)
}

/// The type arguments of a call of the generic function `f` that gives none (see
/// `infer_targs`), or the message why they cannot be inferred.
pub fn infer_type_args_for_call(f: &syntax::Function, args: &Vec<Expr>, expected: Option<&TypeName>, env: &Vec<(String, TypeName)>, fs: &Vec<syntax::Function>) -> (r: Result<Vec<TypeName>, String>)
    ensures
        match infer_targs(*f, *args, opt_view(expected), bindings_view(env@), fs@) {
            Ok(t) => r is Ok && tn_views(r->Ok_0, 0) == t,
            Err(m) => r is Err && r->Err_0@ == m,
        },
    decreases args, 1int,
{
    let ghost ev = bindings_view(env@);
    let ghost tps = names_view(f.type_params@);
    let mut b: Vec<(String, TypeName)> = Vec::new();
    proof { assert(bindings_view(b@) =~= Seq::<(Seq<char>, TypeView)>::empty()); }
    let mut i: usize = 0;
    while i < args.len() && i < f.params.len()
        invariant
            i <= args.len(),
            ev == bindings_view(env@),
            tps == names_view(f.type_params@),
            bind_args(*f, *args, 0, ev, fs@, Seq::empty()) == bind_args(*f, *args, i as int, ev, fs@, bindings_view(b@)),
        decreases args.len() - i,
    {
        proof { assert(decreases_to!(args => args[i as int])); }
        let at = infer_expr_type(&args[i], None, env, fs);
        match at {
            Some(t) => {
                match unify_generic_type_name(&f.params[i].ty, &t, &f.type_params, &mut b) {
                    Ok(()) => {},
                    Err(m) => {
                        let mut msg = quoted_message("generic function ", f.name.as_str(), " argument ");
                        push_decimal(&mut msg, (i + 1) as u64);
                        msg.append(" constraint failed: ");
                        msg.append(m.as_str());
                        return Err(msg);
                    },
                }
            },
            None => {},
        }
        i = i + 1;
    }
    let ghost b1 = bindings_view(b@);
    proof { assert(bind_args(*f, *args, 0, ev, fs@, Seq::empty()) == Ok::<Seq<(Seq<char>, TypeView)>, Seq<char>>(b1)); }
    match expected {
        Some(x) => {
            match unify_generic_type_name(&f.return_ty, x, &f.type_params, &mut b) {
                Ok(()) => {},
                Err(m) => {
                    let msg = concat(quoted_message("generic function ", f.name.as_str(), " return constraint failed: "), m.as_str());
                    return Err(msg);
                },
            }
        },
        None => {},
    }
    let ghost bv = bindings_view(b@);
    proof {
        let r2 = match opt_view(expected) {
            Some(x) => match unify_v(tn_view(f.return_ty), x, tps, b1) {
                Ok(b2) => Ok(b2),
                Err(m) => Err(return_failure(f.name@, m)),
            },
            None => Ok(b1),
        };
        assert(r2 == Ok::<Seq<(Seq<char>, TypeView)>, Seq<char>>(bv));
    }
    let ghost target = infer_targs(*f, *args, opt_view(expected), ev, fs@);
    proof {
        assert(target == match first_unbound(tps, bv, 0) {
            Some(j) => Err(uninferred(f.name@, tps[j])),
            None => Ok(Seq::new(tps.len(), |j: int| binding_lookup(bv, tps[j])->0)),
        });
    }
    let mut out: Vec<TypeName> = Vec::new();
    let mut j: usize = 0;
    while j < f.type_params.len()
        invariant
            j <= f.type_params.len(),
            out.len() == j,
            bv == bindings_view(b@),
            tps == names_view(f.type_params@),
            first_unbound(tps, bv, 0) == first_unbound(tps, bv, j as int),
            target == infer_targs(*f, *args, opt_view(expected), bindings_view(env@), fs@),
            target == match first_unbound(tps, bv, 0) {
                Some(j) => Err(uninferred(f.name@, tps[j])),
                None => Ok(Seq::new(tps.len(), |j: int| binding_lookup(bv, tps[j])->0)),
            },
            forall|k: int| 0 <= k < j ==> binding_lookup(bv, tps[k]) is Some && tn_view(#[trigger] out@[k]) == binding_lookup(bv, tps[k])->0,
        decreases f.type_params.len() - j,
    {
        match lookup_binding(&b, f.type_params[j].as_str()) {
            Some(t) => {
                out.push(clone_type_name(t));
            },
            None => {
                proof {
                    assert(tps[j as int] == f.type_params@[j as int]@);
                    assert(binding_lookup(bv, tps[j as int]) is None);
                    assert(first_unbound(tps, bv, j as int) == Some(j as int));
                }
                let msg = concat(quoted_message("generic function ", f.name.as_str(), " could not infer type parameter "),
                    quote(f.type_params[j].as_str()).as_str());
                proof { assert(msg@ =~= uninferred(f.name@, tps[j as int])); }
                return Err(msg);
            },
        }
        j = j + 1;
    }
    proof {
        lemma_tn_views(out, 0);
        assert(tn_views(out, 0) =~= Seq::new(tps.len(), |k: int| binding_lookup(bv, tps[k])->0));
    }
    Ok(out)
}

// ---------------------------------------------------------------------------
// Expressions.

/// The type arguments a call of `name` ends up with: the ones it gives, or, for a
/// generic function given none, the inferred ones.
pub open spec fn call_targs(name: Seq<char>, type_args: Vec<TypeName>, args: Vec<Expr>, expected: Option<TypeView>, env: Seq<(Seq<char>, TypeView)>, fs: Seq<syntax::Function>) -> Result<Seq<TypeView>, Seq<char>> {
    match generic_index(fs, name) {
        Some(k) => if type_args.len() == 0 {
            infer_targs(fs[k], args, expected, env, fs)
        } else {
            Ok(tn_views(type_args, 0))
        },
        None => Ok(tn_views(type_args, 0)),
    }
}

/// The type the argument at position `i` of a call of `name` with the type arguments
/// `targs` is expected to have: its parameter's type under the type arguments, where
/// `name` is generic and the call gives one type argument per type parameter.
pub open spec fn arg_expected(name: Seq<char>, targs: Seq<TypeView>, fs: Seq<syntax::Function>, i: int) -> Option<TypeView> {
    match generic_index(fs, name) {
        Some(k) => if targs.len() == fs[k].type_params.len() && 0 <= i < fs[k].params.len() {
            Some(subst_v(tn_view(fs[k].params[i].ty), inst_bindings(fs[k], targs)))
        } else {
            None
        },
        None => None,
    }
}

/// The first failure, in evaluation order, to infer the type arguments of a call in `e`,
/// with where the call stands.
pub open spec fn expr_infer_problem(e: Expr, expected: Option<TypeView>, env: Seq<(Seq<char>, TypeView)>, fs: Seq<syntax::Function>) -> Option<(Seq<char>, usize, usize)>
    decreases e, 0int,
{
    match e {
        Expr::Call { name, type_args, args, line, column } => match call_targs(name@, type_args, args, expected, env, fs) {
            Err(m) => Some((m, line, column)),
            Ok(t) => args_infer_problem(args, 0, name@, t, env, fs),
        },
        Expr::BinaryAdd { lhs, rhs, .. } => match expr_infer_problem(*lhs, expected, env, fs) {
            Some(p) => Some(p),
            None => expr_infer_problem(*rhs, expected, env, fs),
        },
        Expr::BinaryCompare { lhs, rhs, .. } => match expr_infer_problem(*lhs, None, env, fs) {
            Some(p) => Some(p),
            None => expr_infer_problem(*rhs, None, env, fs),
        },
        Expr::BinaryLogic { lhs, rhs, .. } => match expr_infer_problem(*lhs, Some(TypeView::Bool), env, fs) {
            Some(p) => Some(p),
            None => expr_infer_problem(*rhs, Some(TypeView::Bool), env, fs),
        },
        Expr::Unary { expr, .. } => expr_infer_problem(*expr, None, env, fs),
        Expr::TupleLiteral { elements, .. } => args_infer_problem(elements, 0, Seq::empty(), Seq::empty(), env, fs),
        Expr::ArrayLiteral { elements, .. } => args_infer_problem(elements, 0, Seq::empty(), Seq::empty(), env, fs),
        Expr::Cast { expr, ty, .. } => expr_infer_problem(*expr, Some(tn_view(ty)), env, fs),
        _ => None,
    }
}

/// `expr_infer_problem` for the arguments of a call of `name` from position `i` on.
pub open spec fn args_infer_problem(args: Vec<Expr>, i: int, name: Seq<char>, targs: Seq<TypeView>, env: Seq<(Seq<char>, TypeView)>, fs: Seq<syntax::Function>) -> Option<(Seq<char>, usize, usize)>
    decreases args, args.len() - i,
{
    if i < 0 || i >= args.len() {
        None
    } else {
        match expr_infer_problem(args[i], arg_expected(name, targs, fs, i), env, fs) {
            Some(p) => Some(p),
            None => args_infer_problem(args, i + 1, name, targs, env, fs),
        }
    }
}

/// `r` is `e` with every call given the type arguments it ends up with (the arguments
/// of a call of a generic function expected to have their parameters' types; the
/// operands of a sum the type of the sum, those of a comparison nothing, those of a
/// logical operator `Bool`).
pub open spec fn expr_inferred(e: Expr, expected: Option<TypeView>, env: Seq<(Seq<char>, TypeView)>, fs: Seq<syntax::Function>, r: Expr) -> bool
    decreases e, 0int,
{
    match e {
        Expr::Call { name, type_args, args, line, column } => match call_targs(name@, type_args, args, expected, env, fs) {
            Err(_) => false,
            Ok(t) => {
                &&& r matches Expr::Call { name: n2, type_args: t2, args: a2, line: l2, column: c2 }
                &&& n2 == name && tn_views(t2, 0) == t && l2 == line && c2 == column
                &&& a2@.len() == args.len()
                &&& args_inferred(args, a2@, 0, name@, t, env, fs)
            },
        },
        Expr::BinaryAdd { op, lhs, rhs, line, column } => {
            &&& r matches Expr::BinaryAdd { op: o2, lhs: l2, rhs: r2, line: ln2, column: c2 }
            &&& o2 == op && ln2 == line && c2 == column
            &&& expr_inferred(*lhs, expected, env, fs, *l2) && expr_inferred(*rhs, expected, env, fs, *r2)
        },
        Expr::BinaryCompare { op, lhs, rhs, line, column } => {
            &&& r matches Expr::BinaryCompare { op: o2, lhs: l2, rhs: r2, line: ln2, column: c2 }
            &&& o2 == op && ln2 == line && c2 == column
            &&& expr_inferred(*lhs, None, env, fs, *l2) && expr_inferred(*rhs, None, env, fs, *r2)
        },
        Expr::BinaryLogic { op, lhs, rhs, line, column } => {
            &&& r matches Expr::BinaryLogic { op: o2, lhs: l2, rhs: r2, line: ln2, column: c2 }
            &&& o2 == op && ln2 == line && c2 == column
            &&& expr_inferred(*lhs, Some(TypeView::Bool), env, fs, *l2) && expr_inferred(*rhs, Some(TypeView::Bool), env, fs, *r2)
        },
        Expr::Unary { op, expr, line, column } => {
            &&& r matches Expr::Unary { op: o2, expr: x2, line: ln2, column: c2 }
            &&& o2 == op && ln2 == line && c2 == column
            &&& expr_inferred(*expr, None, env, fs, *x2)
        },
        Expr::TupleLiteral { elements, line, column } => {
            &&& r matches Expr::TupleLiteral { elements: x2, line: ln2, column: c2 }
            &&& ln2 == line && c2 == column
            &&& x2@.len() == elements.len()
            &&& args_inferred(elements, x2@, 0, Seq::empty(), Seq::empty(), env, fs)
        },
        Expr::ArrayLiteral { elements, line, column } => {
            &&& r matches Expr::ArrayLiteral { elements: x2, line: ln2, column: c2 }
            &&& ln2 == line && c2 == column
            &&& x2@.len() == elements.len()
            &&& args_inferred(elements, x2@, 0, Seq::empty(), Seq::empty(), env, fs)
        },
        Expr::Cast { expr, ty, line, column } => {
            &&& r matches Expr::Cast { expr: x2, ty: t2, line: ln2, column: c2 }
            &&& ln2 == line && c2 == column && tn_view(t2) == tn_view(ty)
            &&& expr_inferred(*expr, Some(tn_view(ty)), env, fs, *x2)
        },
        _ => r == e,
    }
}

/// `expr_inferred` for the arguments of a call of `name` from position `i` on, each
/// against the item at the same position of `out`.
pub open spec fn args_inferred(args: Vec<Expr>, out: Seq<Expr>, i: int, name: Seq<char>, targs: Seq<TypeView>, env: Seq<(Seq<char>, TypeView)>, fs: Seq<syntax::Function>) -> bool
    decreases args, args.len() - i,
{
    if i < 0 || i >= args.len() {
        true
    } else {
        &&& i < out.len()
        &&& expr_inferred(args[i], arg_expected(name, targs, fs, i), env, fs, out[i])
        &&& args_inferred(args, out, i + 1, name, targs, env, fs)
    }
}

proof fn lemma_args_inferred(args: Vec<Expr>, out: Seq<Expr>, i: int, name: Seq<char>, targs: Seq<TypeView>, env: Seq<(Seq<char>, TypeView)>, fs: Seq<syntax::Function>)
    requires
        0 <= i,
        out.len() == args.len(),
        forall|k: int| 0 <= k < args.len() ==> expr_inferred(#[trigger] args[k], arg_expected(name, targs, fs, k), env, fs, out[k]),
    ensures
        args_inferred(args, out, i, name, targs, env, fs),
    decreases args.len() - i,
{
    if i < args.len() {
        lemma_args_inferred(args, out, i + 1, name, targs, env, fs);
    }
}

/// Gives every call in `e` the type arguments it ends up with (see `expr_inferred`).
pub fn infer_generic_calls_in_expr(e: &Expr, expected: Option<&TypeName>, env: &Vec<(String, TypeName)>, fs: &Vec<syntax::Function>) -> (r: Result<Expr, Diagnostic>)
    ensures
        match expr_infer_problem(*e, opt_view(expected), bindings_view(env@), fs@) {
            Some((m, l, c)) => r is Err && type_error(r->Err_0, m, l, c),
            None => r is Ok && expr_inferred(*e, opt_view(expected), bindings_view(env@), fs@, r->Ok_0),
        },
    decreases e, 0int,
{
    let bool_ty = TypeName::Bool;
    match e {
        Expr::Literal(lit) => {
            let copy = match lit {
                Literal::Int(v) => Literal::Int(*v),
                Literal::Bool(v) => Literal::Bool(*v),
                Literal::String(v) => Literal::String(v.clone()),
            };
            Ok(Expr::Literal(copy))
        },
        Expr::VarRef { name, line, column } => Ok(Expr::VarRef { name: name.clone(), line: *line, column: *column }),
        Expr::Call { name, type_args, args, line, column } => {
            let targs: Vec<TypeName> = match find_generic(fs, name.as_str()) {
                Some(k) => if type_args.len() == 0 {
                    match infer_type_args_for_call(&fs[k], args, expected, env, fs) {
                        Ok(t) => t,
                        Err(m) => return Err(type_error_at(m, *line, *column)),
                    }
                } else {
                    clone_type_names(type_args)
                },
                None => clone_type_names(type_args),
            };
            let out = infer_generic_calls_in_args(args, name, &targs, env, fs)?;
            Ok(Expr::Call { name: name.clone(), type_args: targs, args: out, line: *line, column: *column })
        },
        Expr::BinaryAdd { op, lhs, rhs, line, column } => {
            let l = infer_generic_calls_in_expr(lhs, expected, env, fs)?;
            let r = infer_generic_calls_in_expr(rhs, expected, env, fs)?;
            Ok(Expr::BinaryAdd { op: *op, lhs: Box::new(l), rhs: Box::new(r), line: *line, column: *column })
        },
        Expr::BinaryCompare { op, lhs, rhs, line, column } => {
            let l = infer_generic_calls_in_expr(lhs, None, env, fs)?;
            let r = infer_generic_calls_in_expr(rhs, None, env, fs)?;
            Ok(Expr::BinaryCompare { op: *op, lhs: Box::new(l), rhs: Box::new(r), line: *line, column: *column })
        },
        Expr::BinaryLogic { op, lhs, rhs, line, column } => {
            let l = infer_generic_calls_in_expr(lhs, Some(&bool_ty), env, fs)?;
            let r = infer_generic_calls_in_expr(rhs, Some(&bool_ty), env, fs)?;
            Ok(Expr::BinaryLogic { op: *op, lhs: Box::new(l), rhs: Box::new(r), line: *line, column: *column })
        },
        Expr::Unary { op, expr, line, column } => {
            let x = infer_generic_calls_in_expr(expr, None, env, fs)?;
            Ok(Expr::Unary { op: *op, expr: Box::new(x), line: *line, column: *column })
        },
        Expr::TupleLiteral { elements, line, column } => {
            let no_name = String::new();
            let no_targs: Vec<TypeName> = Vec::new();
            proof { lemma_tn_views(no_targs, 0); assert(tn_views(no_targs, 0) =~= Seq::<TypeView>::empty()); }
            let x = infer_generic_calls_in_args(elements, &no_name, &no_targs, env, fs)?;
            Ok(Expr::TupleLiteral { elements: x, line: *line, column: *column })
        },
        Expr::ArrayLiteral { elements, line, column } => {
            let no_name = String::new();
            let no_targs: Vec<TypeName> = Vec::new();
            proof { lemma_tn_views(no_targs, 0); assert(tn_views(no_targs, 0) =~= Seq::<TypeView>::empty()); }
            let x = infer_generic_calls_in_args(elements, &no_name, &no_targs, env, fs)?;
            Ok(Expr::ArrayLiteral { elements: x, line: *line, column: *column })
        },
        Expr::Cast { expr, ty, line, column } => {
            let x = infer_generic_calls_in_expr(expr, Some(ty), env, fs)?;
            Ok(Expr::Cast { expr: Box::new(x), ty: clone_type_name(ty), line: *line, column: *column })
        },
    }
}

/// Gives every call in the arguments of a call of `name` with the type arguments
/// `targs` the type arguments it ends up with, in order.
fn infer_generic_calls_in_args(args: &Vec<Expr>, name: &String, targs: &Vec<TypeName>, env: &Vec<(String, TypeName)>, fs: &Vec<syntax::Function>) -> (r: Result<Vec<Expr>, Diagnostic>)
    ensures
        match args_infer_problem(*args, 0, name@, tn_views(*targs, 0), bindings_view(env@), fs@) {
            Some((m, l, c)) => r is Err && type_error(r->Err_0, m, l, c),
            None => {
                &&& r is Ok
                &&& r->Ok_0@.len() == args.len()
                &&& args_inferred(*args, r->Ok_0@, 0, name@, tn_views(*targs, 0), bindings_view(env@), fs@)
            },
        },
    decreases args, 1int,
{
    let ghost ev = bindings_view(env@);
    let ghost tv = tn_views(*targs, 0);
    proof { lemma_tn_views(*targs, 0); }
    let g = find_generic(fs, name.as_str());
    let bound: Option<Vec<(String, TypeName)>> = match g {
        Some(k) => if targs.len() == fs[k].type_params.len() {
            Some(generic_type_bindings(&fs[k], targs))
        } else {
            None
        },
        None => None,
    };
    let mut out: Vec<Expr> = Vec::new();
    let mut i: usize = 0;
    while i < args.len()
        invariant
            i <= args.len(),
            out.len() == i,
            ev == bindings_view(env@),
            tv == tn_views(*targs, 0),
            g is Some <==> generic_index(fs@, name@) is Some,
            g is Some ==> g->0 as int == generic_index(fs@, name@)->0 && g->0 < fs.len(),
            match bound {
                Some(b) => g is Some && tv.len() == fs@[g->0 as int].type_params.len()
                    && bindings_view(b@) == inst_bindings(fs@[g->0 as int], tv),
                None => g is None || tv.len() != fs@[g->0 as int].type_params.len(),
            },
            args_infer_problem(*args, 0, name@, tv, ev, fs@) == args_infer_problem(*args, i as int, name@, tv, ev, fs@),
            forall|k: int| 0 <= k < i ==> expr_inferred(#[trigger] args@[k], arg_expected(name@, tv, fs@, k), ev, fs@, out@[k]),
        decreases args.len() - i,
    {
        proof { assert(decreases_to!(args => args[i as int])); }
        let expected_arg: Option<TypeName> = match (&bound, g) {
            (Some(b), Some(k)) => if i < fs[k].params.len() {
                Some(substitute_type_name(&fs[k].params[i].ty, b))
            } else {
                None
            },
            _ => None,
        };
        proof {
            assert(expected_arg is Some ==> arg_expected(name@, tv, fs@, i as int) == Some(tn_view(expected_arg->0)));
            assert(expected_arg is None ==> arg_expected(name@, tv, fs@, i as int) is None);
        }
        let x = match &expected_arg {
            Some(t) => infer_generic_calls_in_expr(&args[i], Some(t), env, fs)?,
            None => infer_generic_calls_in_expr(&args[i], None, env, fs)?,
        };
        out.push(x);
        i = i + 1;
    }
    proof { lemma_args_inferred(*args, out@, 0, name@, tv, ev, fs@); }
    Ok(out)
}

// ---------------------------------------------------------------------------
// Statements.

/// The variables in scope after `s`, given those in scope before: a `let` adds its
/// variable with its declared type.
pub open spec fn stmt_env(s: Stmt, env: Seq<(Seq<char>, TypeView)>) -> Seq<(Seq<char>, TypeView)> {
    match s {
        Stmt::Let { name, ty, .. } => env.push((name@, tn_view(ty))),
        _ => env,
    }
}

/// The variables in scope before the statement at position `i` of `block`.
pub open spec fn block_env(block: Vec<Stmt>, i: int, env: Seq<(Seq<char>, TypeView)>) -> Seq<(Seq<char>, TypeView)>
    decreases i,
{
    if i <= 0 {
        env
    } else {
        stmt_env(block[i - 1], block_env(block, i - 1, env))
    }
}

/// The first failure to infer type arguments in `s`, in order, where `ret` is the
/// return type of the enclosing function, if any: a `let` expects its declared type, a
/// `return` the return type, a condition `Bool`; a block sees the variables declared
/// before it, and its own only after they are declared.
pub open spec fn stmt_infer_problem(s: Stmt, env: Seq<(Seq<char>, TypeView)>, ret: Option<TypeView>, fs: Seq<syntax::Function>) -> Option<(Seq<char>, usize, usize)>
    decreases s,
{
    match s {
        Stmt::Let { ty, expr, .. } => expr_infer_problem(expr, Some(tn_view(ty)), env, fs),
        Stmt::Print { expr, .. } | Stmt::Panic { expr, .. } | Stmt::Defer { expr, .. } => expr_infer_problem(expr, None, env, fs),
        Stmt::Assign { target, expr, .. } => match expr_infer_problem(target, None, env, fs) {
            Some(p) => Some(p),
            None => expr_infer_problem(expr, None, env, fs),
        },
        Stmt::Return { expr, .. } => expr_infer_problem(expr, ret, env, fs),
        Stmt::If { cond, then_block, else_block, .. } => match expr_infer_problem(cond, Some(TypeView::Bool), env, fs) {
            Some(p) => Some(p),
            None => match block_infer_problem(then_block, 0, env, ret, fs) {
                Some(p) => Some(p),
                None => match else_block {
                    Some(x) => block_infer_problem(x, 0, env, ret, fs),
                    None => None,
                },
            },
        },
        Stmt::While { cond, body, .. } => match expr_infer_problem(cond, Some(TypeView::Bool), env, fs) {
            Some(p) => Some(p),
            None => block_infer_problem(body, 0, env, ret, fs),
        },
        Stmt::Match { expr, arms, .. } => match expr_infer_problem(expr, None, env, fs) {
            Some(p) => Some(p),
            None => arms_infer_problem(arms, 0, env, ret, fs),
        },
        Stmt::Break { .. } | Stmt::Continue { .. } => None,
    }
}

/// `stmt_infer_problem` for the statements from position `i` on, each seeing the
/// variables declared before it.
pub open spec fn block_infer_problem(block: Vec<Stmt>, i: int, env: Seq<(Seq<char>, TypeView)>, ret: Option<TypeView>, fs: Seq<syntax::Function>) -> Option<(Seq<char>, usize, usize)>
    decreases block, block.len() - i,
{
    if i < 0 || i >= block.len() {
        None
    } else {
        match stmt_infer_problem(block[i], env, ret, fs) {
            Some(p) => Some(p),
            None => block_infer_problem(block, i + 1, stmt_env(block[i], env), ret, fs),
        }
    }
}

/// `block_infer_problem` for the bodies of the arms from position `i` on.
pub open spec fn arms_infer_problem(arms: Vec<MatchArm>, i: int, env: Seq<(Seq<char>, TypeView)>, ret: Option<TypeView>, fs: Seq<syntax::Function>) -> Option<(Seq<char>, usize, usize)>
    decreases arms, arms.len() - i,
{
    if i < 0 || i >= arms.len() {
        None
    } else {
        match block_infer_problem(arms[i].body, 0, env, ret, fs) {
            Some(p) => Some(p),
            None => arms_infer_problem(arms, i + 1, env, ret, fs),
        }
    }
}

/// `r` is `s` with every call given the type arguments it ends up with.
pub open spec fn stmt_inferred(s: Stmt, env: Seq<(Seq<char>, TypeView)>, ret: Option<TypeView>, fs: Seq<syntax::Function>, r: Stmt) -> bool
    decreases s,
{
    match s {
        Stmt::Let { name, ty, expr, line, column } => {
            &&& r matches Stmt::Let { name: n2, ty: t2, expr: e2, line: l2, column: c2 }
            &&& n2 == name && tn_view(t2) == tn_view(ty) && l2 == line && c2 == column
            &&& expr_inferred(expr, Some(tn_view(ty)), env, fs, e2)
        },
        Stmt::Print { expr, line, column } => {
            &&& r matches Stmt::Print { expr: e2, line: l2, column: c2 }
            &&& l2 == line && c2 == column && expr_inferred(expr, None, env, fs, e2)
        },
        Stmt::Panic { expr, line, column } => {
            &&& r matches Stmt::Panic { expr: e2, line: l2, column: c2 }
            &&& l2 == line && c2 == column && expr_inferred(expr, None, env, fs, e2)
        },
        Stmt::Defer { expr, line, column } => {
            &&& r matches Stmt::Defer { expr: e2, line: l2, column: c2 }
            &&& l2 == line && c2 == column && expr_inferred(expr, None, env, fs, e2)
        },
        Stmt::Assign { target, expr, line, column } => {
            &&& r matches Stmt::Assign { target: t2, expr: e2, line: l2, column: c2 }
            &&& l2 == line && c2 == column && expr_inferred(target, None, env, fs, t2) && expr_inferred(expr, None, env, fs, e2)
        },
        Stmt::Return { expr, line, column } => {
            &&& r matches Stmt::Return { expr: e2, line: l2, column: c2 }
            &&& l2 == line && c2 == column && expr_inferred(expr, ret, env, fs, e2)
        },
        Stmt::If { cond, then_block, else_block, line, column } => {
            &&& r matches Stmt::If { cond: c2, then_block: t2, else_block: e2, line: l2, column: col2 }
            &&& l2 == line && col2 == column && expr_inferred(cond, Some(TypeView::Bool), env, fs, c2)
            &&& t2@.len() == then_block.len() && block_inferred(then_block, t2@, 0, env, ret, fs)
            &&& match (else_block, e2) {
                (Some(x), Some(y)) => y@.len() == x.len() && block_inferred(x, y@, 0, env, ret, fs),
                (None, None) => true,
                _ => false,
            }
        },
        Stmt::While { cond, body, line, column } => {
            &&& r matches Stmt::While { cond: c2, body: b2, line: l2, column: col2 }
            &&& l2 == line && col2 == column && expr_inferred(cond, Some(TypeView::Bool), env, fs, c2)
            &&& b2@.len() == body.len() && block_inferred(body, b2@, 0, env, ret, fs)
        },
        Stmt::Match { expr, arms, line, column } => {
            &&& r matches Stmt::Match { expr: e2, arms: a2, line: l2, column: c2 }
            &&& l2 == line && c2 == column && expr_inferred(expr, None, env, fs, e2)
            &&& a2@.len() == arms.len() && arms_inferred(arms, a2@, 0, env, ret, fs)
        },
        Stmt::Break { .. } | Stmt::Continue { .. } => r == s,
    }
}

/// `stmt_inferred` for the statements from position `i` on, against the same positions
/// of `out`, each seeing the variables declared before it.
pub open spec fn block_inferred(block: Vec<Stmt>, out: Seq<Stmt>, i: int, env: Seq<(Seq<char>, TypeView)>, ret: Option<TypeView>, fs: Seq<syntax::Function>) -> bool
    decreases block, block.len() - i,
{
    if i < 0 || i >= block.len() {
        true
    } else {
        &&& i < out.len()
        &&& stmt_inferred(block[i], env, ret, fs, out[i])
        &&& block_inferred(block, out, i + 1, stmt_env(block[i], env), ret, fs)
    }
}

/// The arms from position `i` on are those of `out` at the same positions: the same
/// variants and bindings, their bodies inferred.
pub open spec fn arms_inferred(arms: Vec<MatchArm>, out: Seq<MatchArm>, i: int, env: Seq<(Seq<char>, TypeView)>, ret: Option<TypeView>, fs: Seq<syntax::Function>) -> bool
    decreases arms, arms.len() - i,
{
    if i < 0 || i >= arms.len() {
        true
    } else {
        &&& i < out.len()
        &&& out[i].variant == arms[i].variant && out[i].bindings@ == arms[i].bindings@ && out[i].is_named == arms[i].is_named
        &&& out[i].line == arms[i].line && out[i].column == arms[i].column
        &&& out[i].body@.len() == arms[i].body.len() && block_inferred(arms[i].body, out[i].body@, 0, env, ret, fs)
        &&& arms_inferred(arms, out, i + 1, env, ret, fs)
    }
}

proof fn lemma_block_inferred(block: Vec<Stmt>, out: Seq<Stmt>, i: int, env: Seq<(Seq<char>, TypeView)>, ret: Option<TypeView>, fs: Seq<syntax::Function>)
    requires
        0 <= i,
        out.len() == block.len(),
        forall|k: int| 0 <= k < block.len() ==> stmt_inferred(#[trigger] block[k], block_env(block, k, env), ret, fs, out[k]),
    ensures
        block_inferred(block, out, i, block_env(block, i, env), ret, fs),
    decreases block.len() - i,
{
    if i < block.len() {
        lemma_block_inferred(block, out, i + 1, env, ret, fs);
        assert(block_env(block, i + 1, env) == stmt_env(block[i], block_env(block, i, env)));
    }
}

proof fn lemma_arms_inferred(arms: Vec<MatchArm>, out: Seq<MatchArm>, i: int, env: Seq<(Seq<char>, TypeView)>, ret: Option<TypeView>, fs: Seq<syntax::Function>)
    requires
        0 <= i,
        out.len() == arms.len(),
        forall|k: int| 0 <= k < arms.len() ==> {
            &&& (#[trigger] out[k]).variant == arms[k].variant && out[k].bindings@ == arms[k].bindings@ && out[k].is_named == arms[k].is_named
            &&& out[k].line == arms[k].line && out[k].column == arms[k].column
            &&& out[k].body@.len() == arms[k].body.len() && block_inferred(arms[k].body, out[k].body@, 0, env, ret, fs)
        },
    ensures
        arms_inferred(arms, out, i, env, ret, fs),
    decreases arms.len() - i,
{
    if i < arms.len() {
        lemma_arms_inferred(arms, out, i + 1, env, ret, fs);
    }
}

/// A copy of a list of bindings.
fn clone_bindings(b: &Vec<(String, TypeName)>) -> (r: Vec<(String, TypeName)>)
    ensures
        bindings_view(r@) == bindings_view(b@),
{
    let mut out: Vec<(String, TypeName)> = Vec::new();
    let mut i: usize = 0;
    while i < b.len()
        invariant
            i <= b.len(),
            out.len() == i,
            forall|k: int| 0 <= k < i ==> (#[trigger] out@[k]).0@ == b@[k].0@ && tn_view(out@[k].1) == tn_view(b@[k].1),
        decreases b.len() - i,
    {
        out.push((b[i].0.clone(), clone_type_name(&b[i].1)));
        i = i + 1;
    }
    proof { assert(bindings_view(out@) =~= bindings_view(b@)); }
    out
}

/// Gives every call in `s` the type arguments it ends up with (see `stmt_inferred`).
pub fn infer_generic_calls_in_stmt(s: &Stmt, env: &Vec<(String, TypeName)>, ret: Option<&TypeName>, fs: &Vec<syntax::Function>) -> (r: Result<Stmt, Diagnostic>)
    ensures
        match stmt_infer_problem(*s, bindings_view(env@), opt_view(ret), fs@) {
            Some((m, l, c)) => r is Err && type_error(r->Err_0, m, l, c),
            None => r is Ok && stmt_inferred(*s, bindings_view(env@), opt_view(ret), fs@, r->Ok_0),
        },
    decreases s,
{
    let bool_ty = TypeName::Bool;
    match s {
        Stmt::Let { name, ty, expr, line, column } => {
            let e = infer_generic_calls_in_expr(expr, Some(ty), env, fs)?;
            Ok(Stmt::Let { name: name.clone(), ty: clone_type_name(ty), expr: e, line: *line, column: *column })
        },
        Stmt::Print { expr, line, column } => {
            let e = infer_generic_calls_in_expr(expr, None, env, fs)?;
            Ok(Stmt::Print { expr: e, line: *line, column: *column })
        },
        Stmt::Panic { expr, line, column } => {
            let e = infer_generic_calls_in_expr(expr, None, env, fs)?;
            Ok(Stmt::Panic { expr: e, line: *line, column: *column })
        },
        Stmt::Defer { expr, line, column } => {
            let e = infer_generic_calls_in_expr(expr, None, env, fs)?;
            Ok(Stmt::Defer { expr: e, line: *line, column: *column })
        },
        Stmt::Assign { target, expr, line, column } => {
            let t = infer_generic_calls_in_expr(target, None, env, fs)?;
            let e = infer_generic_calls_in_expr(expr, None, env, fs)?;
            Ok(Stmt::Assign { target: t, expr: e, line: *line, column: *column })
        },
        Stmt::Return { expr, line, column } => {
            let e = infer_generic_calls_in_expr(expr, ret, env, fs)?;
            Ok(Stmt::Return { expr: e, line: *line, column: *column })
        },
        Stmt::If { cond, then_block, else_block, line, column } => {
            let c = infer_generic_calls_in_expr(cond, Some(&bool_ty), env, fs)?;
            let t = infer_generic_calls_in_block(then_block, env, ret, fs)?;
            let e = match else_block {
                Some(x) => Some(infer_generic_calls_in_block(x, env, ret, fs)?),
                None => None,
            };
            Ok(Stmt::If { cond: c, then_block: t, else_block: e, line: *line, column: *column })
        },
        Stmt::While { cond, body, line, column } => {
            let c = infer_generic_calls_in_expr(cond, Some(&bool_ty), env, fs)?;
            let bd = infer_generic_calls_in_block(body, env, ret, fs)?;
            Ok(Stmt::While { cond: c, body: bd, line: *line, column: *column })
        },
        Stmt::Match { expr, arms, line, column } => {
            let e = infer_generic_calls_in_expr(expr, None, env, fs)?;
            let a = infer_generic_calls_in_arms(arms, env, ret, fs)?;
            Ok(Stmt::Match { expr: e, arms: a, line: *line, column: *column })
        },
        Stmt::Break { line, column } => Ok(Stmt::Break { line: *line, column: *column }),
        Stmt::Continue { line, column } => Ok(Stmt::Continue { line: *line, column: *column }),
    }
}

/// Gives every call in `block` the type arguments it ends up with, statement by
/// statement, each seeing the variables declared before it.
pub fn infer_generic_calls_in_block(block: &Vec<Stmt>, env: &Vec<(String, TypeName)>, ret: Option<&TypeName>, fs: &Vec<syntax::Function>) -> (r: Result<Vec<Stmt>, Diagnostic>)
    ensures
        match block_infer_problem(*block, 0, bindings_view(env@), opt_view(ret), fs@) {
            Some((m, l, c)) => r is Err && type_error(r->Err_0, m, l, c),
            None => {
                &&& r is Ok
                &&& r->Ok_0@.len() == block.len()
                &&& block_inferred(*block, r->Ok_0@, 0, bindings_view(env@), opt_view(ret), fs@)
            },
        },
    decreases block, 0int,
{
    let ghost ev = bindings_view(env@);
    let ghost rv = opt_view(ret);
    let mut scope = clone_bindings(env);
    let mut out: Vec<Stmt> = Vec::new();
    let mut i: usize = 0;
    proof { assert(block_env(*block, 0, ev) == ev); }
    while i < block.len()
        invariant
            i <= block.len(),
            out.len() == i,
            ev == bindings_view(env@),
            rv == opt_view(ret),
            bindings_view(scope@) == block_env(*block, i as int, ev),
            block_infer_problem(*block, 0, ev, rv, fs@) == block_infer_problem(*block, i as int, bindings_view(scope@), rv, fs@),
            forall|k: int| 0 <= k < i ==> stmt_inferred(#[trigger] block@[k], block_env(*block, k, ev), rv, fs@, out@[k]),
        decreases block.len() - i,
    {
        proof { assert(decreases_to!(block => block[i as int])); }
        let x = infer_generic_calls_in_stmt(&block[i], &scope, ret, fs)?;
        let ghost before = bindings_view(scope@);
        match &block[i] {
            Stmt::Let { name, ty, .. } => {
                scope.push((name.clone(), clone_type_name(ty)));
                proof { assert(bindings_view(scope@) =~= before.push((name@, tn_view(*ty)))); }
            },
            _ => {},
        }
        proof { assert(block_env(*block, i + 1, ev) == stmt_env(block@[i as int], block_env(*block, i as int, ev))); }
        out.push(x);
        i = i + 1;
    }
    proof { lemma_block_inferred(*block, out@, 0, ev, rv, fs@); }
    Ok(out)
}

/// Gives every call in the body of each arm the type arguments it ends up with, in order.
fn infer_generic_calls_in_arms(arms: &Vec<MatchArm>, env: &Vec<(String, TypeName)>, ret: Option<&TypeName>, fs: &Vec<syntax::Function>) -> (r: Result<Vec<MatchArm>, Diagnostic>)
    ensures
        match arms_infer_problem(*arms, 0, bindings_view(env@), opt_view(ret), fs@) {
            Some((m, l, c)) => r is Err && type_error(r->Err_0, m, l, c),
            None => {
                &&& r is Ok
                &&& r->Ok_0@.len() == arms.len()
                &&& arms_inferred(*arms, r->Ok_0@, 0, bindings_view(env@), opt_view(ret), fs@)
            },
        },
    decreases arms, 0int,
{
    let ghost ev = bindings_view(env@);
    let ghost rv = opt_view(ret);
    let mut out: Vec<MatchArm> = Vec::new();
    let mut i: usize = 0;
    while i < arms.len()
        invariant
            i <= arms.len(),
            out.len() == i,
            ev == bindings_view(env@),
            rv == opt_view(ret),
            arms_infer_problem(*arms, 0, ev, rv, fs@) == arms_infer_problem(*arms, i as int, ev, rv, fs@),
            forall|k: int| 0 <= k < i ==> {
                &&& (#[trigger] out@[k]).variant == arms@[k].variant && out@[k].bindings@ == arms@[k].bindings@ && out@[k].is_named == arms@[k].is_named
                &&& out@[k].line == arms@[k].line && out@[k].column == arms@[k].column
                &&& out@[k].body@.len() == arms@[k].body.len() && block_inferred(arms@[k].body, out@[k].body@, 0, ev, rv, fs@)
            },
        decreases arms.len() - i,
    {
        proof { assert(decreases_to!(arms => arms[i as int])); }
        let arm = &arms[i];
        let body = infer_generic_calls_in_block(&arm.body, env, ret, fs)?;
        out.push(MatchArm {
            variant: arm.variant.clone(),
            bindings: crate::lower_stmt::clone_strings(&arm.bindings),
            is_named: arm.is_named,
            body,
            line: arm.line,
            column: arm.column,
        });
        i = i + 1;
    }
    proof { lemma_arms_inferred(*arms, out@, 0, ev, rv, fs@); }
    Ok(out)
}

// ---------------------------------------------------------------------------
// Functions and programs.

/// The variables in scope at the start of a body: the parameters, in order.
pub open spec fn param_env(params: Vec<syntax::Param>) -> Seq<(Seq<char>, TypeView)> {
    Seq::new(params@.len(), |k: int| (params@[k].name@, tn_view(params@[k].ty)))
}

/// The first failure to infer type arguments in the body of `f`.
pub open spec fn fn_infer_problem(f: syntax::Function, fs: Seq<syntax::Function>) -> Option<(Seq<char>, usize, usize)> {
    block_infer_problem(f.body, 0, param_env(f.params), Some(tn_view(f.return_ty)), fs)
}

/// `r` is `f` with every call in its body given the type arguments it ends up with, the
/// parameters in scope and the return type expected of what it returns.
#[verifier::opaque]
pub open spec fn fn_inferred(f: syntax::Function, fs: Seq<syntax::Function>, r: syntax::Function) -> bool {
    &&& r.name == f.name && r.source_name == f.source_name && r.path == f.path && r.type_params@ == f.type_params@
    &&& r.params@.len() == f.params.len()
    &&& forall|k: int| 0 <= k < f.params.len() ==> {
        &&& (#[trigger] r.params@[k]).name == f.params[k].name
        &&& tn_view(r.params@[k].ty) == tn_view(f.params[k].ty)
        &&& r.params@[k].line == f.params[k].line && r.params@[k].column == f.params[k].column
    }
    &&& tn_view(r.return_ty) == tn_view(f.return_ty)
    &&& r.body@.len() == f.body.len()
    &&& block_inferred(f.body, r.body@, 0, param_env(f.params), Some(tn_view(f.return_ty)), fs)
    &&& r.is_const == f.is_const && r.is_async == f.is_async && r.is_extern == f.is_extern
    &&& r.extern_abi == f.extern_abi && r.extern_library == f.extern_library
    &&& r.line == f.line && r.column == f.column
}

/// The first failure, in order, in the bodies of the functions from position `i` on.
pub open spec fn fns_infer_problem(fns: Vec<syntax::Function>, i: int, fs: Seq<syntax::Function>) -> Option<(Seq<char>, usize, usize)>
    decreases fns.len() - i,
{
    if i < 0 || i >= fns.len() {
        None
    } else if fn_infer_problem(fns[i], fs) is Some {
        fn_infer_problem(fns[i], fs)
    } else {
        fns_infer_problem(fns, i + 1, fs)
    }
}

/// The first failure to infer type arguments in a program: in the function bodies, in
/// order, then in the top-level statements (which expect no return type).
pub open spec fn program_infer_problem(fns: Vec<syntax::Function>, stmts: Vec<Stmt>) -> Option<(Seq<char>, usize, usize)> {
    match fns_infer_problem(fns, 0, fns@) {
        Some(p) => Some(p),
        None => block_infer_problem(stmts, 0, Seq::empty(), None, fns@),
    }
}

/// `fs2` and `st2` are the functions `fns` and the top-level statements `stmts` with
/// every call given the type arguments it ends up with.
pub open spec fn program_inferred(fns: Vec<syntax::Function>, stmts: Vec<Stmt>, fs2: Seq<syntax::Function>, st2: Seq<Stmt>) -> bool {
    &&& fs2.len() == fns.len()
    &&& forall|i: int| 0 <= i < fns.len() ==> fn_inferred(fns[i], fns@, #[trigger] fs2[i])
    &&& st2.len() == stmts.len()
    &&& block_inferred(stmts, st2, 0, Seq::empty(), None, fns@)
}

fn clone_opt_text(s: &Option<String>) -> (r: Option<String>)
    ensures
        r == *s,
{
    match s {
        Some(v) => Some(v.clone()),
        None => None,
    }
}

/// Gives every call in the body of `f` the type arguments it ends up with.
pub fn infer_generic_calls_in_function(f: &syntax::Function, fs: &Vec<syntax::Function>) -> (r: Result<syntax::Function, Diagnostic>)
    ensures
        match fn_infer_problem(*f, fs@) {
            Some((m, l, c)) => r is Err && type_error(r->Err_0, m, l, c),
            None => r is Ok && fn_inferred(*f, fs@, r->Ok_0),
        },
{
    let mut env: Vec<(String, TypeName)> = Vec::new();
    let mut params: Vec<syntax::Param> = Vec::new();
    let mut k: usize = 0;
    while k < f.params.len()
        invariant
            k <= f.params.len(),
            env.len() == k,
            params.len() == k,
            forall|j: int| 0 <= j < k ==> (#[trigger] env@[j]).0@ == f.params@[j].name@ && tn_view(env@[j].1) == tn_view(f.params@[j].ty),
            forall|j: int| 0 <= j < k ==> {
                &&& (#[trigger] params@[j]).name == f.params@[j].name
                &&& tn_view(params@[j].ty) == tn_view(f.params@[j].ty)
                &&& params@[j].line == f.params@[j].line && params@[j].column == f.params@[j].column
            },
        decreases f.params.len() - k,
    {
        let p = &f.params[k];
        env.push((p.name.clone(), clone_type_name(&p.ty)));
        params.push(syntax::Param { name: p.name.clone(), ty: clone_type_name(&p.ty), line: p.line, column: p.column });
        k = k + 1;
    }
    proof { assert(bindings_view(env@) =~= param_env(f.params)); }
    let body = infer_generic_calls_in_block(&f.body, &env, Some(&f.return_ty), fs)?;
    proof { reveal(fn_inferred); }
    Ok(syntax::Function {
        name: f.name.clone(),
        source_name: f.source_name.clone(),
        path: f.path.clone(),
        type_params: crate::lower_stmt::clone_strings(&f.type_params),
        params,
        return_ty: clone_type_name(&f.return_ty),
        body,
        is_const: f.is_const,
        is_async: f.is_async,
        is_extern: f.is_extern,
        extern_abi: clone_opt_text(&f.extern_abi),
        extern_library: clone_opt_text(&f.extern_library),
        line: f.line,
        column: f.column,
    })
}

/// Gives every call in the function bodies `fns` and in the top-level statements `stmts`
/// the type arguments it ends up with, the generic functions of `fns` serving as the
/// signatures that calls are inferred against.
pub fn infer_generic_call_type_args(fns: &Vec<syntax::Function>, stmts: &Vec<Stmt>) -> (r: Result<(Vec<syntax::Function>, Vec<Stmt>), Diagnostic>)
    ensures
        match program_infer_problem(*fns, *stmts) {
            Some((m, l, c)) => r is Err && type_error(r->Err_0, m, l, c),
            None => r is Ok && program_inferred(*fns, *stmts, r->Ok_0.0@, r->Ok_0.1@),
        },
{
    let mut out: Vec<syntax::Function> = Vec::new();
    let mut i: usize = 0;
    while i < fns.len()
        invariant
            i <= fns.len(),
            out.len() == i,
            fns_infer_problem(*fns, 0, fns@) == fns_infer_problem(*fns, i as int, fns@),
            forall|k: int| 0 <= k < i ==> fn_inferred(fns@[k], fns@, #[trigger] out@[k]),
        decreases fns.len() - i,
    {
        let f = infer_generic_calls_in_function(&fns[i], fns)?;
        out.push(f);
        i = i + 1;
    }
    let empty: Vec<(String, TypeName)> = Vec::new();
    proof { assert(bindings_view(empty@) =~= Seq::<(Seq<char>, TypeView)>::empty()); }
    let st = infer_generic_calls_in_block(stmts, &empty, None, fns)?;
    Ok((out, st))
}

// ---------------------------------------------------------------------------
// Inference keeps every span.

proof fn lemma_expr_inferred_spans(e: Expr, expected: Option<TypeView>, env: Seq<(Seq<char>, TypeView)>, fs: Seq<syntax::Function>, r: Expr)
    requires
        expr_inferred(e, expected, env, fs, r),
        syntax::expr_spans_ok(e),
    ensures
        syntax::expr_spans_ok(r),
    decreases e, 0int,
{
    match e {
        Expr::Call { name, type_args, args, .. } => {
            if let Expr::Call { args: a2, .. } = r {
                let t = call_targs(name@, type_args, args, expected, env, fs)->Ok_0;
                lemma_args_inferred_spans(args, a2, 0, name@, t, env, fs);
            }
        },
        Expr::BinaryAdd { lhs, rhs, .. } => {
            if let Expr::BinaryAdd { lhs: l2, rhs: r2, .. } = r {
                lemma_expr_inferred_spans(*lhs, expected, env, fs, *l2);
                lemma_expr_inferred_spans(*rhs, expected, env, fs, *r2);
            }
        },
        Expr::BinaryCompare { lhs, rhs, .. } => {
            if let Expr::BinaryCompare { lhs: l2, rhs: r2, .. } = r {
                lemma_expr_inferred_spans(*lhs, None, env, fs, *l2);
                lemma_expr_inferred_spans(*rhs, None, env, fs, *r2);
            }
        },
        Expr::BinaryLogic { lhs, rhs, .. } => {
            if let Expr::BinaryLogic { lhs: l2, rhs: r2, .. } = r {
                lemma_expr_inferred_spans(*lhs, Some(TypeView::Bool), env, fs, *l2);
                lemma_expr_inferred_spans(*rhs, Some(TypeView::Bool), env, fs, *r2);
            }
        },
        Expr::Unary { expr, .. } => {
            if let Expr::Unary { expr: x2, .. } = r {
                lemma_expr_inferred_spans(*expr, None, env, fs, *x2);
            }
        },
        Expr::TupleLiteral { elements, .. } => {
            if let Expr::TupleLiteral { elements: x2, .. } = r {
                lemma_args_inferred_spans(elements, x2, 0, Seq::empty(), Seq::empty(), env, fs);
            }
        },
        Expr::ArrayLiteral { elements, .. } => {
            if let Expr::ArrayLiteral { elements: x2, .. } = r {
                lemma_args_inferred_spans(elements, x2, 0, Seq::empty(), Seq::empty(), env, fs);
            }
        },
        Expr::Cast { expr, ty, .. } => {
            if let Expr::Cast { expr: x2, .. } = r {
                lemma_expr_inferred_spans(*expr, Some(tn_view(ty)), env, fs, *x2);
            }
        },
        _ => {},
    }
}

proof fn lemma_args_inferred_spans(args: Vec<Expr>, out: Vec<Expr>, i: int, name: Seq<char>, targs: Seq<TypeView>, env: Seq<(Seq<char>, TypeView)>, fs: Seq<syntax::Function>)
    requires
        out@.len() == args.len(),
        args_inferred(args, out@, i, name, targs, env, fs),
        syntax::args_spans_ok(args, i),
    ensures
        syntax::args_spans_ok(out, i),
    decreases args, args.len() - i,
{
    if 0 <= i < args.len() {
        lemma_expr_inferred_spans(args[i], arg_expected(name, targs, fs, i), env, fs, out@[i]);
        lemma_args_inferred_spans(args, out, i + 1, name, targs, env, fs);
    }
}

proof fn lemma_stmt_inferred_spans(s: Stmt, env: Seq<(Seq<char>, TypeView)>, ret: Option<TypeView>, fs: Seq<syntax::Function>, r: Stmt)
    requires
        stmt_inferred(s, env, ret, fs, r),
        syntax::stmt_spans_ok(s),
    ensures
        syntax::stmt_spans_ok(r),
    decreases s,
{
    match s {
        Stmt::Let { ty, expr, .. } => {
            if let Stmt::Let { expr: e2, .. } = r { lemma_expr_inferred_spans(expr, Some(tn_view(ty)), env, fs, e2); }
        },
        Stmt::Print { expr, .. } => {
            if let Stmt::Print { expr: e2, .. } = r { lemma_expr_inferred_spans(expr, None, env, fs, e2); }
        },
        Stmt::Panic { expr, .. } => {
            if let Stmt::Panic { expr: e2, .. } = r { lemma_expr_inferred_spans(expr, None, env, fs, e2); }
        },
        Stmt::Defer { expr, .. } => {
            if let Stmt::Defer { expr: e2, .. } = r { lemma_expr_inferred_spans(expr, None, env, fs, e2); }
        },
        Stmt::Assign { target, expr, .. } => {
            if let Stmt::Assign { target: t2, expr: e2, .. } = r {
                lemma_expr_inferred_spans(target, None, env, fs, t2);
                lemma_expr_inferred_spans(expr, None, env, fs, e2);
            }
        },
        Stmt::Return { expr, .. } => {
            if let Stmt::Return { expr: e2, .. } = r { lemma_expr_inferred_spans(expr, ret, env, fs, e2); }
        },
        Stmt::If { cond, then_block, else_block, .. } => {
            if let Stmt::If { cond: c2, then_block: t2, else_block: e2, .. } = r {
                lemma_expr_inferred_spans(cond, Some(TypeView::Bool), env, fs, c2);
                lemma_block_inferred_spans(then_block, t2, 0, env, ret, fs);
                match (else_block, e2) {
                    (Some(x), Some(y)) => lemma_block_inferred_spans(x, y, 0, env, ret, fs),
                    _ => {},
                }
            }
        },
        Stmt::While { cond, body, .. } => {
            if let Stmt::While { cond: c2, body: b2, .. } = r {
                lemma_expr_inferred_spans(cond, Some(TypeView::Bool), env, fs, c2);
                lemma_block_inferred_spans(body, b2, 0, env, ret, fs);
            }
        },
        Stmt::Match { expr, arms, .. } => {
            if let Stmt::Match { expr: e2, arms: a2, .. } = r {
                lemma_expr_inferred_spans(expr, None, env, fs, e2);
                lemma_arms_inferred_spans(arms, a2, 0, env, ret, fs);
            }
        },
        _ => {},
    }
}

proof fn lemma_block_inferred_spans(block: Vec<Stmt>, out: Vec<Stmt>, i: int, env: Seq<(Seq<char>, TypeView)>, ret: Option<TypeView>, fs: Seq<syntax::Function>)
    requires
        out@.len() == block.len(),
        block_inferred(block, out@, i, env, ret, fs),
        syntax::block_spans_ok(block, i),
    ensures
        syntax::block_spans_ok(out, i),
    decreases block, block.len() - i,
{
    if 0 <= i < block.len() {
        lemma_stmt_inferred_spans(block[i], env, ret, fs, out@[i]);
        lemma_block_inferred_spans(block, out, i + 1, stmt_env(block[i], env), ret, fs);
    }
}

proof fn lemma_arms_inferred_spans(arms: Vec<MatchArm>, out: Vec<MatchArm>, i: int, env: Seq<(Seq<char>, TypeView)>, ret: Option<TypeView>, fs: Seq<syntax::Function>)
    requires
        out@.len() == arms.len(),
        arms_inferred(arms, out@, i, env, ret, fs),
        syntax::arms_spans_ok(arms, i),
    ensures
        syntax::arms_spans_ok(out, i),
    decreases arms, arms.len() - i,
{
    if 0 <= i < arms.len() {
        lemma_block_inferred_spans(arms[i].body, out@[i].body, 0, env, ret, fs);
        lemma_arms_inferred_spans(arms, out, i + 1, env, ret, fs);
    }
}

/// Inference keeps the spans of the functions and statements it completes.
pub proof fn lemma_program_inferred_spans(fns: Vec<syntax::Function>, stmts: Vec<Stmt>, fs2: Vec<syntax::Function>, st2: Vec<Stmt>)
    requires
        program_inferred(fns, stmts, fs2@, st2@),
        forall|i: int| 0 <= i < fns.len() ==> syntax::block_spans_ok(#[trigger] fns[i].body, 0),
        syntax::block_spans_ok(stmts, 0),
    ensures
        forall|i: int| 0 <= i < fs2.len() ==> syntax::block_spans_ok(#[trigger] fs2[i].body, 0),
        syntax::block_spans_ok(st2, 0),
{
    assert forall|i: int| 0 <= i < fs2.len() implies syntax::block_spans_ok(#[trigger] fs2[i].body, 0) by {
        assert(fn_inferred(fns[i], fns@, fs2@[i]));
        reveal(fn_inferred);
        lemma_block_inferred_spans(fns[i].body, fs2[i].body, 0, param_env(fns[i].params), Some(tn_view(fns[i].return_ty)), fns@);
    }
    lemma_block_inferred_spans(stmts, st2, 0, Seq::empty(), None, fns@);
}

} // verus!
