//! Laws of single operations: what unification binds, which tuples are copied, which
//! match arms are missing, what port a URL names, and what a constant difference is.
use vstd::prelude::*;
use crate::capabilities::http_url_parts;
use crate::const_eval::{apply_op, const_value};
use crate::generic_inference::{unify_list, unify_v};
use crate::lower_stmt::missing_variants;
use crate::model::Type;
use crate::monomorphize::{TypeView, binding_lookup, lemma_subst_vs, subst_v, subst_vs};
use crate::syntax;
use crate::syntax::ArithmeticOp;
use crate::types::{all_copyable, copyable};

verus! {

// ---------------------------------------------------------------------------
// Unification.

/// Unifying the pattern `Result<T, E>` (two distinct type parameters, neither bound yet)
/// with a type `Result<A1, A2>` binds `T` to the ok type `A1` and `E` to the error type
/// `A2`, whatever those are; the pattern instantiated by the new bindings is the type given.
pub proof fn lemma_unify_result_binds_each_side(t1: Seq<char>, t2: Seq<char>, a1: TypeView, a2: TypeView, tps: Seq<Seq<char>>, b: Seq<(Seq<char>, TypeView)>)
    requires
        tps.contains(t1),
        tps.contains(t2),
        t1 != t2,
        binding_lookup(b, t1) is None,
        binding_lookup(b, t2) is None,
    ensures
        ({
            let p = TypeView::Result(Box::new(TypeView::Named(t1, Seq::empty())), Box::new(TypeView::Named(t2, Seq::empty())));
            let r = unify_v(p, TypeView::Result(Box::new(a1), Box::new(a2)), tps, b);
            &&& r == Ok::<Seq<(Seq<char>, TypeView)>, Seq<char>>(b.push((t1, a1)).push((t2, a2)))
            &&& binding_lookup(r->Ok_0, t1) == Some(a1)
            &&& binding_lookup(r->Ok_0, t2) == Some(a2)
            &&& subst_v(p, r->Ok_0) == TypeView::Result(Box::new(a1), Box::new(a2))
        }),
{
    let b1 = b.push((t1, a1));
    let b2 = b1.push((t2, a2));
    assert(b1.drop_last() =~= b);
    assert(b2.drop_last() =~= b1);
    assert(binding_lookup(b1, t2) == binding_lookup(b, t2));
    assert(binding_lookup(b2, t1) == binding_lookup(b1, t1));
    assert(binding_lookup(b1, t1) == Some(a1));
    assert(binding_lookup(b2, t2) == Some(a2));
    let p1 = TypeView::Named(t1, Seq::<TypeView>::empty());
    let p2 = TypeView::Named(t2, Seq::<TypeView>::empty());
    assert(unify_v(p1, a1, tps, b) == Ok::<Seq<(Seq<char>, TypeView)>, Seq<char>>(b1));
    assert(unify_v(p2, a2, tps, b1) == Ok::<Seq<(Seq<char>, TypeView)>, Seq<char>>(b2));
    assert(subst_v(p1, b2) == a1);
    assert(subst_v(p2, b2) == a2);
}

/// Unifying the pattern `Map<K, V>` (two distinct type parameters, neither bound yet)
/// with a type `Map<A1, A2>` binds `K` to the key type `A1` and `V` to the value type
/// `A2`; the pattern instantiated by the new bindings is the type given.
pub proof fn lemma_unify_map_binds_key_and_value(t1: Seq<char>, t2: Seq<char>, a1: TypeView, a2: TypeView, tps: Seq<Seq<char>>, b: Seq<(Seq<char>, TypeView)>)
    requires
        tps.contains(t1),
        tps.contains(t2),
        t1 != t2,
        binding_lookup(b, t1) is None,
        binding_lookup(b, t2) is None,
    ensures
        ({
            let p = TypeView::MapOf(Box::new(TypeView::Named(t1, Seq::empty())), Box::new(TypeView::Named(t2, Seq::empty())));
            let r = unify_v(p, TypeView::MapOf(Box::new(a1), Box::new(a2)), tps, b);
            &&& r == Ok::<Seq<(Seq<char>, TypeView)>, Seq<char>>(b.push((t1, a1)).push((t2, a2)))
            &&& subst_v(p, r->Ok_0) == TypeView::MapOf(Box::new(a1), Box::new(a2))
        }),
{
    let b1 = b.push((t1, a1));
    let b2 = b1.push((t2, a2));
    assert(b1.drop_last() =~= b);
    assert(b2.drop_last() =~= b1);
    assert(binding_lookup(b1, t2) == binding_lookup(b, t2));
    assert(binding_lookup(b2, t1) == binding_lookup(b1, t1));
    let p1 = TypeView::Named(t1, Seq::<TypeView>::empty());
    let p2 = TypeView::Named(t2, Seq::<TypeView>::empty());
    assert(unify_v(p1, a1, tps, b) == Ok::<Seq<(Seq<char>, TypeView)>, Seq<char>>(b1));
    assert(unify_v(p2, a2, tps, b1) == Ok::<Seq<(Seq<char>, TypeView)>, Seq<char>>(b2));
    assert(subst_v(p1, b2) == a1);
    assert(subst_v(p2, b2) == a2);
}

/// Every type parameter in `t` (a name of `tps` given without type arguments) is bound in
/// `b`, and no other name given without type arguments is.
pub open spec fn params_all_bound(t: TypeView, tps: Seq<Seq<char>>, b: Seq<(Seq<char>, TypeView)>) -> bool
    decreases t, 0int,
{
    match t {
        TypeView::Named(n, args) => if args.len() == 0 {
            tps.contains(n) == (binding_lookup(b, n) is Some)
        } else {
            params_all_bound_from(args, 0, tps, b)
        },
        TypeView::Ptr(x) => params_all_bound(*x, tps, b),
        TypeView::MutPtr(x) => params_all_bound(*x, tps, b),
        TypeView::MutRef(x) => params_all_bound(*x, tps, b),
        TypeView::Slice(x) => params_all_bound(*x, tps, b),
        TypeView::MutSlice(x) => params_all_bound(*x, tps, b),
        TypeView::LifetimeSlice(_, x) => params_all_bound(*x, tps, b),
        TypeView::LifetimeMutSlice(_, x) => params_all_bound(*x, tps, b),
        TypeView::Option(x) => params_all_bound(*x, tps, b),
        TypeView::Array(x, _) => params_all_bound(*x, tps, b),
        TypeView::Result(x, y) => params_all_bound(*x, tps, b) && params_all_bound(*y, tps, b),
        TypeView::MapOf(x, y) => params_all_bound(*x, tps, b) && params_all_bound(*y, tps, b),
        TypeView::Tuple(xs) => params_all_bound_from(xs, 0, tps, b),
        TypeView::Fn(xs, x) => params_all_bound_from(xs, 0, tps, b) && params_all_bound(*x, tps, b),
        _ => true,
    }
}

/// `params_all_bound` of each of `ts` from position `i` on.
pub open spec fn params_all_bound_from(ts: Seq<TypeView>, i: int, tps: Seq<Seq<char>>, b: Seq<(Seq<char>, TypeView)>) -> bool
    decreases ts, ts.len() - i,
{
    if i < 0 || i >= ts.len() {
        true
    } else {
        params_all_bound(ts[i], tps, b) && params_all_bound_from(ts, i + 1, tps, b)
    }
}

/// Unifying a signature type with its own instance under bindings that already bind every
/// one of its type parameters succeeds and binds nothing new: each parameter is checked
/// against the type at its own position in the instance (the ok side of a `Result`
/// against the ok side, each tuple element against the same element, and so on).
pub proof fn lemma_unify_with_own_instance(p: TypeView, tps: Seq<Seq<char>>, b: Seq<(Seq<char>, TypeView)>)
    requires
        params_all_bound(p, tps, b),
    ensures
        unify_v(p, subst_v(p, b), tps, b) == Ok::<Seq<(Seq<char>, TypeView)>, Seq<char>>(b),
    decreases p, 0int,
{
    match p {
        TypeView::Named(n, args) => {
            if args.len() != 0 {
                lemma_subst_vs(args, 0, b);
                lemma_unify_list_with_own_instance(args, 0, tps, b);
            }
        },
        TypeView::Ptr(x) => lemma_unify_with_own_instance(*x, tps, b),
        TypeView::MutPtr(x) => lemma_unify_with_own_instance(*x, tps, b),
        TypeView::MutRef(x) => lemma_unify_with_own_instance(*x, tps, b),
        TypeView::Slice(x) => lemma_unify_with_own_instance(*x, tps, b),
        TypeView::MutSlice(x) => lemma_unify_with_own_instance(*x, tps, b),
        TypeView::LifetimeSlice(_, x) => lemma_unify_with_own_instance(*x, tps, b),
        TypeView::LifetimeMutSlice(_, x) => lemma_unify_with_own_instance(*x, tps, b),
        TypeView::Option(x) => lemma_unify_with_own_instance(*x, tps, b),
        TypeView::Array(x, _) => lemma_unify_with_own_instance(*x, tps, b),
        TypeView::Result(x, y) => {
            lemma_unify_with_own_instance(*x, tps, b);
            lemma_unify_with_own_instance(*y, tps, b);
        },
        TypeView::MapOf(x, y) => {
            lemma_unify_with_own_instance(*x, tps, b);
            lemma_unify_with_own_instance(*y, tps, b);
        },
        TypeView::Tuple(xs) => {
            lemma_subst_vs(xs, 0, b);
            lemma_unify_list_with_own_instance(xs, 0, tps, b);
        },
        TypeView::Fn(xs, x) => {
            lemma_subst_vs(xs, 0, b);
            lemma_unify_list_with_own_instance(xs, 0, tps, b);
            lemma_unify_with_own_instance(*x, tps, b);
        },
        _ => {},
    }
}

proof fn lemma_unify_list_with_own_instance(xs: Seq<TypeView>, i: int, tps: Seq<Seq<char>>, b: Seq<(Seq<char>, TypeView)>)
    requires
        0 <= i <= xs.len(),
        params_all_bound_from(xs, i, tps, b),
    ensures
        unify_list(xs, subst_vs(xs, 0, b), i, tps, b) == Ok::<Seq<(Seq<char>, TypeView)>, Seq<char>>(b),
    decreases xs, xs.len() - i,
{
    lemma_subst_vs(xs, 0, b);
    if i < xs.len() {
        assert(decreases_to!(xs => xs[i]));
        lemma_unify_with_own_instance(xs[i], tps, b);
        assert(subst_vs(xs, 0, b)[i] == subst_v(xs[i], b));
        lemma_unify_list_with_own_instance(xs, i + 1, tps, b);
    }
}

// ---------------------------------------------------------------------------
// Copy types.

proof fn lemma_all_copyable_from(ts: Vec<Type>, i: int)
    requires
        0 <= i <= ts@.len(),
    ensures
        all_copyable(ts, i) <==> forall|k: int| i <= k < ts@.len() ==> copyable(#[trigger] ts@[k]),
    decreases ts@.len() - i,
{
    if i < ts@.len() {
        lemma_all_copyable_from(ts, i + 1);
    }
}

/// A tuple type is copied rather than moved exactly when every one of its element types
/// is (so the empty tuple and `(int, bool)` are copied, `(int, String)` is moved).
pub proof fn lemma_tuple_copyable_iff_elements(elements: Vec<Type>)
    ensures
        copyable(Type::Tuple(elements)) <==> forall|k: int| 0 <= k < elements@.len() ==> copyable(#[trigger] elements@[k]),
{
    lemma_all_copyable_from(elements, 0);
}

// ---------------------------------------------------------------------------
// Match coverage.

proof fn lemma_missing_from(shapes: Seq<(Seq<char>, Seq<Type>, Seq<Seq<char>>)>, arms: Vec<syntax::MatchArm>, k: int)
    requires
        0 <= k <= shapes.len(),
    ensures
        forall|v: Seq<char>| #[trigger] missing_variants(shapes, arms, k).contains(v) <==> exists|i: int| k <= i < shapes.len() && shapes[i].0 == v
            && forall|j: int| 0 <= j < arms.len() ==> #[trigger] arms[j].variant@ != v,
    decreases shapes.len() - k,
{
    if k < shapes.len() {
        lemma_missing_from(shapes, arms, k + 1);
        let rest = missing_variants(shapes, arms, k + 1);
        let named = exists|j: int| 0 <= j < arms.len() && #[trigger] arms[j].variant@ == shapes[k].0;
        assert forall|v: Seq<char>| #[trigger] missing_variants(shapes, arms, k).contains(v) <==> exists|i: int| k <= i < shapes.len() && shapes[i].0 == v
            && forall|j: int| 0 <= j < arms.len() ==> #[trigger] arms[j].variant@ != v by {
            if named {
                assert(missing_variants(shapes, arms, k) == rest);
                if exists|i: int| k <= i < shapes.len() && shapes[i].0 == v && forall|j: int| 0 <= j < arms.len() ==> #[trigger] arms[j].variant@ != v {
                    let i = choose|i: int| k <= i < shapes.len() && shapes[i].0 == v && forall|j: int| 0 <= j < arms.len() ==> #[trigger] arms[j].variant@ != v;
                    if i == k {
                        let j = choose|j: int| 0 <= j < arms.len() && #[trigger] arms[j].variant@ == shapes[k].0;
                        assert(arms[j].variant@ != v);
                    }
                }
            } else {
                let m = seq![shapes[k].0] + rest;
                assert(missing_variants(shapes, arms, k) == m);
                if m.contains(v) {
                    let x = choose|x: int| 0 <= x < m.len() && m[x] == v;
                    if x > 0 {
                        assert(rest[x - 1] == v);
                        assert(rest.contains(v));
                    } else {
                        assert(forall|j: int| 0 <= j < arms.len() ==> #[trigger] arms[j].variant@ != v);
                    }
                }
                if exists|i: int| k <= i < shapes.len() && shapes[i].0 == v && forall|j: int| 0 <= j < arms.len() ==> #[trigger] arms[j].variant@ != v {
                    let i = choose|i: int| k <= i < shapes.len() && shapes[i].0 == v && forall|j: int| 0 <= j < arms.len() ==> #[trigger] arms[j].variant@ != v;
                    if i == k {
                        assert(m[0] == v);
                    } else {
                        assert(rest.contains(v));
                        let x = choose|x: int| 0 <= x < rest.len() && rest[x] == v;
                        assert(m[x + 1] == v);
                    }
                }
            }
        }
    }
}

/// The variants a match reports missing are exactly the declared variants, at any
/// position, that no arm names; so nothing is reported missing exactly when every
/// declared variant is named by some arm.
pub proof fn lemma_missing_variants_are_the_unnamed_ones(shapes: Seq<(Seq<char>, Seq<Type>, Seq<Seq<char>>)>, arms: Vec<syntax::MatchArm>)
    ensures
        forall|v: Seq<char>| #[trigger] missing_variants(shapes, arms, 0).contains(v) <==> exists|i: int| 0 <= i < shapes.len() && shapes[i].0 == v
            && forall|j: int| 0 <= j < arms.len() ==> #[trigger] arms[j].variant@ != v,
        missing_variants(shapes, arms, 0).len() == 0 <==> forall|i: int| 0 <= i < shapes.len()
            ==> exists|j: int| 0 <= j < arms.len() && #[trigger] arms[j].variant@ == #[trigger] shapes[i].0,
{
    lemma_missing_from(shapes, arms, 0);
    let m = missing_variants(shapes, arms, 0);
    if m.len() == 0 {
        assert forall|i: int| 0 <= i < shapes.len() implies exists|j: int| 0 <= j < arms.len() && #[trigger] arms[j].variant@ == #[trigger] shapes[i].0 by {
            if !exists|j: int| 0 <= j < arms.len() && #[trigger] arms[j].variant@ == shapes[i].0 {
                assert(forall|j: int| 0 <= j < arms.len() ==> #[trigger] arms[j].variant@ != shapes[i].0);
                assert(m.contains(shapes[i].0));
            }
        }
    } else {
        assert(m.contains(m[0]));
        let i = choose|i: int| 0 <= i < shapes.len() && shapes[i].0 == m[0] && forall|j: int| 0 <= j < arms.len() ==> #[trigger] arms[j].variant@ != m[0];
        assert(!exists|j: int| 0 <= j < arms.len() && #[trigger] arms[j].variant@ == shapes[i].0);
    }
}

// ---------------------------------------------------------------------------
// URL literals.

proof fn lemma_url_after_scheme(host: Seq<char>, path: Seq<char>)
    requires
        host.len() > 0,
        !host.contains(':'),
        !host.contains('/'),
    ensures
        ({
            let rest = host + "/"@ + path;
            &&& crate::capabilities::before_slash(rest) == host
            &&& crate::capabilities::after_slash(rest) == path
            &&& crate::capabilities::authority_host_port(host, 443u16) == Some((host, 443u16))
            &&& crate::capabilities::authority_host_port(host, 80u16) == Some((host, 80u16))
        }),
{
    reveal_strlit("/");
    let rest = host + "/"@ + path;
    let n = host.len() as int;
    assert(rest[n] == '/');
    assert(forall|j: int| 0 <= j < n ==> rest[j] == host[j]);
    assert(forall|j: int| 0 <= j < n ==> rest[j] != '/') by {
        assert forall|j: int| 0 <= j < n implies rest[j] != '/' by {
            if rest[j] == '/' {
                assert(host[j] == '/');
                assert(host.contains('/'));
            }
        }
    }
    let i = choose|i: int| 0 <= i < rest.len() && rest[i] == '/' && forall|j: int| 0 <= j < i ==> rest[j] != '/';
    assert(crate::text::first_index_of(rest, '/') == Some(i));
    assert(i == n);
    assert(rest.subrange(0, n) =~= host);
    assert(rest.subrange(n + 1, rest.len() as int) =~= path);
    assert(crate::text::last_index_of(host, ':') is None) by {
        if exists|x: int| 0 <= x < host.len() && host[x] == ':' {
            let x = choose|x: int| 0 <= x < host.len() && host[x] == ':';
            assert(host.contains(':'));
        }
    }
}

proof fn lemma_https_scheme(rest: Seq<char>)
    ensures
        crate::capabilities::url_scheme("https://"@ + rest) == Some(("https"@, rest, 443u16)),
{
    reveal_strlit("https://");
    reveal_strlit("http://");
    let s = "https://"@ + rest;
    assert(s.subrange(0, 7) != "http://"@) by {
        assert(s.subrange(0, 7)[4] == 's');
        assert("http://"@[4] == ':');
    }
    assert(s.subrange(0, 8) =~= "https://"@);
    assert(s.subrange(8, s.len() as int) =~= rest);
}

proof fn lemma_http_scheme(rest: Seq<char>)
    ensures
        crate::capabilities::url_scheme("http://"@ + rest) == Some(("http"@, rest, 80u16)),
{
    reveal_strlit("http://");
    let s = "http://"@ + rest;
    assert(s.subrange(0, 7) =~= "http://"@);
    assert(s.subrange(7, s.len() as int) =~= rest);
}

/// A literal `https://HOST/PATH` with no explicit port names port 443, and
/// `http://HOST/PATH` names port 80; the host is the text up to the first `/` and the
/// path what follows it (`/` when nothing does).
pub proof fn lemma_url_default_ports(host: Seq<char>, path: Seq<char>)
    requires
        host.len() > 0,
        !host.contains(':'),
        !host.contains('/'),
    ensures
        http_url_parts("https://"@ + (host + "/"@ + path))
            == Some(("https"@, host, 443u16, if path.len() == 0 { "/"@ } else { path })),
        http_url_parts("http://"@ + (host + "/"@ + path))
            == Some(("http"@, host, 80u16, if path.len() == 0 { "/"@ } else { path })),
{
    let rest = host + "/"@ + path;
    lemma_url_after_scheme(host, path);
    lemma_https_scheme(rest);
    lemma_http_scheme(rest);
    lemma_url_parts_from("https://"@ + rest, "https"@, rest, 443u16, host, path);
    lemma_url_parts_from("http://"@ + rest, "http"@, rest, 80u16, host, path);
}

proof fn lemma_url_parts_from(url: Seq<char>, scheme: Seq<char>, rest: Seq<char>, port: u16, host: Seq<char>, path: Seq<char>)
    requires
        crate::capabilities::url_scheme(url) == Some((scheme, rest, port)),
        crate::capabilities::before_slash(rest) == host,
        crate::capabilities::after_slash(rest) == path,
        crate::capabilities::authority_host_port(host, port) == Some((host, port)),
    ensures
        http_url_parts(url) == Some((scheme, host, port, if path.len() == 0 { "/"@ } else { path })),
{
}

// ---------------------------------------------------------------------------
// Constant arithmetic.

/// Subtraction undoes addition: `a - b` is the number that gives `a` when `b` is added.
pub proof fn lemma_difference_adds_back(a: int, b: int)
    ensures
        apply_op(ArithmeticOp::Add, apply_op(ArithmeticOp::Sub, a, b), b) == a,
        apply_op(ArithmeticOp::Sub, apply_op(ArithmeticOp::Add, a, b), b) == a,
{
}

/// The value of a constant `lhs - rhs` is the value of `lhs` less that of `rhs`: adding
/// the value of `rhs` back gives the value of `lhs` (so `5 - 2` is `3`, not `-3`).
pub proof fn lemma_const_difference(lhs: syntax::Expr, rhs: syntax::Expr, line: usize, column: usize)
    requires
        const_value(lhs) is Some,
        const_value(rhs) is Some,
    ensures
        ({
            let d = syntax::Expr::BinaryAdd { op: ArithmeticOp::Sub, lhs: Box::new(lhs), rhs: Box::new(rhs), line, column };
            &&& const_value(d) is Some
            &&& const_value(d)->0 + const_value(rhs)->0 == const_value(lhs)->0
        }),
{
}

} // verus!
