//! Lowering of source statements and blocks: bindings, control flow, loops and matches,
//! with the ownership state (which bindings are moved) joined where control flow meets.
use vstd::prelude::*;
use crate::capabilities::{net_origin_of, net_binding_origin_from_expr, type_error};
use crate::context::{Binding, LowerContext, binding_index, find_binding, find_signature, signature_index};
use crate::control_flow::{static_bool, static_bool_value, stmt_exits};
use crate::derivation::{
    Derivation, EdgeKind, LoopEdge, Outcome, Step, arms_at, blk_at, deriv_at, edges_at, env_at, ex_at,
    moved_flags, snapshot_moved, st_at, step, ty_at,
};
use crate::diagnostics::{Diagnostic, diag_fields, seq_order, str_compare};
use crate::lower_expr::{
    ctx_ok, env_frame, expr_rel, lower_expr, move_lowered_value, moved_after, opt_ty, ownership_error,
    ownership_error_at, point_span, quoted_message, count_message, got_message, type_error_at,
};
use crate::lower_types::{lower_type, type_rel};
use crate::model::{
    EnumDef, EnumVariantDef, Expr, MatchArm, SourceSpan, Stmt, Type, assignable, clone_type, expr_ty,
    type_assignable_to, type_eq,
};
use crate::render::{concat, debug_quoted, decimal, push_decimal, quote};
use crate::syntax;
use crate::syntax::{args_spans_ok, arms_spans_ok, block_spans_ok, expr_column, expr_line, expr_spans_ok, stmt_column, stmt_line, stmt_spans_ok};
use crate::recursion::{enum_def_index, struct_def_index};
use crate::types::{copyable, type_text};

verus! {

/// The message for statements after one that always leaves the block.
pub open spec fn unreachable_message() -> Seq<char> {
    "unreachable statements after a terminating control-flow statement are not yet supported in stage1"@
}

/// `d` is a `control` diagnostic with `message` at `line`, `column`.
pub open spec fn control_error(d: Diagnostic, message: Seq<char>, line: usize, column: usize) -> bool {
    diag_fields(d, "control"@, message, None, None, Some(line), Some(column))
}

/// Whether `print` accepts a value of type `t`.
pub open spec fn printable(t: Type) -> bool {
    t is Error || t is Int || t is Numeric || t is Bool || t is String || t is Str
}

/// The message for a rebinding of `name`, whose existing binding has a copy type or not.
pub open spec fn rebind_message(name: Seq<char>, copy: bool) -> Seq<char> {
    if copy {
        "rebinding name "@ + debug_quoted(name) + " is not supported in stage1"@
    } else {
        "rebinding name "@ + debug_quoted(name) + " is not supported; the existing binding holds an owned value"@
    }
}

/// The bindings after an `if`: those before it, each moved when a branch that falls
/// through moved it (a branch that always leaves the block contributes nothing).
pub open spec fn merge_branches(before: Seq<Binding>, then_after: Seq<Binding>, then_exits: bool, else_after: Option<Seq<Binding>>, else_exits: bool) -> Seq<Binding> {
    Seq::new(before.len(), |i: int| {
        let then_moved = if then_exits { before[i].moved } else { then_after[i].moved };
        let else_moved = match else_after {
            Some(after) => if else_exits { before[i].moved } else { after[i].moved },
            None => before[i].moved,
        };
        Binding { moved: then_moved || else_moved, ..before[i] }
    })
}

/// Binding `i` of `header` is an owned, unmoved value that `moved` marks moved.
pub open spec fn violates(header: Seq<Binding>, moved: Seq<bool>, i: int) -> bool {
    &&& 0 <= i < header.len()
    &&& i < moved.len()
    &&& !header[i].moved
    &&& !copyable(header[i].ty)
    &&& moved[i]
}

/// The smallest name, in string order, of a binding that an exit with the moved flags
/// `moved` would no longer have on the next iteration, if any.
pub open spec fn backedge_name(header: Seq<Binding>, moved: Seq<bool>) -> Option<Seq<char>> {
    if exists|i: int| #[trigger] violates(header, moved, i) {
        let i = choose|i: int| #[trigger] violates(header, moved, i)
            && forall|j: int| #[trigger] violates(header, moved, j) ==> seq_order(header[i].name@, header[j].name@) <= 0;
        Some(header[i].name@)
    } else {
        None
    }
}

/// The first loop exit from edge `k` on that continues the loop (a `continue`, then the
/// fall-through at the end of the body unless it always leaves) with a binding it moved.
pub open spec fn backedge_violation(header: Seq<Binding>, edges: Seq<LoopEdge>, k: int, after: Seq<Binding>, body_exits: bool) -> Option<Seq<char>>
    decreases edges.len() - k,
{
    if 0 <= k < edges.len() {
        if edges[k].kind == EdgeKind::Continue && backedge_name(header, edges[k].moved@) is Some {
            backedge_name(header, edges[k].moved@)
        } else {
            backedge_violation(header, edges, k + 1, after, body_exits)
        }
    } else if !body_exits {
        backedge_name(header, moved_flags(after))
    } else {
        None
    }
}

/// The message for a value moved inside a loop that a later iteration would use.
pub open spec fn loop_move_message(name: Seq<char>) -> Seq<char> {
    "cannot move non-copy value `"@ + name
        + "` inside loop body or condition \u{2014} value would not be available on subsequent iterations"@
}

/// The bindings after a loop: those at the body's entry, each moved when some exit of
/// the body (a `break`, a `continue`, or the fall-through) moved it.
pub open spec fn join_exits(entry: Seq<Binding>, edges: Seq<LoopEdge>, after: Seq<Binding>, body_exits: bool) -> Seq<Binding> {
    Seq::new(entry.len(), |i: int| Binding {
        moved: entry[i].moved || (exists|k: int| 0 <= k < edges.len() && #[trigger] edges[k].moved@[i]) || (!body_exits && after[i].moved),
        ..entry[i]
    })
}

/// `edges2` is `edges` with one more edge of `kind`, taken with the moved flags of `env`.
pub open spec fn edge_taken(edges: Seq<LoopEdge>, edges2: Seq<LoopEdge>, kind: EdgeKind, env: Seq<Binding>) -> bool {
    &&& edges2.len() == edges.len() + 1
    &&& edges2.take(edges.len() as int) == edges
    &&& edges2.last().kind == kind
    &&& edges2.last().moved@ == moved_flags(env)
}

/// The variants a `match` on a value of type `t` may name: those of a declared enum,
/// `Some`/`None` of an `Option`, `Ok`/`Err` of a `Result`; each as its name, payload
/// types and payload names.
pub open spec fn match_variants_of(t: Type, enums: Seq<EnumDef>) -> Option<(Seq<char>, Seq<(Seq<char>, Seq<Type>, Seq<Seq<char>>)>)> {
    match t {
        Type::Enum(name) => match enum_index(enums, name@) {
            Some(k) => Some((name@, Seq::new(enums[k].variants@.len(), |v: int| variant_shape(enums[k].variants@[v])))),
            None => None,
        },
        Type::Option(inner) => Some(("Option"@, seq![("Some"@, seq![*inner], Seq::empty()), ("None"@, Seq::empty(), Seq::empty())])),
        Type::Result(ok, err) => Some(("Result"@, seq![("Ok"@, seq![*ok], Seq::empty()), ("Err"@, seq![*err], Seq::empty())])),
        _ => None,
    }
}

/// A declared variant as its name, payload types and payload names.
pub open spec fn variant_shape(v: EnumVariantDef) -> (Seq<char>, Seq<Type>, Seq<Seq<char>>) {
    (v.name@, v.payload_tys@, Seq::new(v.payload_names@.len(), |k: int| v.payload_names@[k]@))
}

/// The position of the enum named `name`, if any (the first such).
pub open spec fn enum_index(enums: Seq<EnumDef>, name: Seq<char>) -> Option<int> {
    if exists|i: int| 0 <= i < enums.len() && enums[i].name@ == name {
        Some(choose|i: int| 0 <= i < enums.len() && enums[i].name@ == name && forall|j: int| 0 <= j < i ==> enums[j].name@ != name)
    } else {
        None
    }
}

/// The position of the first entry of `names` equal to `name`, if any.
pub open spec fn name_position(names: Seq<Seq<char>>, name: Seq<char>) -> Option<int> {
    if exists|i: int| 0 <= i < names.len() && names[i] == name {
        Some(choose|i: int| 0 <= i < names.len() && names[i] == name && forall|j: int| 0 <= j < i ==> names[j] != name)
    } else {
        None
    }
}

/// The names of variant shapes.
pub open spec fn shape_names(shapes: Seq<(Seq<char>, Seq<Type>, Seq<Seq<char>>)>) -> Seq<Seq<char>> {
    Seq::new(shapes.len(), |i: int| shapes[i].0)
}

/// The position of the variant named `name` among `shapes`, if any (the first such).
pub open spec fn shape_index(shapes: Seq<(Seq<char>, Seq<Type>, Seq<Seq<char>>)>, name: Seq<char>) -> Option<int> {
    name_position(shape_names(shapes), name)
}

/// Every variant shape either names no payloads or names each of its payloads.
pub open spec fn shapes_named_ok(shapes: Seq<(Seq<char>, Seq<Type>, Seq<Seq<char>>)>) -> bool {
    forall|k: int| 0 <= k < shapes.len() ==> (#[trigger] shapes[k]).2.len() == 0 || shapes[k].2.len() == shapes[k].1.len()
}

/// Without a problem among named bindings, every binding names a payload.
pub proof fn lemma_named_bindings_found(variant: Seq<char>, bindings: Seq<String>, j: int, names: Seq<Seq<char>>)
    requires
        0 <= j,
        named_binding_problem(variant, bindings, j, names) is None,
    ensures
        forall|m: int| j <= m < bindings.len() ==> name_position(names, #[trigger] bindings[m]@) is Some,
    decreases bindings.len() - j,
{
    if j < bindings.len() {
        lemma_named_bindings_found(variant, bindings, j + 1, names);
    }
}

/// The first problem, from binding `j` on, with named bindings of an arm of `variant`
/// whose payload names are `names`: a name the variant lacks, or a repeated name.
pub open spec fn named_binding_problem(variant: Seq<char>, bindings: Seq<String>, j: int, names: Seq<Seq<char>>) -> Option<Seq<char>>
    decreases bindings.len() - j,
{
    if j < 0 || j >= bindings.len() {
        None
    } else if name_position(names, bindings[j]@) is None {
        Some("match arm "@ + debug_quoted(variant) + " has no named payload "@ + debug_quoted(bindings[j]@))
    } else if exists|k: int| 0 <= k < j && #[trigger] bindings[k]@ == bindings[j]@ {
        Some("match arm "@ + debug_quoted(variant) + " repeats named payload "@ + debug_quoted(bindings[j]@))
    } else {
        named_binding_problem(variant, bindings, j + 1, names)
    }
}

/// The first binding, from `j` on, that clashes with a function name, a binding in
/// `scope`, or an earlier binding of the same arm.
pub open spec fn binding_clash(bindings: Seq<String>, j: int, scope: Seq<Binding>, functions: Seq<crate::context::FunctionSig>) -> Option<Seq<char>>
    decreases bindings.len() - j,
{
    if j < 0 || j >= bindings.len() {
        None
    } else if signature_index(functions, bindings[j]@) is Some {
        Some("match binding "@ + debug_quoted(bindings[j]@) + " conflicts with a function name"@)
    } else if binding_index(scope, bindings[j]@) is Some || exists|k: int| 0 <= k < j && #[trigger] bindings[k]@ == bindings[j]@ {
        Some("match binding "@ + debug_quoted(bindings[j]@) + " reuses an existing name in the current scope"@)
    } else {
        binding_clash(bindings, j + 1, scope, functions)
    }
}

/// The payload types bound by an arm's bindings: by position, or by payload name.
pub open spec fn bound_types(is_named: bool, bindings: Seq<String>, tys: Seq<Type>, names: Seq<Seq<char>>) -> Seq<Type> {
    if is_named {
        Seq::new(bindings.len(), |j: int| tys[name_position(names, bindings[j]@)->0])
    } else {
        tys
    }
}

/// `entry` is `scope` followed by the arm's bindings, unmoved, of types equal to `tys`.
pub open spec fn arm_entry(scope: Seq<Binding>, bindings: Seq<String>, tys: Seq<Type>, entry: Seq<Binding>) -> bool {
    &&& entry.len() == scope.len() + bindings.len()
    &&& entry.take(scope.len() as int) == scope
    &&& forall|j: int| 0 <= j < bindings.len() ==> {
        let b = #[trigger] entry[scope.len() + j];
        b.name == bindings[j] && type_eq(b.ty, tys[j]) && !b.moved && b.net_origin is None
    }
}

/// What is wrong with arm `i` of a match on enum `ename` with variants `shapes`, before
/// its body is lowered, if anything.
pub open spec fn arm_problem(ename: Seq<char>, shapes: Seq<(Seq<char>, Seq<Type>, Seq<Seq<char>>)>, arms: Vec<syntax::MatchArm>, i: int, scope: Seq<Binding>, functions: Seq<crate::context::FunctionSig>) -> Option<Seq<char>> {
    let arm = arms[i];
    let v = arm.variant@;
    let q = debug_quoted(v);
    match shape_index(shapes, v) {
        None => Some("enum "@ + debug_quoted(ename) + " has no variant "@ + q),
        Some(k) => {
            let (_, tys, names) = shapes[k];
            if exists|j: int| 0 <= j < i && #[trigger] arms[j].variant@ == v {
                Some("duplicate match arm "@ + q)
            } else if arm.is_named && names.len() == 0 {
                Some("match arm "@ + q + " uses named bindings, but variant "@ + q + " is positional"@)
            } else if arm.is_named && arm.bindings.len() != names.len() {
                Some("match arm "@ + q + " expects "@ + decimal(names.len()) + " named bindings, got "@ + decimal(arm.bindings.len() as nat))
            } else if arm.is_named && named_binding_problem(v, arm.bindings@, 0, names) is Some {
                named_binding_problem(v, arm.bindings@, 0, names)
            } else if !arm.is_named && names.len() > 0 {
                Some("match arm "@ + q + " must use named bindings for variant "@ + q)
            } else if !arm.is_named && arm.bindings.len() != tys.len() {
                Some("match arm "@ + q + " expects "@ + decimal(tys.len()) + " bindings, got "@ + decimal(arm.bindings.len() as nat))
            } else {
                binding_clash(arm.bindings@, 0, scope, functions)
            }
        },
    }
}

/// The variants, from position `k` on, that no arm names.
pub open spec fn missing_variants(shapes: Seq<(Seq<char>, Seq<Type>, Seq<Seq<char>>)>, arms: Vec<syntax::MatchArm>, k: int) -> Seq<Seq<char>>
    decreases shapes.len() - k,
{
    if k < 0 || k >= shapes.len() {
        Seq::empty()
    } else if exists|j: int| 0 <= j < arms.len() && #[trigger] arms[j].variant@ == shapes[k].0 {
        missing_variants(shapes, arms, k + 1)
    } else {
        seq![shapes[k].0] + missing_variants(shapes, arms, k + 1)
    }
}

/// Names joined by `", "`.
pub open spec fn join_names(names: Seq<Seq<char>>) -> Seq<char>
    decreases names.len(),
{
    if names.len() == 0 {
        Seq::empty()
    } else if names.len() == 1 {
        names[0]
    } else {
        join_names(names.drop_last()) + ", "@ + names.last()
    }
}

/// `a` is the lowered form of source arm `arm` of a match on enum `ename`, with `body`.
pub open spec fn arm_shape(a: MatchArm, ename: Seq<char>, arm: syntax::MatchArm, body: Seq<Stmt>) -> bool {
    &&& a.enum_name@ == ename
    &&& a.variant == arm.variant
    &&& a.bindings@ == arm.bindings@
    &&& a.is_named == arm.is_named
    &&& !a.ignore_payloads
    &&& a.borrow_region_facts@.len() == 0
    &&& a.body@ == body
}

/// `r` lowers the arms from position `i` on of a match on enum `ename` (variants
/// `shapes`), each from the bindings `scope` after the matched value: its checks, then
/// its body with its bindings in scope. `r` carries the lowered arms and the moved flags
/// of `scope` that some arm falling through leaves moved.
pub open spec fn arms_rel(ename: Seq<char>, shapes: Seq<(Seq<char>, Seq<Type>, Seq<Seq<char>>)>, arms: Vec<syntax::MatchArm>, i: int, scope: Seq<Binding>, edges: Seq<LoopEdge>, in_loop: bool, ctx: LowerContext, r: Result<(Seq<MatchArm>, Seq<bool>), Diagnostic>, edges2: Seq<LoopEdge>, t: Derivation) -> bool
    decreases arms, arms.len() - i,
{
    if i < 0 || i >= arms.len() {
        r == Ok::<(Seq<MatchArm>, Seq<bool>), Diagnostic>((Seq::empty(), Seq::new(scope.len(), |j: int| false))) && edges2 == edges
    } else {
        let arm = arms[i];
        match arm_problem(ename, shapes, arms, i, scope, ctx.functions@) {
            Some(message) => r is Err && type_error(r->Err_0, message, arm.line, arm.column),
            None => {
                let (_, tys, names) = shapes[shape_index(shapes, arm.variant@)->0];
                let entry = env_at(t, 0);
                &&& arm_entry(scope, arm.bindings@, bound_types(arm.is_named, arm.bindings@, tys, names), entry)
                &&& block_rel(arm.body, 0, entry, edges, in_loop, ctx, blk_at(t, 1), env_at(t, 1), edges_at(t, 1), deriv_at(t, 1))
                &&& match blk_at(t, 1) {
                    Err(d) => r == Err::<(Seq<MatchArm>, Seq<bool>), Diagnostic>(d),
                    Ok((body, exits)) => {
                        let after = env_at(t, 1);
                        &&& arms_rel(ename, shapes, arms, i + 1, scope, edges_at(t, 1), in_loop, ctx, arms_at(t, 2), edges2, deriv_at(t, 2))
                        &&& match arms_at(t, 2) {
                            Err(d) => r == Err::<(Seq<MatchArm>, Seq<bool>), Diagnostic>(d),
                            Ok((rest, flags)) => {
                                &&& r is Ok
                                &&& r->Ok_0.0.len() == rest.len() + 1
                                &&& arm_shape(r->Ok_0.0[0], ename, arm, body)
                                &&& r->Ok_0.0.drop_first() == rest
                                &&& r->Ok_0.1 == Seq::new(scope.len(), |j: int| flags[j] || (if exits { scope[j].moved } else { after[j].moved }))
                            },
                        }
                    },
                }
            },
        }
    }
}

/// `r` lowers the branches of the `if` statement `s`, whose condition lowered to `c`,
/// from the bindings `m` after the condition: a statically known condition lowers only
/// the branch it selects; otherwise both branches are lowered from `m` and the moved
/// flags merge (see `merge_branches`).
pub open spec fn if_rel(s: syntax::Stmt, c: Expr, m: Seq<Binding>, edges: Seq<LoopEdge>, in_loop: bool, ctx: LowerContext, r: Result<Stmt, Diagnostic>, env2: Seq<Binding>, edges2: Seq<LoopEdge>, t: Derivation) -> bool
    decreases s, 0int,
{
    match s {
        syntax::Stmt::If { then_block, else_block, line, column, .. } => {
            let span = point_span(line, column);
            match static_bool(c) {
                Some(true) => {
                    &&& block_rel(then_block, 0, m, edges, in_loop, ctx, blk_at(t, 1), env2, edges2, deriv_at(t, 1))
                    &&& match blk_at(t, 1) {
                        Err(d) => r == Err::<Stmt, Diagnostic>(d),
                        Ok((tb, _)) => {
                            &&& r is Ok
                            &&& r->Ok_0 matches Stmt::If { cond: c2, then_block: tb2, else_block: eb, span: sp }
                            &&& c2 == c && tb2@ == tb && sp == span
                            &&& (if else_block is Some { eb is Some && eb->0@.len() == 0 } else { eb is None })
                        },
                    }
                },
                Some(false) => match else_block {
                    Some(b) => {
                        &&& block_rel(b, 0, m, edges, in_loop, ctx, blk_at(t, 1), env2, edges2, deriv_at(t, 1))
                        &&& match blk_at(t, 1) {
                            Err(d) => r == Err::<Stmt, Diagnostic>(d),
                            Ok((eb, _)) => {
                                &&& r is Ok
                                &&& r->Ok_0 matches Stmt::If { cond: c2, then_block: tb2, else_block: eb2, span: sp }
                                &&& c2 == c && tb2@.len() == 0 && eb2 is Some && eb2->0@ == eb && sp == span
                            },
                        }
                    },
                    None => {
                        &&& env2 == m && edges2 == edges
                        &&& r is Ok
                        &&& r->Ok_0 matches Stmt::If { cond: c2, then_block: tb2, else_block: eb2, span: sp }
                        &&& c2 == c && tb2@.len() == 0 && eb2 is None && sp == span
                    },
                },
                None => {
                    &&& block_rel(then_block, 0, m, edges, in_loop, ctx, blk_at(t, 1), env_at(t, 1), edges_at(t, 1), deriv_at(t, 1))
                    &&& match blk_at(t, 1) {
                        Err(d) => r == Err::<Stmt, Diagnostic>(d),
                        Ok((tb, then_exits)) => match else_block {
                            Some(b) => {
                                &&& block_rel(b, 0, m, edges_at(t, 1), in_loop, ctx, blk_at(t, 2), env_at(t, 2), edges_at(t, 2), deriv_at(t, 2))
                                &&& match blk_at(t, 2) {
                                    Err(d) => r == Err::<Stmt, Diagnostic>(d),
                                    Ok((eb, else_exits)) => {
                                        &&& env2 == merge_branches(m, env_at(t, 1), then_exits, Some(env_at(t, 2)), else_exits)
                                        &&& edges2 == edges_at(t, 2)
                                        &&& r is Ok
                                        &&& r->Ok_0 matches Stmt::If { cond: c2, then_block: tb2, else_block: eb2, span: sp }
                                        &&& c2 == c && tb2@ == tb && eb2 is Some && eb2->0@ == eb && sp == span
                                    },
                                }
                            },
                            None => {
                                &&& env2 == merge_branches(m, env_at(t, 1), then_exits, None, false)
                                &&& edges2 == edges_at(t, 1)
                                &&& r is Ok
                                &&& r->Ok_0 matches Stmt::If { cond: c2, then_block: tb2, else_block: eb2, span: sp }
                                &&& c2 == c && tb2@ == tb && eb2 is None && sp == span
                            },
                        },
                    }
                },
            }
        },
        _ => false,
    }
}

/// The message for a `panic` statement that is not a call of `panic`.
pub open spec fn panic_form_message() -> Seq<char> {
    "panic statement expects `panic(\"message\")`"@
}

/// `r` is the lowering of statement `s` with the bindings `env` in scope and the loop
/// edges `edges` taken so far (`in_loop`: inside a loop body); `env2` and `edges2` are
/// the bindings and edges after it, and `t` derives it.
pub open spec fn stmt_rel(s: syntax::Stmt, env: Seq<Binding>, edges: Seq<LoopEdge>, in_loop: bool, ctx: LowerContext, r: Result<Stmt, Diagnostic>, env2: Seq<Binding>, edges2: Seq<LoopEdge>, t: Derivation) -> bool
    decreases s, 1int,
{
    match s {
        syntax::Stmt::Let { name, ty, expr, line, column } => {
            if signature_index(ctx.functions@, name@) is Some {
                r is Err && type_error(r->Err_0, "binding name "@ + debug_quoted(name@) + " conflicts with a function name"@, line, column)
                    && env2 == env
            } else {
                match binding_index(env, name@) {
                    Some(i) => r is Err && ownership_error_at(r->Err_0, "rebind_not_supported"@, rebind_message(name@, copyable(env[i].ty)), line, column)
                        && env2 == env,
                    None => {
                        &&& type_rel(ty, *ctx.type_names, ctx.consts@, line, column, ty_at(t, 0), deriv_at(t, 0))
                        &&& match ty_at(t, 0) {
                            Err(d) => r == Err::<Stmt, Diagnostic>(d) && env2 == env,
                            Ok(expected) => {
                                &&& expr_rel(expr, Some(expected), false, env, ctx, ex_at(t, 1), env_at(t, 1), deriv_at(t, 1))
                                &&& match ex_at(t, 1) {
                                    Err(d) => r == Err::<Stmt, Diagnostic>(d),
                                    Ok(x) => {
                                        let actual = expr_ty(x);
                                        if !assignable(actual, expected) && !(actual is Error) && !(expected is Error) {
                                            r is Err && type_error(r->Err_0, "let binding "@ + debug_quoted(name@) + " expects "@ + type_text(expected)
                                                + ", got "@ + type_text(actual), line, column)
                                        } else {
                                            let m = if copyable(actual) { env_at(t, 1) } else { moved_after(env_at(t, 1), x) };
                                            &&& env2 == m.push(Binding { name, ty: expected, moved: false, net_origin: net_origin_of(x, m, ctx) })
                                            &&& edges2 == edges
                                            &&& r is Ok
                                            &&& r->Ok_0 matches Stmt::Let { name: n, ty: lt, expr: le, borrow_region_facts: f, span }
                                            &&& n == name && type_eq(lt, expected) && le == x && f@.len() == 0 && span == point_span(line, column)
                                        }
                                    },
                                }
                            },
                        }
                    },
                }
            }
        },
        syntax::Stmt::Print { expr, line, column } => {
            &&& expr_rel(expr, None, false, env, ctx, ex_at(t, 0), env2, deriv_at(t, 0))
            &&& edges2 == edges
            &&& match ex_at(t, 0) {
                Err(d) => r == Err::<Stmt, Diagnostic>(d),
                Ok(x) => if printable(expr_ty(x)) {
                    r == Ok::<Stmt, Diagnostic>(Stmt::Print { expr: x, span: point_span(line, column) })
                } else {
                    r is Err && type_error(r->Err_0, "print expects int, bool, String, or &str, got "@ + type_text(expr_ty(x)), line, column)
                },
            }
        },
        syntax::Stmt::Panic { expr, line, column } => {
            &&& edges2 == edges
            &&& match expr {
                syntax::Expr::Call { name, type_args, args, .. } => if name@ != "panic"@ {
                    r is Err && type_error(r->Err_0, panic_form_message(), line, column) && env2 == env
                } else if type_args.len() != 0 {
                    r is Err && type_error(r->Err_0, "panic does not accept type arguments"@, line, column) && env2 == env
                } else if args.len() != 1 {
                    r is Err && type_error(r->Err_0, "panic expects 1 argument, got "@ + decimal(args.len() as nat), line, column) && env2 == env
                } else {
                    &&& expr_rel(args[0], Some(Type::String), false, env, ctx, ex_at(t, 0), env_at(t, 0), deriv_at(t, 0))
                    &&& match ex_at(t, 0) {
                        Err(d) => r == Err::<Stmt, Diagnostic>(d) && env2 == env_at(t, 0),
                        Ok(x) => if !type_eq(expr_ty(x), Type::String) {
                            r is Err && type_error(r->Err_0, "panic expects a string argument, got "@ + type_text(expr_ty(x)), expr_line(args[0]), expr_column(args[0]))
                                && env2 == env_at(t, 0)
                        } else {
                            &&& env2 == moved_after(env_at(t, 0), x)
                            &&& r == Ok::<Stmt, Diagnostic>(Stmt::Panic { message: x, span: point_span(line, column) })
                        },
                    }
                },
                _ => r is Err && type_error(r->Err_0, panic_form_message(), line, column) && env2 == env,
            }
        },
        syntax::Stmt::Defer { expr, line, column } => {
            &&& edges2 == edges
            &&& expr_rel(expr, None, false, env, ctx, ex_at(t, 0), env_at(t, 0), deriv_at(t, 0))
            &&& match ex_at(t, 0) {
                Err(d) => r == Err::<Stmt, Diagnostic>(d) && env2 == env_at(t, 0),
                Ok(x) => {
                    &&& env2 == (if copyable(expr_ty(x)) { env_at(t, 0) } else { moved_after(env_at(t, 0), x) })
                    &&& r == Ok::<Stmt, Diagnostic>(Stmt::Defer { expr: x, span: point_span(line, column) })
                },
            }
        },
        syntax::Stmt::Assign { target, expr, line, column } => {
            &&& edges2 == edges
            &&& expr_rel(target, None, false, env, ctx, ex_at(t, 0), env_at(t, 0), deriv_at(t, 0))
            &&& match ex_at(t, 0) {
                Err(d) => r == Err::<Stmt, Diagnostic>(d) && env2 == env_at(t, 0),
                Ok(tx) => if !assignment_target(tx, ctx) {
                    r is Err && type_error(r->Err_0, assignment_target_message() + type_text(expr_ty(tx)), line, column) && env2 == env_at(t, 0)
                } else {
                    let target_ty = expr_ty(tx);
                    &&& expr_rel(expr, Some(target_ty), false, env_at(t, 0), ctx, ex_at(t, 1), env_at(t, 1), deriv_at(t, 1))
                    &&& match ex_at(t, 1) {
                        Err(d) => r == Err::<Stmt, Diagnostic>(d) && env2 == env_at(t, 1),
                        Ok(x) => if !assignable(expr_ty(x), target_ty) {
                            r is Err && type_error(r->Err_0, "assignment expects value type "@ + type_text(target_ty) + ", got "@ + type_text(expr_ty(x)),
                                expr_line(expr), expr_column(expr)) && env2 == env_at(t, 1)
                        } else {
                            &&& env2 == (if copyable(target_ty) { env_at(t, 1) } else { moved_after(env_at(t, 1), x) })
                            &&& r == Ok::<Stmt, Diagnostic>(Stmt::Assign { target: tx, expr: x, span: point_span(line, column) })
                        },
                    }
                },
            }
        },
        syntax::Stmt::Break { line, column } | syntax::Stmt::Continue { line, column } => {
            let kind = if s is Break { EdgeKind::Break } else { EdgeKind::Continue };
            if !in_loop {
                r is Err && control_error(r->Err_0, if s is Break { "break is only valid inside a loop"@ } else { "continue is only valid inside a loop"@ }, line, column)
            } else {
                &&& env2 == env
                &&& edge_taken(edges, edges2, kind, env)
                &&& r == Ok::<Stmt, Diagnostic>(if s is Break { Stmt::Break { span: point_span(line, column) } } else { Stmt::Continue { span: point_span(line, column) } })
            }
        },
        syntax::Stmt::Return { expr, line, column } => match ctx.current_return {
            None => r is Err && control_error(r->Err_0, "return is only valid inside a function"@, line, column),
            Some(expected) => {
                &&& expr_rel(expr, Some(expected), false, env, ctx, ex_at(t, 0), env2, deriv_at(t, 0))
                &&& edges2 == edges
                &&& match ex_at(t, 0) {
                    Err(d) => r == Err::<Stmt, Diagnostic>(d),
                    Ok(x) => if !assignable(expr_ty(x), expected) {
                        r is Err && type_error(r->Err_0, "return expects "@ + type_text(expected) + ", got "@ + type_text(expr_ty(x)), line, column)
                    } else {
                        &&& r is Ok
                        &&& r->Ok_0 matches Stmt::Return { expr: le, borrow_region_facts: f, span }
                        &&& le == x && f@.len() == 0 && span == point_span(line, column)
                    },
                }
            },
        },
        syntax::Stmt::If { cond, line, column, .. } => {
            &&& expr_rel(cond, None, false, env, ctx, ex_at(t, 0), env_at(t, 0), deriv_at(t, 0))
            &&& match ex_at(t, 0) {
                Err(d) => r == Err::<Stmt, Diagnostic>(d),
                Ok(c) => if !(expr_ty(c) is Bool) {
                    r is Err && type_error(r->Err_0, "if condition expects bool, got "@ + type_text(expr_ty(c)), line, column)
                } else {
                    if_rel(s, c, env_at(t, 0), edges, in_loop, ctx, r, env2, edges2, t)
                },
            }
        },
        syntax::Stmt::While { cond, body, line, column } => {
            &&& expr_rel(cond, None, false, env, ctx, ex_at(t, 0), env_at(t, 0), deriv_at(t, 0))
            &&& match ex_at(t, 0) {
                Err(d) => r == Err::<Stmt, Diagnostic>(d),
                Ok(c) => if !(expr_ty(c) is Bool) {
                    r is Err && type_error(r->Err_0, "while condition expects bool, got "@ + type_text(expr_ty(c)), line, column)
                } else {
                    let entry = env_at(t, 0);
                    if static_bool(c) == Some(false) {
                        &&& env2 == entry && edges2 == edges
                        &&& r is Ok
                        &&& r->Ok_0 matches Stmt::While { cond: c2, body: b2, span }
                        &&& c2 == c && b2@.len() == 0 && span == point_span(line, column)
                    } else {
                        &&& block_rel(body, 0, entry, Seq::empty(), true, ctx, blk_at(t, 1), env_at(t, 1), edges_at(t, 1), deriv_at(t, 1))
                        &&& match blk_at(t, 1) {
                            Err(d) => r == Err::<Stmt, Diagnostic>(d),
                            Ok((b, body_exits)) => match backedge_violation(env, edges_at(t, 1), 0, env_at(t, 1), body_exits) {
                                Some(name) => r is Err && ownership_error_at(r->Err_0, "loop_move_outer_non_copy"@, loop_move_message(name), line, column),
                                None => {
                                    &&& env2 == join_exits(entry, edges_at(t, 1), env_at(t, 1), body_exits)
                                    &&& edges2 == edges
                                    &&& r is Ok
                                    &&& r->Ok_0 matches Stmt::While { cond: c2, body: b2, span }
                                    &&& c2 == c && b2@ == b && span == point_span(line, column)
                                },
                            },
                        }
                    }
                },
            }
        },
        syntax::Stmt::Match { expr, arms, line, column } => {
            &&& expr_rel(expr, None, false, env, ctx, ex_at(t, 0), env_at(t, 0), deriv_at(t, 0))
            &&& match ex_at(t, 0) {
                Err(d) => r == Err::<Stmt, Diagnostic>(d),
                Ok(x) => {
                    let scope = if x is VarRef && !copyable(expr_ty(x)) { moved_after(env_at(t, 0), x) } else { env_at(t, 0) };
                    match match_variants_of(expr_ty(x), ctx.enums@) {
                        None => r is Err && type_error(r->Err_0, "match expects an enum, Option or Result value, got "@ + type_text(expr_ty(x)), line, column),
                        Some((ename, shapes)) => {
                            &&& arms_rel(ename, shapes, arms, 0, scope, edges, in_loop, ctx, arms_at(t, 1), edges_at(t, 1), deriv_at(t, 1))
                            &&& match arms_at(t, 1) {
                                Err(d) => r == Err::<Stmt, Diagnostic>(d),
                                Ok((lowered, flags)) => {
                                    let missing = missing_variants(shapes, arms, 0);
                                    if missing.len() > 0 {
                                        r is Err && type_error(r->Err_0, "match on "@ + debug_quoted(ename) + " is not exhaustive; missing "@ + join_names(missing), line, column)
                                    } else {
                                        &&& env2 == Seq::new(scope.len(), |j: int| Binding { moved: flags[j], ..scope[j] })
                                        &&& edges2 == edges_at(t, 1)
                                        &&& r is Ok
                                        &&& r->Ok_0 matches Stmt::Match { expr: x2, arms: a2, span }
                                        &&& x2 == x && a2@ == lowered && span == point_span(line, column)
                                    }
                                },
                            }
                        },
                    }
                },
            }
        },
    }
}

/// `r` lowers the statements of `b` from position `i` on, in order: the lowered
/// statements, and whether the last always leaves the block (counting `break` and
/// `continue`); a statement after one that always leaves the block is refused.
pub open spec fn block_rel(b: Vec<syntax::Stmt>, i: int, env: Seq<Binding>, edges: Seq<LoopEdge>, in_loop: bool, ctx: LowerContext, r: Result<(Seq<Stmt>, bool), Diagnostic>, env2: Seq<Binding>, edges2: Seq<LoopEdge>, t: Derivation) -> bool
    decreases b, b.len() - i,
{
    if i < 0 || i >= b.len() {
        r == Ok::<(Seq<Stmt>, bool), Diagnostic>((Seq::empty(), false)) && env2 == env && edges2 == edges
    } else {
        &&& stmt_rel(b[i], env, edges, in_loop, ctx, st_at(t, 0), env_at(t, 0), edges_at(t, 0), deriv_at(t, 0))
        &&& match st_at(t, 0) {
            Err(d) => r == Err::<(Seq<Stmt>, bool), Diagnostic>(d),
            Ok(s) => if stmt_exits(s, true) && i + 1 < b.len() {
                r is Err && control_error(r->Err_0, unreachable_message(), stmt_line(b[i + 1]), stmt_column(b[i + 1]))
            } else if i + 1 >= b.len() {
                r == Ok::<(Seq<Stmt>, bool), Diagnostic>((seq![s], stmt_exits(s, true))) && env2 == env_at(t, 0) && edges2 == edges_at(t, 0)
            } else {
                &&& block_rel(b, i + 1, env_at(t, 0), edges_at(t, 0), in_loop, ctx, blk_at(t, 1), env2, edges2, deriv_at(t, 1))
                &&& match blk_at(t, 1) {
                    Err(d) => r == Err::<(Seq<Stmt>, bool), Diagnostic>(d),
                    Ok((rest, exits)) => r == Ok::<(Seq<Stmt>, bool), Diagnostic>((seq![s] + rest, exits)),
                }
            },
        }
    }
}


// ---------------------------------------------------------------------------
// Lowering.

/// A lowering outcome of a block, seen over the sequence of its statements.
pub open spec fn blk_outcome(r: Result<(Vec<Stmt>, bool), Diagnostic>) -> Result<(Seq<Stmt>, bool), Diagnostic> {
    match r {
        Ok((v, exits)) => Ok((v@, exits)),
        Err(d) => Err(d),
    }
}

/// `new` is `old` followed by more edges, each taken with at least `n` bindings in scope.
pub open spec fn edges_extend(old: Seq<LoopEdge>, new: Seq<LoopEdge>, n: nat) -> bool {
    &&& old.len() <= new.len()
    &&& forall|k: int| 0 <= k < old.len() ==> #[trigger] new[k] == old[k]
    &&& forall|k: int| old.len() <= k < new.len() ==> #[trigger] new[k].moved@.len() >= n
}

/// A recorded sub-lowering of a type.
pub open spec fn ty_step(r: Result<Type, Diagnostic>, t: Derivation) -> Step {
    Step { out: Outcome::Ty(r), env: seq![], edges: seq![], sub: t }
}

/// A recorded sub-lowering of an expression.
pub open spec fn expr_step(r: Result<Expr, Diagnostic>, env: Seq<Binding>, t: Derivation) -> Step {
    Step { out: Outcome::Ex(r), env, edges: seq![], sub: t }
}

/// A recorded sub-lowering of a statement.
pub open spec fn stmt_step(r: Result<Stmt, Diagnostic>, env: Seq<Binding>, edges: Seq<LoopEdge>, t: Derivation) -> Step {
    Step { out: Outcome::St(r), env, edges, sub: t }
}

/// A recorded sub-lowering of a block.
pub open spec fn blk_step(r: Result<(Vec<Stmt>, bool), Diagnostic>, env: Seq<Binding>, edges: Seq<LoopEdge>, t: Derivation) -> Step {
    Step { out: Outcome::Blk(blk_outcome(r)), env, edges, sub: t }
}

/// Cuts the scope back to its first `len` bindings and sets their moved flags to `moved`.
pub fn restore_scope(env: &mut Vec<Binding>, len: usize, moved: &Vec<bool>)
    requires
        len <= old(env).len(),
        moved.len() == len,
    ensures
        final(env)@ == Seq::new(len as nat, |i: int| Binding { moved: moved@[i], ..old(env)@[i] }),
{
    env.truncate(len);
    let ghost cut = env@;
    let mut i: usize = 0;
    while i < len
        invariant
            i <= len,
            len == moved.len(),
            cut.len() == len,
            env@.len() == len,
            forall|j: int| 0 <= j < i ==> #[trigger] env@[j] == (Binding { moved: moved@[j], ..cut[j] }),
            forall|j: int| i <= j < len ==> #[trigger] env@[j] == cut[j],
        decreases len - i,
    {
        env[i].moved = moved[i];
        i = i + 1;
    }
    proof {
        assert(env@ =~= Seq::new(len as nat, |i: int| Binding { moved: moved@[i], ..old(env)@[i] }));
    }
}

/// The moved flags of an `if` where control meets again (see `merge_branches`).
fn merge_branch_state(before: &Vec<bool>, then_moved: &Vec<bool>, then_exits: bool, else_moved: Option<&Vec<bool>>, else_exits: bool) -> (r: Vec<bool>)
    requires
        then_moved.len() >= before.len(),
        else_moved is Some ==> else_moved->0.len() >= before.len(),
    ensures
        r@ == Seq::new(before.len() as nat, |i: int|
            (if then_exits { before@[i] } else { then_moved@[i] })
            || match else_moved {
                Some(e) => if else_exits { before@[i] } else { e@[i] },
                None => before@[i],
            }),
{
    let mut out: Vec<bool> = Vec::new();
    let mut i: usize = 0;
    while i < before.len()
        invariant
            i <= before.len(),
            then_moved.len() >= before.len(),
            else_moved is Some ==> else_moved->0.len() >= before.len(),
            out@.len() == i,
            forall|j: int| 0 <= j < i ==> #[trigger] out@[j] == ((if then_exits { before@[j] } else { then_moved@[j] })
                || match else_moved {
                    Some(e) => if else_exits { before@[j] } else { e@[j] },
                    None => before@[j],
                }),
        decreases before.len() - i,
    {
        let a = if then_exits { before[i] } else { then_moved[i] };
        let b = match else_moved {
            Some(e) => if else_exits { before[i] } else { e[i] },
            None => before[i],
        };
        out.push(a || b);
        i = i + 1;
    }
    proof {
        assert(out@ =~= Seq::new(before.len() as nat, |i: int|
            (if then_exits { before@[i] } else { then_moved@[i] })
            || match else_moved {
                Some(e) => if else_exits { before@[i] } else { e@[i] },
                None => before@[i],
            }));
    }
    out
}

/// Lowers the statements of a block from position `i` on.
pub fn lower_block(b: &Vec<syntax::Stmt>, i: usize, env: &mut Vec<Binding>, edges: &mut Vec<LoopEdge>, in_loop: bool, ctx: &LowerContext) -> (out: (Result<(Vec<Stmt>, bool), Diagnostic>, Ghost<Derivation>))
    requires
        i <= b.len(),
        block_spans_ok(*b, i as int),
        ctx_ok(*ctx),
    ensures
        block_rel(*b, i as int, old(env)@, old(edges)@, in_loop, *ctx, blk_outcome(out.0), final(env)@, final(edges)@, out.1@),
        env_frame(old(env)@, final(env)@),
        edges_extend(old(edges)@, final(edges)@, old(env)@.len()),
    decreases b, b.len() - i,
{
    if i >= b.len() {
        return (Ok((Vec::new(), false)), Ghost(Derivation::Leaf));
    }
    proof { assert(decreases_to!(b => b[i as int])); }
    let (rs, Ghost(ts)) = lower_stmt(&b[i], env, edges, in_loop, ctx);
    let ghost s0 = stmt_step(rs, env@, edges@, ts);
    let st = match rs {
        Err(d) => return (Err(d), Ghost(Derivation::Node(seq![s0]))),
        Ok(st) => st,
    };
    let exits = st.always_terminates();
    if exits && i + 1 < b.len() {
        let d = Diagnostic::new("control", String::from_str("unreachable statements after a terminating control-flow statement are not yet supported in stage1"))
            .with_span(b[i + 1].line(), b[i + 1].column());
        return (Err(d), Ghost(Derivation::Node(seq![s0])));
    }
    if i + 1 >= b.len() {
        let mut v: Vec<Stmt> = Vec::new();
        let ghost gst = st;
        v.push(st);
        proof { assert(v@ =~= seq![gst]); }
        return (Ok((v, exits)), Ghost(Derivation::Node(seq![s0])));
    }
    let (rr, Ghost(tr)) = lower_block(b, i + 1, env, edges, in_loop, ctx);
    let ghost t = Derivation::Node(seq![s0, blk_step(rr, env@, edges@, tr)]);
    match rr {
        Err(d) => (Err(d), Ghost(t)),
        Ok((rest, rest_exits)) => {
            let ghost rest_view = rest@;
            let ghost gst = st;
            let mut v: Vec<Stmt> = Vec::new();
            v.push(st);
            let mut rest = rest;
            v.append(&mut rest);
            proof { assert(v@ =~= seq![gst] + rest_view); }
            (Ok((v, rest_exits)), Ghost(t))
        },
    }
}

/// Lowers one statement.
pub fn lower_stmt(s: &syntax::Stmt, env: &mut Vec<Binding>, edges: &mut Vec<LoopEdge>, in_loop: bool, ctx: &LowerContext) -> (out: (Result<Stmt, Diagnostic>, Ghost<Derivation>))
    requires
        stmt_spans_ok(*s),
        ctx_ok(*ctx),
    ensures
        stmt_rel(*s, old(env)@, old(edges)@, in_loop, *ctx, out.0, final(env)@, final(edges)@, out.1@),
        env_frame(old(env)@, final(env)@),
        edges_extend(old(edges)@, final(edges)@, old(env)@.len()),
    decreases s, 2int,
{
    match s {
        syntax::Stmt::Let { .. } => lower_let(s, env, edges, in_loop, ctx),
        syntax::Stmt::Print { .. } => lower_print(s, env, edges, in_loop, ctx),
        syntax::Stmt::Panic { .. } => lower_panic(s, env, edges, in_loop, ctx),
        syntax::Stmt::Defer { .. } => lower_defer(s, env, edges, in_loop, ctx),
        syntax::Stmt::Assign { .. } => lower_assign(s, env, edges, in_loop, ctx),
        syntax::Stmt::Break { .. } | syntax::Stmt::Continue { .. } => lower_loop_control(s, env, edges, in_loop, ctx),
        syntax::Stmt::Return { .. } => lower_return(s, env, edges, in_loop, ctx),
        syntax::Stmt::If { .. } => lower_if(s, env, edges, in_loop, ctx),
        syntax::Stmt::While { .. } => lower_while(s, env, edges, in_loop, ctx),
        syntax::Stmt::Match { .. } => lower_match(s, env, edges, in_loop, ctx),
    }
}

fn lower_let(s: &syntax::Stmt, env: &mut Vec<Binding>, edges: &mut Vec<LoopEdge>, in_loop: bool, ctx: &LowerContext) -> (out: (Result<Stmt, Diagnostic>, Ghost<Derivation>))
    requires
        s is Let,
        stmt_spans_ok(*s),
        ctx_ok(*ctx),
    ensures
        stmt_rel(*s, old(env)@, old(edges)@, in_loop, *ctx, out.0, final(env)@, final(edges)@, out.1@),
        env_frame(old(env)@, final(env)@),
        final(edges)@ == old(edges)@,
    decreases s, 0int,
{
    let (name, ty, expr, line, column) = match s {
        syntax::Stmt::Let { name, ty, expr, line, column } => (name, ty, expr, *line, *column),
        _ => { assert(false); return (Err(Diagnostic::new("control", String::new())), Ghost(Derivation::Leaf)); },
    };
    if find_signature(ctx.functions, name.as_str()).is_some() {
        let m = quoted_message("binding name ", name.as_str(), " conflicts with a function name");
        return (Err(type_error_at(m, line, column)), Ghost(Derivation::Leaf));
    }
    if let Some(i) = find_binding(env, name.as_str()) {
        let m = if env[i].ty.is_copy() {
            quoted_message("rebinding name ", name.as_str(), " is not supported in stage1")
        } else {
            quoted_message("rebinding name ", name.as_str(), " is not supported; the existing binding holds an owned value")
        };
        return (Err(ownership_error("rebind_not_supported", m).with_span(line, column)), Ghost(Derivation::Leaf));
    }
    let (rt, Ghost(tt)) = lower_type(ty, ctx.type_names, ctx.consts, line, column);
    let ghost s0 = ty_step(rt, tt);
    let expected = match rt {
        Err(d) => return (Err(d), Ghost(Derivation::Node(seq![s0]))),
        Ok(t) => t,
    };
    let (rx, Ghost(tx)) = lower_expr(expr, Some(&expected), false, env, ctx);
    let ghost t = Derivation::Node(seq![s0, expr_step(rx, env@, tx)]);
    let x = match rx {
        Err(d) => return (Err(d), Ghost(t)),
        Ok(x) => x,
    };
    if !type_assignable_to(x.ty(), &expected) && !x.ty().is_error() && !expected.is_error() {
        let m = concat(got_message(quoted_message("let binding ", name.as_str(), " expects "), &expected), ", got ");
        let m = got_message(m, x.ty());
        return (Err(type_error_at(m, line, column)), Ghost(t));
    }
    if !x.ty().is_copy() {
        move_lowered_value(&x, env);
    }
    let net_origin = net_binding_origin_from_expr(&x, env, ctx);
    let hir_ty = clone_type(&expected);
    env.push(Binding { name: name.clone(), ty: expected, moved: false, net_origin });
    (Ok(Stmt::Let { name: name.clone(), ty: hir_ty, expr: x, borrow_region_facts: Vec::new(), span: SourceSpan::point(line, column) }), Ghost(t))
}

fn lower_print(s: &syntax::Stmt, env: &mut Vec<Binding>, edges: &mut Vec<LoopEdge>, in_loop: bool, ctx: &LowerContext) -> (out: (Result<Stmt, Diagnostic>, Ghost<Derivation>))
    requires
        s is Print,
        stmt_spans_ok(*s),
        ctx_ok(*ctx),
    ensures
        stmt_rel(*s, old(env)@, old(edges)@, in_loop, *ctx, out.0, final(env)@, final(edges)@, out.1@),
        env_frame(old(env)@, final(env)@),
        final(edges)@ == old(edges)@,
    decreases s, 0int,
{
    let (expr, line, column) = match s {
        syntax::Stmt::Print { expr, line, column } => (expr, *line, *column),
        _ => { assert(false); return (Err(Diagnostic::new("control", String::new())), Ghost(Derivation::Leaf)); },
    };
    let (rx, Ghost(tx)) = lower_expr(expr, None, false, env, ctx);
    let ghost t = Derivation::Node(seq![expr_step(rx, env@, tx)]);
    let x = match rx {
        Err(d) => return (Err(d), Ghost(t)),
        Ok(x) => x,
    };
    if !matches!(x.ty(), Type::Error | Type::Int | Type::Numeric(_) | Type::Bool | Type::String | Type::Str) {
        let m = got_message(String::from_str("print expects int, bool, String, or &str, got "), x.ty());
        return (Err(type_error_at(m, line, column)), Ghost(t));
    }
    (Ok(Stmt::Print { expr: x, span: SourceSpan::point(line, column) }), Ghost(t))
}

fn lower_panic(s: &syntax::Stmt, env: &mut Vec<Binding>, edges: &mut Vec<LoopEdge>, in_loop: bool, ctx: &LowerContext) -> (out: (Result<Stmt, Diagnostic>, Ghost<Derivation>))
    requires
        s is Panic,
        stmt_spans_ok(*s),
        ctx_ok(*ctx),
    ensures
        stmt_rel(*s, old(env)@, old(edges)@, in_loop, *ctx, out.0, final(env)@, final(edges)@, out.1@),
        env_frame(old(env)@, final(env)@),
        final(edges)@ == old(edges)@,
    decreases s, 0int,
{
    let (expr, line, column) = match s {
        syntax::Stmt::Panic { expr, line, column } => (expr, *line, *column),
        _ => { assert(false); return (Err(Diagnostic::new("control", String::new())), Ghost(Derivation::Leaf)); },
    };
    let (name, type_args, args) = match expr {
        syntax::Expr::Call { name, type_args, args, .. } => (name, type_args, args),
        _ => {
            let m = String::from_str("panic statement expects `panic(\"message\")`");
            return (Err(type_error_at(m, line, column)), Ghost(Derivation::Leaf));
        },
    };
    if !crate::text::str_eq(name.as_str(), "panic") {
        let m = String::from_str("panic statement expects `panic(\"message\")`");
        return (Err(type_error_at(m, line, column)), Ghost(Derivation::Leaf));
    }
    if type_args.len() != 0 {
        let m = String::from_str("panic does not accept type arguments");
        return (Err(type_error_at(m, line, column)), Ghost(Derivation::Leaf));
    }
    proof { assert(args_spans_ok(*args, 0)); }
    if args.len() != 1 {
        let mut m = String::from_str("panic expects 1 argument, got ");
        push_decimal(&mut m, args.len() as u64);
        return (Err(type_error_at(m, line, column)), Ghost(Derivation::Leaf));
    }
    proof { assert(decreases_to!(args => args[0])); }
    let string_ty = Type::String;
    let (rx, Ghost(tx)) = lower_expr(&args[0], Some(&string_ty), false, env, ctx);
    let ghost t = Derivation::Node(seq![expr_step(rx, env@, tx)]);
    let x = match rx {
        Err(d) => return (Err(d), Ghost(t)),
        Ok(x) => x,
    };
    if !matches!(x.ty(), Type::String) {
        let m = got_message(String::from_str("panic expects a string argument, got "), x.ty());
        return (Err(type_error_at(m, args[0].line(), args[0].column())), Ghost(t));
    }
    move_lowered_value(&x, env);
    (Ok(Stmt::Panic { message: x, span: SourceSpan::point(line, column) }), Ghost(t))
}

/// Whether a local of type `ty` can be assigned to: scalars, and options, results, tuples,
/// structs and enums built from them, sized arrays of scalars, looked at no deeper than
/// eight levels (`depth` counts the levels above).
pub open spec fn local_assignable(ty: Type, ctx: LowerContext, depth: int) -> bool
    decreases 9 - depth, 0int, 0int,
{
    if depth > 8 || depth < 0 {
        false
    } else {
        match ty {
            Type::Int | Type::Numeric(_) | Type::Bool => true,
            Type::Option(inner) => local_assignable(*inner, ctx, depth + 1),
            Type::Result(ok, err) => local_assignable(*ok, ctx, depth + 1) && local_assignable(*err, ctx, depth + 1),
            Type::Tuple(elements) => locals_assignable_from(elements@, 0, ctx, depth + 1),
            Type::Array(element, Some(_)) => scalar_type(*element),
            Type::Struct(name) => match struct_def_index(ctx.structs@, name@) {
                Some(i) => forall|k: int| 0 <= k < ctx.structs@[i].fields@.len()
                    ==> local_assignable(#[trigger] ctx.structs@[i].fields@[k].ty, ctx, depth + 1),
                None => false,
            },
            Type::Enum(name) => match enum_def_index(ctx.enums@, name@) {
                Some(i) => variants_assignable_from(ctx.enums@[i].variants@, 0, ctx, depth + 1),
                None => false,
            },
            _ => false,
        }
    }
}

/// `local_assignable` holds of each of `tys` from position `i` on.
pub open spec fn locals_assignable_from(tys: Seq<Type>, i: int, ctx: LowerContext, depth: int) -> bool
    decreases 9 - depth, 1int, tys.len() - i,
{
    if i < 0 || i >= tys.len() {
        true
    } else {
        local_assignable(tys[i], ctx, depth) && locals_assignable_from(tys, i + 1, ctx, depth)
    }
}

/// `local_assignable` holds of every payload of the variants from position `i` on.
pub open spec fn variants_assignable_from(vs: Seq<EnumVariantDef>, i: int, ctx: LowerContext, depth: int) -> bool
    decreases 9 - depth, 2int, vs.len() - i,
{
    if i < 0 || i >= vs.len() {
        true
    } else {
        locals_assignable_from(vs[i].payload_tys@, 0, ctx, depth) && variants_assignable_from(vs, i + 1, ctx, depth)
    }
}

/// `int`, a sized integer or `bool`.
pub open spec fn scalar_type(ty: Type) -> bool {
    ty is Int || ty is Numeric || ty is Bool
}

/// Whether a lowered expression can be assigned to: a local of an assignable type, a
/// dereference, or an element of a mutable slice.
pub open spec fn assignment_target(x: Expr, ctx: LowerContext) -> bool {
    match x {
        Expr::VarRef { ty, .. } => local_assignable(ty, ctx, 0),
        Expr::Deref { .. } => true,
        Expr::Index { base, .. } => expr_ty(*base) is MutSlice,
        _ => false,
    }
}

/// The message for an assignment whose target cannot be assigned to.
pub open spec fn assignment_target_message() -> Seq<char> {
    "assignment target must be a scalar local, dereference a mutable reference, or index a mutable slice, got "@
}

/// Decides `local_assignable`.
fn is_local_assignable(ty: &Type, ctx: &LowerContext, depth: usize) -> (r: bool)
    ensures
        r == local_assignable(*ty, *ctx, depth as int),
    decreases 9 - depth, 0int, 0int,
{
    if depth > 8 {
        return false;
    }
    match ty {
        Type::Int | Type::Numeric(_) | Type::Bool => true,
        Type::Option(inner) => is_local_assignable(inner, ctx, depth + 1),
        Type::Result(ok, err) => is_local_assignable(ok, ctx, depth + 1) && is_local_assignable(err, ctx, depth + 1),
        Type::Tuple(elements) => are_local_assignable(elements, 0, ctx, depth + 1),
        Type::Array(element, Some(_)) => matches!(**element, Type::Int | Type::Numeric(_) | Type::Bool),
        Type::Struct(name) => match crate::recursion::find_struct_def(ctx.structs, name.as_str()) {
            Some(i) => {
                let fields = &ctx.structs[i].fields;
                let mut k: usize = 0;
                while k < fields.len()
                    invariant
                        k <= fields.len(),
                        depth <= 8,
                        *ty == Type::Struct(*name),
                        struct_def_index(ctx.structs@, name@) == Some(i as int),
                        i < ctx.structs@.len(),
                        *fields == ctx.structs@[i as int].fields,
                        forall|j: int| 0 <= j < k ==> local_assignable(#[trigger] fields@[j].ty, *ctx, depth + 1),
                    decreases fields.len() - k,
                {
                    if !is_local_assignable(&fields[k].ty, ctx, depth + 1) {
                        proof { assert(!local_assignable(ctx.structs@[i as int].fields@[k as int].ty, *ctx, depth as int + 1)); }
                        return false;
                    }
                    k = k + 1;
                }
                true
            },
            None => false,
        },
        Type::Enum(name) => match crate::recursion::find_enum_def(ctx.enums, name.as_str()) {
            Some(i) => variants_assignable(&ctx.enums[i].variants, 0, ctx, depth + 1),
            None => false,
        },
        _ => false,
    }
}

/// Decides `locals_assignable_from`.
fn are_local_assignable(tys: &Vec<Type>, i: usize, ctx: &LowerContext, depth: usize) -> (r: bool)
    requires
        i <= tys.len(),
    ensures
        r == locals_assignable_from(tys@, i as int, *ctx, depth as int),
    decreases 9 - depth, 1int, tys.len() - i,
{
    if i >= tys.len() {
        return true;
    }
    is_local_assignable(&tys[i], ctx, depth) && are_local_assignable(tys, i + 1, ctx, depth)
}

/// Decides `variants_assignable_from`.
fn variants_assignable(vs: &Vec<EnumVariantDef>, i: usize, ctx: &LowerContext, depth: usize) -> (r: bool)
    requires
        i <= vs.len(),
    ensures
        r == variants_assignable_from(vs@, i as int, *ctx, depth as int),
    decreases 9 - depth, 2int, vs.len() - i,
{
    if i >= vs.len() {
        return true;
    }
    are_local_assignable(&vs[i].payload_tys, 0, ctx, depth) && variants_assignable(vs, i + 1, ctx, depth)
}

/// Decides `assignment_target`.
fn is_assignment_target(x: &Expr, ctx: &LowerContext) -> (r: bool)
    ensures
        r == assignment_target(*x, *ctx),
{
    match x {
        Expr::VarRef { ty, .. } => is_local_assignable(ty, ctx, 0),
        Expr::Deref { .. } => true,
        Expr::Index { base, .. } => matches!(base.ty(), Type::MutSlice(_)),
        _ => false,
    }
}

fn lower_assign(s: &syntax::Stmt, env: &mut Vec<Binding>, edges: &mut Vec<LoopEdge>, in_loop: bool, ctx: &LowerContext) -> (out: (Result<Stmt, Diagnostic>, Ghost<Derivation>))
    requires
        s is Assign,
        stmt_spans_ok(*s),
        ctx_ok(*ctx),
    ensures
        stmt_rel(*s, old(env)@, old(edges)@, in_loop, *ctx, out.0, final(env)@, final(edges)@, out.1@),
        env_frame(old(env)@, final(env)@),
        final(edges)@ == old(edges)@,
    decreases s, 0int,
{
    let (target, expr, line, column) = match s {
        syntax::Stmt::Assign { target, expr, line, column } => (target, expr, *line, *column),
        _ => { assert(false); return (Err(Diagnostic::new("control", String::new())), Ghost(Derivation::Leaf)); },
    };
    let ghost env0 = env@;
    let (rt, Ghost(tt)) = lower_expr(target, None, false, env, ctx);
    let ghost env1 = env@;
    let ghost s0 = expr_step(rt, env1, tt);
    let tx = match rt {
        Err(d) => return (Err(d), Ghost(Derivation::Node(seq![s0]))),
        Ok(tx) => tx,
    };
    if !is_assignment_target(&tx, ctx) {
        let m = got_message(String::from_str("assignment target must be a scalar local, dereference a mutable reference, or index a mutable slice, got "), tx.ty());
        return (Err(type_error_at(m, line, column)), Ghost(Derivation::Node(seq![s0])));
    }
    let (rx, Ghost(tv)) = lower_expr(expr, Some(tx.ty()), false, env, ctx);
    let ghost t = Derivation::Node(seq![s0, expr_step(rx, env@, tv)]);
    let x = match rx {
        Err(d) => return (Err(d), Ghost(t)),
        Ok(x) => x,
    };
    if !type_assignable_to(x.ty(), tx.ty()) {
        let m = concat(got_message(String::from_str("assignment expects value type "), tx.ty()), ", got ");
        let m = got_message(m, x.ty());
        return (Err(type_error_at(m, expr.line(), expr.column())), Ghost(t));
    }
    if !tx.ty().is_copy() {
        move_lowered_value(&x, env);
    }
    (Ok(Stmt::Assign { target: tx, expr: x, span: SourceSpan::point(line, column) }), Ghost(t))
}

fn lower_defer(s: &syntax::Stmt, env: &mut Vec<Binding>, edges: &mut Vec<LoopEdge>, in_loop: bool, ctx: &LowerContext) -> (out: (Result<Stmt, Diagnostic>, Ghost<Derivation>))
    requires
        s is Defer,
        stmt_spans_ok(*s),
        ctx_ok(*ctx),
    ensures
        stmt_rel(*s, old(env)@, old(edges)@, in_loop, *ctx, out.0, final(env)@, final(edges)@, out.1@),
        env_frame(old(env)@, final(env)@),
        final(edges)@ == old(edges)@,
    decreases s, 0int,
{
    let (expr, line, column) = match s {
        syntax::Stmt::Defer { expr, line, column } => (expr, *line, *column),
        _ => { assert(false); return (Err(Diagnostic::new("control", String::new())), Ghost(Derivation::Leaf)); },
    };
    let (rx, Ghost(tx)) = lower_expr(expr, None, false, env, ctx);
    let ghost t = Derivation::Node(seq![expr_step(rx, env@, tx)]);
    let x = match rx {
        Err(d) => return (Err(d), Ghost(t)),
        Ok(x) => x,
    };
    if !x.ty().is_copy() {
        move_lowered_value(&x, env);
    }
    (Ok(Stmt::Defer { expr: x, span: SourceSpan::point(line, column) }), Ghost(t))
}

fn lower_loop_control(s: &syntax::Stmt, env: &mut Vec<Binding>, edges: &mut Vec<LoopEdge>, in_loop: bool, ctx: &LowerContext) -> (out: (Result<Stmt, Diagnostic>, Ghost<Derivation>))
    requires
        s is Break || s is Continue,
        stmt_spans_ok(*s),
    ensures
        stmt_rel(*s, old(env)@, old(edges)@, in_loop, *ctx, out.0, final(env)@, final(edges)@, out.1@),
        final(env)@ == old(env)@,
        edges_extend(old(edges)@, final(edges)@, old(env)@.len()),
    decreases s, 0int,
{
    let (is_break, line, column) = match s {
        syntax::Stmt::Break { line, column } => (true, *line, *column),
        syntax::Stmt::Continue { line, column } => (false, *line, *column),
        _ => { assert(false); return (Err(Diagnostic::new("control", String::new())), Ghost(Derivation::Leaf)); },
    };
    if !in_loop {
        let m = if is_break {
            String::from_str("break is only valid inside a loop")
        } else {
            String::from_str("continue is only valid inside a loop")
        };
        return (Err(Diagnostic::new("control", m).with_span(line, column)), Ghost(Derivation::Leaf));
    }
    let kind = if is_break { EdgeKind::Break } else { EdgeKind::Continue };
    let moved = snapshot_moved(env);
    edges.push(LoopEdge { kind, moved });
    proof { assert(edges@.take(old(edges)@.len() as int) =~= old(edges)@); }
    let span = SourceSpan::point(line, column);
    if is_break {
        (Ok(Stmt::Break { span }), Ghost(Derivation::Leaf))
    } else {
        (Ok(Stmt::Continue { span }), Ghost(Derivation::Leaf))
    }
}

fn lower_return(s: &syntax::Stmt, env: &mut Vec<Binding>, edges: &mut Vec<LoopEdge>, in_loop: bool, ctx: &LowerContext) -> (out: (Result<Stmt, Diagnostic>, Ghost<Derivation>))
    requires
        s is Return,
        stmt_spans_ok(*s),
        ctx_ok(*ctx),
    ensures
        stmt_rel(*s, old(env)@, old(edges)@, in_loop, *ctx, out.0, final(env)@, final(edges)@, out.1@),
        env_frame(old(env)@, final(env)@),
        final(edges)@ == old(edges)@,
    decreases s, 0int,
{
    let (expr, line, column) = match s {
        syntax::Stmt::Return { expr, line, column } => (expr, *line, *column),
        _ => { assert(false); return (Err(Diagnostic::new("control", String::new())), Ghost(Derivation::Leaf)); },
    };
    let expected = match &ctx.current_return {
        None => {
            let d = Diagnostic::new("control", String::from_str("return is only valid inside a function")).with_span(line, column);
            return (Err(d), Ghost(Derivation::Leaf));
        },
        Some(t) => t,
    };
    let (rx, Ghost(tx)) = lower_expr(expr, Some(expected), false, env, ctx);
    let ghost t = Derivation::Node(seq![expr_step(rx, env@, tx)]);
    let x = match rx {
        Err(d) => return (Err(d), Ghost(t)),
        Ok(x) => x,
    };
    if !type_assignable_to(x.ty(), expected) {
        let m = concat(got_message(String::from_str("return expects "), expected), ", got ");
        let m = got_message(m, x.ty());
        return (Err(type_error_at(m, line, column)), Ghost(t));
    }
    (Ok(Stmt::Return { expr: x, borrow_region_facts: Vec::new(), span: SourceSpan::point(line, column) }), Ghost(t))
}


fn lower_if(s: &syntax::Stmt, env: &mut Vec<Binding>, edges: &mut Vec<LoopEdge>, in_loop: bool, ctx: &LowerContext) -> (out: (Result<Stmt, Diagnostic>, Ghost<Derivation>))
    requires
        s is If,
        stmt_spans_ok(*s),
        ctx_ok(*ctx),
    ensures
        stmt_rel(*s, old(env)@, old(edges)@, in_loop, *ctx, out.0, final(env)@, final(edges)@, out.1@),
        env_frame(old(env)@, final(env)@),
        edges_extend(old(edges)@, final(edges)@, old(env)@.len()),
    decreases s, 1int,
{
    let (cond, line, column) = match s {
        syntax::Stmt::If { cond, line, column, .. } => (cond, *line, *column),
        _ => { assert(false); return (Err(Diagnostic::new("control", String::new())), Ghost(Derivation::Leaf)); },
    };
    let (rc, Ghost(tc)) = lower_expr(cond, None, false, env, ctx);
    let ghost s0 = expr_step(rc, env@, tc);
    let c = match rc {
        Err(d) => return (Err(d), Ghost(Derivation::Node(seq![s0]))),
        Ok(c) => c,
    };
    if !matches!(c.ty(), Type::Bool) {
        let m = got_message(String::from_str("if condition expects bool, got "), c.ty());
        return (Err(type_error_at(m, line, column)), Ghost(Derivation::Node(seq![s0])));
    }
    let ghost m = env@;
    let (r, Ghost(t)) = lower_if_branches(s, c, env, edges, in_loop, ctx, Ghost(s0));
    proof { assert(step(t, 0) == s0); }
    (r, Ghost(t))
}

#[verifier::rlimit(60)]
fn lower_if_branches(s: &syntax::Stmt, c: Expr, env: &mut Vec<Binding>, edges: &mut Vec<LoopEdge>, in_loop: bool, ctx: &LowerContext, Ghost(s0): Ghost<Step>) -> (out: (Result<Stmt, Diagnostic>, Ghost<Derivation>))
    requires
        s is If,
        stmt_spans_ok(*s),
        ctx_ok(*ctx),
        s0.env == old(env)@,
    ensures
        if_rel(*s, c, old(env)@, old(edges)@, in_loop, *ctx, out.0, final(env)@, final(edges)@, out.1@),
        out.1@ is Node && out.1@->Node_0.len() >= 1 && step(out.1@, 0) == s0,
        env_frame(old(env)@, final(env)@),
        edges_extend(old(edges)@, final(edges)@, old(env)@.len()),
    decreases s, 0int,
{
    let (then_block, else_block, line, column) = match s {
        syntax::Stmt::If { then_block, else_block, line, column, .. } => (then_block, else_block, *line, *column),
        _ => { assert(false); return (Err(Diagnostic::new("control", String::new())), Ghost(Derivation::Node(seq![s0]))); },
    };
    let span = SourceSpan::point(line, column);
    match static_bool_value(&c) {
        Some(true) => {
            let (rb, Ghost(tb)) = lower_block(then_block, 0, env, edges, in_loop, ctx);
            let ghost t = Derivation::Node(seq![s0, blk_step(rb, env@, edges@, tb)]);
            match rb {
                Err(d) => (Err(d), Ghost(t)),
                Ok((body, _)) => {
                    let eb = if else_block.is_some() { Some(Vec::new()) } else { None };
                    (Ok(Stmt::If { cond: c, then_block: body, else_block: eb, span }), Ghost(t))
                },
            }
        },
        Some(false) => match else_block {
            Some(b) => {
                let (rb, Ghost(tb)) = lower_block(b, 0, env, edges, in_loop, ctx);
                let ghost t = Derivation::Node(seq![s0, blk_step(rb, env@, edges@, tb)]);
                match rb {
                    Err(d) => (Err(d), Ghost(t)),
                    Ok((body, _)) => (Ok(Stmt::If { cond: c, then_block: Vec::new(), else_block: Some(body), span }), Ghost(t)),
                }
            },
            None => (Ok(Stmt::If { cond: c, then_block: Vec::new(), else_block: None, span }), Ghost(Derivation::Node(seq![s0]))),
        },
        None => {
            let ghost m = env@;
            let before_len = env.len();
            let before_moved = snapshot_moved(env);
            let (rt, Ghost(tt)) = lower_block(then_block, 0, env, edges, in_loop, ctx);
            let ghost s1 = blk_step(rt, env@, edges@, tt);
            let ghost then_after = env@;
            let (tb, then_exits) = match rt {
                Err(d) => return (Err(d), Ghost(Derivation::Node(seq![s0, s1]))),
                Ok(v) => v,
            };
            let then_moved = snapshot_moved(env);
            restore_scope(env, before_len, &before_moved);
            proof { assert(env@ =~= m); }
            match else_block {
                Some(b) => {
                    let (re, Ghost(te)) = lower_block(b, 0, env, edges, in_loop, ctx);
                    let ghost s2 = blk_step(re, env@, edges@, te);
                    let ghost else_after = env@;
                    let ghost t = Derivation::Node(seq![s0, s1, s2]);
                    let (eb, else_exits) = match re {
                        Err(d) => return (Err(d), Ghost(t)),
                        Ok(v) => v,
                    };
                    let else_moved = snapshot_moved(env);
                    let merged = merge_branch_state(&before_moved, &then_moved, then_exits, Some(&else_moved), else_exits);
                    restore_scope(env, before_len, &merged);
                    proof { assert(env@ =~= merge_branches(m, then_after, then_exits, Some(else_after), else_exits)); }
                    (Ok(Stmt::If { cond: c, then_block: tb, else_block: Some(eb), span }), Ghost(t))
                },
                None => {
                    let merged = merge_branch_state(&before_moved, &then_moved, then_exits, None, false);
                    restore_scope(env, before_len, &merged);
                    proof { assert(env@ =~= merge_branches(m, then_after, then_exits, None, false)); }
                    (Ok(Stmt::If { cond: c, then_block: tb, else_block: None, span }), Ghost(Derivation::Node(seq![s0, s1])))
                },
            }
        },
    }
}

/// The position of the binding with the smallest name that `violates` names, if any.
fn first_violation(env: &Vec<Binding>, header_len: usize, header_moved: &Vec<bool>, moved: &Vec<bool>, Ghost(header): Ghost<Seq<Binding>>) -> (r: Option<usize>)
    requires
        header.len() == header_len,
        header_moved@ == moved_flags(header),
        env_frame(header, env@),
        moved.len() >= header_len,
    ensures
        match backedge_name(header, moved@) {
            None => r is None,
            Some(n) => r is Some && r->0 < header_len && env@[r->0 as int].name@ == n,
        },
{
    let mut best: Option<usize> = None;
    let mut i: usize = 0;
    while i < header_len
        invariant
            i <= header_len,
            header.len() == header_len,
            header_moved@ == moved_flags(header),
            env_frame(header, env@),
            moved.len() >= header_len,
            best is None ==> forall|j: int| 0 <= j < i ==> !#[trigger] violates(header, moved@, j),
            best is Some ==> {
                &&& best->0 < i
                &&& violates(header, moved@, best->0 as int)
                &&& forall|j: int| 0 <= j < i && #[trigger] violates(header, moved@, j) ==> seq_order(header[best->0 as int].name@, header[j].name@) <= 0
            },
        decreases header_len - i,
    {
        proof { assert(env@[i as int] == (Binding { moved: env@[i as int].moved, ..header[i as int] })); }
        if !header_moved[i] && !env[i].ty.is_copy() && moved[i] {
            match best {
                None => {
                    proof { crate::diagnostics::lemma_seq_order_props(header[i as int].name@, header[i as int].name@, header[i as int].name@); }
                    best = Some(i);
                },
                Some(b) => {
                    proof { assert(env@[b as int] == (Binding { moved: env@[b as int].moved, ..header[b as int] })); }
                    let c = str_compare(env[i].name.as_str(), env[b].name.as_str());
                    proof {
                        crate::diagnostics::lemma_seq_order_props(header[i as int].name@, header[b as int].name@, header[b as int].name@);
                        assert forall|j: int| 0 <= j < i + 1 && #[trigger] violates(header, moved@, j) implies
                            seq_order(header[(if c < 0 { i } else { b }) as int].name@, header[j].name@) <= 0 by {
                            crate::diagnostics::lemma_seq_order_props(header[i as int].name@, header[b as int].name@, header[j].name@);
                            crate::diagnostics::lemma_seq_order_props(header[b as int].name@, header[i as int].name@, header[j].name@);
                            crate::diagnostics::lemma_seq_order_props(header[j].name@, header[j].name@, header[j].name@);
                        }
                    }
                    if c < 0 {
                        best = Some(i);
                    }
                },
            }
        }
        i = i + 1;
    }
    match best {
        None => None,
        Some(b) => {
            proof {
                assert(env@[b as int] == (Binding { moved: env@[b as int].moved, ..header[b as int] }));
                let k = choose|k: int| #[trigger] violates(header, moved@, k)
                    && forall|j: int| #[trigger] violates(header, moved@, j) ==> seq_order(header[k].name@, header[j].name@) <= 0;
                crate::diagnostics::lemma_seq_order_props(header[k].name@, header[b as int].name@, header[b as int].name@);
                crate::diagnostics::lemma_seq_order_zero(header[k].name@, header[b as int].name@);
            }
            Some(b)
        },
    }
}

/// The first exit of a loop body that would continue the loop without a value the loop
/// header had (see `backedge_violation`), as the position of that binding.
fn validate_backedge(env: &Vec<Binding>, header_len: usize, header_moved: &Vec<bool>, edges: &Vec<LoopEdge>, k: usize, body_moved: &Vec<bool>, body_exits: bool, Ghost(header): Ghost<Seq<Binding>>, Ghost(after): Ghost<Seq<Binding>>) -> (r: Option<usize>)
    requires
        header.len() == header_len,
        header_moved@ == moved_flags(header),
        env_frame(header, env@),
        body_moved@ == moved_flags(after),
        after.len() >= header_len,
        k <= edges.len(),
        forall|j: int| 0 <= j < edges.len() ==> #[trigger] edges@[j].moved@.len() >= header_len,
    ensures
        match backedge_violation(header, edges@, k as int, after, body_exits) {
            None => r is None,
            Some(n) => r is Some && r->0 < header_len && env@[r->0 as int].name@ == n,
        },
    decreases edges.len() - k,
{
    if k < edges.len() {
        if edges[k].kind == EdgeKind::Continue {
            let found = first_violation(env, header_len, header_moved, &edges[k].moved, Ghost(header));
            if found.is_some() {
                return found;
            }
        }
        return validate_backedge(env, header_len, header_moved, edges, k + 1, body_moved, body_exits, Ghost(header), Ghost(after));
    }
    if !body_exits {
        return first_violation(env, header_len, header_moved, body_moved, Ghost(header));
    }
    None
}

/// The moved flags after a loop (see `join_exits`).
fn join_flags(entry_moved: &Vec<bool>, edges: &Vec<LoopEdge>, body_moved: &Vec<bool>, body_exits: bool) -> (r: Vec<bool>)
    requires
        body_moved.len() >= entry_moved.len(),
        forall|j: int| 0 <= j < edges.len() ==> #[trigger] edges@[j].moved@.len() >= entry_moved.len(),
    ensures
        r@ == Seq::new(entry_moved.len() as nat, |i: int|
            entry_moved@[i] || (exists|k: int| 0 <= k < edges.len() && #[trigger] edges@[k].moved@[i]) || (!body_exits && body_moved@[i])),
{
    let mut out: Vec<bool> = Vec::new();
    let mut i: usize = 0;
    while i < entry_moved.len()
        invariant
            i <= entry_moved.len(),
            body_moved.len() >= entry_moved.len(),
            forall|j: int| 0 <= j < edges.len() ==> #[trigger] edges@[j].moved@.len() >= entry_moved.len(),
            out@.len() == i,
            forall|j: int| 0 <= j < i ==> #[trigger] out@[j] == (entry_moved@[j]
                || (exists|k: int| 0 <= k < edges.len() && #[trigger] edges@[k].moved@[j]) || (!body_exits && body_moved@[j])),
        decreases entry_moved.len() - i,
    {
        let mut any = false;
        let mut k: usize = 0;
        while k < edges.len()
            invariant
                k <= edges.len(),
                i < entry_moved.len(),
                forall|j: int| 0 <= j < edges.len() ==> #[trigger] edges@[j].moved@.len() >= entry_moved.len(),
                any == exists|m: int| 0 <= m < k && #[trigger] edges@[m].moved@[i as int],
            decreases edges.len() - k,
        {
            if edges[k].moved[i] {
                any = true;
            }
            k = k + 1;
        }
        out.push(entry_moved[i] || any || (!body_exits && body_moved[i]));
        i = i + 1;
    }
    proof {
        assert(out@ =~= Seq::new(entry_moved.len() as nat, |i: int|
            entry_moved@[i] || (exists|k: int| 0 <= k < edges.len() && #[trigger] edges@[k].moved@[i]) || (!body_exits && body_moved@[i])));
    }
    out
}

#[verifier::rlimit(60)]
fn lower_while(s: &syntax::Stmt, env: &mut Vec<Binding>, edges: &mut Vec<LoopEdge>, in_loop: bool, ctx: &LowerContext) -> (out: (Result<Stmt, Diagnostic>, Ghost<Derivation>))
    requires
        s is While,
        stmt_spans_ok(*s),
        ctx_ok(*ctx),
    ensures
        stmt_rel(*s, old(env)@, old(edges)@, in_loop, *ctx, out.0, final(env)@, final(edges)@, out.1@),
        env_frame(old(env)@, final(env)@),
        final(edges)@ == old(edges)@,
    decreases s, 0int,
{
    let (cond, body, line, column) = match s {
        syntax::Stmt::While { cond, body, line, column } => (cond, body, *line, *column),
        _ => { assert(false); return (Err(Diagnostic::new("control", String::new())), Ghost(Derivation::Leaf)); },
    };
    let ghost header = env@;
    let header_len = env.len();
    let header_moved = snapshot_moved(env);
    let (rc, Ghost(tc)) = lower_expr(cond, None, false, env, ctx);
    let ghost s0 = expr_step(rc, env@, tc);
    let c = match rc {
        Err(d) => return (Err(d), Ghost(Derivation::Node(seq![s0]))),
        Ok(c) => c,
    };
    if !matches!(c.ty(), Type::Bool) {
        let m = got_message(String::from_str("while condition expects bool, got "), c.ty());
        return (Err(type_error_at(m, line, column)), Ghost(Derivation::Node(seq![s0])));
    }
    let span = SourceSpan::point(line, column);
    if static_bool_value(&c) == Some(false) {
        return (Ok(Stmt::While { cond: c, body: Vec::new(), span }), Ghost(Derivation::Node(seq![s0])));
    }
    let ghost entry = env@;
    let entry_len = env.len();
    let entry_moved = snapshot_moved(env);
    let mut loop_edges: Vec<LoopEdge> = Vec::new();
    let (rb, Ghost(tb)) = lower_block(body, 0, env, &mut loop_edges, true, ctx);
    let ghost s1 = blk_step(rb, env@, loop_edges@, tb);
    let ghost t = Derivation::Node(seq![s0, s1]);
    let ghost after = env@;
    let (b, body_exits) = match rb {
        Err(d) => return (Err(d), Ghost(t)),
        Ok(v) => v,
    };
    let body_moved = snapshot_moved(env);
    match validate_backedge(env, header_len, &header_moved, &loop_edges, 0, &body_moved, body_exits, Ghost(header), Ghost(after)) {
        Some(k) => {
            let m = concat(concat(String::from_str("cannot move non-copy value `"), env[k].name.as_str()),
                "` inside loop body or condition \u{2014} value would not be available on subsequent iterations");
            return (Err(ownership_error("loop_move_outer_non_copy", m).with_span(line, column)), Ghost(t));
        },
        None => {},
    }
    let joined = join_flags(&entry_moved, &loop_edges, &body_moved, body_exits);
    restore_scope(env, entry_len, &joined);
    proof { assert(env@ =~= join_exits(entry, loop_edges@, after, body_exits)); }
    (Ok(Stmt::While { cond: c, body: b, span }), Ghost(t))
}

/// The variants `vs` agree with the shapes `shapes`: same names and payload names, and
/// equal payload types.
pub open spec fn shapes_agree(vs: Seq<EnumVariantDef>, shapes: Seq<(Seq<char>, Seq<Type>, Seq<Seq<char>>)>) -> bool {
    &&& vs.len() == shapes.len()
    &&& forall|k: int| 0 <= k < vs.len() ==> {
        let v = #[trigger] vs[k];
        &&& v.name@ == shapes[k].0
        &&& v.payload_tys@.len() == shapes[k].1.len()
        &&& forall|j: int| 0 <= j < v.payload_tys@.len() ==> type_eq(#[trigger] v.payload_tys@[j], shapes[k].1[j])
        &&& Seq::new(v.payload_names@.len(), |m: int| v.payload_names@[m]@) == shapes[k].2
    }
}

/// The texts of a list of strings.
pub open spec fn texts(v: Seq<String>) -> Seq<Seq<char>> {
    Seq::new(v.len(), |m: int| v[m]@)
}

pub fn clone_strings(v: &Vec<String>) -> (r: Vec<String>)
    ensures
        r@ == v@,
{
    let mut out: Vec<String> = Vec::new();
    let mut i: usize = 0;
    while i < v.len()
        invariant
            i <= v.len(),
            out@ == v@.take(i as int),
        decreases v.len() - i,
    {
        out.push(v[i].clone());
        i = i + 1;
        proof { assert(out@ =~= v@.take(i as int)); }
    }
    proof { assert(out@ =~= v@); }
    out
}

/// Finds the first entry of `names` equal to `name`.
fn find_name(names: &Vec<String>, name: &str) -> (r: Option<usize>)
    ensures
        match name_position(texts(names@), name@) {
            None => r is None,
            Some(p) => r == Some(p as usize) && 0 <= p < names.len(),
        },
{
    let ghost ns = texts(names@);
    let mut i: usize = 0;
    while i < names.len()
        invariant
            i <= names.len(),
            ns == texts(names@),
            forall|j: int| 0 <= j < i ==> ns[j] != name@,
        decreases names.len() - i,
    {
        if crate::text::str_eq(names[i].as_str(), name) {
            proof {
                assert(ns[i as int] == name@);
                let k = choose|k: int| 0 <= k < ns.len() && ns[k] == name@ && forall|j: int| 0 <= j < k ==> ns[j] != name@;
                if k < i { assert(false); }
                if k > i { assert(ns[i as int] != name@); }
            }
            return Some(i);
        }
        i = i + 1;
    }
    None
}

/// The variant names of `vs`.
pub open spec fn variant_names(vs: Seq<EnumVariantDef>) -> Seq<Seq<char>> {
    Seq::new(vs.len(), |i: int| vs[i].name@)
}

/// Finds the variant of `vs` named `name` (the first such).
fn find_variant_named(vs: &Vec<EnumVariantDef>, name: &str) -> (r: Option<usize>)
    ensures
        match name_position(variant_names(vs@), name@) {
            None => r is None,
            Some(p) => r == Some(p as usize) && 0 <= p < vs.len(),
        },
{
    let ghost ns = variant_names(vs@);
    let mut i: usize = 0;
    while i < vs.len()
        invariant
            i <= vs.len(),
            ns == variant_names(vs@),
            forall|j: int| 0 <= j < i ==> ns[j] != name@,
        decreases vs.len() - i,
    {
        if crate::text::str_eq(vs[i].name.as_str(), name) {
            proof {
                assert(ns[i as int] == name@);
                let k = choose|k: int| 0 <= k < ns.len() && ns[k] == name@ && forall|j: int| 0 <= j < k ==> ns[j] != name@;
                if k < i { assert(false); }
                if k > i { assert(ns[i as int] != name@); }
            }
            return Some(i);
        }
        i = i + 1;
    }
    None
}

fn clone_variant(v: &EnumVariantDef) -> (r: EnumVariantDef)
    ensures
        r.name == v.name,
        r.payload_names@ == v.payload_names@,
        r.payload_tys@.len() == v.payload_tys@.len(),
        forall|j: int| 0 <= j < v.payload_tys@.len() ==> type_eq(#[trigger] r.payload_tys@[j], v.payload_tys@[j]),
{
    EnumVariantDef { name: v.name.clone(), payload_tys: crate::model::clone_types(&v.payload_tys), payload_names: clone_strings(&v.payload_names) }
}

fn find_enum(enums: &Vec<EnumDef>, name: &str) -> (r: Option<usize>)
    ensures
        match enum_index(enums@, name@) {
            None => r is None,
            Some(p) => r == Some(p as usize) && 0 <= p < enums.len(),
        },
{
    let mut i: usize = 0;
    while i < enums.len()
        invariant
            i <= enums.len(),
            forall|j: int| 0 <= j < i ==> enums@[j].name@ != name@,
        decreases enums.len() - i,
    {
        if crate::text::str_eq(enums[i].name.as_str(), name) {
            proof {
                let k = choose|k: int| 0 <= k < enums@.len() && enums@[k].name@ == name@ && forall|j: int| 0 <= j < k ==> enums@[j].name@ != name@;
                if k < i { assert(false); }
                if k > i { assert(enums@[i as int].name@ != name@); }
            }
            return Some(i);
        }
        i = i + 1;
    }
    None
}

/// The enum a `match` names variants of, and those variants.
pub struct MatchTarget {
    pub enum_name: String,
    pub variants: Vec<EnumVariantDef>,
}

/// The enum name and variants a `match` on a value of type `ty` may name.
fn match_variants(ty: &Type, enums: &Vec<EnumDef>) -> (r: Option<MatchTarget>)
    requires
        crate::lower_expr::enums_named_ok(enums@),
    ensures
        match match_variants_of(*ty, enums@) {
            None => r is None,
            Some((n, shapes)) => r is Some && r->0.enum_name@ == n && shapes_agree(r->0.variants@, shapes) && shapes_named_ok(shapes),
        },
{
    match ty {
        Type::Enum(name) => {
            let k = find_enum(enums, name.as_str())?;
            let variants = &enums[k].variants;
            let mut out: Vec<EnumVariantDef> = Vec::new();
            let mut i: usize = 0;
            while i < variants.len()
                invariant
                    i <= variants.len(),
                    out@.len() == i,
                    forall|m: int| 0 <= m < i ==> {
                        let v = #[trigger] out@[m];
                        let w = variants@[m];
                        &&& v.name == w.name
                        &&& v.payload_names@ == w.payload_names@
                        &&& v.payload_tys@.len() == w.payload_tys@.len()
                        &&& forall|j: int| 0 <= j < w.payload_tys@.len() ==> type_eq(#[trigger] v.payload_tys@[j], w.payload_tys@[j])
                    },
                decreases variants.len() - i,
            {
                out.push(clone_variant(&variants[i]));
                i = i + 1;
            }
            proof {
                let shapes = Seq::new(variants@.len(), |v: int| variant_shape(variants@[v]));
                assert forall|m: int| 0 <= m < out@.len() implies {
                    let v = #[trigger] out@[m];
                    &&& v.name@ == shapes[m].0
                    &&& v.payload_tys@.len() == shapes[m].1.len()
                    &&& forall|j: int| 0 <= j < v.payload_tys@.len() ==> type_eq(#[trigger] v.payload_tys@[j], shapes[m].1[j])
                    &&& Seq::new(v.payload_names@.len(), |q: int| v.payload_names@[q]@) == shapes[m].2
                } by {
                    assert(Seq::new(out@[m].payload_names@.len(), |q: int| out@[m].payload_names@[q]@) =~= shapes[m].2);
                }
                assert forall|m: int| 0 <= m < shapes.len() implies (#[trigger] shapes[m]).2.len() == 0 || shapes[m].2.len() == shapes[m].1.len() by {
                    let v = enums@[k as int].variants@[m];
                    assert(shapes[m] == variant_shape(v));
                }
            }
            Some(MatchTarget { enum_name: name.clone(), variants: out })
        },
        Type::Option(inner) => {
            let some = EnumVariantDef { name: String::from_str("Some"), payload_tys: vec![clone_type(inner)], payload_names: Vec::new() };
            let none = EnumVariantDef { name: String::from_str("None"), payload_tys: Vec::new(), payload_names: Vec::new() };
            let out = vec![some, none];
            proof {
                let (_, shapes) = match_variants_of(*ty, enums@)->0;
                assert(Seq::new(out@[0].payload_names@.len(), |q: int| out@[0].payload_names@[q]@) =~= shapes[0].2);
                assert(Seq::new(out@[1].payload_names@.len(), |q: int| out@[1].payload_names@[q]@) =~= shapes[1].2);
            }
            Some(MatchTarget { enum_name: String::from_str("Option"), variants: out })
        },
        Type::Result(ok, err) => {
            let okv = EnumVariantDef { name: String::from_str("Ok"), payload_tys: vec![clone_type(ok)], payload_names: Vec::new() };
            let errv = EnumVariantDef { name: String::from_str("Err"), payload_tys: vec![clone_type(err)], payload_names: Vec::new() };
            let out = vec![okv, errv];
            proof {
                let (_, shapes) = match_variants_of(*ty, enums@)->0;
                assert(Seq::new(out@[0].payload_names@.len(), |q: int| out@[0].payload_names@[q]@) =~= shapes[0].2);
                assert(Seq::new(out@[1].payload_names@.len(), |q: int| out@[1].payload_names@[q]@) =~= shapes[1].2);
            }
            Some(MatchTarget { enum_name: String::from_str("Result"), variants: out })
        },
        _ => None,
    }
}


fn earlier_binding(bindings: &Vec<String>, j: usize, name: &str) -> (r: bool)
    requires
        j <= bindings.len(),
    ensures
        r == exists|k: int| 0 <= k < j && #[trigger] bindings@[k]@ == name@,
{
    let mut k: usize = 0;
    while k < j
        invariant
            k <= j,
            j <= bindings.len(),
            forall|m: int| 0 <= m < k ==> bindings@[m]@ != name@,
        decreases j - k,
    {
        if crate::text::str_eq(bindings[k].as_str(), name) {
            return true;
        }
        k = k + 1;
    }
    false
}

fn named_problem(variant: &str, bindings: &Vec<String>, j: usize, names: &Vec<String>) -> (r: Option<String>)
    requires
        j <= bindings.len(),
    ensures
        match named_binding_problem(variant@, bindings@, j as int, texts(names@)) {
            None => r is None && forall|m: int| j <= m < bindings.len() ==> name_position(texts(names@), #[trigger] bindings@[m]@) is Some,
            Some(message) => r is Some && r->0@ == message,
        },
    decreases bindings.len() - j,
{
    if j >= bindings.len() {
        return None;
    }
    let b = bindings[j].as_str();
    if find_name(names, b).is_none() {
        return Some(concat(quoted_message("match arm ", variant, " has no named payload "), quote(b).as_str()));
    }
    if earlier_binding(bindings, j, b) {
        return Some(concat(quoted_message("match arm ", variant, " repeats named payload "), quote(b).as_str()));
    }
    named_problem(variant, bindings, j + 1, names)
}

fn binding_clash_check(bindings: &Vec<String>, j: usize, env: &Vec<Binding>, functions: &Vec<crate::context::FunctionSig>) -> (r: Option<String>)
    requires
        j <= bindings.len(),
    ensures
        match binding_clash(bindings@, j as int, env@, functions@) {
            None => r is None,
            Some(message) => r is Some && r->0@ == message,
        },
    decreases bindings.len() - j,
{
    if j >= bindings.len() {
        return None;
    }
    let b = bindings[j].as_str();
    if find_signature(functions, b).is_some() {
        return Some(quoted_message("match binding ", b, " conflicts with a function name"));
    }
    if find_binding(env, b).is_some() || earlier_binding(bindings, j, b) {
        return Some(quoted_message("match binding ", b, " reuses an existing name in the current scope"));
    }
    binding_clash_check(bindings, j + 1, env, functions)
}

fn arm_problem_check(ename: &String, vs: &Vec<EnumVariantDef>, arms: &Vec<syntax::MatchArm>, i: usize, env: &Vec<Binding>, ctx: &LowerContext, Ghost(shapes): Ghost<Seq<(Seq<char>, Seq<Type>, Seq<Seq<char>>)>>) -> (r: Option<String>)
    requires
        i < arms.len(),
        shapes_agree(vs@, shapes),
    ensures
        match arm_problem(ename@, shapes, *arms, i as int, env@, ctx.functions@) {
            None => r is None,
            Some(message) => r is Some && r->0@ == message,
        },
{
    let arm = &arms[i];
    let v = arm.variant.as_str();
    proof { assert(shape_names(shapes) =~= variant_names(vs@)); }
    let k = match find_variant_named(vs, v) {
        None => {
            let m = concat(concat(concat(String::from_str("enum "), quote(ename.as_str()).as_str()), " has no variant "), quote(v).as_str());
            return Some(m);
        },
        Some(k) => k,
    };
    let mut j: usize = 0;
    while j < i
        invariant
            j <= i,
            i < arms.len(),
            v@ == arms@[i as int].variant@,
            shape_index(shapes, v@) is Some,
            forall|m: int| 0 <= m < j ==> arms@[m].variant@ != v@,
        decreases i - j,
    {
        if crate::text::str_eq(arms[j].variant.as_str(), v) {
            let m = quoted_message("duplicate match arm ", v, "");
            proof {
                reveal_strlit("");
                assert(m@ =~= "duplicate match arm "@ + debug_quoted(v@));
                assert(arms@[j as int].variant@ == arms@[i as int].variant@);
            }
            return Some(m);
        }
        j = j + 1;
    }
    let variant = &vs[k];
    proof {
        assert(texts(variant.payload_names@) =~= shapes[k as int].2);
    }
    let names_len = variant.payload_names.len();
    let tys_len = variant.payload_tys.len();
    if arm.is_named {
        if names_len == 0 {
            let m = concat(concat(quoted_message("match arm ", v, " uses named bindings, but variant "), quote(v).as_str()), " is positional");
            return Some(m);
        }
        if arm.bindings.len() != names_len {
            return Some(count_message(quoted_message("match arm ", v, " expects "), names_len, " named bindings, got ", arm.bindings.len()));
        }
        if let Some(m) = named_problem(v, &arm.bindings, 0, &variant.payload_names) {
            return Some(m);
        }
    } else {
        if names_len > 0 {
            let m = concat(quoted_message("match arm ", v, " must use named bindings for variant "), quote(v).as_str());
            return Some(m);
        }
        if arm.bindings.len() != tys_len {
            return Some(count_message(quoted_message("match arm ", v, " expects "), tys_len, " bindings, got ", arm.bindings.len()));
        }
    }
    binding_clash_check(&arm.bindings, 0, env, ctx.functions)
}

/// The moved flags a match leaves: those of the later arms, or those this arm leaves
/// when it falls through.
fn merge_match_state(rest: &Vec<bool>, scope_moved: &Vec<bool>, after_moved: &Vec<bool>, exits: bool) -> (r: Vec<bool>)
    requires
        rest.len() == scope_moved.len(),
        after_moved.len() >= scope_moved.len(),
    ensures
        r@ == Seq::new(scope_moved.len() as nat, |j: int| rest@[j] || (if exits { scope_moved@[j] } else { after_moved@[j] })),
{
    let mut out: Vec<bool> = Vec::new();
    let mut j: usize = 0;
    while j < scope_moved.len()
        invariant
            j <= scope_moved.len(),
            rest.len() == scope_moved.len(),
            after_moved.len() >= scope_moved.len(),
            out@.len() == j,
            forall|m: int| 0 <= m < j ==> #[trigger] out@[m] == (rest@[m] || (if exits { scope_moved@[m] } else { after_moved@[m] })),
        decreases scope_moved.len() - j,
    {
        out.push(rest[j] || (if exits { scope_moved[j] } else { after_moved[j] }));
        j = j + 1;
    }
    proof { assert(out@ =~= Seq::new(scope_moved.len() as nat, |j: int| rest@[j] || (if exits { scope_moved@[j] } else { after_moved@[j] }))); }
    out
}

/// A lowering outcome of match arms, seen over sequences.
pub open spec fn arms_outcome(r: Result<(Vec<MatchArm>, Vec<bool>), Diagnostic>) -> Result<(Seq<MatchArm>, Seq<bool>), Diagnostic> {
    match r {
        Ok((a, f)) => Ok((a@, f@)),
        Err(d) => Err(d),
    }
}

/// A recorded sub-lowering of match arms.
pub open spec fn arms_step(r: Result<(Vec<MatchArm>, Vec<bool>), Diagnostic>, edges: Seq<LoopEdge>, t: Derivation) -> Step {
    Step { out: Outcome::Arms(arms_outcome(r)), env: seq![], edges, sub: t }
}

#[verifier::rlimit(40)]
fn push_arm_bindings(arm: &syntax::MatchArm, vs: &Vec<EnumVariantDef>, k: usize, env: &mut Vec<Binding>, Ghost(shapes): Ghost<Seq<(Seq<char>, Seq<Type>, Seq<Seq<char>>)>>, Ghost(scope): Ghost<Seq<Binding>>)
    requires
        shapes_agree(vs@, shapes),
        shapes_named_ok(shapes),
        k < vs.len(),
        old(env)@ == scope,
        arm.is_named ==> arm.bindings.len() == shapes[k as int].2.len() && shapes[k as int].2.len() > 0
            && named_binding_problem(arm.variant@, arm.bindings@, 0, shapes[k as int].2) is None,
        !arm.is_named ==> arm.bindings.len() == shapes[k as int].1.len(),
    ensures
        arm_entry(scope, arm.bindings@, bound_types(arm.is_named, arm.bindings@, shapes[k as int].1, shapes[k as int].2), final(env)@),
{
    let variant = &vs[k];
    let ghost tys = shapes[k as int].1;
    let ghost names = shapes[k as int].2;
    let ghost bound = bound_types(arm.is_named, arm.bindings@, tys, names);
    proof {
        assert(texts(variant.payload_names@) =~= names);
        if arm.is_named {
            lemma_named_bindings_found(arm.variant@, arm.bindings@, 0, names);
        }
    }
    let mut j: usize = 0;
    while j < arm.bindings.len()
        invariant
            j <= arm.bindings.len(),
            shapes_agree(vs@, shapes),
            shapes_named_ok(shapes),
            k < vs.len(),
            *variant == vs@[k as int],
            tys == shapes[k as int].1,
            names == shapes[k as int].2,
            texts(variant.payload_names@) == names,
            bound == bound_types(arm.is_named, arm.bindings@, tys, names),
            arm.is_named ==> arm.bindings.len() == names.len() && names.len() > 0,
            arm.is_named ==> forall|m: int| 0 <= m < arm.bindings.len() ==> name_position(texts(variant.payload_names@), #[trigger] arm.bindings@[m]@) is Some,
            !arm.is_named ==> arm.bindings.len() == tys.len(),
            env@.len() == scope.len() + j,
            env@.take(scope.len() as int) == scope,
            forall|m: int| 0 <= m < j ==> {
                let b = #[trigger] env@[scope.len() + m];
                b.name == arm.bindings@[m] && type_eq(b.ty, bound[m]) && !b.moved && b.net_origin is None
            },
        decreases arm.bindings.len() - j,
    {
        let p = if arm.is_named {
            match find_name(&variant.payload_names, arm.bindings[j].as_str()) {
                Some(p) => p,
                None => { assert(false); 0 },
            }
        } else {
            j
        };
        proof {
            assert(shapes[k as int].2.len() == 0 || shapes[k as int].2.len() == shapes[k as int].1.len());
            assert(0 <= p < variant.payload_tys@.len());
            assert(vs@[k as int] == *variant);
            assert(type_eq(vs@[k as int].payload_tys@[p as int], shapes[k as int].1[p as int]));
        }
        let ty = clone_type(&variant.payload_tys[p]);
        proof { crate::model::lemma_type_eq_transitive(ty, variant.payload_tys@[p as int], tys[p as int]); }
        let ghost before_push = env@;
        env.push(Binding { name: arm.bindings[j].clone(), ty, moved: false, net_origin: None });
        proof {
            assert(env@.take(scope.len() as int) =~= before_push.take(scope.len() as int));
            assert(env@[scope.len() + j as int].name == arm.bindings@[j as int]);
        }
        j = j + 1;
    }
}

#[verifier::rlimit(60)]
fn lower_arms(ename: &String, vs: &Vec<EnumVariantDef>, arms: &Vec<syntax::MatchArm>, i: usize, scope_len: usize, scope_moved: &Vec<bool>, env: &mut Vec<Binding>, edges: &mut Vec<LoopEdge>, in_loop: bool, ctx: &LowerContext, Ghost(shapes): Ghost<Seq<(Seq<char>, Seq<Type>, Seq<Seq<char>>)>>, Ghost(scope): Ghost<Seq<Binding>>) -> (out: (Result<(Vec<MatchArm>, Vec<bool>), Diagnostic>, Ghost<Derivation>))
    requires
        shapes_agree(vs@, shapes),
        shapes_named_ok(shapes),
        old(env)@ == scope,
        scope.len() == scope_len,
        scope_moved@ == moved_flags(scope),
        i <= arms.len(),
        arms_spans_ok(*arms, i as int),
        ctx_ok(*ctx),
    ensures
        arms_rel(ename@, shapes, *arms, i as int, scope, old(edges)@, in_loop, *ctx, arms_outcome(out.0), final(edges)@, out.1@),
        env_frame(scope, final(env)@),
        out.0 is Ok ==> final(env)@ == scope && out.0->Ok_0.1.len() == scope_len,
        edges_extend(old(edges)@, final(edges)@, scope.len()),
    decreases arms, arms.len() - i,
{
    if i >= arms.len() {
        let mut flags: Vec<bool> = Vec::new();
        let mut j: usize = 0;
        while j < scope_len
            invariant
                j <= scope_len,
                flags@ == Seq::new(j as nat, |m: int| false),
            decreases scope_len - j,
        {
            flags.push(false);
            j = j + 1;
            proof { assert(flags@ =~= Seq::new(j as nat, |m: int| false)); }
        }
        return (Ok((Vec::new(), flags)), Ghost(Derivation::Leaf));
    }
    proof {
        assert(decreases_to!(arms => arms[i as int]));
        assert(decreases_to!(arms[i as int] => arms[i as int].body));
    }
    let arm = &arms[i];
    if let Some(m) = arm_problem_check(ename, vs, arms, i, env, ctx, Ghost(shapes)) {
        return (Err(type_error_at(m, arm.line, arm.column)), Ghost(Derivation::Leaf));
    }
    proof { assert(shape_names(shapes) =~= variant_names(vs@)); }
    let k = match find_variant_named(vs, arm.variant.as_str()) {
        Some(k) => k,
        None => { assert(false); return (Err(type_error_at(String::new(), 0, 0)), Ghost(Derivation::Leaf)); },
    };
    push_arm_bindings(arm, vs, k, env, Ghost(shapes), Ghost(scope));
    let ghost tys = shapes[k as int].1;
    let ghost names = shapes[k as int].2;
    let ghost bound = bound_types(arm.is_named, arm.bindings@, tys, names);
    let ghost entry = env@;
    proof { assert(arm_entry(scope, arm.bindings@, bound, entry)); }
    let (rb, Ghost(tb)) = lower_block(&arm.body, 0, env, edges, in_loop, ctx);
    let ghost s1 = blk_step(rb, env@, edges@, tb);
    let ghost after = env@;
    let ghost s0 = Step { out: Outcome::St(Err(arbitrary())), env: entry, edges: seq![], sub: Derivation::Leaf };
    let (body, exits) = match rb {
        Err(d) => return (Err(d), Ghost(Derivation::Node(seq![s0, s1]))),
        Ok(v) => v,
    };
    let after_moved = snapshot_moved(env);
    restore_scope(env, scope_len, scope_moved);
    proof { assert(env@ =~= scope); }
    let (rr, Ghost(tr)) = lower_arms(ename, vs, arms, i + 1, scope_len, scope_moved, env, edges, in_loop, ctx, Ghost(shapes), Ghost(scope));
    let ghost t = Derivation::Node(seq![s0, s1, arms_step(rr, edges@, tr)]);
    match rr {
        Err(d) => (Err(d), Ghost(t)),
        Ok((rest, rest_flags)) => {
            let flags = merge_match_state(&rest_flags, scope_moved, &after_moved, exits);
            proof {
                assert(flags@ =~= Seq::new(scope.len(), |j: int| rest_flags@[j] || (if exits { scope[j].moved } else { after[j].moved })));
            }
            let lowered = MatchArm {
                enum_name: ename.clone(),
                variant: arm.variant.clone(),
                bindings: clone_strings(&arm.bindings),
                is_named: arm.is_named,
                ignore_payloads: false,
                borrow_region_facts: Vec::new(),
                body,
            };
            let ghost rest_view = rest@;
            let ghost glowered = lowered;
            let mut out_arms: Vec<MatchArm> = Vec::new();
            out_arms.push(lowered);
            let mut rest = rest;
            out_arms.append(&mut rest);
            proof {
                assert(out_arms@ =~= seq![glowered] + rest_view);
                assert(out_arms@.drop_first() =~= rest_view);
            }
            (Ok((out_arms, flags)), Ghost(t))
        },
    }
}

fn missing_from(vs: &Vec<EnumVariantDef>, arms: &Vec<syntax::MatchArm>, k: usize, Ghost(shapes): Ghost<Seq<(Seq<char>, Seq<Type>, Seq<Seq<char>>)>>) -> (r: Vec<String>)
    requires
        k <= vs.len(),
        shapes_agree(vs@, shapes),
    ensures
        texts(r@) == missing_variants(shapes, *arms, k as int),
    decreases vs.len() - k,
{
    if k >= vs.len() {
        let r: Vec<String> = Vec::new();
        proof { assert(texts(r@) =~= Seq::<Seq<char>>::empty()); }
        return r;
    }
    let mut named = false;
    let mut j: usize = 0;
    while j < arms.len()
        invariant
            j <= arms.len(),
            k < vs.len(),
            named == exists|m: int| 0 <= m < j && #[trigger] arms@[m].variant@ == vs@[k as int].name@,
        decreases arms.len() - j,
    {
        if crate::text::str_eq(arms[j].variant.as_str(), vs[k].name.as_str()) {
            named = true;
        }
        j = j + 1;
    }
    let rest = missing_from(vs, arms, k + 1, Ghost(shapes));
    if named {
        return rest;
    }
    let ghost rest_view = rest@;
    let mut out: Vec<String> = Vec::new();
    out.push(vs[k].name.clone());
    let mut rest = rest;
    out.append(&mut rest);
    proof { assert(texts(out@) =~= seq![shapes[k as int].0] + texts(rest_view)); }
    out
}

fn join_with_commas(names: &Vec<String>) -> (r: String)
    ensures
        r@ == join_names(texts(names@)),
{
    if names.len() == 0 {
        proof { assert(texts(names@) =~= Seq::<Seq<char>>::empty()); }
        return String::new();
    }
    let mut out = names[0].clone();
    let mut i: usize = 1;
    proof { assert(texts(names@).take(1).len() == 1); }
    while i < names.len()
        invariant
            1 <= i <= names.len(),
            out@ == join_names(texts(names@).take(i as int)),
        decreases names.len() - i,
    {
        out.append(", ");
        out.append(names[i].as_str());
        proof {
            let prefix = texts(names@).take(i as int + 1);
            assert(prefix.drop_last() =~= texts(names@).take(i as int));
        }
        i = i + 1;
    }
    proof { assert(texts(names@).take(names.len() as int) =~= texts(names@)); }
    out
}

#[verifier::rlimit(60)]
fn lower_match(s: &syntax::Stmt, env: &mut Vec<Binding>, edges: &mut Vec<LoopEdge>, in_loop: bool, ctx: &LowerContext) -> (out: (Result<Stmt, Diagnostic>, Ghost<Derivation>))
    requires
        s is Match,
        stmt_spans_ok(*s),
        ctx_ok(*ctx),
    ensures
        stmt_rel(*s, old(env)@, old(edges)@, in_loop, *ctx, out.0, final(env)@, final(edges)@, out.1@),
        env_frame(old(env)@, final(env)@),
        edges_extend(old(edges)@, final(edges)@, old(env)@.len()),
    decreases s, 0int,
{
    let (expr, arms, line, column) = match s {
        syntax::Stmt::Match { expr, arms, line, column } => (expr, arms, *line, *column),
        _ => { assert(false); return (Err(Diagnostic::new("control", String::new())), Ghost(Derivation::Leaf)); },
    };
    let (rx, Ghost(tx)) = lower_expr(expr, None, false, env, ctx);
    let ghost s0 = expr_step(rx, env@, tx);
    let x = match rx {
        Err(d) => return (Err(d), Ghost(Derivation::Node(seq![s0]))),
        Ok(x) => x,
    };
    if matches!(x, Expr::VarRef { .. }) && !x.ty().is_copy() {
        move_lowered_value(&x, env);
    }
    let ghost scope = env@;
    let target = match match_variants(x.ty(), ctx.enums) {
        None => {
            let m = got_message(String::from_str("match expects an enum, Option or Result value, got "), x.ty());
            return (Err(type_error_at(m, line, column)), Ghost(Derivation::Node(seq![s0])));
        },
        Some(target) => target,
    };
    let ghost (_, shapes) = match_variants_of(expr_ty(x), ctx.enums@)->0;
    let scope_len = env.len();
    let scope_moved = snapshot_moved(env);
    let (ra, Ghost(ta)) = lower_arms(&target.enum_name, &target.variants, arms, 0, scope_len, &scope_moved, env, edges, in_loop, ctx, Ghost(shapes), Ghost(scope));
    let ghost t = Derivation::Node(seq![s0, arms_step(ra, edges@, ta)]);
    let (lowered, flags) = match ra {
        Err(d) => return (Err(d), Ghost(t)),
        Ok(v) => v,
    };
    let missing = missing_from(&target.variants, arms, 0, Ghost(shapes));
    if missing.len() > 0 {
        let m = concat(concat(concat(String::from_str("match on "), quote(target.enum_name.as_str()).as_str()), " is not exhaustive; missing "),
            join_with_commas(&missing).as_str());
        return (Err(type_error_at(m, line, column)), Ghost(t));
    }
    restore_scope(env, scope_len, &flags);
    proof { assert(env@ =~= Seq::new(scope.len(), |j: int| Binding { moved: flags@[j], ..scope[j] })); }
    (Ok(Stmt::Match { expr: x, arms: lowered, span: SourceSpan::point(line, column) }), Ghost(t))
}

} // verus!
