//! Properties of lowering that hold across its functions.
use vstd::prelude::*;
use vstd::seq_lib::*;
use crate::context::{Binding, LowerContext};
use crate::control_flow::stmt_exits;
use crate::derivation::{Derivation, LoopEdge, blk_at, deriv_at, edges_at, env_at, func_at, funcs_at, recovered_at, st_at, ty_at};
use crate::diagnostics::{Diagnostic, diag_le, diag_order, diags_sorted, is_primary};
use crate::lower_expr::{async_op, async_rel, call_kind, inner_rel, multi_call_rel, multi_intrinsic, preserves_intrinsic_type_args, table_call_rel, table_intrinsic};
use crate::lower_functions::{func_rel, funcs_rel, recover_rel};
use crate::lower_program::{bodies_rel, collected, declarations_rel, monomorphized_rel, program_ctx, program_rel};
use crate::aggregates::{
    agg_all_insts, agg_out, agg_queue, agg_rel, args_agg_rewritten, arms_agg_rewritten, block_agg_rewritten, concrete_enums,
    concrete_structs, enum_agg_rewritten, enum_entries, enum_instance, expr_agg_rewritten, fn_agg_rewritten, stmt_agg_rewritten,
    struct_agg_rewritten, struct_entries, struct_instance,
};
use crate::call_inference::program_inferred;
use crate::monomorphize::{
    TypeView, args_rewritten, arms_rewritten, block_insts, block_rewritten, concrete_insts, concrete_prefix, dedup_append,
    expr_rewritten, fn_rewritten, generic_index, inst_bindings, instance_emitted, lemma_tn_views, mono_parts_rel, mono_rel,
    process_queue, staged_rel, stmt_rewritten, tn_views,
};
use crate::lower_stmt::block_rel;
use crate::lower_types::{TypeNames, names_of};
use crate::manifest::{CapabilityConfig, CapabilityKind, capability_enabled};
use crate::model::{Expr, Program, Stmt, Type, all_assignable, assignable};
use crate::syntax;

verus! {

/// In a block that lowers, no statement but the last always leaves the block (counting
/// `break` and `continue`), every statement is lowered, and the block is said to leave
/// exactly when its last statement does.
pub proof fn lemma_lowered_block_has_no_unreachable_statement(b: Vec<syntax::Stmt>, i: int, env: Seq<Binding>, edges: Seq<LoopEdge>, in_loop: bool, ctx: LowerContext, r: Result<(Seq<Stmt>, bool), Diagnostic>, env2: Seq<Binding>, edges2: Seq<LoopEdge>, t: Derivation)
    requires
        0 <= i <= b.len(),
        block_rel(b, i, env, edges, in_loop, ctx, r, env2, edges2, t),
        r is Ok,
    ensures
        r->Ok_0.0.len() == b.len() - i,
        forall|k: int| 0 <= k < r->Ok_0.0.len() - 1 ==> !stmt_exits(#[trigger] r->Ok_0.0[k], true),
        r->Ok_0.1 == (r->Ok_0.0.len() > 0 && stmt_exits(r->Ok_0.0.last(), true)),
    decreases b.len() - i,
{
    if i < b.len() {
        if let Ok(s) = st_at(t, 0) {
            if i + 1 < b.len() && !stmt_exits(s, true) {
                lemma_lowered_block_has_no_unreachable_statement(b, i + 1, env_at(t, 0), edges_at(t, 0), in_loop, ctx, blk_at(t, 1), env2, edges2, deriv_at(t, 1));
                let rest = blk_at(t, 1)->Ok_0;
                assert(r->Ok_0.0 == seq![s] + rest.0);
                assert forall|k: int| 0 <= k < r->Ok_0.0.len() - 1 implies !stmt_exits(#[trigger] r->Ok_0.0[k], true) by {
                    if k > 0 {
                        assert(r->Ok_0.0[k] == rest.0[k - 1]);
                    }
                }
                assert(r->Ok_0.0.last() == rest.0.last());
            }
        }
    }
}

/// In a block lowered without any diagnostic, no statement but the last always returns;
/// the block is said to return exactly when its last statement does (or, when empty,
/// when it was entered after a returning statement).
pub proof fn lemma_recovered_block_returns_only_at_its_end(b: Vec<syntax::Stmt>, i: int, env: Seq<Binding>, returned: bool, ctx: LowerContext, r: (Seq<Stmt>, Seq<Diagnostic>, bool), t: Derivation)
    requires
        0 <= i <= b.len(),
        recover_rel(b, i, env, returned, ctx, r, t),
        r.1.len() == 0,
    ensures
        returned ==> r.0.len() == 0,
        forall|k: int| 0 <= k < r.0.len() - 1 ==> !stmt_exits(#[trigger] r.0[k], false),
        r.2 == (if r.0.len() > 0 { stmt_exits(r.0.last(), false) } else { returned }),
    decreases b.len() - i,
{
    if i < b.len() && !returned {
        let rest = recovered_at(t, 1);
        if let Ok(s) = st_at(t, 0) {
            lemma_recovered_block_returns_only_at_its_end(b, i + 1, env_at(t, 0), stmt_exits(s, false), ctx, rest, deriv_at(t, 1));
            assert(r.0 == seq![s] + rest.0);
            assert forall|k: int| 0 <= k < r.0.len() - 1 implies !stmt_exits(#[trigger] r.0[k], false) by {
                if k > 0 {
                    assert(r.0[k] == rest.0[k - 1]);
                }
            }
            if rest.0.len() > 0 {
                assert(r.0.last() == rest.0.last());
            }
        }
    }
}

/// A function with a body that lowers returns along all paths: its body ends in a
/// statement that always returns, and no earlier statement does.
pub proof fn lemma_lowered_function_returns(f: syntax::Function, ctx: LowerContext, r: Result<crate::model::Function, Diagnostic>, t: Derivation)
    requires
        func_rel(f, ctx, r, t),
        r is Ok,
        !f.is_extern,
    ensures
        r->Ok_0.body@.len() > 0,
        stmt_exits(r->Ok_0.body@.last(), false),
        forall|k: int| 0 <= k < r->Ok_0.body@.len() - 1 ==> !stmt_exits(#[trigger] r->Ok_0.body@[k], false),
{
    let body = recovered_at(t, 2);
    lemma_recovered_block_returns_only_at_its_end(f.body, 0, env_at(t, 1), false, crate::lower_functions::function_ctx(ctx, f, crate::derivation::ty_at(t, 0)->Ok_0), body, deriv_at(t, 2));
}

/// Every function in a list that lowers either is extern or has a body that ends in a
/// statement that always returns.
pub proof fn lemma_lowered_functions_return(fs: Vec<syntax::Function>, i: int, ctx: LowerContext, r: (Seq<crate::model::Function>, Seq<Diagnostic>), t: Derivation)
    requires
        0 <= i <= fs.len(),
        funcs_rel(fs, i, ctx, r, t),
    ensures
        forall|j: int| 0 <= j < r.0.len() ==> (#[trigger] r.0[j]).is_extern || (r.0[j].body@.len() > 0 && stmt_exits(r.0[j].body@.last(), false)),
    decreases fs.len() - i,
{
    if i < fs.len() {
        let rest = funcs_at(t, 1);
        lemma_lowered_functions_return(fs, i + 1, ctx, rest, deriv_at(t, 1));
        if let Ok(f) = func_at(t, 0) {
            if !fs[i].is_extern {
                lemma_lowered_function_returns(fs[i], ctx, func_at(t, 0), deriv_at(t, 0));
            }
            assert(r.0 == seq![f] + rest.0);
            assert forall|j: int| 0 <= j < r.0.len() implies (#[trigger] r.0[j]).is_extern || (r.0[j].body@.len() > 0 && stmt_exits(r.0[j].body@.last(), false)) by {
                if j > 0 {
                    assert(r.0[j] == rest.0[j - 1]);
                }
            }
        }
    }
}

/// Every function of a program that lowers either is extern or returns along all paths.
pub proof fn lemma_lowered_program_functions_return(p: syntax::Program, caps: CapabilityConfig, r: Result<Program, Seq<Diagnostic>>, t: Derivation)
    requires
        program_rel(p, caps, r, t),
        r is Ok,
    ensures
        forall|j: int| 0 <= j < r->Ok_0.functions@.len() ==> {
            let f = #[trigger] r->Ok_0.functions@[j];
            f.is_extern || (f.body@.len() > 0 && stmt_exits(f.body@.last(), false))
        },
{
    let p2 = choose|p2: syntax::Program| #[trigger] mono_rel(p, Ok(p2)) && monomorphized_rel(p2, p2.functions, p2.stmts, caps, r, t);
    let fs = p2.functions;
    let stmts = p2.stmts;
    let names = choose|names: TypeNames| #[trigger] names_of(names, p2.structs, p2.enums) && declarations_rel(p2, fs, stmts, caps, names, r, t);
    let es = crate::derivation::enums_at(t, 0)->Ok_0;
    let sigs = crate::derivation::sigs_at(t, 2)->Ok_0;
    let ss = crate::derivation::structs_at(t, 1)->Ok_0;
    reveal(bodies_rel);
    let ctx = choose|ctx: LowerContext| #[trigger] program_ctx(ctx, p2, caps, names, es, ss, sigs)
        && funcs_rel(fs, 0, ctx, funcs_at(t, 3), deriv_at(t, 3))
        && crate::lower_program::statics_rel(p2.consts, 0, ctx, crate::derivation::statics_at(t, 4), deriv_at(t, 4))
        && recover_rel(stmts, 0, Seq::empty(), false, ctx, recovered_at(t, 5), deriv_at(t, 5));
    lemma_lowered_functions_return(fs, 0, ctx, funcs_at(t, 3), deriv_at(t, 3));
}

/// A program that fails to lower reports at least one diagnostic, in canonical order.
pub proof fn lemma_failed_program_reports_sorted_diagnostics(p: syntax::Program, caps: CapabilityConfig, r: Result<Program, Seq<Diagnostic>>, t: Derivation)
    requires
        program_rel(p, caps, r, t),
        r is Err,
    ensures
        r->Err_0.len() > 0,
        diags_sorted(r->Err_0),
{
    broadcast use group_to_multiset_ensures;
    if exists|p2: syntax::Program| #[trigger] mono_rel(p, Ok(p2)) && monomorphized_rel(p2, p2.functions, p2.stmts, caps, r, t) {
        let p2 = choose|p2: syntax::Program| #[trigger] mono_rel(p, Ok(p2)) && monomorphized_rel(p2, p2.functions, p2.stmts, caps, r, t);
        let fs = p2.functions;
        let stmts = p2.stmts;
        if crate::const_eval::program_lengths_check(p2, fs, stmts, p2.consts@) is Ok && crate::lower_types::type_name_clash(p2.structs, p2.enums, p2.type_aliases) is None {
            let names = choose|names: TypeNames| #[trigger] names_of(names, p2.structs, p2.enums) && declarations_rel(p2, fs, stmts, caps, names, r, t);
            if crate::derivation::enums_at(t, 0) is Ok && crate::derivation::structs_at(t, 1) is Ok
                && crate::recursion::recursion_problem(p2.structs, p2.enums, crate::derivation::structs_at(t, 1)->Ok_0,
                    crate::derivation::enums_at(t, 0)->Ok_0) is None
                && crate::derivation::sigs_at(t, 2) is Ok {
                let fd = funcs_at(t, 3).1;
                let st = crate::derivation::statics_at(t, 4);
                let bd = recovered_at(t, 5).1;
                let all = choose|all: Seq<Diagnostic>| #[trigger] collected(fd, st, bd, all) && r->Err_0.to_multiset() == all.to_multiset();
                to_multiset_len(all);
                to_multiset_len(r->Err_0);
                if st is Ok {
                    assert(all.len() == fd.len() + bd.len());
                }
            }
        }
    }
}

/// The diagnostic a lowering reports sorts no later than any of the diagnostics it was
/// chosen from, and carries all the others.
pub proof fn lemma_primary_diagnostic_sorts_first(d: Diagnostic, ds: Seq<Diagnostic>)
    requires
        is_primary(d, ds),
    ensures
        forall|x: Diagnostic| ds.contains(x) ==> diag_le(d, x),
        ds.len() == d.related@.len() + 1,
{
    broadcast use group_to_multiset_ensures;
    broadcast use vstd::multiset::group_multiset_axioms;
    let f = choose|f: Diagnostic| #[trigger] ds.to_multiset().count(f) > 0
        && d == (Diagnostic { related: d.related, ..f })
        && d.related@.to_multiset().insert(f) == ds.to_multiset();
    assert forall|x: Diagnostic| ds.contains(x) implies diag_le(d, x) by {
        assert(ds.to_multiset().count(x) > 0);
        if x != f {
            assert(d.related@.to_multiset().count(x) > 0);
            assert(d.related@.contains(x));
            let i = choose|i: int| 0 <= i < d.related@.len() && d.related@[i] == x;
            assert(diag_le(d, d.related[i]));
        } else {
            assert(diag_order(d, f) == 0) by {
                crate::diagnostics::lemma_seq_order_props(d.kind@, f.kind@, f.kind@);
                crate::diagnostics::lemma_seq_order_props(d.message@, f.message@, f.message@);
                assert(crate::diagnostics::seq_order(d.kind@, d.kind@) == 0) by {
                    crate::diagnostics::lemma_seq_order_props(d.kind@, d.kind@, d.kind@);
                }
                assert(crate::diagnostics::seq_order(d.message@, d.message@) == 0) by {
                    crate::diagnostics::lemma_seq_order_props(d.message@, d.message@, d.message@);
                }
                match d.path {
                    Some(x) => crate::diagnostics::lemma_seq_order_props(x@, x@, x@),
                    None => {},
                }
            }
        }
    }
    to_multiset_len(ds);
    to_multiset_len(d.related@);
}

/// A call of a host-runtime intrinsic lowers only when its capability is granted:
/// `process_status` needs the process capability, `http_get` and `net_tcp_dial` the
/// network capability, the async runtime intrinsics the async capability (and exactly
/// one type argument), and each intrinsic of `table_intrinsic` and `multi_intrinsic` the
/// capability listed there; the lowered call keeps the intrinsic's name.
pub proof fn lemma_intrinsic_calls_need_capabilities(e: syntax::Expr, expected: Option<crate::model::Type>, env: Seq<Binding>, ctx: LowerContext, r: Result<Expr, Diagnostic>, env2: Seq<Binding>, t: Derivation)
    requires
        inner_rel(e, expected, env, ctx, r, env2, t),
        r is Ok,
        e is Call,
    ensures
        call_kind(e->Call_name@) == 3 ==> capability_enabled(*ctx.capabilities, CapabilityKind::Process),
        call_kind(e->Call_name@) == 1 || call_kind(e->Call_name@) == 2 ==> capability_enabled(*ctx.capabilities, CapabilityKind::Net),
        call_kind(e->Call_name@) == 5 ==> capability_enabled(*ctx.capabilities, CapabilityKind::Async) && e->Call_type_args.len() == 1,
        call_kind(e->Call_name@) == 7 && table_intrinsic(e->Call_name@)->Some_0.0 is Some
            ==> capability_enabled(*ctx.capabilities, table_intrinsic(e->Call_name@)->Some_0.0->Some_0),
        call_kind(e->Call_name@) == 10 && multi_intrinsic(e->Call_name@)->Some_0.0 is Some
            ==> capability_enabled(*ctx.capabilities, multi_intrinsic(e->Call_name@)->Some_0.0->Some_0),
        1 <= call_kind(e->Call_name@) <= 3 || call_kind(e->Call_name@) == 5 || call_kind(e->Call_name@) == 7
            || call_kind(e->Call_name@) == 10 ==> (r->Ok_0 matches Expr::Call { name, .. } && name == e->Call_name),
{
    if call_kind(e->Call_name@) == 5 {
        let vt = ty_at(t, 0)->Ok_0;
        assert(async_rel(async_op(e->Call_name@)->Some_0, e->Call_name, e->Call_args, vt, e->Call_line, e->Call_column, env, ctx, r, env2, t));
    }
    if call_kind(e->Call_name@) == 10 {
        assert(multi_call_rel(e->Call_name, e->Call_args, multi_intrinsic(e->Call_name@)->Some_0, e->Call_line, e->Call_column, env, ctx, r, env2, t));
    }
    if call_kind(e->Call_name@) == 7 {
        assert(table_call_rel(e->Call_name, e->Call_args, table_intrinsic(e->Call_name@)->Some_0, e->Call_line, e->Call_column, env, ctx, r, env2, t));
    }
}

/// Monomorphization leaves nothing generic: every function, struct and enum of a
/// monomorphized program has no type parameter.
pub proof fn lemma_monomorphized_program_is_concrete(p: syntax::Program, p2: syntax::Program)
    requires
        mono_rel(p, Ok(p2)),
    ensures
        forall|i: int| 0 <= i < p2.functions@.len() ==> (#[trigger] p2.functions@[i]).type_params@.len() == 0,
        forall|i: int| 0 <= i < p2.structs@.len() ==> (#[trigger] p2.structs@[i]).type_params@.len() == 0,
        forall|i: int| 0 <= i < p2.enums@.len() ==> (#[trigger] p2.enums@[i]).type_params@.len() == 0,
{
    let (fs2, st2) = choose|fs2: Vec<syntax::Function>, st2: Vec<syntax::Stmt>|
        #[trigger] program_inferred(p.functions, p.stmts, fs2@, st2@) && staged_rel(p, fs2, st2, Ok(p2));
    let (fs3, st3) = choose|fs3: Vec<syntax::Function>, st3: Vec<syntax::Stmt>|
        #[trigger] mono_parts_rel(fs2, st2, Ok((fs3@, st3@))) && agg_rel(p, fs3, st3, Ok(p2));
    let nb = Seq::<(Seq<char>, TypeView)>::empty();
    let q0 = dedup_append(dedup_append(Seq::empty(), concrete_insts(fs2, 0, fs2@)), block_insts(st2, 0, nb, fs2@));
    let q = process_queue(fs2@, q0, 0)->Done_0;
    let cs = concrete_prefix(fs2@, fs2@.len() as int);
    lemma_concrete_prefix_concrete(fs2@, fs2@.len() as int);
    assert forall|i: int| 0 <= i < fs3@.len() implies (#[trigger] fs3@[i]).type_params@.len() == 0 by {
        reveal(fn_rewritten);
        if i < cs.len() {
            assert(fn_rewritten(cs[i], nb, fs2@, cs[i].name@, fs3@[i]));
        } else {
            let k = i - cs.len();
            assert(instance_emitted(fs2@, q[k], fs3@[cs.len() + k]));
        }
    }
    let ss = p.structs@;
    let es = p.enums@;
    let qa = agg_queue(p.structs, p.enums, dedup_append(Seq::empty(), agg_all_insts(p, fs3, st3)), 0)->Done_0;
    assert(agg_out(p, fs3, st3, qa, p2));
    assert forall|i: int| 0 <= i < p2.functions@.len() implies (#[trigger] p2.functions@[i]).type_params@.len() == 0 by {
        reveal(fn_agg_rewritten);
        assert(fn_agg_rewritten(fs3@[i], ss, es, p2.functions@[i]));
        assert(fs3@[i].type_params@.len() == 0);
    }
    let acs = concrete_structs(ss, ss.len() as int);
    let asi = struct_entries(ss, qa, qa.len() as int);
    assert forall|i: int| 0 <= i < p2.structs@.len() implies (#[trigger] p2.structs@[i]).type_params@.len() == 0 by {
        if i < acs.len() {
            assert(struct_agg_rewritten(acs[i], Seq::empty(), ss, es, acs[i].name@, p2.structs@[i]));
        } else {
            let k = i - acs.len();
            assert(struct_instance(ss, es, asi[k], p2.structs@[acs.len() + k]));
        }
    }
    let ace = concrete_enums(es, es.len() as int);
    let aei = enum_entries(ss, es, qa, qa.len() as int);
    assert forall|i: int| 0 <= i < p2.enums@.len() implies (#[trigger] p2.enums@[i]).type_params@.len() == 0 by {
        if i < ace.len() {
            assert(enum_agg_rewritten(ace[i], Seq::empty(), ss, es, ace[i].name@, p2.enums@[i]));
        } else {
            let k = i - ace.len();
            assert(enum_instance(ss, es, aei[k], p2.enums@[ace.len() + k]));
        }
    }
}

proof fn lemma_concrete_prefix_concrete(fs: Seq<syntax::Function>, n: int)
    ensures
        forall|j: int| 0 <= j < concrete_prefix(fs, n).len() ==> (#[trigger] concrete_prefix(fs, n)[j]).type_params.len() == 0,
    decreases n,
{
    if n > 0 && n <= fs.len() {
        lemma_concrete_prefix_concrete(fs, n - 1);
        if fs[n - 1].type_params.len() == 0 {
            let pre = concrete_prefix(fs, n - 1);
            assert forall|j: int| 0 <= j < concrete_prefix(fs, n).len() implies (#[trigger] concrete_prefix(fs, n)[j]).type_params.len() == 0 by {
                if j < pre.len() {
                    assert(concrete_prefix(fs, n)[j] == pre[j]);
                }
            }
        }
    }
}

/// Every call in `e` gives no type arguments, but for the intrinsics that keep theirs.
pub open spec fn expr_calls_resolved(e: syntax::Expr) -> bool
    decreases e,
{
    match e {
        syntax::Expr::Call { name, type_args, args, .. } => {
            (type_args.len() == 0 || preserves_intrinsic_type_args(name@)) && args_calls_resolved(args, 0)
        },
        syntax::Expr::BinaryAdd { lhs, rhs, .. } | syntax::Expr::BinaryCompare { lhs, rhs, .. }
        | syntax::Expr::BinaryLogic { lhs, rhs, .. } => expr_calls_resolved(*lhs) && expr_calls_resolved(*rhs),
        syntax::Expr::Unary { expr, .. } => expr_calls_resolved(*expr),
        syntax::Expr::TupleLiteral { elements, .. } => args_calls_resolved(elements, 0),
        syntax::Expr::ArrayLiteral { elements, .. } => args_calls_resolved(elements, 0),
        syntax::Expr::Cast { expr, .. } => expr_calls_resolved(*expr),
        _ => true,
    }
}

/// `expr_calls_resolved` for the arguments from position `i` on.
pub open spec fn args_calls_resolved(args: Vec<syntax::Expr>, i: int) -> bool
    decreases args, args.len() - i,
{
    i < 0 || i >= args.len() || (expr_calls_resolved(args[i]) && args_calls_resolved(args, i + 1))
}

/// Every call in `s` gives no type arguments, but for the intrinsics that keep theirs.
pub open spec fn stmt_calls_resolved(s: syntax::Stmt) -> bool
    decreases s,
{
    match s {
        syntax::Stmt::Let { expr, .. } | syntax::Stmt::Print { expr, .. } | syntax::Stmt::Panic { expr, .. }
        | syntax::Stmt::Defer { expr, .. } | syntax::Stmt::Return { expr, .. } => expr_calls_resolved(expr),
        syntax::Stmt::Assign { target, expr, .. } => expr_calls_resolved(target) && expr_calls_resolved(expr),
        syntax::Stmt::If { cond, then_block, else_block, .. } => {
            &&& expr_calls_resolved(cond)
            &&& block_calls_resolved(then_block, 0)
            &&& match else_block {
                Some(x) => block_calls_resolved(x, 0),
                None => true,
            }
        },
        syntax::Stmt::While { cond, body, .. } => expr_calls_resolved(cond) && block_calls_resolved(body, 0),
        syntax::Stmt::Match { expr, arms, .. } => expr_calls_resolved(expr) && arms_calls_resolved(arms, 0),
        syntax::Stmt::Break { .. } | syntax::Stmt::Continue { .. } => true,
    }
}

/// `stmt_calls_resolved` for the statements from position `i` on.
pub open spec fn block_calls_resolved(block: Vec<syntax::Stmt>, i: int) -> bool
    decreases block, block.len() - i,
{
    i < 0 || i >= block.len() || (stmt_calls_resolved(block[i]) && block_calls_resolved(block, i + 1))
}

/// `block_calls_resolved` for the bodies of the arms from position `i` on.
pub open spec fn arms_calls_resolved(arms: Vec<syntax::MatchArm>, i: int) -> bool
    decreases arms, arms.len() - i,
{
    i < 0 || i >= arms.len() || (block_calls_resolved(arms[i].body, 0) && arms_calls_resolved(arms, i + 1))
}

proof fn lemma_rewritten_expr_resolved(e: syntax::Expr, b: Seq<(Seq<char>, TypeView)>, fs: Seq<syntax::Function>, r: syntax::Expr)
    requires
        expr_rewritten(e, b, fs, r),
    ensures
        expr_calls_resolved(r),
    decreases e,
{
    match e {
        syntax::Expr::Call { args, .. } => {
            if let syntax::Expr::Call { type_args: t2, args: a2, .. } = r {
                lemma_tn_views(t2, 0);
                lemma_rewritten_args_resolved(args, a2, 0, b, fs);
            }
        },
        syntax::Expr::BinaryAdd { lhs, rhs, .. } => {
            if let syntax::Expr::BinaryAdd { lhs: l2, rhs: r2, .. } = r {
                lemma_rewritten_expr_resolved(*lhs, b, fs, *l2);
                lemma_rewritten_expr_resolved(*rhs, b, fs, *r2);
            }
        },
        syntax::Expr::BinaryCompare { lhs, rhs, .. } => {
            if let syntax::Expr::BinaryCompare { lhs: l2, rhs: r2, .. } = r {
                lemma_rewritten_expr_resolved(*lhs, b, fs, *l2);
                lemma_rewritten_expr_resolved(*rhs, b, fs, *r2);
            }
        },
        syntax::Expr::BinaryLogic { lhs, rhs, .. } => {
            if let syntax::Expr::BinaryLogic { lhs: l2, rhs: r2, .. } = r {
                lemma_rewritten_expr_resolved(*lhs, b, fs, *l2);
                lemma_rewritten_expr_resolved(*rhs, b, fs, *r2);
            }
        },
        syntax::Expr::Unary { expr, .. } => {
            if let syntax::Expr::Unary { expr: x2, .. } = r {
                lemma_rewritten_expr_resolved(*expr, b, fs, *x2);
            }
        },
        syntax::Expr::TupleLiteral { elements, .. } => {
            if let syntax::Expr::TupleLiteral { elements: x2, .. } = r {
                lemma_rewritten_args_resolved(elements, x2, 0, b, fs);
            }
        },
        syntax::Expr::ArrayLiteral { elements, .. } => {
            if let syntax::Expr::ArrayLiteral { elements: x2, .. } = r {
                lemma_rewritten_args_resolved(elements, x2, 0, b, fs);
            }
        },
        syntax::Expr::Cast { expr, .. } => {
            if let syntax::Expr::Cast { expr: x2, .. } = r {
                lemma_rewritten_expr_resolved(*expr, b, fs, *x2);
            }
        },
        _ => {},
    }
}

proof fn lemma_rewritten_args_resolved(args: Vec<syntax::Expr>, out: Vec<syntax::Expr>, i: int, b: Seq<(Seq<char>, TypeView)>, fs: Seq<syntax::Function>)
    requires
        out@.len() == args.len(),
        args_rewritten(args, out@, i, b, fs),
    ensures
        args_calls_resolved(out, i),
    decreases args, args.len() - i,
{
    if 0 <= i < args.len() {
        lemma_rewritten_expr_resolved(args[i], b, fs, out@[i]);
        lemma_rewritten_args_resolved(args, out, i + 1, b, fs);
    }
}

proof fn lemma_rewritten_stmt_resolved(s: syntax::Stmt, b: Seq<(Seq<char>, TypeView)>, fs: Seq<syntax::Function>, r: syntax::Stmt)
    requires
        stmt_rewritten(s, b, fs, r),
    ensures
        stmt_calls_resolved(r),
    decreases s,
{
    match s {
        syntax::Stmt::Let { expr, .. } => {
            if let syntax::Stmt::Let { expr: e2, .. } = r { lemma_rewritten_expr_resolved(expr, b, fs, e2); }
        },
        syntax::Stmt::Print { expr, .. } => {
            if let syntax::Stmt::Print { expr: e2, .. } = r { lemma_rewritten_expr_resolved(expr, b, fs, e2); }
        },
        syntax::Stmt::Panic { expr, .. } => {
            if let syntax::Stmt::Panic { expr: e2, .. } = r { lemma_rewritten_expr_resolved(expr, b, fs, e2); }
        },
        syntax::Stmt::Defer { expr, .. } => {
            if let syntax::Stmt::Defer { expr: e2, .. } = r { lemma_rewritten_expr_resolved(expr, b, fs, e2); }
        },
        syntax::Stmt::Assign { target, expr, .. } => {
            if let syntax::Stmt::Assign { target: t2, expr: e2, .. } = r {
                lemma_rewritten_expr_resolved(target, b, fs, t2);
                lemma_rewritten_expr_resolved(expr, b, fs, e2);
            }
        },
        syntax::Stmt::Return { expr, .. } => {
            if let syntax::Stmt::Return { expr: e2, .. } = r { lemma_rewritten_expr_resolved(expr, b, fs, e2); }
        },
        syntax::Stmt::If { cond, then_block, else_block, .. } => {
            if let syntax::Stmt::If { cond: c2, then_block: t2, else_block: e2, .. } = r {
                lemma_rewritten_expr_resolved(cond, b, fs, c2);
                lemma_rewritten_block_resolved(then_block, t2, 0, b, fs);
                match (else_block, e2) {
                    (Some(x), Some(y)) => lemma_rewritten_block_resolved(x, y, 0, b, fs),
                    _ => {},
                }
            }
        },
        syntax::Stmt::While { cond, body, .. } => {
            if let syntax::Stmt::While { cond: c2, body: b2, .. } = r {
                lemma_rewritten_expr_resolved(cond, b, fs, c2);
                lemma_rewritten_block_resolved(body, b2, 0, b, fs);
            }
        },
        syntax::Stmt::Match { expr, arms, .. } => {
            if let syntax::Stmt::Match { expr: e2, arms: a2, .. } = r {
                lemma_rewritten_expr_resolved(expr, b, fs, e2);
                lemma_rewritten_arms_resolved(arms, a2, 0, b, fs);
            }
        },
        _ => {},
    }
}

proof fn lemma_rewritten_block_resolved(block: Vec<syntax::Stmt>, out: Vec<syntax::Stmt>, i: int, b: Seq<(Seq<char>, TypeView)>, fs: Seq<syntax::Function>)
    requires
        out@.len() == block.len(),
        block_rewritten(block, out@, i, b, fs),
    ensures
        block_calls_resolved(out, i),
    decreases block, block.len() - i,
{
    if 0 <= i < block.len() {
        lemma_rewritten_stmt_resolved(block[i], b, fs, out@[i]);
        lemma_rewritten_block_resolved(block, out, i + 1, b, fs);
    }
}

proof fn lemma_rewritten_arms_resolved(arms: Vec<syntax::MatchArm>, out: Vec<syntax::MatchArm>, i: int, b: Seq<(Seq<char>, TypeView)>, fs: Seq<syntax::Function>)
    requires
        out@.len() == arms.len(),
        arms_rewritten(arms, out@, i, b, fs),
    ensures
        arms_calls_resolved(out, i),
    decreases arms, arms.len() - i,
{
    if 0 <= i < arms.len() {
        lemma_rewritten_block_resolved(arms[i].body, out@[i].body, 0, b, fs);
        lemma_rewritten_arms_resolved(arms, out, i + 1, b, fs);
    }
}

proof fn lemma_agg_expr_resolved(e: syntax::Expr, ss: Seq<syntax::StructDecl>, es: Seq<syntax::EnumDecl>, r: syntax::Expr)
    requires
        expr_agg_rewritten(e, ss, es, r),
        expr_calls_resolved(e),
    ensures
        expr_calls_resolved(r),
    decreases e,
{
    match e {
        syntax::Expr::Call { type_args, args, .. } => {
            if let syntax::Expr::Call { type_args: t2, args: a2, .. } = r {
                lemma_tn_views(type_args, 0);
                lemma_tn_views(t2, 0);
                if type_args.len() == 0 {
                    assert(tn_views(type_args, 0) =~= Seq::<TypeView>::empty());
                }
                lemma_agg_args_resolved(args, a2, 0, ss, es);
            }
        },
        syntax::Expr::BinaryAdd { lhs, rhs, .. } => {
            if let syntax::Expr::BinaryAdd { lhs: l2, rhs: r2, .. } = r {
                lemma_agg_expr_resolved(*lhs, ss, es, *l2);
                lemma_agg_expr_resolved(*rhs, ss, es, *r2);
            }
        },
        syntax::Expr::BinaryCompare { lhs, rhs, .. } => {
            if let syntax::Expr::BinaryCompare { lhs: l2, rhs: r2, .. } = r {
                lemma_agg_expr_resolved(*lhs, ss, es, *l2);
                lemma_agg_expr_resolved(*rhs, ss, es, *r2);
            }
        },
        syntax::Expr::BinaryLogic { lhs, rhs, .. } => {
            if let syntax::Expr::BinaryLogic { lhs: l2, rhs: r2, .. } = r {
                lemma_agg_expr_resolved(*lhs, ss, es, *l2);
                lemma_agg_expr_resolved(*rhs, ss, es, *r2);
            }
        },
        syntax::Expr::Unary { expr, .. } => {
            if let syntax::Expr::Unary { expr: x2, .. } = r {
                lemma_agg_expr_resolved(*expr, ss, es, *x2);
            }
        },
        syntax::Expr::TupleLiteral { elements, .. } => {
            if let syntax::Expr::TupleLiteral { elements: x2, .. } = r {
                lemma_agg_args_resolved(elements, x2, 0, ss, es);
            }
        },
        syntax::Expr::ArrayLiteral { elements, .. } => {
            if let syntax::Expr::ArrayLiteral { elements: x2, .. } = r {
                lemma_agg_args_resolved(elements, x2, 0, ss, es);
            }
        },
        syntax::Expr::Cast { expr, .. } => {
            if let syntax::Expr::Cast { expr: x2, .. } = r {
                lemma_agg_expr_resolved(*expr, ss, es, *x2);
            }
        },
        _ => {},
    }
}

proof fn lemma_agg_args_resolved(args: Vec<syntax::Expr>, out: Vec<syntax::Expr>, i: int, ss: Seq<syntax::StructDecl>, es: Seq<syntax::EnumDecl>)
    requires
        out@.len() == args.len(),
        args_agg_rewritten(args, out@, i, ss, es),
        args_calls_resolved(args, i),
    ensures
        args_calls_resolved(out, i),
    decreases args, args.len() - i,
{
    if 0 <= i < args.len() {
        lemma_agg_expr_resolved(args[i], ss, es, out@[i]);
        lemma_agg_args_resolved(args, out, i + 1, ss, es);
    }
}

proof fn lemma_agg_stmt_resolved(s: syntax::Stmt, ss: Seq<syntax::StructDecl>, es: Seq<syntax::EnumDecl>, r: syntax::Stmt)
    requires
        stmt_agg_rewritten(s, ss, es, r),
        stmt_calls_resolved(s),
    ensures
        stmt_calls_resolved(r),
    decreases s,
{
    match s {
        syntax::Stmt::Let { expr, .. } => {
            if let syntax::Stmt::Let { expr: e2, .. } = r { lemma_agg_expr_resolved(expr, ss, es, e2); }
        },
        syntax::Stmt::Print { expr, .. } => {
            if let syntax::Stmt::Print { expr: e2, .. } = r { lemma_agg_expr_resolved(expr, ss, es, e2); }
        },
        syntax::Stmt::Panic { expr, .. } => {
            if let syntax::Stmt::Panic { expr: e2, .. } = r { lemma_agg_expr_resolved(expr, ss, es, e2); }
        },
        syntax::Stmt::Defer { expr, .. } => {
            if let syntax::Stmt::Defer { expr: e2, .. } = r { lemma_agg_expr_resolved(expr, ss, es, e2); }
        },
        syntax::Stmt::Assign { target, expr, .. } => {
            if let syntax::Stmt::Assign { target: t2, expr: e2, .. } = r {
                lemma_agg_expr_resolved(target, ss, es, t2);
                lemma_agg_expr_resolved(expr, ss, es, e2);
            }
        },
        syntax::Stmt::Return { expr, .. } => {
            if let syntax::Stmt::Return { expr: e2, .. } = r { lemma_agg_expr_resolved(expr, ss, es, e2); }
        },
        syntax::Stmt::If { cond, then_block, else_block, .. } => {
            if let syntax::Stmt::If { cond: c2, then_block: t2, else_block: e2, .. } = r {
                lemma_agg_expr_resolved(cond, ss, es, c2);
                lemma_agg_block_resolved(then_block, t2, 0, ss, es);
                match (else_block, e2) {
                    (Some(x), Some(y)) => lemma_agg_block_resolved(x, y, 0, ss, es),
                    _ => {},
                }
            }
        },
        syntax::Stmt::While { cond, body, .. } => {
            if let syntax::Stmt::While { cond: c2, body: b2, .. } = r {
                lemma_agg_expr_resolved(cond, ss, es, c2);
                lemma_agg_block_resolved(body, b2, 0, ss, es);
            }
        },
        syntax::Stmt::Match { expr, arms, .. } => {
            if let syntax::Stmt::Match { expr: e2, arms: a2, .. } = r {
                lemma_agg_expr_resolved(expr, ss, es, e2);
                lemma_agg_arms_resolved(arms, a2, 0, ss, es);
            }
        },
        _ => {},
    }
}

proof fn lemma_agg_block_resolved(block: Vec<syntax::Stmt>, out: Vec<syntax::Stmt>, i: int, ss: Seq<syntax::StructDecl>, es: Seq<syntax::EnumDecl>)
    requires
        out@.len() == block.len(),
        block_agg_rewritten(block, out@, i, ss, es),
        block_calls_resolved(block, i),
    ensures
        block_calls_resolved(out, i),
    decreases block, block.len() - i,
{
    if 0 <= i < block.len() {
        lemma_agg_stmt_resolved(block[i], ss, es, out@[i]);
        lemma_agg_block_resolved(block, out, i + 1, ss, es);
    }
}

proof fn lemma_agg_arms_resolved(arms: Vec<syntax::MatchArm>, out: Vec<syntax::MatchArm>, i: int, ss: Seq<syntax::StructDecl>, es: Seq<syntax::EnumDecl>)
    requires
        out@.len() == arms.len(),
        arms_agg_rewritten(arms, out@, i, ss, es),
        arms_calls_resolved(arms, i),
    ensures
        arms_calls_resolved(out, i),
    decreases arms, arms.len() - i,
{
    if 0 <= i < arms.len() {
        lemma_agg_block_resolved(arms[i].body, out@[i].body, 0, ss, es);
        lemma_agg_arms_resolved(arms, out, i + 1, ss, es);
    }
}

/// Monomorphization resolves every call: no call in a function body or a top-level
/// statement of a monomorphized program gives type arguments any more, but for the async
/// runtime intrinsics and the map lookups, which keep theirs.
pub proof fn lemma_monomorphized_calls_are_resolved(p: syntax::Program, p2: syntax::Program)
    requires
        mono_rel(p, Ok(p2)),
    ensures
        forall|i: int| 0 <= i < p2.functions@.len() ==> block_calls_resolved(#[trigger] p2.functions@[i].body, 0),
        block_calls_resolved(p2.stmts, 0),
{
    let (fs2, st2) = choose|fs2: Vec<syntax::Function>, st2: Vec<syntax::Stmt>|
        #[trigger] program_inferred(p.functions, p.stmts, fs2@, st2@) && staged_rel(p, fs2, st2, Ok(p2));
    let (fs3, st3) = choose|fs3: Vec<syntax::Function>, st3: Vec<syntax::Stmt>|
        #[trigger] mono_parts_rel(fs2, st2, Ok((fs3@, st3@))) && agg_rel(p, fs3, st3, Ok(p2));
    let nb = Seq::<(Seq<char>, TypeView)>::empty();
    let q0 = dedup_append(dedup_append(Seq::empty(), concrete_insts(fs2, 0, fs2@)), block_insts(st2, 0, nb, fs2@));
    let q = process_queue(fs2@, q0, 0)->Done_0;
    let cs = concrete_prefix(fs2@, fs2@.len() as int);
    assert forall|i: int| 0 <= i < fs3@.len() implies block_calls_resolved(#[trigger] fs3@[i].body, 0) by {
        reveal(fn_rewritten);
        if i < cs.len() {
            assert(fn_rewritten(cs[i], nb, fs2@, cs[i].name@, fs3@[i]));
            lemma_rewritten_block_resolved(cs[i].body, fs3@[i].body, 0, nb, fs2@);
        } else {
            let k = i - cs.len();
            assert(instance_emitted(fs2@, q[k], fs3@[cs.len() + k]));
            let g = generic_index(fs2@, q[k].0)->0;
            lemma_rewritten_block_resolved(fs2@[g].body, fs3@[i].body, 0, inst_bindings(fs2@[g], q[k].1), fs2@);
        }
    }
    lemma_rewritten_block_resolved(st2, st3, 0, nb, fs2@);
    let ss = p.structs@;
    let es = p.enums@;
    let qa = agg_queue(p.structs, p.enums, dedup_append(Seq::empty(), agg_all_insts(p, fs3, st3)), 0)->Done_0;
    assert(agg_out(p, fs3, st3, qa, p2));
    assert forall|i: int| 0 <= i < p2.functions@.len() implies block_calls_resolved(#[trigger] p2.functions@[i].body, 0) by {
        reveal(fn_agg_rewritten);
        assert(fn_agg_rewritten(fs3@[i], ss, es, p2.functions@[i]));
        assert(block_calls_resolved(fs3@[i].body, 0));
        lemma_agg_block_resolved(fs3@[i].body, p2.functions@[i].body, 0, ss, es);
    }
    lemma_agg_block_resolved(st3, p2.stmts, 0, ss, es);
}


/// Assignability is reflexive: every type is assignable to itself.
pub proof fn lemma_assignable_reflexive(t: Type)
    ensures
        assignable(t, t),
    decreases t,
{
    match t {
        Type::Array(a, _) | Type::Ptr(a) | Type::MutPtr(a) | Type::MutRef(a) | Type::Slice(a) | Type::MutSlice(a)
        | Type::Option(a) | Type::Task(a) | Type::JoinHandle(a) | Type::AsyncChannel(a) | Type::SelectResult(a) => {
            lemma_assignable_reflexive(*a);
        },
        Type::Result(a, b) | Type::MapOf(a, b) => {
            lemma_assignable_reflexive(*a);
            lemma_assignable_reflexive(*b);
        },
        Type::Tuple(ts) => lemma_all_assignable_reflexive(ts, 0),
        Type::Fn(ps, r) => {
            lemma_all_assignable_reflexive(ps, 0);
            lemma_assignable_reflexive(*r);
        },
        _ => {},
    }
}

/// `all_assignable` of a type list with itself, from position `i` on.
proof fn lemma_all_assignable_reflexive(ts: Vec<Type>, i: int)
    ensures
        all_assignable(ts, ts, i),
    decreases ts, ts.len() - i,
{
    if 0 <= i < ts.len() {
        lemma_assignable_reflexive(ts[i]);
        lemma_all_assignable_reflexive(ts, i + 1);
    }
}

/// The error and never types absorb assignability: a diverging value fits anywhere, and
/// anything fits where an error was already reported or comes from one. An array of
/// known length is assignable to one of unknown length exactly when its elements are,
/// never the other way round.
pub proof fn lemma_assignable_absorbing(t: Type, a: Type, b: Type, n: usize)
    ensures
        assignable(Type::Never, t),
        assignable(t, Type::Error),
        assignable(Type::Error, t),
        assignable(Type::Array(Box::new(a), Some(n)), Type::Array(Box::new(b), None)) == assignable(a, b),
        !assignable(Type::Array(Box::new(a), None), Type::Array(Box::new(b), Some(n))),
{
}

} // verus!
