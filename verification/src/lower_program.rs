//! Lowering of a whole program: its declarations, its statics, its functions and its
//! top-level statements, with the diagnostics of everything that fails reported
//! together in canonical order.
use vstd::prelude::*;
use vstd::seq_lib::*;
use vstd::multiset::Multiset;
use crate::capabilities::type_error;
use crate::const_eval::{consts_safe, program_lengths_check, validate_const_array_lengths_in_program};
use crate::context::{Binding, FunctionSig, LowerContext};
use crate::control_flow::{static_bool, static_bool_value};
use crate::derivation::{
    Derivation, Outcome, Step, deriv_at, step, enums_at, env_at, ex_at, funcs_at, recovered_at, seq_outcome, sigs_at,
    statics_at, structs_at, ty_at,
};
use crate::diagnostics::{Diagnostic, is_primary, primary_diagnostic, append_diagnostic, diags_sorted, seq_order, single_diagnostic, sort_diagnostics, str_compare, lemma_seq_order_props};
use crate::lower_defs::{collect_enum_definitions, collect_struct_definitions, enums_rel, enums_step, structs_rel, structs_step};
use crate::lower_expr::{ctx_ok, expr_rel, got_message, lower_expr, quoted_message, type_error_at};
use crate::lower_functions::{
    collect_function_signatures, flattened, funcs_rel, funcs_step, functions_spans_ok, lower_block_recovering, lower_functions,
    recover_rel, recovered_step, sigs_rel, sigs_step,
};
use crate::lower_stmt::{expr_step, ty_step};
use crate::lower_types::{TypeNames, collect_type_names, lower_type, names_of, type_name_clash, type_rel};
use crate::manifest::CapabilityConfig;
use crate::model::{EnumDef, Expr, Function, LiteralValue, Program, StaticDef, Stmt, StructDef, Type, expr_ty, type_eq, type_equals};
use crate::render::debug_quoted;
use crate::syntax;
use crate::syntax::{ConstDecl, block_spans_ok, expr_spans_ok};
use crate::monomorphize::{mono_rel, monomorphize_program};
use crate::recursion::{recursion_problem, validate_recursive_type_cycles};
use crate::types::type_text;

verus! {

// ---------------------------------------------------------------------------
// Statics.

/// The stored initializer of a static of type `ty` whose lowered initializer is `x`: a
/// boolean known without running the program is stored as that literal.
pub open spec fn static_init(ty: Type, x: Expr) -> Expr {
    if ty is Bool && static_bool(x) is Some {
        Expr::Literal { ty: Type::Bool, value: LiteralValue::Bool(static_bool(x)->0) }
    } else {
        x
    }
}

/// Whether `x` is a string literal.
pub open spec fn is_string_literal(x: Expr) -> bool {
    x matches Expr::Literal { value: LiteralValue::String(_), .. }
}

/// `r` lowers the `static` declarations among `consts` from position `i` on, in order:
/// the declared type, then the initializer, which must have exactly that type; a
/// `String` static must be initialized by a string literal.
pub open spec fn statics_rel(consts: Vec<ConstDecl>, i: int, ctx: LowerContext, r: Result<Seq<StaticDef>, Diagnostic>, t: Derivation) -> bool
    decreases consts.len() - i,
{
    if i < 0 || i >= consts.len() {
        r == Ok::<Seq<StaticDef>, Diagnostic>(Seq::empty())
    } else if !consts[i].is_static {
        statics_rel(consts, i + 1, ctx, r, t)
    } else {
        let c = consts[i];
        let q = debug_quoted(c.name@);
        &&& type_rel(c.ty, *ctx.type_names, ctx.consts@, c.line, c.column, ty_at(t, 0), deriv_at(t, 0))
        &&& match ty_at(t, 0) {
            Err(d) => r == Err::<Seq<StaticDef>, Diagnostic>(d),
            Ok(ty) => {
                &&& expr_rel(c.expr, Some(ty), false, Seq::empty(), ctx, ex_at(t, 1), env_at(t, 1), deriv_at(t, 1))
                &&& match ex_at(t, 1) {
                    Err(d) => r == Err::<Seq<StaticDef>, Diagnostic>(d),
                    Ok(x) => if !type_eq(expr_ty(x), ty) {
                        r is Err && type_error(r->Err_0, "static "@ + q + " expects "@ + type_text(ty) + ", got "@ + type_text(expr_ty(x)), c.line, c.column)
                    } else if ty is String && !is_string_literal(static_init(ty, x)) {
                        r is Err && type_error(r->Err_0, "static "@ + q + " string initializers must be string literals in stage1"@, c.line, c.column)
                    } else {
                        &&& statics_rel(consts, i + 1, ctx, statics_at(t, 2), deriv_at(t, 2))
                        &&& match statics_at(t, 2) {
                            Err(d) => r == Err::<Seq<StaticDef>, Diagnostic>(d),
                            Ok(rest) => {
                                &&& r is Ok
                                &&& r->Ok_0.len() == rest.len() + 1
                                &&& r->Ok_0[0].name == c.name && r->Ok_0[0].ty == ty && r->Ok_0[0].expr == static_init(ty, x)
                                &&& r->Ok_0.drop_first() == rest
                            },
                        }
                    },
                }
            },
        }
    }
}

/// Every `static` initializer sits at columns a span can end after.
pub open spec fn statics_spans_ok(consts: Seq<ConstDecl>) -> bool {
    forall|i: int| 0 <= i < consts.len() && consts[i].is_static ==> expr_spans_ok(#[trigger] consts[i].expr)
}

/// A recorded sub-lowering of statics.
pub open spec fn statics_step(r: Result<Vec<StaticDef>, Diagnostic>, t: Derivation) -> Step {
    Step { out: Outcome::Statics(seq_outcome(r)), env: seq![], edges: seq![], sub: t }
}

/// Lowers the `static` declarations among `consts` from position `i` on.
pub fn lower_static_decls(consts: &Vec<ConstDecl>, i: usize, ctx: &LowerContext) -> (out: (Result<Vec<StaticDef>, Diagnostic>, Ghost<Derivation>))
    requires
        i <= consts.len(),
        statics_spans_ok(consts@),
        ctx_ok(*ctx),
    ensures
        statics_rel(*consts, i as int, *ctx, seq_outcome(out.0), out.1@),
    decreases consts.len() - i,
{
    if i >= consts.len() {
        return (Ok(Vec::new()), Ghost(Derivation::Leaf));
    }
    let c = &consts[i];
    if !c.is_static {
        return lower_static_decls(consts, i + 1, ctx);
    }
    assert(expr_spans_ok(consts@[i as int].expr));
    let (rt, Ghost(tt)) = lower_type(&c.ty, ctx.type_names, ctx.consts, c.line, c.column);
    let ghost s0 = ty_step(rt, tt);
    let ty = match rt {
        Err(d) => return (Err(d), Ghost(Derivation::Node(seq![s0]))),
        Ok(ty) => ty,
    };
    let mut env: Vec<Binding> = Vec::new();
    let (rx, Ghost(tx)) = lower_expr(&c.expr, Some(&ty), false, &mut env, ctx);
    let ghost s1 = expr_step(rx, env@, tx);
    let x = match rx {
        Err(d) => return (Err(d), Ghost(Derivation::Node(seq![s0, s1]))),
        Ok(x) => x,
    };
    if !type_equals(x.ty(), &ty) {
        let m = concat_got(quoted_message("static ", c.name.as_str(), " expects "), &ty, x.ty());
        return (Err(type_error_at(m, c.line, c.column)), Ghost(Derivation::Node(seq![s0, s1])));
    }
    let ghost gx = x;
    let mut x = x;
    if matches!(ty, Type::Bool) {
        if let Some(value) = static_bool_value(&x) {
            x = Expr::Literal { ty: Type::Bool, value: LiteralValue::Bool(value) };
        }
    }
    proof { assert(x == static_init(ty, gx)); }
    if matches!(ty, Type::String) && !matches!(x, Expr::Literal { value: LiteralValue::String(_), .. }) {
        let m = quoted_message("static ", c.name.as_str(), " string initializers must be string literals in stage1");
        return (Err(type_error_at(m, c.line, c.column)), Ghost(Derivation::Node(seq![s0, s1])));
    }
    let (rr, Ghost(tr)) = lower_static_decls(consts, i + 1, ctx);
    let ghost t = Derivation::Node(seq![s0, s1, statics_step(rr, tr)]);
    match rr {
        Err(d) => (Err(d), Ghost(t)),
        Ok(rest) => {
            let ghost rest_view = rest@;
            let def = StaticDef { name: c.name.clone(), ty, expr: x };
            let ghost gdef = def;
            let mut v: Vec<StaticDef> = Vec::new();
            v.push(def);
            let mut rest = rest;
            v.append(&mut rest);
            proof {
                assert(v@ =~= seq![gdef] + rest_view);
                assert(v@.drop_first() =~= rest_view);
            }
            (Ok(v), Ghost(t))
        },
    }
}

fn concat_got(prefix: String, expected: &Type, actual: &Type) -> (s: String)
    ensures
        s@ == prefix@ + type_text(*expected) + ", got "@ + type_text(*actual),
{
    let m = crate::render::concat(got_message(prefix, expected), ", got ");
    got_message(m, actual)
}

// ---------------------------------------------------------------------------
// Ordering definitions by name.

/// Struct definitions in order of their names.
pub open spec fn structs_by_name(s: Seq<StructDef>) -> bool {
    forall|i: int, j: int| 0 <= i < j < s.len() ==> seq_order(#[trigger] s[i].name@, #[trigger] s[j].name@) <= 0
}

/// Enum definitions in order of their names.
pub open spec fn enums_by_name(s: Seq<EnumDef>) -> bool {
    forall|i: int, j: int| 0 <= i < j < s.len() ==> seq_order(#[trigger] s[i].name@, #[trigger] s[j].name@) <= 0
}

/// Sorts struct definitions by name.
pub fn sort_structs_by_name(defs: &mut Vec<StructDef>)
    ensures
        structs_by_name(final(defs)@),
        final(defs)@.to_multiset() == old(defs)@.to_multiset(),
{
    broadcast use group_to_multiset_ensures;
    let ghost original = defs@;
    let mut sorted: Vec<StructDef> = Vec::new();
    while defs.len() > 0
        invariant
            structs_by_name(sorted@),
            sorted@.to_multiset().add(defs@.to_multiset()) == original.to_multiset(),
        decreases defs.len(),
    {
        let ghost before = defs@;
        let next = defs.remove(0);
        proof {
            assert(before.remove(0) =~= defs@);
            to_multiset_remove(before, 0);
            to_multiset_contains(before, next);
            assert(before.contains(next)) by { assert(before[0] == next); }
        }
        let mut k: usize = sorted.len();
        while k > 0 && str_compare(next.name.as_str(), sorted[k - 1].name.as_str()) < 0
            invariant
                k <= sorted.len(),
                structs_by_name(sorted@),
                forall|j: int| k <= j < sorted.len() ==> seq_order(next.name@, #[trigger] sorted@[j].name@) < 0,
            decreases k,
        {
            k = k - 1;
        }
        let ghost s_before = sorted@;
        proof {
            if k > 0 {
                lemma_seq_order_props(next.name@, s_before[k - 1].name@, next.name@);
                assert forall|j: int| 0 <= j < k implies seq_order(#[trigger] s_before[j].name@, next.name@) <= 0 by {
                    lemma_seq_order_props(s_before[j].name@, s_before[k - 1].name@, next.name@);
                }
            }
        }
        let ghost gnext = next;
        sorted.insert(k, next);
        proof {
            to_multiset_insert(s_before, k as int, gnext);
            assert forall|i: int, j: int| 0 <= i < j < sorted@.len() implies seq_order(#[trigger] sorted@[i].name@, #[trigger] sorted@[j].name@) <= 0 by {
                if i < k && j > k {
                    lemma_seq_order_props(s_before[i].name@, gnext.name@, s_before[j - 1].name@);
                } else if i == k && j > k {
                    lemma_seq_order_props(gnext.name@, s_before[j - 1].name@, gnext.name@);
                }
            }
            broadcast use vstd::multiset::group_multiset_axioms;
            assert(sorted@.to_multiset().add(defs@.to_multiset()) =~= original.to_multiset());
        }
    }
    proof {
        assert(defs@.to_multiset() =~= Multiset::empty());
        assert(sorted@.to_multiset() =~= original.to_multiset());
    }
    *defs = sorted;
}

/// Sorts enum definitions by name.
pub fn sort_enums_by_name(defs: &mut Vec<EnumDef>)
    ensures
        enums_by_name(final(defs)@),
        final(defs)@.to_multiset() == old(defs)@.to_multiset(),
{
    broadcast use group_to_multiset_ensures;
    let ghost original = defs@;
    let mut sorted: Vec<EnumDef> = Vec::new();
    while defs.len() > 0
        invariant
            enums_by_name(sorted@),
            sorted@.to_multiset().add(defs@.to_multiset()) == original.to_multiset(),
        decreases defs.len(),
    {
        let ghost before = defs@;
        let next = defs.remove(0);
        proof {
            assert(before.remove(0) =~= defs@);
            to_multiset_remove(before, 0);
            to_multiset_contains(before, next);
            assert(before.contains(next)) by { assert(before[0] == next); }
        }
        let mut k: usize = sorted.len();
        while k > 0 && str_compare(next.name.as_str(), sorted[k - 1].name.as_str()) < 0
            invariant
                k <= sorted.len(),
                enums_by_name(sorted@),
                forall|j: int| k <= j < sorted.len() ==> seq_order(next.name@, #[trigger] sorted@[j].name@) < 0,
            decreases k,
        {
            k = k - 1;
        }
        let ghost s_before = sorted@;
        proof {
            if k > 0 {
                lemma_seq_order_props(next.name@, s_before[k - 1].name@, next.name@);
                assert forall|j: int| 0 <= j < k implies seq_order(#[trigger] s_before[j].name@, next.name@) <= 0 by {
                    lemma_seq_order_props(s_before[j].name@, s_before[k - 1].name@, next.name@);
                }
            }
        }
        let ghost gnext = next;
        sorted.insert(k, next);
        proof {
            to_multiset_insert(s_before, k as int, gnext);
            assert forall|i: int, j: int| 0 <= i < j < sorted@.len() implies seq_order(#[trigger] sorted@[i].name@, #[trigger] sorted@[j].name@) <= 0 by {
                if i < k && j > k {
                    lemma_seq_order_props(s_before[i].name@, gnext.name@, s_before[j - 1].name@);
                } else if i == k && j > k {
                    lemma_seq_order_props(gnext.name@, s_before[j - 1].name@, gnext.name@);
                }
            }
            broadcast use vstd::multiset::group_multiset_axioms;
            assert(sorted@.to_multiset().add(defs@.to_multiset()) =~= original.to_multiset());
        }
    }
    proof {
        assert(defs@.to_multiset() =~= Multiset::empty());
        assert(sorted@.to_multiset() =~= original.to_multiset());
    }
    *defs = sorted;
}

// ---------------------------------------------------------------------------
// Programs.

/// What lowering asks of a program: const initializers that evaluate without overflow
/// or division by zero, and columns that a one-character span can end after.
pub open spec fn program_lowerable(p: syntax::Program) -> bool {
    &&& consts_safe(p.consts@)
    &&& statics_spans_ok(p.consts@)
    &&& functions_spans_ok(p.functions@)
    &&& block_spans_ok(p.stmts, 0)
}

/// A lowering outcome over the sequence of its diagnostics.
pub open spec fn program_outcome(r: Result<Program, Vec<Diagnostic>>) -> Result<Program, Seq<Diagnostic>> {
    match r {
        Ok(p) => Ok(p),
        Err(v) => Err(v@),
    }
}

/// `r` fails with the single `type` diagnostic `message` at `line`, `column`.
pub open spec fn single_type_error(r: Result<Program, Seq<Diagnostic>>, message: Seq<char>, line: usize, column: usize) -> bool {
    r is Err && r->Err_0.len() == 1 && type_error(r->Err_0[0], message, line, column)
}

/// `ctx` is the context of `p`'s top level: its path, consts, type names, enums,
/// structs, function signatures and capabilities, outside any function.
pub open spec fn program_ctx(ctx: LowerContext, p: syntax::Program, caps: CapabilityConfig, names: TypeNames, es: Seq<EnumDef>, ss: Seq<StructDef>, sigs: Seq<FunctionSig>) -> bool {
    &&& ctx.current_path == p.path && ctx.consts@ == p.consts@ && *ctx.type_names == names
    &&& ctx.enums@ == es && ctx.structs@ == ss && ctx.functions@ == sigs && *ctx.capabilities == caps
    &&& ctx.current_return is None && ctx.current_function is None && ctx.loop_depth == 0
}

/// The functions `fs`, the statics and the top-level statements `stmts` of `p` lower as
/// `t` records, in the context of `p`'s top level.
#[verifier::opaque]
pub open spec fn bodies_rel(p: syntax::Program, fs: Vec<syntax::Function>, stmts: Vec<syntax::Stmt>, caps: CapabilityConfig, names: TypeNames, es: Seq<EnumDef>, ss: Seq<StructDef>, sigs: Seq<FunctionSig>, t: Derivation) -> bool {
    exists|ctx: LowerContext| #[trigger] program_ctx(ctx, p, caps, names, es, ss, sigs)
        && funcs_rel(fs, 0, ctx, funcs_at(t, 3), deriv_at(t, 3))
        && statics_rel(p.consts, 0, ctx, statics_at(t, 4), deriv_at(t, 4))
        && recover_rel(stmts, 0, Seq::empty(), false, ctx, recovered_at(t, 5), deriv_at(t, 5))
}

/// `all` collects, in order, the diagnostics of the functions, of the statics (their
/// error flattened) and of the top-level statements.
pub open spec fn collected(fdiags: Seq<Diagnostic>, statics: Result<Seq<StaticDef>, Diagnostic>, bdiags: Seq<Diagnostic>, all: Seq<Diagnostic>) -> bool {
    match statics {
        Ok(_) => all == fdiags + bdiags,
        Err(d) => {
            let m = fdiags.len() as int;
            let n = (d.related@.len() + 1) as int;
            &&& all.len() == m + n + bdiags.len()
            &&& all.take(m) == fdiags
            &&& flattened(d, all.subrange(m, m + n))
            &&& all.skip(m + n) == bdiags
        },
    }
}

/// `x` is the lowered program: `p`'s path, its structs and enums ordered by name, its
/// statics, functions and top-level statements, and no traits.
pub open spec fn program_shape(x: Program, p: syntax::Program, ss: Seq<StructDef>, es: Seq<EnumDef>, statics: Seq<StaticDef>, fs: Seq<Function>, stmts: Seq<Stmt>) -> bool {
    &&& x.path == p.path
    &&& structs_by_name(x.structs@) && x.structs@.to_multiset() == ss.to_multiset()
    &&& enums_by_name(x.enums@) && x.enums@.to_multiset() == es.to_multiset()
    &&& x.traits@.len() == 0
    &&& x.statics@ == statics && x.functions@ == fs && x.stmts@ == stmts
}

/// `r` is the program when nothing failed, else every diagnostic, in canonical order.
pub open spec fn program_result(p: syntax::Program, ss: Seq<StructDef>, es: Seq<EnumDef>, funcs: (Seq<Function>, Seq<Diagnostic>), statics: Result<Seq<StaticDef>, Diagnostic>, block: (Seq<Stmt>, Seq<Diagnostic>, bool), r: Result<Program, Seq<Diagnostic>>) -> bool {
    if funcs.1.len() > 0 || statics is Err || block.1.len() > 0 {
        &&& r is Err
        &&& diags_sorted(r->Err_0)
        &&& exists|all: Seq<Diagnostic>| #[trigger] collected(funcs.1, statics, block.1, all) && r->Err_0.to_multiset() == all.to_multiset()
    } else {
        r is Ok && program_shape(r->Ok_0, p, ss, es, statics->Ok_0, funcs.0, block.0)
    }
}

/// With the type names `names`: the enums and the structs are collected, a struct or
/// enum that contains itself without indirection is refused, and the signatures of the
/// functions `fs` are collected, each stopping at its first error; then every function,
/// the statics and the top-level statements `stmts` are lowered, all diagnostics
/// collected.
pub open spec fn declarations_rel(p: syntax::Program, fs: Vec<syntax::Function>, stmts: Vec<syntax::Stmt>, caps: CapabilityConfig, names: TypeNames, r: Result<Program, Seq<Diagnostic>>, t: Derivation) -> bool {
    &&& enums_rel(p.enums, 0, names, p.consts@, enums_at(t, 0), deriv_at(t, 0))
    &&& match enums_at(t, 0) {
        Err(d) => r == Err::<Program, Seq<Diagnostic>>(seq![d]),
        Ok(es) => {
            &&& structs_rel(p.structs, names, p.consts@, structs_at(t, 1), deriv_at(t, 1))
            &&& match structs_at(t, 1) {
                Err(d) => r == Err::<Program, Seq<Diagnostic>>(seq![d]),
                Ok(ss) => match recursion_problem(p.structs, p.enums, ss, es) {
                    Some((message, line, column)) => single_type_error(r, message, line, column),
                    None => {
                        &&& sigs_rel(fs, 0, names, p.consts@, sigs_at(t, 2), deriv_at(t, 2))
                        &&& match sigs_at(t, 2) {
                            Err(d) => r == Err::<Program, Seq<Diagnostic>>(seq![d]),
                            Ok(sigs) => {
                                &&& bodies_rel(p, fs, stmts, caps, names, es, ss, sigs, t)
                                &&& program_result(p, ss, es, funcs_at(t, 3), statics_at(t, 4), recovered_at(t, 5), r)
                            },
                        }
                    },
                },
            }
        },
    }
}

/// `r` is the lowering of program `p`, once monomorphized to the functions `fs` and the
/// top-level statements `stmts`, with capabilities `caps`, derived by `t`: array lengths
/// are checked first, then type names; each stops lowering at its error.
pub open spec fn monomorphized_rel(p: syntax::Program, fs: Vec<syntax::Function>, stmts: Vec<syntax::Stmt>, caps: CapabilityConfig, r: Result<Program, Seq<Diagnostic>>, t: Derivation) -> bool {
    match program_lengths_check(p, fs, stmts, p.consts@) {
        Err((message, line, column)) => single_type_error(r, message, line, column),
        Ok(_) => match type_name_clash(p.structs, p.enums, p.type_aliases) {
            Some((message, line, column)) => single_type_error(r, message, line, column),
            None => exists|names: TypeNames| #[trigger] names_of(names, p.structs, p.enums) && declarations_rel(p, fs, stmts, caps, names, r, t),
        },
    }
}

/// `r` is the lowering of program `p` with capabilities `caps`, derived by `t`: the
/// generic functions, structs and enums are monomorphized first, stopping at an error;
/// then the program is lowered as monomorphized.
pub open spec fn program_rel(p: syntax::Program, caps: CapabilityConfig, r: Result<Program, Seq<Diagnostic>>, t: Derivation) -> bool {
    ||| exists|d: Diagnostic| #[trigger] mono_rel(p, Err(d)) && r == Err::<Program, Seq<Diagnostic>>(seq![d])
    ||| exists|p2: syntax::Program| #[trigger] mono_rel(p, Ok(p2)) && monomorphized_rel(p2, p2.functions, p2.stmts, caps, r, t)
}

/// Lowers the functions `functions`, the statics and the top-level statements `stmts` of
/// `program` in its top-level context `ctx`, after the declaration steps `prefix`.
fn lower_bodies(program: &syntax::Program, functions: &Vec<syntax::Function>, stmts: &Vec<syntax::Stmt>, ctx: &LowerContext, Ghost(prefix): Ghost<Seq<Step>>) -> (out: ((Vec<Function>, Vec<Diagnostic>), Result<Vec<StaticDef>, Diagnostic>, (Vec<Stmt>, Vec<Diagnostic>, bool), Ghost<Derivation>))
    requires
        statics_spans_ok(program.consts@),
        functions_spans_ok(functions@),
        block_spans_ok(*stmts, 0),
        ctx_ok(*ctx),
        prefix.len() == 3,
        program_ctx(*ctx, *program, *ctx.capabilities, *ctx.type_names, ctx.enums@, ctx.structs@, ctx.functions@),
    ensures
        forall|k: int| 0 <= k < 3 ==> #[trigger] step(out.3@, k) == prefix[k],
        funcs_at(out.3@, 3) == (out.0.0@, out.0.1@),
        statics_at(out.3@, 4) == seq_outcome(out.1),
        recovered_at(out.3@, 5) == (out.2.0@, out.2.1@, out.2.2),
        bodies_rel(*program, *functions, *stmts, *ctx.capabilities, *ctx.type_names, ctx.enums@, ctx.structs@, ctx.functions@, out.3@),
{
    let (rfs, Ghost(tfs)) = lower_functions(functions, 0, ctx);
    let (rst, Ghost(tst)) = lower_static_decls(&program.consts, 0, ctx);
    let mut env: Vec<Binding> = Vec::new();
    let (rb, Ghost(tb)) = lower_block_recovering(stmts, 0, &mut env, false, ctx);
    let ghost t = Derivation::Node(prefix + seq![funcs_step(rfs, tfs), statics_step(rst, tst), recovered_step(rb, tb)]);
    proof {
        reveal(bodies_rel);
        assert(program_ctx(*ctx, *program, *ctx.capabilities, *ctx.type_names, ctx.enums@, ctx.structs@, ctx.functions@));
        assert forall|k: int| 0 <= k < 3 implies #[trigger] step(t, k) == prefix[k] by {}
    }
    (rfs, rst, rb, Ghost(t))
}

proof fn lemma_collected(fdiags: Seq<Diagnostic>, statics: Result<Seq<StaticDef>, Diagnostic>, mid: Seq<Diagnostic>, bdiags: Seq<Diagnostic>, all: Seq<Diagnostic>)
    requires
        statics is Ok ==> mid == fdiags,
        statics is Err ==> mid.len() == fdiags.len() + statics->Err_0.related@.len() + 1
            && mid.drop_last() == fdiags + statics->Err_0.related@
            && mid.last().related@.len() == 0
            && mid.last() == (Diagnostic { related: mid.last().related, ..statics->Err_0 }),
        all == mid + bdiags,
    ensures
        collected(fdiags, statics, bdiags, all),
{
    match statics {
        Ok(_) => {},
        Err(d) => {
            let m = fdiags.len() as int;
            let n = (d.related@.len() + 1) as int;
            assert(all.take(m) =~= fdiags) by {
                assert forall|i: int| 0 <= i < m implies all.take(m)[i] == fdiags[i] by {
                    assert(all[i] == mid[i]);
                    assert(mid[i] == mid.drop_last()[i]);
                }
            }
            assert(all.subrange(m, m + n).drop_last() =~= d.related@) by {
                assert forall|i: int| 0 <= i < n - 1 implies all.subrange(m, m + n).drop_last()[i] == d.related@[i] by {
                    assert(all[m + i] == mid[m + i]);
                    assert(mid[m + i] == mid.drop_last()[m + i]);
                }
            }
            assert(all.subrange(m, m + n).last() == mid.last());
            assert(all.skip(m + n) =~= bdiags);
        },
    }
}

/// Lowers a program, reporting every diagnostic of the functions, statics and top-level
/// statements that fail, in canonical order.
#[verifier::rlimit(60)]
pub fn lower_with_capabilities_recovery(program: &syntax::Program, capabilities: &CapabilityConfig) -> (r: Result<Program, Vec<Diagnostic>>)
    requires
        program_lowerable(*program),
    ensures
        exists|t: Derivation| #[trigger] program_rel(*program, *capabilities, program_outcome(r), t),
        r is Err ==> r->Err_0.len() > 0,
{
    let source = program;
    let mono = monomorphize_program(source);
    let lowered = match mono {
        Ok(p2) => p2,
        Err(d) => {
            let ghost gd = d;
            let r = Err(single_diagnostic(d));
            proof {
                assert(mono_rel(*source, Err(gd)));
                assert(program_rel(*source, *capabilities, program_outcome(r), Derivation::Leaf));
            }
            return r;
        },
    };
    proof { assert(mono_rel(*source, Ok(lowered))); }
    let program = &lowered;
    let consts = &program.consts;
    if let Err(d) = validate_const_array_lengths_in_program(program, &program.functions, &program.stmts, consts) {
        let r = Err(single_diagnostic(d));
        proof {
            assert(monomorphized_rel(*program, program.functions, program.stmts, *capabilities, program_outcome(r), Derivation::Leaf));
            assert(program_rel(*source, *capabilities, program_outcome(r), Derivation::Leaf));
        }
        return r;
    }
    let names = match collect_type_names(&program.structs, &program.enums, &program.type_aliases) {
        Err(d) => {
            let r = Err(single_diagnostic(d));
            proof {
                assert(monomorphized_rel(*program, program.functions, program.stmts, *capabilities, program_outcome(r), Derivation::Leaf));
                assert(program_rel(*source, *capabilities, program_outcome(r), Derivation::Leaf));
            }
            return r;
        },
        Ok(names) => names,
    };
    let (re, Ghost(te)) = collect_enum_definitions(&program.enums, &names, consts);
    let ghost s0 = enums_step(re, te);
    let mut enums = match re {
        Err(d) => {
            let r = Err(single_diagnostic(d));
            let ghost t = Derivation::Node(seq![s0]);
            proof {
                assert(declarations_rel(*program, program.functions, program.stmts, *capabilities, names, program_outcome(r), t));
                assert(monomorphized_rel(*program, program.functions, program.stmts, *capabilities, program_outcome(r), t));
                assert(program_rel(*source, *capabilities, program_outcome(r), t));
            }
            return r;
        },
        Ok(enums) => enums,
    };
    let (rs, Ghost(ts)) = collect_struct_definitions(&program.structs, &names, consts);
    let ghost s1 = structs_step(rs, ts);
    let mut structs = match rs {
        Err(d) => {
            let r = Err(single_diagnostic(d));
            let ghost t = Derivation::Node(seq![s0, s1]);
            proof {
                assert(declarations_rel(*program, program.functions, program.stmts, *capabilities, names, program_outcome(r), t));
                assert(monomorphized_rel(*program, program.functions, program.stmts, *capabilities, program_outcome(r), t));
                assert(program_rel(*source, *capabilities, program_outcome(r), t));
            }
            return r;
        },
        Ok(structs) => structs,
    };
    if let Err(d) = validate_recursive_type_cycles(&program.structs, &program.enums, &structs, &enums) {
        let r = Err(single_diagnostic(d));
        let ghost t = Derivation::Node(seq![s0, s1]);
        proof {
            assert(declarations_rel(*program, program.functions, program.stmts, *capabilities, names, program_outcome(r), t));
            assert(monomorphized_rel(*program, program.functions, program.stmts, *capabilities, program_outcome(r), t));
            assert(program_rel(*source, *capabilities, program_outcome(r), t));
        }
        return r;
    }
    let (rf, Ghost(tf)) = collect_function_signatures(&program.functions, &names, consts);
    let ghost s2 = sigs_step(rf, tf);
    let sigs = match rf {
        Err(d) => {
            let r = Err(single_diagnostic(d));
            let ghost t = Derivation::Node(seq![s0, s1, s2]);
            proof {
                assert(declarations_rel(*program, program.functions, program.stmts, *capabilities, names, program_outcome(r), t));
                assert(monomorphized_rel(*program, program.functions, program.stmts, *capabilities, program_outcome(r), t));
                assert(program_rel(*source, *capabilities, program_outcome(r), t));
            }
            return r;
        },
        Ok(sigs) => sigs,
    };
    let ghost es = enums@;
    let ghost ss = structs@;
    let ghost gsigs = sigs@;
    let ctx = LowerContext {
        current_path: program.path.clone(),
        consts,
        type_names: &names,
        enums: &enums,
        structs: &structs,
        functions: &sigs,
        capabilities,
        current_return: None,
        current_function: None,
        loop_depth: 0,
    };
    let ghost prefix = seq![s0, s1, s2];
    let (rfs, rst, rb, Ghost(t)) = lower_bodies(program, &program.functions, &program.stmts, &ctx, Ghost(prefix));
    proof {
        assert(step(t, 0) == s0);
        assert(step(t, 1) == s1);
        assert(step(t, 2) == s2);
    }
    let ghost gst = seq_outcome(rst);
    let (functions, mut diags) = rfs;
    let ghost fdiags = diags@;
    let statics = match rst {
        Ok(statics) => statics,
        Err(d) => {
            append_diagnostic(&mut diags, d);
            Vec::new()
        },
    };
    let ghost mid = diags@;
    let (stmts, mut block_diags, _) = rb;
    let ghost bdiags = block_diags@;
    diags.append(&mut block_diags);
    if diags.len() > 0 {
        let ghost all = diags@;
        proof { lemma_collected(fdiags, gst, mid, bdiags, all); }
        sort_diagnostics(&mut diags);
        proof {
            broadcast use group_to_multiset_ensures;
            to_multiset_len(all);
            to_multiset_len(diags@);
            assert(funcs_at(t, 3).1 == fdiags);
            assert(statics_at(t, 4) == gst);
            assert(recovered_at(t, 5).1 == bdiags);
            assert(collected(funcs_at(t, 3).1, statics_at(t, 4), recovered_at(t, 5).1, all));
        }
        let r = Err(diags);
        proof {
            assert(declarations_rel(*program, program.functions, program.stmts, *capabilities, names, program_outcome(r), t));
            assert(monomorphized_rel(*program, program.functions, program.stmts, *capabilities, program_outcome(r), t));
            assert(program_rel(*source, *capabilities, program_outcome(r), t));
        }
        return r;
    }
    sort_structs_by_name(&mut structs);
    sort_enums_by_name(&mut enums);
    let r = Ok(Program {
        path: program.path.clone(),
        structs,
        enums,
        traits: Vec::new(),
        statics,
        functions,
        stmts,
    });
    proof {
        assert(declarations_rel(*program, program.functions, program.stmts, *capabilities, names, program_outcome(r), t));
        assert(monomorphized_rel(*program, program.functions, program.stmts, *capabilities, program_outcome(r), t));
        assert(program_rel(*source, *capabilities, program_outcome(r), t));
    }
    r
}

/// `r` is the outcome `full` of a lowering that reports every diagnostic, reduced to its
/// primary diagnostic.
pub open spec fn primary_rel(r: Result<Program, Diagnostic>, full: Result<Program, Seq<Diagnostic>>) -> bool {
    match full {
        Ok(prog) => r == Ok::<Program, Diagnostic>(prog),
        Err(ds) => r is Err && is_primary(r->Err_0, ds),
    }
}

/// Lowers a program, reporting its first diagnostic in canonical order, with the others
/// as related.
pub fn lower_with_capabilities(program: &syntax::Program, capabilities: &CapabilityConfig) -> (r: Result<Program, Diagnostic>)
    requires
        program_lowerable(*program),
    ensures
        exists|full: Result<Program, Seq<Diagnostic>>, t: Derivation|
            #[trigger] program_rel(*program, *capabilities, full, t) && primary_rel(r, full),
{
    let full = lower_with_capabilities_recovery(program, capabilities);
    let ghost gfull = program_outcome(full);
    let r = match full {
        Ok(lowered) => Ok(lowered),
        Err(diagnostics) => Err(primary_diagnostic(diagnostics)),
    };
    proof {
        let t = choose|t: Derivation| #[trigger] program_rel(*program, *capabilities, gfull, t);
        assert(program_rel(*program, *capabilities, gfull, t) && primary_rel(r, gfull));
    }
    r
}

/// No capability granted and no allowlist configured.
pub open spec fn no_capabilities(c: CapabilityConfig) -> bool {
    &&& !c.fs && !c.fs_write && !c.net && !c.process && !c.env_unrestricted
    &&& !c.clock && !c.crypto && !c.ffi && !c.async_runtime
    &&& c.net_hosts@.len() == 0 && c.net_ports@.len() == 0 && c.env@.len() == 0
    &&& c.process_commands is Unrestricted
}

/// Lowers a program with no capability granted.
pub fn lower(program: &syntax::Program) -> (r: Result<Program, Diagnostic>)
    requires
        program_lowerable(*program),
    ensures
        exists|caps: CapabilityConfig, full: Result<Program, Seq<Diagnostic>>, t: Derivation|
            #[trigger] program_rel(*program, caps, full, t) && no_capabilities(caps) && primary_rel(r, full),
{
    let capabilities = CapabilityConfig::default();
    lower_with_capabilities(program, &capabilities)
}

/// Decides whether `program` meets what lowering asks of it.
pub fn check_program_lowerable(program: &syntax::Program) -> (r: bool)
    ensures
        r == program_lowerable(*program),
{
    if !crate::const_eval::check_consts_safe(&program.consts) {
        return false;
    }
    let mut i: usize = 0;
    while i < program.consts.len()
        invariant
            i <= program.consts.len(),
            forall|j: int| 0 <= j < i && program.consts@[j].is_static ==> expr_spans_ok(#[trigger] program.consts@[j].expr),
        decreases program.consts.len() - i,
    {
        if program.consts[i].is_static && !crate::syntax::check_expr_spans(&program.consts[i].expr) {
            return false;
        }
        i = i + 1;
    }
    let mut k: usize = 0;
    while k < program.functions.len()
        invariant
            k <= program.functions.len(),
            forall|j: int| 0 <= j < k ==> block_spans_ok(#[trigger] program.functions@[j].body, 0),
        decreases program.functions.len() - k,
    {
        if !crate::syntax::check_block_spans(&program.functions[k].body, 0) {
            return false;
        }
        k = k + 1;
    }
    crate::syntax::check_block_spans(&program.stmts, 0)
}

} // verus!
