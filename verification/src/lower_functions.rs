//! Lowering of function declarations: their signatures, their parameters and their
//! bodies, whose errors are collected statement by statement.
use vstd::prelude::*;
use crate::capabilities::{
    call_requires, capability_error, capability_requirement, ffi_message, ffi_signature_violation, require_capability,
    type_error, validate_ffi_signature,
};
use crate::const_eval::consts_safe;
use crate::const_functions::{const_function_violation, validate_const_function_body};
use crate::context::{Binding, FunctionSig, LowerContext, binding_index, find_binding, find_signature, signature_index};
use crate::control_flow::stmt_exits;
use crate::derivation::{
    Derivation, LoopEdge, Outcome, Step, deriv_at, edges_at, env_at, func_at, funcs_at, params_at, recovered_at,
    seq_outcome, sigs_at, st_at, ty_at, tys_at,
};
use crate::diagnostics::{Diagnostic, append_diagnostic, is_primary, primary_diagnostic};
use crate::lower_expr::{ctx_ok, quoted_message, type_error_at};
use crate::lower_stmt::{control_error, lower_stmt, restore_scope, stmt_rel, ty_step, unreachable_message};
use crate::lower_types::{TypeNames, lower_type, type_rel};
use crate::manifest::{CapabilityKind, capability_enabled};
use crate::model::{Function, Param, Stmt, Type, clone_type, type_eq};
use crate::render::debug_quoted;
use crate::syntax;
use crate::syntax::{ConstDecl, block_spans_ok, stmt_column, stmt_line};
use crate::derivation::snapshot_moved;

verus! {

// ---------------------------------------------------------------------------
// Signatures.

/// `r` lowers the parameter types of `params` from position `k` on, each at its
/// parameter.
pub open spec fn param_tys_rel(params: Vec<syntax::Param>, k: int, names: TypeNames, consts: Seq<ConstDecl>, r: Result<Seq<Type>, Diagnostic>, t: Derivation) -> bool
    decreases params.len() - k,
{
    if k < 0 || k >= params.len() {
        r == Ok::<Seq<Type>, Diagnostic>(Seq::empty())
    } else {
        let p = params[k];
        &&& type_rel(p.ty, names, consts, p.line, p.column, ty_at(t, 0), deriv_at(t, 0))
        &&& match ty_at(t, 0) {
            Err(d) => r == Err::<Seq<Type>, Diagnostic>(d),
            Ok(ty) => param_tys_rel(params, k + 1, names, consts, tys_at(t, 1), deriv_at(t, 1)) && match tys_at(t, 1) {
                Err(d) => r == Err::<Seq<Type>, Diagnostic>(d),
                Ok(rest) => r == Ok::<Seq<Type>, Diagnostic>(seq![ty] + rest),
            },
        }
    }
}

/// `s` is the signature of `f` with return type `rt` and parameter types `pts`.
pub open spec fn sig_of(s: FunctionSig, f: syntax::Function, rt: Type, pts: Seq<Type>) -> bool {
    &&& s.name == f.name && s.source_name == f.source_name && s.source_path == f.path
    &&& s.params@ == pts && s.return_ty == rt
    &&& s.is_const == f.is_const && s.is_extern == f.is_extern
    &&& s.borrow_return_params@.len() == 0
}

/// `r` collects the signatures of the functions from position `i` on, in order: a name
/// declared twice is refused, the return type is lowered at the function and each
/// parameter type at its parameter.
pub open spec fn sigs_rel(fs: Vec<syntax::Function>, i: int, names: TypeNames, consts: Seq<ConstDecl>, r: Result<Seq<FunctionSig>, Diagnostic>, t: Derivation) -> bool
    decreases fs.len() - i,
{
    if i < 0 || i >= fs.len() {
        r == Ok::<Seq<FunctionSig>, Diagnostic>(Seq::empty())
    } else {
        let f = fs[i];
        if exists|j: int| 0 <= j < i && #[trigger] fs[j].name@ == f.name@ {
            r is Err && type_error(r->Err_0, "duplicate function "@ + debug_quoted(f.name@), f.line, f.column)
        } else {
            &&& type_rel(f.return_ty, names, consts, f.line, f.column, ty_at(t, 0), deriv_at(t, 0))
            &&& match ty_at(t, 0) {
                Err(d) => r == Err::<Seq<FunctionSig>, Diagnostic>(d),
                Ok(rt) => param_tys_rel(f.params, 0, names, consts, tys_at(t, 1), deriv_at(t, 1)) && match tys_at(t, 1) {
                    Err(d) => r == Err::<Seq<FunctionSig>, Diagnostic>(d),
                    Ok(pts) => sigs_rel(fs, i + 1, names, consts, sigs_at(t, 2), deriv_at(t, 2)) && match sigs_at(t, 2) {
                        Err(d) => r == Err::<Seq<FunctionSig>, Diagnostic>(d),
                        Ok(rest) => {
                            &&& r is Ok
                            &&& r->Ok_0.len() == rest.len() + 1
                            &&& sig_of(r->Ok_0[0], f, rt, pts)
                            &&& r->Ok_0.drop_first() == rest
                        },
                    },
                },
            }
        }
    }
}

/// A recorded sub-lowering of a list of types.
pub open spec fn tys_step(r: Result<Vec<Type>, Diagnostic>, t: Derivation) -> Step {
    Step { out: Outcome::Tys(seq_outcome(r)), env: seq![], edges: seq![], sub: t }
}

/// A recorded sub-lowering of signatures.
pub open spec fn sigs_step(r: Result<Vec<FunctionSig>, Diagnostic>, t: Derivation) -> Step {
    Step { out: Outcome::Sigs(seq_outcome(r)), env: seq![], edges: seq![], sub: t }
}

fn lower_param_types(params: &Vec<syntax::Param>, k: usize, names: &TypeNames, consts: &Vec<ConstDecl>) -> (out: (Result<Vec<Type>, Diagnostic>, Ghost<Derivation>))
    requires
        k <= params.len(),
        consts_safe(consts@),
    ensures
        param_tys_rel(*params, k as int, *names, consts@, seq_outcome(out.0), out.1@),
    decreases params.len() - k,
{
    if k >= params.len() {
        return (Ok(Vec::new()), Ghost(Derivation::Leaf));
    }
    let p = &params[k];
    let (rt, Ghost(tt)) = lower_type(&p.ty, names, consts, p.line, p.column);
    let ghost s0 = ty_step(rt, tt);
    let ty = match rt {
        Err(d) => return (Err(d), Ghost(Derivation::Node(seq![s0]))),
        Ok(ty) => ty,
    };
    let (rr, Ghost(tr)) = lower_param_types(params, k + 1, names, consts);
    let ghost t = Derivation::Node(seq![s0, tys_step(rr, tr)]);
    match rr {
        Err(d) => (Err(d), Ghost(t)),
        Ok(rest) => {
            let ghost rest_view = rest@;
            let ghost gty = ty;
            let mut v: Vec<Type> = Vec::new();
            v.push(ty);
            let mut rest = rest;
            v.append(&mut rest);
            proof { assert(v@ =~= seq![gty] + rest_view); }
            (Ok(v), Ghost(t))
        },
    }
}

fn lower_signatures(fs: &Vec<syntax::Function>, i: usize, names: &TypeNames, consts: &Vec<ConstDecl>) -> (out: (Result<Vec<FunctionSig>, Diagnostic>, Ghost<Derivation>))
    requires
        i <= fs.len(),
        consts_safe(consts@),
    ensures
        sigs_rel(*fs, i as int, *names, consts@, seq_outcome(out.0), out.1@),
    decreases fs.len() - i,
{
    if i >= fs.len() {
        return (Ok(Vec::new()), Ghost(Derivation::Leaf));
    }
    let f = &fs[i];
    let mut j: usize = 0;
    while j < i
        invariant
            j <= i,
            i < fs.len(),
            *f == fs@[i as int],
            forall|m: int| 0 <= m < j ==> fs@[m].name@ != f.name@,
        decreases i - j,
    {
        if crate::text::str_eq(fs[j].name.as_str(), f.name.as_str()) {
            let m = quoted_message("duplicate function ", f.name.as_str(), "");
            proof { reveal_strlit(""); assert(m@ =~= "duplicate function "@ + debug_quoted(f.name@)); }
            return (Err(type_error_at(m, f.line, f.column)), Ghost(Derivation::Leaf));
        }
        j = j + 1;
    }
    let (rt, Ghost(tt)) = lower_type(&f.return_ty, names, consts, f.line, f.column);
    let ghost s0 = ty_step(rt, tt);
    let ret = match rt {
        Err(d) => return (Err(d), Ghost(Derivation::Node(seq![s0]))),
        Ok(ty) => ty,
    };
    let (rp, Ghost(tp)) = lower_param_types(&f.params, 0, names, consts);
    let ghost s1 = tys_step(rp, tp);
    let pts = match rp {
        Err(d) => return (Err(d), Ghost(Derivation::Node(seq![s0, s1]))),
        Ok(pts) => pts,
    };
    let (rr, Ghost(tr)) = lower_signatures(fs, i + 1, names, consts);
    let ghost t = Derivation::Node(seq![s0, s1, sigs_step(rr, tr)]);
    match rr {
        Err(d) => (Err(d), Ghost(t)),
        Ok(rest) => {
            let ghost rest_view = rest@;
            let sig = FunctionSig {
                name: f.name.clone(),
                source_name: f.source_name.clone(),
                source_path: f.path.clone(),
                params: pts,
                return_ty: ret,
                is_const: f.is_const,
                is_extern: f.is_extern,
                borrow_return_params: Vec::new(),
            };
            let ghost gsig = sig;
            let mut v: Vec<FunctionSig> = Vec::new();
            v.push(sig);
            let mut rest = rest;
            v.append(&mut rest);
            proof {
                assert(v@ =~= seq![gsig] + rest_view);
                assert(v@.drop_first() =~= rest_view);
            }
            (Ok(v), Ghost(t))
        },
    }
}

/// Collects the signature of every declared function, in declaration order.
pub fn collect_function_signatures(fs: &Vec<syntax::Function>, names: &TypeNames, consts: &Vec<ConstDecl>) -> (out: (Result<Vec<FunctionSig>, Diagnostic>, Ghost<Derivation>))
    requires
        consts_safe(consts@),
    ensures
        sigs_rel(*fs, 0, *names, consts@, seq_outcome(out.0), out.1@),
{
    lower_signatures(fs, 0, names, consts)
}

// ---------------------------------------------------------------------------
// Parameters.

/// `r` lowers the parameters of `params` from position `k` on, with `env` the bindings
/// of the parameters before it: a name that is a function's or an earlier parameter's
/// is refused; each parameter is bound, not moved, to its lowered type.
pub open spec fn params_rel(params: Vec<syntax::Param>, k: int, env: Seq<Binding>, functions: Seq<FunctionSig>, names: TypeNames, consts: Seq<ConstDecl>, r: Result<Seq<Param>, Diagnostic>, env2: Seq<Binding>, t: Derivation) -> bool
    decreases params.len() - k,
{
    if k < 0 || k >= params.len() {
        r == Ok::<Seq<Param>, Diagnostic>(Seq::empty()) && env2 == env
    } else {
        let p = params[k];
        if signature_index(functions, p.name@) is Some {
            r is Err && type_error(r->Err_0, "binding name "@ + debug_quoted(p.name@) + " conflicts with a function name"@, p.line, p.column)
        } else if binding_index(env, p.name@) is Some {
            r is Err && type_error(r->Err_0, "duplicate parameter "@ + debug_quoted(p.name@), p.line, p.column)
        } else {
            &&& type_rel(p.ty, names, consts, p.line, p.column, ty_at(t, 0), deriv_at(t, 0))
            &&& match ty_at(t, 0) {
                Err(d) => r == Err::<Seq<Param>, Diagnostic>(d),
                Ok(ty) => {
                    &&& params_rel(params, k + 1, env.push(Binding { name: p.name, ty, moved: false, net_origin: None }),
                        functions, names, consts, params_at(t, 1), env2, deriv_at(t, 1))
                    &&& match params_at(t, 1) {
                        Err(d) => r == Err::<Seq<Param>, Diagnostic>(d),
                        Ok(rest) => {
                            &&& r is Ok
                            &&& r->Ok_0.len() == rest.len() + 1
                            &&& r->Ok_0[0].name == p.name && type_eq(r->Ok_0[0].ty, ty)
                            &&& r->Ok_0.drop_first() == rest
                        },
                    }
                },
            }
        }
    }
}

/// A recorded sub-lowering of parameters, with the bindings after it.
pub open spec fn params_step(r: Result<Vec<Param>, Diagnostic>, env: Seq<Binding>, t: Derivation) -> Step {
    Step { out: Outcome::Params(seq_outcome(r)), env, edges: seq![], sub: t }
}

fn lower_params(params: &Vec<syntax::Param>, k: usize, env: &mut Vec<Binding>, functions: &Vec<FunctionSig>, names: &TypeNames, consts: &Vec<ConstDecl>) -> (out: (Result<Vec<Param>, Diagnostic>, Ghost<Derivation>))
    requires
        k <= params.len(),
        consts_safe(consts@),
    ensures
        params_rel(*params, k as int, old(env)@, functions@, *names, consts@, seq_outcome(out.0), final(env)@, out.1@),
    decreases params.len() - k,
{
    if k >= params.len() {
        return (Ok(Vec::new()), Ghost(Derivation::Leaf));
    }
    let p = &params[k];
    if find_signature(functions, p.name.as_str()).is_some() {
        let m = quoted_message("binding name ", p.name.as_str(), " conflicts with a function name");
        return (Err(type_error_at(m, p.line, p.column)), Ghost(Derivation::Leaf));
    }
    if find_binding(env, p.name.as_str()).is_some() {
        let m = quoted_message("duplicate parameter ", p.name.as_str(), "");
        proof { reveal_strlit(""); assert(m@ =~= "duplicate parameter "@ + debug_quoted(p.name@)); }
        return (Err(type_error_at(m, p.line, p.column)), Ghost(Derivation::Leaf));
    }
    let (rt, Ghost(tt)) = lower_type(&p.ty, names, consts, p.line, p.column);
    let ghost s0 = ty_step(rt, tt);
    let ty = match rt {
        Err(d) => return (Err(d), Ghost(Derivation::Node(seq![s0]))),
        Ok(ty) => ty,
    };
    let param_ty = clone_type(&ty);
    env.push(Binding { name: p.name.clone(), ty, moved: false, net_origin: None });
    let (rr, Ghost(tr)) = lower_params(params, k + 1, env, functions, names, consts);
    let ghost t = Derivation::Node(seq![s0, params_step(rr, env@, tr)]);
    match rr {
        Err(d) => (Err(d), Ghost(t)),
        Ok(rest) => {
            let ghost rest_view = rest@;
            let param = Param { name: p.name.clone(), ty: param_ty };
            let ghost gparam = param;
            let mut v: Vec<Param> = Vec::new();
            v.push(param);
            let mut rest = rest;
            v.append(&mut rest);
            proof {
                assert(v@ =~= seq![gparam] + rest_view);
                assert(v@.drop_first() =~= rest_view);
            }
            (Ok(v), Ghost(t))
        },
    }
}

// ---------------------------------------------------------------------------
// Bodies, with errors collected statement by statement.

/// The bindings after statement `s` failed to lower: a failed `let` still binds its
/// name, to the error type, unless the name is bound already.
pub open spec fn failed_stmt_env(s: syntax::Stmt, env: Seq<Binding>) -> Seq<Binding> {
    match s {
        syntax::Stmt::Let { name, .. } => if binding_index(env, name@) is None {
            env.push(Binding { name, ty: Type::Error, moved: false, net_origin: None })
        } else {
            env
        },
        _ => env,
    }
}

/// `r` is the lowering of statement `s`, at the top level of a block outside any loop,
/// with the bindings `env` in scope (see `stmt_rel`).
#[verifier::opaque]
pub open spec fn stmt_lowered(s: syntax::Stmt, env: Seq<Binding>, ctx: LowerContext, r: Result<Stmt, Diagnostic>, env2: Seq<Binding>, edges2: Seq<LoopEdge>, t: Derivation) -> bool {
    stmt_rel(s, env, Seq::empty(), false, ctx, r, env2, edges2, t)
}

/// `r` lowers the statements of `b` from position `i` on, going on past errors: the
/// statements lowered, the diagnostics in statement order, and whether the block
/// returns. Once a lowered statement always returns (`returned`), every later statement
/// is reported unreachable; a statement that fails leaves the bindings as they were,
/// but for the name a failed `let` binds.
pub open spec fn recover_rel(b: Vec<syntax::Stmt>, i: int, env: Seq<Binding>, returned: bool, ctx: LowerContext, r: (Seq<Stmt>, Seq<Diagnostic>, bool), t: Derivation) -> bool
    decreases b.len() - i,
{
    if i < 0 || i >= b.len() {
        r == (Seq::<Stmt>::empty(), Seq::<Diagnostic>::empty(), returned)
    } else if returned {
        let rest = recovered_at(t, 0);
        &&& recover_rel(b, i + 1, env, true, ctx, rest, deriv_at(t, 0))
        &&& r.0 == rest.0 && r.2 == rest.2
        &&& r.1.len() == rest.1.len() + 1
        &&& control_error(r.1[0], unreachable_message(), stmt_line(b[i]), stmt_column(b[i]))
        &&& r.1.drop_first() == rest.1
    } else {
        let rest = recovered_at(t, 1);
        &&& stmt_lowered(b[i], env, ctx, st_at(t, 0), env_at(t, 0), edges_at(t, 0), deriv_at(t, 0))
        &&& match st_at(t, 0) {
            Ok(s) => {
                &&& recover_rel(b, i + 1, env_at(t, 0), stmt_exits(s, false), ctx, rest, deriv_at(t, 1))
                &&& r == (seq![s] + rest.0, rest.1, rest.2)
            },
            Err(d) => {
                &&& recover_rel(b, i + 1, failed_stmt_env(b[i], env), false, ctx, rest, deriv_at(t, 1))
                &&& r == (rest.0, seq![d] + rest.1, rest.2)
            },
        }
    }
}

/// The outcome of a recovering lowering, over sequences.
pub open spec fn recovered_outcome(r: (Vec<Stmt>, Vec<Diagnostic>, bool)) -> (Seq<Stmt>, Seq<Diagnostic>, bool) {
    (r.0@, r.1@, r.2)
}

/// A recorded recovering sub-lowering.
pub open spec fn recovered_step(r: (Vec<Stmt>, Vec<Diagnostic>, bool), t: Derivation) -> Step {
    Step { out: Outcome::Recovered(recovered_outcome(r)), env: seq![], edges: seq![], sub: t }
}

/// Lowers the statements of a block from position `i` on, collecting the diagnostics of
/// every statement that fails rather than stopping at the first.
#[verifier::rlimit(100)]
#[verifier::spinoff_prover]
pub fn lower_block_recovering(b: &Vec<syntax::Stmt>, i: usize, env: &mut Vec<Binding>, returned: bool, ctx: &LowerContext) -> (out: ((Vec<Stmt>, Vec<Diagnostic>, bool), Ghost<Derivation>))
    requires
        i <= b.len(),
        block_spans_ok(*b, i as int),
        ctx_ok(*ctx),
    ensures
        recover_rel(*b, i as int, old(env)@, returned, *ctx, recovered_outcome(out.0), out.1@),
    decreases b.len() - i,
{
    if i >= b.len() {
        return ((Vec::new(), Vec::new(), returned), Ghost(Derivation::Leaf));
    }
    if returned {
        let d = Diagnostic::new("control", String::from_str("unreachable statements after a terminating control-flow statement are not yet supported in stage1"))
            .with_span(b[i].line(), b[i].column());
        let (rest, Ghost(tr)) = lower_block_recovering(b, i + 1, env, true, ctx);
        let ghost t = Derivation::Node(seq![recovered_step(rest, tr)]);
        let (stmts, rest_diags, rest_ret) = rest;
        let ghost rv = rest_diags@;
        let ghost gd = d;
        let mut diags: Vec<Diagnostic> = Vec::new();
        diags.push(d);
        let mut rest_diags = rest_diags;
        diags.append(&mut rest_diags);
        proof {
            assert(diags@ =~= seq![gd] + rv);
            assert(diags@.drop_first() =~= rv);
        }
        return ((stmts, diags, rest_ret), Ghost(t));
    }
    let len = env.len();
    let moved = snapshot_moved(env);
    let ghost env0 = env@;
    let mut edges: Vec<LoopEdge> = Vec::new();
    let (rs, Ghost(ts)) = lower_stmt(&b[i], env, &mut edges, false, ctx);
    let ghost s0 = Step { out: Outcome::St(rs), env: env@, edges: edges@, sub: ts };
    proof { assert(stmt_lowered(b[i as int], env0, *ctx, rs, env@, edges@, ts)) by { reveal(stmt_lowered); } }
    match rs {
        Ok(st) => {
            let exits = st.always_returns();
            let (rest, Ghost(tr)) = lower_block_recovering(b, i + 1, env, exits, ctx);
            let ghost t = Derivation::Node(seq![s0, recovered_step(rest, tr)]);
            let (rest_stmts, diags, ret) = rest;
            let ghost rv = rest_stmts@;
            let ghost gst = st;
            let mut stmts: Vec<Stmt> = Vec::new();
            stmts.push(st);
            let mut rest_stmts = rest_stmts;
            stmts.append(&mut rest_stmts);
            proof { assert(stmts@ =~= seq![gst] + rv); }
            ((stmts, diags, ret), Ghost(t))
        },
        Err(d) => {
            restore_scope(env, len, &moved);
            proof { assert(env@ =~= env0); }
            if let syntax::Stmt::Let { name, .. } = &b[i] {
                if find_binding(env, name.as_str()).is_none() {
                    env.push(Binding { name: name.clone(), ty: Type::Error, moved: false, net_origin: None });
                }
            }
            let (rest, Ghost(tr)) = lower_block_recovering(b, i + 1, env, false, ctx);
            let ghost t = Derivation::Node(seq![s0, recovered_step(rest, tr)]);
            let (stmts, rest_diags, ret) = rest;
            let ghost rv = rest_diags@;
            let ghost gd = d;
            let mut diags: Vec<Diagnostic> = Vec::new();
            diags.push(d);
            let mut rest_diags = rest_diags;
            diags.append(&mut rest_diags);
            proof { assert(diags@ =~= seq![gd] + rv); }
            ((stmts, diags, ret), Ghost(t))
        },
    }
}

// ---------------------------------------------------------------------------
// Functions.

/// The context of `f`'s body: that of the program, with `f`'s path, return type `rt`
/// and name.
pub open spec fn function_ctx(ctx: LowerContext, f: syntax::Function, rt: Type) -> LowerContext {
    LowerContext { current_path: f.path, current_return: Some(rt), current_function: Some(f.source_name), loop_depth: 0, ..ctx }
}

/// `x` is `f` lowered with parameters `ps`, return type `rt` and body `body`; an async
/// function returns a task.
pub open spec fn function_shape(x: Function, f: syntax::Function, ps: Seq<Param>, rt: Type, body: Seq<Stmt>) -> bool {
    &&& x.name == f.name && x.source_name == f.source_name && x.path == f.path
    &&& x.params@ == ps
    &&& type_eq(x.return_ty, if f.is_async { Type::Task(Box::new(rt)) } else { rt })
    &&& x.body@ == body
    &&& !x.is_property && x.is_async == f.is_async && x.is_extern == f.is_extern
    &&& x.extern_abi == f.extern_abi && x.extern_library == f.extern_library
    &&& x.line == f.line && x.column == f.column
}

/// `r` lowers function `f` in the program context `ctx`. In order: its return type; an
/// async function needs the async capability; an extern function cannot be async and
/// its signature must carry FFI types only; a `const fn` must stay within that subset;
/// its parameters; then its body (none for an extern function), where the diagnostics
/// of every failing statement are reported together, and which must return along all
/// paths.
pub open spec fn func_rel(f: syntax::Function, ctx: LowerContext, r: Result<Function, Diagnostic>, t: Derivation) -> bool {
    let q = debug_quoted(f.name@);
    &&& type_rel(f.return_ty, *ctx.type_names, ctx.consts@, f.line, f.column, ty_at(t, 0), deriv_at(t, 0))
    &&& match ty_at(t, 0) {
        Err(d) => r == Err::<Function, Diagnostic>(d),
        Ok(rt) => if f.is_async && !capability_enabled(*ctx.capabilities, CapabilityKind::Async) {
            r is Err && capability_error(r->Err_0, call_requires("async fn"@, capability_requirement(CapabilityKind::Async)), f.line, f.column)
        } else if f.is_extern && f.is_async {
            r is Err && type_error(r->Err_0, "extern function "@ + q + " cannot be async"@, f.line, f.column)
        } else if f.is_extern && ffi_signature_violation(f, rt) is Some {
            let (line, column) = ffi_signature_violation(f, rt)->0;
            r is Err && type_error(r->Err_0, ffi_message(), line, column)
        } else if const_function_violation(f, ctx.functions@) is Some {
            let (message, line, column) = const_function_violation(f, ctx.functions@)->0;
            r is Err && type_error(r->Err_0, message, line, column)
        } else {
            &&& params_rel(f.params, 0, Seq::empty(), ctx.functions@, *ctx.type_names, ctx.consts@, params_at(t, 1), env_at(t, 1), deriv_at(t, 1))
            &&& match params_at(t, 1) {
                Err(d) => r == Err::<Function, Diagnostic>(d),
                Ok(ps) => {
                    let body = recovered_at(t, 2);
                    &&& !f.is_extern ==> recover_rel(f.body, 0, env_at(t, 1), false, function_ctx(ctx, f, rt), body, deriv_at(t, 2))
                    &&& if !f.is_extern && body.1.len() > 0 {
                        r is Err && is_primary(r->Err_0, body.1)
                    } else if !f.is_extern && !body.2 {
                        r is Err && control_error(r->Err_0, "function "@ + q + " does not return along all paths"@, f.line, f.column)
                    } else {
                        r is Ok && function_shape(r->Ok_0, f, ps, rt, if f.is_extern { Seq::empty() } else { body.0 })
                    }
                },
            }
        },
    }
}

fn clone_opt_string(s: &Option<String>) -> (r: Option<String>)
    ensures
        r == *s,
{
    match s {
        Some(v) => Some(v.clone()),
        None => None,
    }
}

/// Lowers one function declaration in the program context `ctx`.
pub fn lower_function(f: &syntax::Function, ctx: &LowerContext) -> (out: (Result<Function, Diagnostic>, Ghost<Derivation>))
    requires
        block_spans_ok(f.body, 0),
        ctx_ok(*ctx),
    ensures
        func_rel(*f, *ctx, out.0, out.1@),
{
    let (rt, Ghost(tt)) = lower_type(&f.return_ty, ctx.type_names, ctx.consts, f.line, f.column);
    let ghost s0 = ty_step(rt, tt);
    let ret = match rt {
        Err(d) => return (Err(d), Ghost(Derivation::Node(seq![s0]))),
        Ok(ty) => ty,
    };
    if f.is_async {
        if let Err(d) = require_capability(ctx.capabilities, CapabilityKind::Async, "async fn", f.line, f.column) {
            return (Err(d), Ghost(Derivation::Node(seq![s0])));
        }
    }
    if f.is_extern {
        if f.is_async {
            let m = quoted_message("extern function ", f.name.as_str(), " cannot be async");
            return (Err(type_error_at(m, f.line, f.column)), Ghost(Derivation::Node(seq![s0])));
        }
        if let Err(d) = validate_ffi_signature(f, &ret) {
            return (Err(d), Ghost(Derivation::Node(seq![s0])));
        }
    }
    if let Err(d) = validate_const_function_body(f, ctx.functions) {
        return (Err(d), Ghost(Derivation::Node(seq![s0])));
    }
    let mut env: Vec<Binding> = Vec::new();
    let (rp, Ghost(tp)) = lower_params(&f.params, 0, &mut env, ctx.functions, ctx.type_names, ctx.consts);
    let ghost s1 = params_step(rp, env@, tp);
    let params = match rp {
        Err(d) => return (Err(d), Ghost(Derivation::Node(seq![s0, s1]))),
        Ok(ps) => ps,
    };
    let fn_ret = clone_type(&ret);
    let return_ty = if f.is_async { Type::Task(Box::new(fn_ret)) } else { fn_ret };
    let ghost gret = ret;
    let (body, t) = if f.is_extern {
        (Vec::new(), Ghost(Derivation::Node(seq![s0, s1])))
    } else {
        let fctx = LowerContext {
            current_path: f.path.clone(),
            consts: ctx.consts,
            type_names: ctx.type_names,
            enums: ctx.enums,
            structs: ctx.structs,
            functions: ctx.functions,
            capabilities: ctx.capabilities,
            current_return: Some(ret),
            current_function: Some(f.source_name.clone()),
            loop_depth: 0,
        };
        proof { assert(fctx == function_ctx(*ctx, *f, gret)); }
        let (rb, Ghost(tb)) = lower_block_recovering(&f.body, 0, &mut env, false, &fctx);
        let ghost t = Derivation::Node(seq![s0, s1, recovered_step(rb, tb)]);
        let (body, diags, body_returns) = rb;
        if diags.len() > 0 {
            return (Err(primary_diagnostic(diags)), Ghost(t));
        }
        if !body_returns {
            let m = quoted_message("function ", f.name.as_str(), " does not return along all paths");
            return (Err(Diagnostic::new("control", m).with_span(f.line, f.column)), Ghost(t));
        }
        (body, Ghost(t))
    };
    let function = Function {
        name: f.name.clone(),
        source_name: f.source_name.clone(),
        path: f.path.clone(),
        params,
        return_ty,
        body,
        is_property: false,
        is_async: f.is_async,
        is_extern: f.is_extern,
        extern_abi: clone_opt_string(&f.extern_abi),
        extern_library: clone_opt_string(&f.extern_library),
        line: f.line,
        column: f.column,
    };
    (Ok(function), t)
}

/// `flat` is `d` flattened: its related diagnostics, then `d` without them.
pub open spec fn flattened(d: Diagnostic, flat: Seq<Diagnostic>) -> bool {
    &&& flat.len() == d.related@.len() + 1
    &&& flat.drop_last() == d.related@
    &&& flat.last().related@.len() == 0
    &&& flat.last() == (Diagnostic { related: flat.last().related, ..d })
}

/// `r` lowers the functions from position `i` on in the program context `ctx`: those
/// that lower, in order, and the diagnostics of those that fail, each flattened, in
/// order.
pub open spec fn funcs_rel(fs: Vec<syntax::Function>, i: int, ctx: LowerContext, r: (Seq<Function>, Seq<Diagnostic>), t: Derivation) -> bool
    decreases fs.len() - i,
{
    if i < 0 || i >= fs.len() {
        r == (Seq::<Function>::empty(), Seq::<Diagnostic>::empty())
    } else {
        let rest = funcs_at(t, 1);
        &&& func_rel(fs[i], ctx, func_at(t, 0), deriv_at(t, 0))
        &&& funcs_rel(fs, i + 1, ctx, rest, deriv_at(t, 1))
        &&& match func_at(t, 0) {
            Ok(f) => r == (seq![f] + rest.0, rest.1),
            Err(d) => {
                let n: int = (d.related@.len() + 1) as int;
                &&& r.0 == rest.0
                &&& r.1.len() == n + rest.1.len()
                &&& flattened(d, r.1.take(n))
                &&& r.1.skip(n) == rest.1
            },
        }
    }
}

/// Every function body and parameter list that `fs` holds sits at columns a span can end after.
pub open spec fn functions_spans_ok(fs: Seq<syntax::Function>) -> bool {
    forall|i: int| 0 <= i < fs.len() ==> block_spans_ok(#[trigger] fs[i].body, 0)
}

/// A recorded sub-lowering of functions.
pub open spec fn funcs_step(r: (Vec<Function>, Vec<Diagnostic>), t: Derivation) -> Step {
    Step { out: Outcome::Funcs((r.0@, r.1@)), env: seq![], edges: seq![], sub: t }
}

/// Lowers the functions from position `i` on, collecting the diagnostic of each that fails.
#[verifier::rlimit(40)]
pub fn lower_functions(fs: &Vec<syntax::Function>, i: usize, ctx: &LowerContext) -> (out: ((Vec<Function>, Vec<Diagnostic>), Ghost<Derivation>))
    requires
        i <= fs.len(),
        functions_spans_ok(fs@),
        ctx_ok(*ctx),
    ensures
        funcs_rel(*fs, i as int, *ctx, (out.0.0@, out.0.1@), out.1@),
    decreases fs.len() - i,
{
    if i >= fs.len() {
        return ((Vec::new(), Vec::new()), Ghost(Derivation::Leaf));
    }
    assert(block_spans_ok(fs@[i as int].body, 0));
    let (rf, Ghost(tf)) = lower_function(&fs[i], ctx);
    let ghost s0 = Step { out: Outcome::Func(rf), env: seq![], edges: seq![], sub: tf };
    let (rest, Ghost(tr)) = lower_functions(fs, i + 1, ctx);
    let ghost t = Derivation::Node(seq![s0, funcs_step(rest, tr)]);
    let (rest_fns, rest_diags) = rest;
    let ghost rf_view = rest_fns@;
    let ghost rd_view = rest_diags@;
    match rf {
        Ok(function) => {
            let ghost gf = function;
            let mut fns: Vec<Function> = Vec::new();
            fns.push(function);
            let mut rest_fns = rest_fns;
            fns.append(&mut rest_fns);
            proof { assert(fns@ =~= seq![gf] + rf_view); }
            ((fns, rest_diags), Ghost(t))
        },
        Err(d) => {
            let ghost gd = d;
            let mut diags: Vec<Diagnostic> = Vec::new();
            append_diagnostic(&mut diags, d);
            let ghost flat = diags@;
            let mut rest_diags = rest_diags;
            diags.append(&mut rest_diags);
            proof {
                assert(flat.len() == gd.related@.len() + 1);
                assert(diags@.take(flat.len() as int) =~= flat);
                assert(diags@.skip(flat.len() as int) =~= rd_view);
                assert(flat.drop_last() =~= gd.related@);
            }
            ((rest_fns, diags), Ghost(t))
        },
    }
}

} // verus!
