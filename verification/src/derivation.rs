//! Derivations of the lowering judgments: which sub-lowerings ran, in which order, and
//! what each produced. The lowering functions return one alongside their result, and the
//! lowering relations read the results of sub-lowerings from it.
use vstd::prelude::*;
use crate::context::Binding;
use crate::diagnostics::Diagnostic;
use crate::context::FunctionSig;
use crate::model::{EnumDef, EnumVariantDef, Expr, Function, MatchArm, Param, StaticDef, Stmt, StructDef, StructField, Type};

verus! {

/// Why control left a loop body early.
#[derive(Clone, Copy, Debug, PartialEq, Eq, Structural)]
pub enum EdgeKind {
    Break,
    Continue,
}

/// A `break` or `continue` edge of the innermost loop, with the moved flags of every
/// binding in scope where it was taken.
#[derive(Debug)]
pub struct LoopEdge {
    pub kind: EdgeKind,
    pub moved: Vec<bool>,
}

/// What one sub-lowering produced.
pub enum Outcome {
    Ty(Result<Type, Diagnostic>),
    Tys(Result<Seq<Type>, Diagnostic>),
    Ex(Result<Expr, Diagnostic>),
    Exs(Result<Seq<Expr>, Diagnostic>),
    St(Result<Stmt, Diagnostic>),
    Blk(Result<(Seq<Stmt>, bool), Diagnostic>),
    Arms(Result<(Seq<MatchArm>, Seq<bool>), Diagnostic>),
    Fields(Result<Seq<StructField>, Diagnostic>),
    Structs(Result<Seq<StructDef>, Diagnostic>),
    Variants(Result<Seq<EnumVariantDef>, Diagnostic>),
    Enums(Result<Seq<EnumDef>, Diagnostic>),
    Sigs(Result<Seq<FunctionSig>, Diagnostic>),
    Params(Result<Seq<Param>, Diagnostic>),
    Recovered((Seq<Stmt>, Seq<Diagnostic>, bool)),
    Func(Result<Function, Diagnostic>),
    Funcs((Seq<Function>, Seq<Diagnostic>)),
    Statics(Result<Seq<StaticDef>, Diagnostic>),
}

/// One sub-lowering: its outcome, the bindings and loop edges after it, and its own
/// derivation.
pub struct Step {
    pub out: Outcome,
    pub env: Seq<Binding>,
    pub edges: Seq<LoopEdge>,
    pub sub: Derivation,
}

/// The sub-lowerings of a lowering, in the order they ran.
pub enum Derivation {
    Leaf,
    Node(Seq<Step>),
}

/// The `k`-th sub-lowering of `t`.
pub open spec fn step(t: Derivation, k: int) -> Step {
    match t {
        Derivation::Node(s) => if 0 <= k < s.len() { s[k] } else { arbitrary() },
        _ => arbitrary(),
    }
}

/// The derivation of the `k`-th sub-lowering of `t`.
pub open spec fn deriv_at(t: Derivation, k: int) -> Derivation {
    step(t, k).sub
}

/// The bindings after the `k`-th sub-lowering of `t`.
pub open spec fn env_at(t: Derivation, k: int) -> Seq<Binding> {
    step(t, k).env
}

/// The loop edges after the `k`-th sub-lowering of `t`.
pub open spec fn edges_at(t: Derivation, k: int) -> Seq<LoopEdge> {
    step(t, k).edges
}

/// The lowered type of the `k`-th sub-lowering of `t`.
pub open spec fn ty_at(t: Derivation, k: int) -> Result<Type, Diagnostic> {
    match step(t, k).out {
        Outcome::Ty(r) => r,
        _ => arbitrary(),
    }
}

/// The lowered types of the `k`-th sub-lowering of `t`.
pub open spec fn tys_at(t: Derivation, k: int) -> Result<Seq<Type>, Diagnostic> {
    match step(t, k).out {
        Outcome::Tys(r) => r,
        _ => arbitrary(),
    }
}

/// The lowered expression of the `k`-th sub-lowering of `t`.
pub open spec fn ex_at(t: Derivation, k: int) -> Result<Expr, Diagnostic> {
    match step(t, k).out {
        Outcome::Ex(r) => r,
        _ => arbitrary(),
    }
}

/// The lowered expressions of the `k`-th sub-lowering of `t`.
pub open spec fn exs_at(t: Derivation, k: int) -> Result<Seq<Expr>, Diagnostic> {
    match step(t, k).out {
        Outcome::Exs(r) => r,
        _ => arbitrary(),
    }
}

/// The lowered statement of the `k`-th sub-lowering of `t`.
pub open spec fn st_at(t: Derivation, k: int) -> Result<Stmt, Diagnostic> {
    match step(t, k).out {
        Outcome::St(r) => r,
        _ => arbitrary(),
    }
}

/// The lowered block, and whether it always terminates, of the `k`-th sub-lowering of `t`.
pub open spec fn blk_at(t: Derivation, k: int) -> Result<(Seq<Stmt>, bool), Diagnostic> {
    match step(t, k).out {
        Outcome::Blk(r) => r,
        _ => arbitrary(),
    }
}

/// The lowered match arms, with the moved flags they leave, of the `k`-th sub-lowering of `t`.
pub open spec fn arms_at(t: Derivation, k: int) -> Result<(Seq<MatchArm>, Seq<bool>), Diagnostic> {
    match step(t, k).out {
        Outcome::Arms(r) => r,
        _ => arbitrary(),
    }
}

/// The lowered struct fields of the `k`-th sub-lowering of `t`.
pub open spec fn fields_at(t: Derivation, k: int) -> Result<Seq<StructField>, Diagnostic> {
    match step(t, k).out {
        Outcome::Fields(r) => r,
        _ => arbitrary(),
    }
}

/// The lowered structs of the `k`-th sub-lowering of `t`.
pub open spec fn structs_at(t: Derivation, k: int) -> Result<Seq<StructDef>, Diagnostic> {
    match step(t, k).out {
        Outcome::Structs(r) => r,
        _ => arbitrary(),
    }
}

/// The lowered enum variants of the `k`-th sub-lowering of `t`.
pub open spec fn variants_at(t: Derivation, k: int) -> Result<Seq<EnumVariantDef>, Diagnostic> {
    match step(t, k).out {
        Outcome::Variants(r) => r,
        _ => arbitrary(),
    }
}

/// The lowered enums of the `k`-th sub-lowering of `t`.
pub open spec fn enums_at(t: Derivation, k: int) -> Result<Seq<EnumDef>, Diagnostic> {
    match step(t, k).out {
        Outcome::Enums(r) => r,
        _ => arbitrary(),
    }
}

/// The function signatures of the `k`-th sub-lowering of `t`.
pub open spec fn sigs_at(t: Derivation, k: int) -> Result<Seq<FunctionSig>, Diagnostic> {
    match step(t, k).out {
        Outcome::Sigs(r) => r,
        _ => arbitrary(),
    }
}

/// The lowered parameters of the `k`-th sub-lowering of `t`.
pub open spec fn params_at(t: Derivation, k: int) -> Result<Seq<Param>, Diagnostic> {
    match step(t, k).out {
        Outcome::Params(r) => r,
        _ => arbitrary(),
    }
}

/// The statements, diagnostics and whether the block returns, of the `k`-th
/// recovering sub-lowering of `t`.
pub open spec fn recovered_at(t: Derivation, k: int) -> (Seq<Stmt>, Seq<Diagnostic>, bool) {
    match step(t, k).out {
        Outcome::Recovered(r) => r,
        _ => arbitrary(),
    }
}

/// The lowered function of the `k`-th sub-lowering of `t`.
pub open spec fn func_at(t: Derivation, k: int) -> Result<Function, Diagnostic> {
    match step(t, k).out {
        Outcome::Func(r) => r,
        _ => arbitrary(),
    }
}

/// The lowered functions and collected diagnostics of the `k`-th sub-lowering of `t`.
pub open spec fn funcs_at(t: Derivation, k: int) -> (Seq<Function>, Seq<Diagnostic>) {
    match step(t, k).out {
        Outcome::Funcs(r) => r,
        _ => arbitrary(),
    }
}

/// The lowered statics of the `k`-th sub-lowering of `t`.
pub open spec fn statics_at(t: Derivation, k: int) -> Result<Seq<StaticDef>, Diagnostic> {
    match step(t, k).out {
        Outcome::Statics(r) => r,
        _ => arbitrary(),
    }
}

/// A lowering outcome over a vector, seen as an outcome over its sequence of items.
pub open spec fn seq_outcome<T>(r: Result<Vec<T>, Diagnostic>) -> Result<Seq<T>, Diagnostic> {
    match r {
        Ok(v) => Ok(v@),
        Err(d) => Err(d),
    }
}

/// The moved flags of a scope, binding by binding.
pub open spec fn moved_flags(env: Seq<Binding>) -> Seq<bool> {
    Seq::new(env.len(), |i: int| env[i].moved)
}

/// Reads the moved flags of a scope.
pub fn snapshot_moved(env: &Vec<Binding>) -> (r: Vec<bool>)
    ensures
        r@ == moved_flags(env@),
{
    let mut out: Vec<bool> = Vec::new();
    let mut i: usize = 0;
    while i < env.len()
        invariant
            i <= env.len(),
            out@ == moved_flags(env@).take(i as int),
        decreases env.len() - i,
    {
        out.push(env[i].moved);
        i = i + 1;
        proof { assert(out@ =~= moved_flags(env@).take(i as int)); }
    }
    proof { assert(out@ =~= moved_flags(env@)); }
    out
}

} // verus!
