//! Static evaluation of conditions and whether statements always leave their block.
use vstd::prelude::*;
use crate::model::{CompareOp, Expr, LiteralValue, LogicOp, Stmt};

verus! {

/// The value of a condition that is known without running the program.
pub open spec fn static_bool(e: Expr) -> Option<bool>
    decreases e,
{
    match e {
        Expr::Literal { value: LiteralValue::Bool(b), .. } => Some(b),
        Expr::BinaryCompare { op, lhs, rhs, .. } => {
            match (*lhs, *rhs) {
                (Expr::Literal { value: lv, .. }, Expr::Literal { value: rv, .. }) => {
                    match (lv, rv) {
                        (LiteralValue::Int(l), LiteralValue::Int(r)) => Some(
                            match op {
                                CompareOp::Eq => l == r,
                                CompareOp::Ne => l != r,
                                CompareOp::Lt => l < r,
                                CompareOp::Le => l <= r,
                                CompareOp::Gt => l > r,
                                CompareOp::Ge => l >= r,
                            },
                        ),
                        (LiteralValue::Bool(l), LiteralValue::Bool(r)) => match op {
                            CompareOp::Eq => Some(l == r),
                            CompareOp::Ne => Some(l != r),
                            _ => None,
                        },
                        (LiteralValue::String(l), LiteralValue::String(r)) => match op {
                            CompareOp::Eq => Some(l@ == r@),
                            CompareOp::Ne => Some(l@ != r@),
                            _ => None,
                        },
                        _ => None,
                    }
                },
                _ => None,
            }
        },
        Expr::BinaryLogic { op, lhs, rhs, .. } => {
            match (static_bool(*lhs), static_bool(*rhs)) {
                (Some(l), Some(r)) => Some(
                    match op {
                        LogicOp::And => l && r,
                        LogicOp::Or => l || r,
                    },
                ),
                _ => None,
            }
        },
        _ => None,
    }
}

/// The literal value of an expression that is a literal.
pub fn literal_value(expr: &Expr) -> (r: Option<&LiteralValue>)
    ensures
        match *expr {
            Expr::Literal { value, .. } => r is Some && *(r->0) == value,
            _ => r is None,
        },
{
    match expr {
        Expr::Literal { value, .. } => Some(value),
        _ => None,
    }
}

/// Evaluates a condition whose value is known without running the program.
pub fn static_bool_value(expr: &Expr) -> (r: Option<bool>)
    ensures
        r == static_bool(*expr),
    decreases expr,
{
    match expr {
        Expr::Literal { value: LiteralValue::Bool(value), .. } => Some(*value),
        Expr::BinaryCompare { op, lhs, rhs, .. } => {
            let lhs = literal_value(lhs)?;
            let rhs = literal_value(rhs)?;
            match (lhs, rhs) {
                (LiteralValue::Int(l), LiteralValue::Int(r)) => Some(
                    match op {
                        CompareOp::Eq => *l == *r,
                        CompareOp::Ne => *l != *r,
                        CompareOp::Lt => *l < *r,
                        CompareOp::Le => *l <= *r,
                        CompareOp::Gt => *l > *r,
                        CompareOp::Ge => *l >= *r,
                    },
                ),
                (LiteralValue::Bool(l), LiteralValue::Bool(r)) => match op {
                    CompareOp::Eq => Some(*l == *r),
                    CompareOp::Ne => Some(*l != *r),
                    _ => None,
                },
                (LiteralValue::String(l), LiteralValue::String(r)) => match op {
                    CompareOp::Eq => Some(*l == *r),
                    CompareOp::Ne => Some(*l != *r),
                    _ => None,
                },
                _ => None,
            }
        },
        Expr::BinaryLogic { op, lhs, rhs, .. } => {
            let l = static_bool_value(lhs)?;
            let r = static_bool_value(rhs)?;
            Some(
                match op {
                    LogicOp::And => l && r,
                    LogicOp::Or => l || r,
                },
            )
        },
        _ => None,
    }
}

/// Whether a statement always leaves its block: by returning or panicking, and, when
/// `include_loop_control` holds, also by `break` or `continue`.
pub open spec fn stmt_exits(s: Stmt, include_loop_control: bool) -> bool
    decreases s,
{
    match s {
        Stmt::Return { .. } | Stmt::Panic { .. } => true,
        Stmt::Break { .. } | Stmt::Continue { .. } => include_loop_control,
        Stmt::If { cond, then_block, else_block, .. } => {
            match else_block {
                Some(else_block) => match static_bool(cond) {
                    Some(true) => block_exits(then_block, include_loop_control),
                    Some(false) => block_exits(else_block, include_loop_control),
                    None => block_exits(then_block, include_loop_control) && block_exits(
                        else_block,
                        include_loop_control,
                    ),
                },
                None => static_bool(cond) == Some(true) && block_exits(then_block, include_loop_control),
            }
        },
        Stmt::Match { arms, .. } => all_arms_exit(arms, 0, include_loop_control),
        _ => false,
    }
}

/// Whether the last statement of a block always leaves it.
pub open spec fn block_exits(block: Vec<Stmt>, include_loop_control: bool) -> bool
    decreases block,
{
    block.len() > 0 && stmt_exits(block[block.len() - 1], include_loop_control)
}

/// Whether every match arm body from position `i` on always leaves its block.
pub open spec fn all_arms_exit(arms: Vec<crate::model::MatchArm>, i: int, include_loop_control: bool) -> bool
    decreases arms, arms.len() - i,
{
    if i < 0 || i >= arms.len() {
        true
    } else {
        block_exits(arms[i].body, include_loop_control) && all_arms_exit(arms, i + 1, include_loop_control)
    }
}

impl Stmt {
    /// Whether this statement always returns from the function (or panics).
    pub fn always_returns(&self) -> (r: bool)
        ensures
            r == stmt_exits(*self, false),
    {
        self.always_exits(false)
    }

    /// Whether this statement always leaves its block, counting `break` and `continue`.
    pub fn always_terminates(&self) -> (r: bool)
        ensures
            r == stmt_exits(*self, true),
    {
        self.always_exits(true)
    }

    /// Whether this statement always leaves its block.
    pub fn always_exits(&self, include_loop_control: bool) -> (r: bool)
        ensures
            r == stmt_exits(*self, include_loop_control),
        decreases self,
    {
        match self {
            Stmt::Return { .. } | Stmt::Panic { .. } => true,
            Stmt::Defer { .. } | Stmt::Assign { .. } => false,
            Stmt::Break { .. } | Stmt::Continue { .. } => include_loop_control,
            Stmt::If { cond, then_block, else_block: Some(else_block), .. } => {
                match static_bool_value(cond) {
                    Some(true) => block_always_exits(then_block, include_loop_control),
                    Some(false) => block_always_exits(else_block, include_loop_control),
                    None => block_always_exits(then_block, include_loop_control)
                        && block_always_exits(else_block, include_loop_control),
                }
            },
            Stmt::If { cond, then_block, else_block: None, .. } => {
                static_bool_value(cond) == Some(true) && block_always_exits(then_block, include_loop_control)
            },
            Stmt::Match { arms, .. } => arms_always_exit(arms, 0, include_loop_control),
            _ => false,
        }
    }
}

fn block_always_exits(block: &Vec<Stmt>, include_loop_control: bool) -> (r: bool)
    ensures
        r == block_exits(*block, include_loop_control),
    decreases block,
{
    if block.len() == 0 {
        false
    } else {
        proof { assert(decreases_to!(block => block[block.len() - 1])); }
        block[block.len() - 1].always_exits(include_loop_control)
    }
}

fn arms_always_exit(arms: &Vec<crate::model::MatchArm>, i: usize, include_loop_control: bool) -> (r: bool)
    ensures
        r == all_arms_exit(*arms, i as int, include_loop_control),
    decreases arms, arms.len() - i,
{
    if i >= arms.len() {
        true
    } else {
        proof { assert(decreases_to!(arms => arms[i as int])); }
        block_always_exits(&arms[i].body, include_loop_control) && arms_always_exit(arms, i + 1, include_loop_control)
    }
}

/// A statement that always returns from the function also always leaves its block.
pub proof fn lemma_returns_implies_terminates(s: Stmt)
    ensures
        stmt_exits(s, false) ==> stmt_exits(s, true),
    decreases s,
{
    match s {
        Stmt::If { then_block, else_block, .. } => {
            if then_block.len() > 0 {
                lemma_returns_implies_terminates(then_block[then_block.len() - 1]);
            }
            if let Some(e) = else_block {
                if e.len() > 0 {
                    lemma_returns_implies_terminates(e[e.len() - 1]);
                }
            }
        },
        Stmt::Match { arms, .. } => {
            lemma_arms_returns_implies_terminates(arms, 0);
        },
        _ => {},
    }
}

proof fn lemma_arms_returns_implies_terminates(arms: Vec<crate::model::MatchArm>, i: int)
    ensures
        all_arms_exit(arms, i, false) ==> all_arms_exit(arms, i, true),
    decreases arms, arms.len() - i,
{
    if 0 <= i < arms.len() {
        let body = arms[i].body;
        if body.len() > 0 {
            lemma_returns_implies_terminates(body[body.len() - 1]);
        }
        assert(block_exits(body, false) ==> block_exits(body, true));
        lemma_arms_returns_implies_terminates(arms, i + 1);
    }
}

} // verus!
