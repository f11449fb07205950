//! Checks that `const fn` bodies stay within the compile-time evaluable subset.
use vstd::prelude::*;
use crate::capabilities::type_error;
use crate::context::{FunctionSig, find_signature, signature_index};
use crate::diagnostics::Diagnostic;
use crate::render::{concat, debug_quoted, quote};
use crate::syntax::{Expr, Function, Stmt, expr_column, expr_line, stmt_column, stmt_line};

verus! {

/// The message for a call from a `const fn` to a function that is not a `const fn`.
pub open spec fn const_call_message(function: Seq<char>, callee: Seq<char>) -> Seq<char> {
    "const fn "@ + debug_quoted(function) + " can only call other const fn; "@ + debug_quoted(callee)
        + " is a host runtime or non-const call"@
}

/// The message for an expression outside the `const fn` subset.
pub open spec fn const_expr_message(function: Seq<char>) -> Seq<char> {
    "const fn "@ + debug_quoted(function)
        + " only supports literals, variables, arithmetic/comparison expressions, and calls to other const fn in stage1"@
}

/// The message for a statement outside the `const fn` subset.
pub open spec fn const_stmt_message(function: Seq<char>) -> Seq<char> {
    "const fn "@ + debug_quoted(function) + " only supports let, if/else, and return statements in stage1"@
}

/// The first reason, in evaluation order, that an expression leaves the `const fn` subset.
pub open spec fn const_expr_violation(function: Seq<char>, e: Expr, functions: Seq<FunctionSig>) -> Option<(Seq<char>, usize, usize)>
    decreases e,
{
    match e {
        Expr::Literal(_) | Expr::VarRef { .. } => None,
        Expr::BinaryAdd { lhs, rhs, .. } | Expr::BinaryCompare { lhs, rhs, .. } => {
            match const_expr_violation(function, *lhs, functions) {
                Some(v) => Some(v),
                None => const_expr_violation(function, *rhs, functions),
            }
        },
        Expr::Call { name, args, line, column, .. } => {
            match signature_index(functions, name@) {
                Some(i) if functions[i].is_const && !functions[i].is_extern => const_args_violation(function, args, 0, functions),
                _ => Some((const_call_message(function, name@), line, column)),
            }
        },
        _ => Some((const_expr_message(function), expr_line(e), expr_column(e))),
    }
}

/// The first reason that an argument from position `i` on leaves the `const fn` subset.
pub open spec fn const_args_violation(function: Seq<char>, args: Vec<Expr>, i: int, functions: Seq<FunctionSig>) -> Option<(Seq<char>, usize, usize)>
    decreases args, args.len() - i,
{
    if i < 0 || i >= args.len() {
        None
    } else {
        match const_expr_violation(function, args[i], functions) {
            Some(v) => Some(v),
            None => const_args_violation(function, args, i + 1, functions),
        }
    }
}

/// The first reason that a statement leaves the `const fn` subset.
pub open spec fn const_stmt_violation(function: Seq<char>, s: Stmt, functions: Seq<FunctionSig>) -> Option<(Seq<char>, usize, usize)>
    decreases s,
{
    match s {
        Stmt::Let { expr, .. } | Stmt::Return { expr, .. } => const_expr_violation(function, expr, functions),
        Stmt::If { cond, then_block, else_block, .. } => {
            match const_expr_violation(function, cond, functions) {
                Some(v) => Some(v),
                None => match const_block_violation(function, then_block, 0, functions) {
                    Some(v) => Some(v),
                    None => match else_block {
                        Some(b) => const_block_violation(function, b, 0, functions),
                        None => None,
                    },
                },
            }
        },
        _ => Some((const_stmt_message(function), stmt_line(s), stmt_column(s))),
    }
}

/// The first reason that a statement from position `i` on leaves the `const fn` subset.
pub open spec fn const_block_violation(function: Seq<char>, block: Vec<Stmt>, i: int, functions: Seq<FunctionSig>) -> Option<(Seq<char>, usize, usize)>
    decreases block, block.len() - i,
{
    if i < 0 || i >= block.len() {
        None
    } else {
        match const_stmt_violation(function, block[i], functions) {
            Some(v) => Some(v),
            None => const_block_violation(function, block, i + 1, functions),
        }
    }
}

/// `r` is `Ok` when `violation` is absent, else the `type` diagnostic describing it.
pub open spec fn violation_outcome(r: Result<(), Diagnostic>, violation: Option<(Seq<char>, usize, usize)>) -> bool {
    match violation {
        None => r is Ok,
        Some((message, line, column)) => r is Err && type_error(r->Err_0, message, line, column),
    }
}

/// The diagnostic for a call from a `const fn` to a non-const function.
pub fn const_function_call_error(function: &Function, callee: &str, expr: &Expr) -> (d: Diagnostic)
    ensures
        type_error(d, const_call_message(function.name@, callee@), expr_line(*expr), expr_column(*expr)),
{
    let m = concat(String::from_str("const fn "), quote(function.name.as_str()).as_str());
    let m = concat(m, " can only call other const fn; ");
    let m = concat(m, quote(callee).as_str());
    let m = concat(m, " is a host runtime or non-const call");
    Diagnostic::new("type", m).with_span(expr.line(), expr.column())
}

/// Checks that an expression of a `const fn` stays within the `const fn` subset.
pub fn validate_const_function_expr(function: &Function, expr: &Expr, functions: &Vec<FunctionSig>) -> (r: Result<(), Diagnostic>)
    ensures
        violation_outcome(r, const_expr_violation(function.name@, *expr, functions@)),
    decreases expr,
{
    match expr {
        Expr::Literal(_) | Expr::VarRef { .. } => Ok(()),
        Expr::BinaryAdd { lhs, rhs, .. } | Expr::BinaryCompare { lhs, rhs, .. } => {
            validate_const_function_expr(function, lhs, functions)?;
            validate_const_function_expr(function, rhs, functions)
        },
        Expr::Call { name, args, .. } => {
            match find_signature(functions, name.as_str()) {
                Some(i) => {
                    if !functions[i].is_const || functions[i].is_extern {
                        return Err(const_function_call_error(function, name.as_str(), expr));
                    }
                },
                None => return Err(const_function_call_error(function, name.as_str(), expr)),
            }
            validate_const_function_args(function, args, 0, functions)
        },
        _ => {
            let m = concat(String::from_str("const fn "), quote(function.name.as_str()).as_str());
            let m = concat(m, " only supports literals, variables, arithmetic/comparison expressions, and calls to other const fn in stage1");
            Err(Diagnostic::new("type", m).with_span(expr.line(), expr.column()))
        },
    }
}

fn validate_const_function_args(function: &Function, args: &Vec<Expr>, i: usize, functions: &Vec<FunctionSig>) -> (r: Result<(), Diagnostic>)
    ensures
        violation_outcome(r, const_args_violation(function.name@, *args, i as int, functions@)),
    decreases args, args.len() - i,
{
    if i >= args.len() {
        return Ok(());
    }
    proof { assert(decreases_to!(args => args[i as int])); }
    validate_const_function_expr(function, &args[i], functions)?;
    validate_const_function_args(function, args, i + 1, functions)
}

/// Checks that a statement of a `const fn` stays within the `const fn` subset.
pub fn validate_const_function_stmt(function: &Function, stmt: &Stmt, functions: &Vec<FunctionSig>) -> (r: Result<(), Diagnostic>)
    ensures
        violation_outcome(r, const_stmt_violation(function.name@, *stmt, functions@)),
    decreases stmt,
{
    match stmt {
        Stmt::Let { expr, .. } | Stmt::Return { expr, .. } => validate_const_function_expr(function, expr, functions),
        Stmt::If { cond, then_block, else_block, .. } => {
            validate_const_function_expr(function, cond, functions)?;
            validate_const_function_block(function, then_block, 0, functions)?;
            match else_block {
                Some(b) => validate_const_function_block(function, b, 0, functions),
                None => Ok(()),
            }
        },
        _ => {
            let m = concat(String::from_str("const fn "), quote(function.name.as_str()).as_str());
            let m = concat(m, " only supports let, if/else, and return statements in stage1");
            Err(Diagnostic::new("type", m).with_span(stmt.line(), stmt.column()))
        },
    }
}

fn validate_const_function_block(function: &Function, block: &Vec<Stmt>, i: usize, functions: &Vec<FunctionSig>) -> (r: Result<(), Diagnostic>)
    ensures
        violation_outcome(r, const_block_violation(function.name@, *block, i as int, functions@)),
    decreases block, block.len() - i,
{
    if i >= block.len() {
        return Ok(());
    }
    proof { assert(decreases_to!(block => block[i as int])); }
    validate_const_function_stmt(function, &block[i], functions)?;
    validate_const_function_block(function, block, i + 1, functions)
}

/// The first reason a function declared `const fn` leaves the `const fn` subset.
pub open spec fn const_function_violation(function: Function, functions: Seq<FunctionSig>) -> Option<(Seq<char>, usize, usize)> {
    if !function.is_const {
        None
    } else if function.is_async {
        Some(("const fn "@ + debug_quoted(function.name@) + " cannot be async"@, function.line, function.column))
    } else if function.is_extern {
        Some(("const fn "@ + debug_quoted(function.name@) + " cannot be extern"@, function.line, function.column))
    } else {
        const_block_violation(function.name@, function.body, 0, functions)
    }
}

/// Checks a `const fn`: neither async nor extern, and a body within the `const fn` subset.
pub fn validate_const_function_body(function: &Function, functions: &Vec<FunctionSig>) -> (r: Result<(), Diagnostic>)
    ensures
        violation_outcome(r, const_function_violation(*function, functions@)),
{
    if !function.is_const {
        return Ok(());
    }
    if function.is_async {
        let m = concat(concat(String::from_str("const fn "), quote(function.name.as_str()).as_str()), " cannot be async");
        return Err(Diagnostic::new("type", m).with_span(function.line, function.column));
    }
    if function.is_extern {
        let m = concat(concat(String::from_str("const fn "), quote(function.name.as_str()).as_str()), " cannot be extern");
        return Err(Diagnostic::new("type", m).with_span(function.line, function.column));
    }
    validate_const_function_block(function, &function.body, 0, functions)
}

} // verus!
