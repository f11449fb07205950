//! Lowering of source expressions: name resolution, typing, capability checks on
//! host-runtime intrinsics, and the moves that passing owned values makes.
use vstd::prelude::*;
use crate::capabilities::{
    call_requires, capability_error, capability_requirement, host_violation, http_get_violation,
    http_get_wrapper, is_stdlib_http_get_wrapper, is_stdlib_process_wrapper, net_peer_wrapper,
    port_violation, process_violation, process_wrapper, require_capability,
    stdlib_dynamic_net_peer_host_allowed, stdlib_dynamic_net_peer_port_allowed, type_error,
    validate_http_get_net_allowlist_hir, validate_net_host_allowlist_hir,
    validate_net_port_allowlist_hir, validate_process_command_allowlist_hir,
    validate_stdlib_network_wrapper_call_hir, wrapper_args_needed, wrapper_call_violation,
    wrapper_group,
};
use crate::const_eval::consts_safe;
use crate::context::{Binding, LowerContext, binding_index, find_binding, find_signature, signature_index};
use crate::derivation::{Derivation, Outcome, Step, deriv_at, env_at, ex_at, exs_at, seq_outcome, step, ty_at};
use crate::lower_types::{lower_type, type_rel};
use crate::diagnostics::{Diagnostic, diag_fields};
use crate::manifest::{CapabilityKind, capability_enabled};
use crate::model::{
    ArithmeticOp, CompareOp, EnumDef, EnumVariantDef, Expr, LiteralValue, LogicOp, NumericType, SourceSpan, Type,
    assignable, clone_type, compare_lexeme, expr_ty, logic_lexeme, type_assignable_to, type_eq,
    type_equals,
};
use crate::render::{concat, debug_quoted, decimal, push_decimal, push_signed_decimal, quote, signed_decimal};
use crate::syntax;
use crate::syntax::{args_spans_ok, expr_column, expr_line, expr_spans_ok};
use crate::types::{coerce_expr_to_expected, copyable, type_text, type_to_string};

verus! {

/// The expected type, if any, as a value.
pub open spec fn opt_ty(expected: Option<&Type>) -> Option<Type> {
    match expected {
        Some(t) => Some(*t),
        None => None,
    }
}

/// The one-character span at `line`, `column`.
pub open spec fn point_span(line: usize, column: usize) -> SourceSpan {
    SourceSpan { line, column, end_line: line, end_column: (column + 1) as usize }
}

/// What lowering needs of its context: const initializers that evaluate safely, and
/// enum variants whose payload names, if any, match their payloads.
pub open spec fn ctx_ok(ctx: LowerContext) -> bool {
    consts_safe(ctx.consts@) && enums_named_ok(ctx.enums@)
}

/// Every declared enum variant either names no payloads or names each of them.
pub open spec fn enums_named_ok(enums: Seq<EnumDef>) -> bool {
    forall|e: int, v: int| 0 <= e < enums.len() && 0 <= v < enums[e].variants@.len() ==> {
        let x = #[trigger] enums[e].variants@[v];
        x.payload_names@.len() == 0 || x.payload_names@.len() == x.payload_tys@.len()
    }
}

/// The bindings after a lowered value is moved: a variable reference of a type that is
/// not copied marks its binding moved; any other value owns nothing in scope.
pub open spec fn moved_after(env: Seq<Binding>, x: Expr) -> Seq<Binding> {
    match x {
        Expr::VarRef { name, ty } => if copyable(ty) {
            env
        } else {
            match binding_index(env, name@) {
                Some(i) => env.update(i, Binding { moved: true, ..env[i] }),
                None => env,
            }
        },
        _ => env,
    }
}

/// `b` holds the bindings of `a`, in place and unchanged but for their moved flags,
/// possibly followed by more.
pub open spec fn env_frame(a: Seq<Binding>, b: Seq<Binding>) -> bool {
    &&& a.len() <= b.len()
    &&& forall|i: int| 0 <= i < a.len() ==> #[trigger] b[i] == (Binding { moved: b[i].moved, ..a[i] })
}

/// Marks the binding that a lowered value moves out of.
pub fn move_lowered_value(x: &Expr, env: &mut Vec<Binding>)
    ensures
        final(env)@ == moved_after(old(env)@, *x),
        env_frame(old(env)@, final(env)@),
{
    if let Expr::VarRef { name, ty } = x {
        if !ty.is_copy() {
            if let Some(i) = find_binding(env, name.as_str()) {
                env[i].moved = true;
            }
        }
    }
}

/// The hint attached to a use of a moved value.
pub open spec fn use_after_move_help() -> Seq<char> {
    "consider restructuring to avoid the move, or ensure the value is only used once"@
}

/// `d` reports a use of the moved value `name` at `line`, `column`.
pub open spec fn use_after_move_error(d: Diagnostic, name: Seq<char>, line: usize, column: usize) -> bool {
    diag_fields(d, "ownership"@, "use of moved value "@ + debug_quoted(name), Some("use_after_move"@), Some(use_after_move_help()), Some(line), Some(column))
}

/// `d` is an `ownership` diagnostic with `code` and `message` at `line`, `column`.
pub open spec fn ownership_error_at(d: Diagnostic, code: Seq<char>, message: Seq<char>, line: usize, column: usize) -> bool {
    diag_fields(d, "ownership"@, message, Some(code), None, Some(line), Some(column))
}

/// An ownership diagnostic with a stable code.
pub fn ownership_error(code: &str, message: String) -> (d: Diagnostic)
    ensures
        diag_fields(d, "ownership"@, message@, Some(code@), None, None, None),
{
    Diagnostic::new("ownership", message).with_code(code)
}

/// The lowering of a source literal where `expected` is expected: an integer literal
/// takes the sized integer type it is expected to have.
pub open spec fn literal_lowered(lit: syntax::Literal, expected: Option<Type>, x: Expr) -> bool {
    match lit {
        syntax::Literal::Int(v) => match expected {
            Some(Type::Numeric(n)) if !(n is F32 || n is F64) => {
                &&& x matches Expr::Literal { ty, value: LiteralValue::Numeric { raw, ty: m } }
                &&& ty == Type::Numeric(n) && m == n && raw@ == signed_decimal(v as int)
            },
            _ => x == (Expr::Literal { ty: Type::Int, value: LiteralValue::Int(v) }),
        },
        syntax::Literal::Bool(b) => x == (Expr::Literal { ty: Type::Bool, value: LiteralValue::Bool(b) }),
        syntax::Literal::String(s) => x == (Expr::Literal { ty: Type::String, value: LiteralValue::String(s) }),
    }
}

/// Lowers a source literal.
fn lower_literal(lit: &syntax::Literal, expected: Option<&Type>) -> (x: Expr)
    ensures
        literal_lowered(*lit, opt_ty(expected), x),
{
    match lit {
        syntax::Literal::Int(v) => {
            if let Some(Type::Numeric(n)) = expected {
                if !matches!(n, crate::model::NumericType::F32 | crate::model::NumericType::F64) {
                    let mut raw = String::new();
                    push_signed_decimal(&mut raw, *v);
                    return Expr::Literal { ty: Type::Numeric(*n), value: LiteralValue::Numeric { raw, ty: *n } };
                }
            }
            Expr::Literal { ty: Type::Int, value: LiteralValue::Int(*v) }
        },
        syntax::Literal::Bool(b) => Expr::Literal { ty: Type::Bool, value: LiteralValue::Bool(*b) },
        syntax::Literal::String(s) => Expr::Literal { ty: Type::String, value: LiteralValue::String(s.clone()) },
    }
}

// ---------------------------------------------------------------------------
// Enum variants named without their enum.

/// The position of the variant named `name`, if any (the first such).
pub open spec fn variant_index(variants: Seq<EnumVariantDef>, name: Seq<char>) -> Option<int> {
    if exists|i: int| 0 <= i < variants.len() && variants[i].name@ == name {
        Some(choose|i: int| 0 <= i < variants.len() && variants[i].name@ == name && forall|j: int| 0 <= j < i ==> variants[j].name@ != name)
    } else {
        None
    }
}

/// The first enum from position `i` on (optionally only those named `only`) that
/// declares a variant named `name`, with the variant's position.
pub open spec fn variant_owner(enums: Seq<EnumDef>, name: Seq<char>, only: Option<Seq<char>>, i: int) -> Option<(int, int)>
    decreases enums.len() - i,
{
    if i < 0 || i >= enums.len() {
        None
    } else {
        let here = match only {
            Some(e) => enums[i].name@ == e,
            None => true,
        };
        match variant_index(enums[i].variants@, name) {
            Some(v) if here => Some((i, v)),
            _ => variant_owner(enums, name, only, i + 1),
        }
    }
}

/// How a bare name resolves to an enum variant where `expected` is expected: not at
/// all, to one variant (the one of the expected enum, if an enum is expected), or
/// ambiguously (`Err`) when several enums declare it and none is expected.
pub open spec fn variant_resolution(enums: Seq<EnumDef>, name: Seq<char>, expected: Option<Type>) -> Result<Option<(int, int)>, ()> {
    match variant_owner(enums, name, None, 0) {
        None => Ok(None),
        Some((ei, vi)) => match expected {
            Some(Type::Enum(e)) => Ok(variant_owner(enums, name, Some(e@), 0)),
            _ => if variant_owner(enums, name, None, ei + 1) is Some {
                Err(())
            } else {
                Ok(Some((ei, vi)))
            },
        },
    }
}

fn find_variant(variants: &Vec<EnumVariantDef>, name: &str) -> (r: Option<usize>)
    ensures
        r is Some <==> variant_index(variants@, name@) is Some,
        r is Some ==> r->0 as int == variant_index(variants@, name@)->0 && r->0 < variants.len(),
{
    let mut i: usize = 0;
    while i < variants.len()
        invariant
            i <= variants.len(),
            forall|j: int| 0 <= j < i ==> variants@[j].name@ != name@,
        decreases variants.len() - i,
    {
        if crate::text::str_eq(variants[i].name.as_str(), name) {
            proof {
                let k = choose|k: int| 0 <= k < variants@.len() && variants@[k].name@ == name@ && forall|j: int| 0 <= j < k ==> variants@[j].name@ != name@;
                if k < i { assert(false); }
                if k > i { assert(variants@[i as int].name@ != name@); }
            }
            return Some(i);
        }
        i = i + 1;
    }
    None
}

fn find_variant_owner(enums: &Vec<EnumDef>, name: &str, only: Option<&str>, i: usize) -> (r: Option<(usize, usize)>)
    requires
        i <= enums.len(),
    ensures
        match variant_owner(enums@, name@, match only { Some(e) => Some(e@), None => None }, i as int) {
            Some((ei, vi)) => r == Some((ei as usize, vi as usize)) && 0 <= ei < enums.len() && 0 <= vi < enums@[ei].variants.len(),
            None => r is None,
        },
    decreases enums.len() - i,
{
    if i >= enums.len() {
        return None;
    }
    let here = match only {
        Some(e) => crate::text::str_eq(enums[i].name.as_str(), e),
        None => true,
    };
    match find_variant(&enums[i].variants, name) {
        Some(v) => {
            if here {
                return Some((i, v));
            }
        },
        None => {},
    }
    find_variant_owner(enums, name, only, i + 1)
}

/// The message for a bare variant name that several enums declare.
pub open spec fn ambiguous_variant_message(name: Seq<char>) -> Seq<char> {
    "enum variant "@ + debug_quoted(name) + " is ambiguous without an expected enum type"@
}

/// Resolves a bare name to an enum variant where `expected` is expected.
fn resolve_variant(enums: &Vec<EnumDef>, name: &str, expected: Option<&Type>, line: usize, column: usize) -> (r: Result<Option<(usize, usize)>, Diagnostic>)
    ensures
        match variant_resolution(enums@, name@, opt_ty(expected)) {
            Err(_) => r is Err && type_error(r->Err_0, ambiguous_variant_message(name@), line, column),
            Ok(None) => r == Ok::<Option<(usize, usize)>, Diagnostic>(None),
            Ok(Some((ei, vi))) => r == Ok::<Option<(usize, usize)>, Diagnostic>(Some((ei as usize, vi as usize)))
                && 0 <= ei < enums.len() && 0 <= vi < enums@[ei].variants.len(),
        },
{
    let first = find_variant_owner(enums, name, None, 0);
    match first {
        None => Ok(None),
        Some((ei, vi)) => match expected {
            Some(Type::Enum(e)) => Ok(find_variant_owner(enums, name, Some(e.as_str()), 0)),
            _ => {
                if find_variant_owner(enums, name, None, ei + 1).is_some() {
                    let m = concat(concat(String::from_str("enum variant "), quote(name).as_str()), " is ambiguous without an expected enum type");
                    Err(type_error_at(m, line, column))
                } else {
                    Ok(Some((ei, vi)))
                }
            },
        },
    }
}

// ---------------------------------------------------------------------------
// Messages.

/// A `type` diagnostic with `message` at `line`, `column`.
pub fn type_error_at(message: String, line: usize, column: usize) -> (d: Diagnostic)
    ensures
        type_error(d, message@, line, column),
{
    Diagnostic::new("type", message).with_span(line, column)
}

/// `prefix`, `n`, `mid`, `m`, with the numbers in decimal.
pub fn count_message(prefix: String, n: usize, mid: &str, m: usize) -> (s: String)
    ensures
        s@ == prefix@ + decimal(n as nat) + mid@ + decimal(m as nat),
{
    let mut s = prefix;
    push_decimal(&mut s, n as u64);
    s.append(mid);
    push_decimal(&mut s, m as u64);
    s
}

/// `prefix` followed by how `ty` is spelled.
pub fn got_message(prefix: String, ty: &Type) -> (s: String)
    ensures
        s@ == prefix@ + type_text(*ty),
{
    concat(prefix, type_to_string(ty).as_str())
}

/// `prefix`, then how `a` and `b` are spelled, joined by ` and `.
pub fn pair_message(prefix: String, a: &Type, b: &Type) -> (s: String)
    ensures
        s@ == prefix@ + type_text(*a) + " and "@ + type_text(*b),
{
    let s = concat(prefix, type_to_string(a).as_str());
    let s = concat(s, " and ");
    concat(s, type_to_string(b).as_str())
}

/// `prefix` followed by the quoted `name`.
pub fn quoted_message(prefix: &str, name: &str, suffix: &str) -> (s: String)
    ensures
        s@ == prefix@ + debug_quoted(name@) + suffix@,
{
    concat(concat(String::from_str(prefix), quote(name).as_str()), suffix)
}

// ---------------------------------------------------------------------------
// Operators.

/// The lowered form of a source comparison operator.
pub open spec fn compare_op_of(op: syntax::CompareOp) -> CompareOp {
    match op {
        syntax::CompareOp::Eq => CompareOp::Eq,
        syntax::CompareOp::Ne => CompareOp::Ne,
        syntax::CompareOp::Lt => CompareOp::Lt,
        syntax::CompareOp::Le => CompareOp::Le,
        syntax::CompareOp::Gt => CompareOp::Gt,
        syntax::CompareOp::Ge => CompareOp::Ge,
    }
}

/// Lowers a source comparison operator.
pub fn lower_compare_op(op: syntax::CompareOp) -> (r: CompareOp)
    ensures
        r == compare_op_of(op),
{
    match op {
        syntax::CompareOp::Eq => CompareOp::Eq,
        syntax::CompareOp::Ne => CompareOp::Ne,
        syntax::CompareOp::Lt => CompareOp::Lt,
        syntax::CompareOp::Le => CompareOp::Le,
        syntax::CompareOp::Gt => CompareOp::Gt,
        syntax::CompareOp::Ge => CompareOp::Ge,
    }
}

/// The lowered form of a source logical operator.
pub open spec fn logic_op_of(op: syntax::LogicOp) -> LogicOp {
    match op {
        syntax::LogicOp::And => LogicOp::And,
        syntax::LogicOp::Or => LogicOp::Or,
    }
}

/// Lowers a source logical operator.
pub fn lower_logic_op(op: syntax::LogicOp) -> (r: LogicOp)
    ensures
        r == logic_op_of(op),
{
    match op {
        syntax::LogicOp::And => LogicOp::And,
        syntax::LogicOp::Or => LogicOp::Or,
    }
}

/// The lowered form of a source arithmetic operator.
pub open spec fn arithmetic_op_of(op: syntax::ArithmeticOp) -> ArithmeticOp {
    match op {
        syntax::ArithmeticOp::Add => ArithmeticOp::Add,
        syntax::ArithmeticOp::Sub => ArithmeticOp::Sub,
        syntax::ArithmeticOp::Mul => ArithmeticOp::Mul,
        syntax::ArithmeticOp::Div => ArithmeticOp::Div,
    }
}

/// How an arithmetic operator is written.
pub open spec fn arithmetic_lexeme(op: syntax::ArithmeticOp) -> Seq<char> {
    match op {
        syntax::ArithmeticOp::Add => "+"@,
        syntax::ArithmeticOp::Sub => "-"@,
        syntax::ArithmeticOp::Mul => "*"@,
        syntax::ArithmeticOp::Div => "/"@,
    }
}

/// Lowers a source arithmetic operator, with how it is written.
pub fn lower_arithmetic_op(op: syntax::ArithmeticOp) -> (r: (ArithmeticOp, &'static str))
    ensures
        r.0 == arithmetic_op_of(op),
        r.1@ == arithmetic_lexeme(op),
{
    match op {
        syntax::ArithmeticOp::Add => (ArithmeticOp::Add, "+"),
        syntax::ArithmeticOp::Sub => (ArithmeticOp::Sub, "-"),
        syntax::ArithmeticOp::Mul => (ArithmeticOp::Mul, "*"),
        syntax::ArithmeticOp::Div => (ArithmeticOp::Div, "/"),
    }
}

/// `"operator '"` followed by an operator's lexeme and `"' expects "`.
pub open spec fn operator_prefix(lexeme: Seq<char>) -> Seq<char> {
    "operator '"@ + lexeme + "' expects "@
}


// ---------------------------------------------------------------------------
// The lowering relation.

/// `r` is `x` coerced to `expected`: a `String` where `&str` is expected becomes a borrow
/// of it, refused for a temporary unless `allow` is set.
pub open spec fn coerce_rel(x: Expr, expected: Option<Type>, allow: bool, r: Result<Expr, Diagnostic>) -> bool {
    match expected {
        Some(e) if e is Str && expr_ty(x) is String => {
            if !allow && !(x is VarRef || x is FieldAccess || x is TupleIndex) {
                r is Err && diag_fields(r->Err_0, "ownership"@, crate::types::temporary_borrow_message(), None, None, None, None)
            } else {
                r == Ok::<Expr, Diagnostic>(Expr::StringBorrow { expr: Box::new(x), ty: Type::Str })
            }
        },
        _ => r == Ok::<Expr, Diagnostic>(x),
    }
}

/// `x` is a call of `name` with arguments `args`, of type `ty`, at `line`, `column`.
pub open spec fn call_shape(x: Expr, name: String, args: Seq<Expr>, ty: Type, line: usize, column: usize) -> bool {
    &&& x matches Expr::Call { name: n, args: a, ty: t, span }
    &&& n == name && a@ == args && t == ty && span == point_span(line, column)
}

/// The argument types of `net_tcp_dial`: host, port, message, timeout.
pub open spec fn dial_arg_types() -> Seq<Type> {
    seq![Type::String, Type::Int, Type::String, Type::Int]
}

/// What the net allowlists find wrong with a call of a stdlib network wrapper, if
/// anything; a call with fewer arguments than the wrapper reads is not checked.
pub open spec fn wrapper_check(caps: crate::manifest::CapabilityConfig, env: Seq<Binding>, name: Seq<char>, sig: crate::context::FunctionSig, args: Seq<Expr>) -> Option<Seq<char>> {
    if args.len() >= wrapper_args_needed(wrapper_group(sig.source_path@, sig.source_name@)) {
        wrapper_call_violation(caps, env, name, sig, args)
    } else {
        None
    }
}

/// `r` is the lowering of the variable reference `name` at `line`, `column` where
/// `expected` is expected: a binding in scope (refused once moved), `None` where an
/// `Option` is expected, a variant without payload, or an undefined variable.
pub open spec fn var_rel(name: String, line: usize, column: usize, expected: Option<Type>, env: Seq<Binding>, ctx: LowerContext, r: Result<Expr, Diagnostic>) -> bool {
    match binding_index(env, name@) {
        Some(i) => if env[i].moved {
            r is Err && use_after_move_error(r->Err_0, name@, line, column)
        } else {
            &&& r is Ok
            &&& r->Ok_0 matches Expr::VarRef { name: n, ty }
            &&& n == name && type_eq(ty, env[i].ty)
        },
        None => if name@ == "None"@ {
            match expected {
                Some(Type::Option(inner)) => {
                    &&& r is Ok
                    &&& r->Ok_0 matches Expr::EnumVariant { enum_name, variant, field_names, payloads, ty }
                    &&& enum_name@ == "Option"@ && variant@ == "None"@ && field_names@.len() == 0 && payloads@.len() == 0
                    &&& type_eq(ty, Type::Option(inner))
                },
                _ => r is Err && type_error(r->Err_0, "None requires an expected Option<T> context"@, line, column),
            }
        } else {
            match variant_resolution(ctx.enums@, name@, expected) {
                Err(_) => r is Err && type_error(r->Err_0, ambiguous_variant_message(name@), line, column),
                Ok(None) => r is Err && type_error(r->Err_0, "undefined variable "@ + debug_quoted(name@), line, column),
                Ok(Some((ei, vi))) => {
                    let owner = ctx.enums@[ei];
                    let v = owner.variants@[vi];
                    if v.payload_tys@.len() > 0 {
                        r is Err && type_error(r->Err_0, "enum variant "@ + debug_quoted(name@) + " requires "@ + decimal(v.payload_tys@.len()) + " arguments"@, line, column)
                    } else {
                        &&& r is Ok
                        &&& r->Ok_0 matches Expr::EnumVariant { enum_name, variant, field_names, payloads, ty }
                        &&& enum_name == owner.name && variant == name && field_names@.len() == 0 && payloads@.len() == 0
                        &&& ty == Type::Enum(owner.name)
                    }
                },
            }
        },
    }
}

/// `r` is the lowering of `e` where `expected` is expected, then coerced to it
/// (`allow`: a temporary `String` may be borrowed as `&str`); `env2` holds the
/// bindings after it, and `t` derives it.
pub open spec fn expr_rel(e: syntax::Expr, expected: Option<Type>, allow: bool, env: Seq<Binding>, ctx: LowerContext, r: Result<Expr, Diagnostic>, env2: Seq<Binding>, t: Derivation) -> bool
    decreases e, 3int,
{
    &&& inner_rel(e, expected, env, ctx, ex_at(t, 0), env2, deriv_at(t, 0))
    &&& match ex_at(t, 0) {
        Err(d) => r == Err::<Expr, Diagnostic>(d),
        Ok(x) => coerce_rel(x, expected, allow, r),
    }
}

/// `r` is the lowering of `e` before coercion.
pub open spec fn inner_rel(e: syntax::Expr, expected: Option<Type>, env: Seq<Binding>, ctx: LowerContext, r: Result<Expr, Diagnostic>, env2: Seq<Binding>, t: Derivation) -> bool
    decreases e, 2int,
{
    let first = ex_at(t, 0);
    let second = ex_at(t, 1);
    match e {
        syntax::Expr::Literal(lit) => env2 == env && r is Ok && literal_lowered(lit, expected, r->Ok_0),
        syntax::Expr::VarRef { name, line, column } => env2 == env && var_rel(name, line, column, expected, env, ctx, r),
        syntax::Expr::Call { .. } => call_rel(e, expected, env, ctx, r, env2, t),
        syntax::Expr::BinaryAdd { op, lhs, rhs, line, column } => {
            &&& expr_rel(*lhs, None, false, env, ctx, first, env_at(t, 0), deriv_at(t, 0))
            &&& match first {
                Err(d) => r == Err::<Expr, Diagnostic>(d),
                Ok(l) => expr_rel(*rhs, None, false, env_at(t, 0), ctx, second, env2, deriv_at(t, 1)) && match second {
                    Err(d) => r == Err::<Expr, Diagnostic>(d),
                    Ok(x) => {
                        let lt = expr_ty(l);
                        let rt = expr_ty(x);
                        if type_eq(lt, rt) && (lt is Int || lt is Numeric) {
                            r == Ok::<Expr, Diagnostic>(Expr::BinaryAdd { op: arithmetic_op_of(op), lhs: Box::new(l), rhs: Box::new(x), ty: lt })
                        } else if op is Add && (lt is String || lt is Str) && (rt is String || rt is Str) {
                            r == Ok::<Expr, Diagnostic>(Expr::BinaryAdd { op: ArithmeticOp::Add, lhs: Box::new(l), rhs: Box::new(x), ty: Type::String })
                        } else {
                            r is Err && type_error(r->Err_0, operator_prefix(arithmetic_lexeme(op)) + "matching numeric or string operands, got "@
                                + type_text(lt) + " and "@ + type_text(rt), line, column)
                        }
                    },
                },
            }
        },
        syntax::Expr::BinaryCompare { op, lhs, rhs, line, column } => {
            &&& expr_rel(*lhs, None, false, env, ctx, first, env_at(t, 0), deriv_at(t, 0))
            &&& match first {
                Err(d) => r == Err::<Expr, Diagnostic>(d),
                Ok(l) => expr_rel(*rhs, None, false, env_at(t, 0), ctx, second, env2, deriv_at(t, 1)) && match second {
                    Err(d) => r == Err::<Expr, Diagnostic>(d),
                    Ok(x) => {
                        let lt = expr_ty(l);
                        let rt = expr_ty(x);
                        let equality = op is Eq || op is Ne;
                        let mismatch = if equality {
                            !type_eq(lt, rt) && !((lt is String || lt is Str) && (rt is String || rt is Str))
                        } else {
                            !type_eq(lt, rt) || !(lt is Int || lt is Numeric)
                        };
                        if mismatch {
                            r is Err && type_error(r->Err_0, operator_prefix(compare_lexeme(compare_op_of(op)))
                                + (if equality { "matching operand types, got "@ } else { "matching numeric operands, got "@ })
                                + type_text(lt) + " and "@ + type_text(rt), line, column)
                        } else {
                            r == Ok::<Expr, Diagnostic>(Expr::BinaryCompare { op: compare_op_of(op), lhs: Box::new(l), rhs: Box::new(x), ty: Type::Bool })
                        }
                    },
                },
            }
        },
        syntax::Expr::BinaryLogic { op, lhs, rhs, line, column } => {
            let message_prefix = operator_prefix(logic_lexeme(logic_op_of(op))) + "bool operands, got "@;
            &&& expr_rel(*lhs, Some(Type::Bool), false, env, ctx, first, env_at(t, 0), deriv_at(t, 0))
            &&& match first {
                Err(d) => r == Err::<Expr, Diagnostic>(d),
                Ok(l) => if !(expr_ty(l) is Bool) {
                    r is Err && type_error(r->Err_0, message_prefix + type_text(expr_ty(l)), line, column)
                } else {
                    expr_rel(*rhs, Some(Type::Bool), false, env_at(t, 0), ctx, second, env2, deriv_at(t, 1)) && match second {
                        Err(d) => r == Err::<Expr, Diagnostic>(d),
                        Ok(x) => if !(expr_ty(x) is Bool) {
                            r is Err && type_error(r->Err_0, message_prefix + type_text(expr_ty(x)), line, column)
                        } else {
                            r == Ok::<Expr, Diagnostic>(Expr::BinaryLogic { op: logic_op_of(op), lhs: Box::new(l), rhs: Box::new(x), ty: Type::Bool })
                        },
                    }
                },
            }
        },
        syntax::Expr::Unary { op, expr, line, column } => match op {
            syntax::UnaryOp::MutBorrow => env2 == env && match *expr {
                syntax::Expr::VarRef { name, .. } => match binding_index(env, name@) {
                    None => r is Err && type_error(r->Err_0, "undefined variable "@ + debug_quoted(name@), line, column),
                    Some(i) => if env[i].moved {
                        r is Err && use_after_move_error(r->Err_0, name@, line, column)
                    } else {
                        &&& r is Ok
                        &&& r->Ok_0 matches Expr::MutBorrow { expr: x, ty }
                        &&& *x matches Expr::VarRef { name: n, ty: vt }
                        &&& n == name && type_eq(vt, env[i].ty) && type_eq(ty, Type::MutRef(Box::new(env[i].ty)))
                    },
                },
                _ => r is Err && type_error(r->Err_0, "mutable local borrows currently require a named local target"@, line, column),
            },
            syntax::UnaryOp::Deref => {
                &&& expr_rel(*expr, None, false, env, ctx, first, env2, deriv_at(t, 0))
                &&& match first {
                    Err(d) => r == Err::<Expr, Diagnostic>(d),
                    Ok(x) => match expr_ty(x) {
                        Type::MutRef(inner) => r is Ok && (r->Ok_0 matches Expr::Deref { expr: y, ty } && *y == x && type_eq(ty, *inner)),
                        _ => r is Err && type_error(r->Err_0, "dereference expects a mutable reference, got "@ + type_text(expr_ty(x)), line, column),
                    },
                }
            },
            syntax::UnaryOp::Await => if !capability_enabled(*ctx.capabilities, CapabilityKind::Async) {
                missing_capability(r, "await"@, CapabilityKind::Async, line, column) && env2 == env
            } else {
                &&& expr_rel(*expr, None, false, env, ctx, first, env_at(t, 0), deriv_at(t, 0))
                &&& match first {
                    Err(d) => r == Err::<Expr, Diagnostic>(d) && env2 == env_at(t, 0),
                    Ok(x) => match expr_ty(x) {
                        Type::Task(inner) => {
                            &&& env2 == moved_after(env_at(t, 0), x)
                            &&& r is Ok && (r->Ok_0 matches Expr::Await { expr: y, ty } && *y == x && type_eq(ty, *inner))
                        },
                        _ => r is Err && type_error(r->Err_0, "await expects a Task<T>, got "@ + type_text(expr_ty(x)), line, column)
                            && env2 == env_at(t, 0),
                    },
                }
            },
        },
        syntax::Expr::TupleLiteral { elements, line, column } => {
            let wants = match expected {
                Some(Type::Tuple(ts)) => if ts.len() == elements.len() { Some(ts@) } else { None },
                _ => None,
            };
            &&& elements_rel(elements, 0, wants, env, ctx, exs_at(t, 0), env2, deriv_at(t, 0))
            &&& match exs_at(t, 0) {
                Err(d) => r == Err::<Expr, Diagnostic>(d),
                Ok(xs) => if xs.len() < 2 {
                    r is Err && type_error(r->Err_0, "tuple literals require at least two elements"@, line, column)
                } else {
                    &&& r is Ok
                    &&& r->Ok_0 matches Expr::TupleLiteral { elements: ys, ty }
                    &&& ys@ == xs
                    &&& ty matches Type::Tuple(tys)
                    &&& tys.len() == xs.len()
                    &&& forall|k: int| 0 <= k < xs.len() ==> type_eq(#[trigger] tys[k], expr_ty(xs[k]))
                },
            }
        },
        syntax::Expr::ArrayLiteral { elements, line, column } => if elements.len() == 0 {
            r is Err && type_error(r->Err_0, "empty array literals are not yet supported in stage1"@, line, column) && env2 == env
        } else {
            let want = match expected {
                Some(Type::Array(el, _)) => Some(*el),
                _ => None,
            };
            &&& array_elements_rel(elements, 0, want, None, env, ctx, exs_at(t, 0), env2, deriv_at(t, 0))
            &&& match exs_at(t, 0) {
                Err(d) => r == Err::<Expr, Diagnostic>(d),
                Ok(xs) => {
                    &&& r is Ok
                    &&& r->Ok_0 matches Expr::ArrayLiteral { elements: ys, ty }
                    &&& ys@ == xs
                    &&& ty matches Type::Array(el, Some(n))
                    &&& n == elements.len() && xs.len() > 0 && type_eq(*el, expr_ty(xs[0]))
                },
            }
        },
        syntax::Expr::Cast { expr, ty, line, column } => {
            &&& expr_rel(*expr, None, false, env, ctx, first, env2, deriv_at(t, 0))
            &&& match first {
                Err(d) => r == Err::<Expr, Diagnostic>(d),
                Ok(x) => {
                    &&& type_rel(ty, *ctx.type_names, ctx.consts@, line, column, ty_at(t, 1), deriv_at(t, 1))
                    &&& match ty_at(t, 1) {
                        Err(d) => r == Err::<Expr, Diagnostic>(d),
                        Ok(target) => if !castable(expr_ty(x)) || !castable(target) {
                            r is Err && type_error(r->Err_0, "cast expects numeric source and target types, got "@ + type_text(expr_ty(x)) + " as "@
                                + type_text(target), line, column)
                        } else if type_eq(expr_ty(x), target) {
                            r == Ok::<Expr, Diagnostic>(x)
                        } else {
                            r == Ok::<Expr, Diagnostic>(Expr::Cast { expr: Box::new(x), ty: target })
                        },
                    }
                },
            }
        },
    }
}

/// Whether a value of type `t` can be cast: integers of every width.
pub open spec fn castable(t: Type) -> bool {
    t is Int || t is Numeric
}

/// `r` is the lowering of the elements of a tuple literal from position `i` on, each where
/// its type in `wants`, if any, is expected; a value that is not copied is moved as soon
/// as it is lowered.
pub open spec fn elements_rel(elements: Vec<syntax::Expr>, i: int, wants: Option<Seq<Type>>, env: Seq<Binding>, ctx: LowerContext, r: Result<Seq<Expr>, Diagnostic>, env2: Seq<Binding>, t: Derivation) -> bool
    decreases elements, elements.len() - i,
{
    if i < 0 || i >= elements.len() {
        r == Ok::<Seq<Expr>, Diagnostic>(Seq::empty()) && env2 == env
    } else {
        let want = match wants {
            Some(ws) => Some(ws[i]),
            None => None,
        };
        &&& expr_rel(elements[i], want, false, env, ctx, ex_at(t, 0), env_at(t, 0), deriv_at(t, 0))
        &&& match ex_at(t, 0) {
            Err(d) => r == Err::<Seq<Expr>, Diagnostic>(d),
            Ok(x) => {
                let m = if copyable(expr_ty(x)) { env_at(t, 0) } else { moved_after(env_at(t, 0), x) };
                elements_rel(elements, i + 1, wants, m, ctx, exs_at(t, 1), env2, deriv_at(t, 1)) && match exs_at(t, 1) {
                    Err(d) => r == Err::<Seq<Expr>, Diagnostic>(d),
                    Ok(xs) => r == Ok::<Seq<Expr>, Diagnostic>(seq![x] + xs),
                }
            },
        }
    }
}

/// `r` is the lowering of the elements of an array literal from position `i` on, each
/// expected to have type `want` where given; `lead` is the type of the first element once
/// it is lowered, and every later element must be assignable to it.
pub open spec fn array_elements_rel(elements: Vec<syntax::Expr>, i: int, want: Option<Type>, lead: Option<Type>, env: Seq<Binding>, ctx: LowerContext, r: Result<Seq<Expr>, Diagnostic>, env2: Seq<Binding>, t: Derivation) -> bool
    decreases elements, elements.len() - i,
{
    if i < 0 || i >= elements.len() {
        r == Ok::<Seq<Expr>, Diagnostic>(Seq::empty()) && env2 == env
    } else {
        &&& expr_rel(elements[i], want, false, env, ctx, ex_at(t, 0), env_at(t, 0), deriv_at(t, 0))
        &&& match ex_at(t, 0) {
            Err(d) => r == Err::<Seq<Expr>, Diagnostic>(d),
            Ok(x) => if lead is Some && !assignable(expr_ty(x), lead->0) {
                r is Err && type_error(r->Err_0, "array literal expects matching element types, got "@ + type_text(lead->0) + " and "@
                    + type_text(expr_ty(x)), expr_line(elements[i]), expr_column(elements[i]))
            } else {
                let m = if copyable(expr_ty(x)) { env_at(t, 0) } else { moved_after(env_at(t, 0), x) };
                let lead2 = match lead {
                    Some(f) => f,
                    None => expr_ty(x),
                };
                array_elements_rel(elements, i + 1, want, Some(lead2), m, ctx, exs_at(t, 1), env2, deriv_at(t, 1)) && match exs_at(t, 1) {
                    Err(d) => r == Err::<Seq<Expr>, Diagnostic>(d),
                    Ok(xs) => r == Ok::<Seq<Expr>, Diagnostic>(seq![x] + xs),
                }
            },
        }
    }
}

/// `r` is the lowering of argument `k` of `args` (see `expr_rel`).
pub open spec fn arg_rel(args: Vec<syntax::Expr>, k: int, expected: Option<Type>, allow: bool, env: Seq<Binding>, ctx: LowerContext, r: Result<Expr, Diagnostic>, env2: Seq<Binding>, t: Derivation) -> bool
    decreases args, 0int,
{
    0 <= k < args.len() && expr_rel(args[k], expected, allow, env, ctx, r, env2, t)
}

/// `r` is the lowering of the arguments of intrinsic `fname` from position `i` on, each
/// required to have exactly the type `wants` names for it.
pub open spec fn typed_args_rel(fname: Seq<char>, args: Vec<syntax::Expr>, i: int, wants: Seq<Type>, env: Seq<Binding>, ctx: LowerContext, r: Result<Seq<Expr>, Diagnostic>, env2: Seq<Binding>, t: Derivation) -> bool
    decreases args, args.len() - i,
{
    if i < 0 || i >= args.len() {
        r == Ok::<Seq<Expr>, Diagnostic>(Seq::empty()) && env2 == env
    } else {
        &&& expr_rel(args[i], Some(wants[i]), false, env, ctx, ex_at(t, 0), env_at(t, 0), deriv_at(t, 0))
        &&& match ex_at(t, 0) {
            Err(d) => r == Err::<Seq<Expr>, Diagnostic>(d),
            Ok(x) => if !type_eq(expr_ty(x), wants[i]) {
                r is Err && type_error(r->Err_0, fname + " expects argument "@ + decimal((i + 1) as nat) + " type "@ + type_text(wants[i])
                    + ", got "@ + type_text(expr_ty(x)), expr_line(args[i]), expr_column(args[i]))
            } else {
                typed_args_rel(fname, args, i + 1, wants, env_at(t, 0), ctx, exs_at(t, 1), env2, deriv_at(t, 1)) && match exs_at(t, 1) {
                    Err(d) => r == Err::<Seq<Expr>, Diagnostic>(d),
                    Ok(xs) => r == Ok::<Seq<Expr>, Diagnostic>(seq![x] + xs),
                }
            },
        }
    }
}

/// `r` is the lowering of call arguments from position `i` on against the parameter
/// types `params`: each must be assignable (the message starts with `prefix`), and a
/// non-copy argument moves. A `String` argument may be borrowed as `&str` where
/// `temp_ok` is set and the parameter is not one whose borrow the callee returns.
pub open spec fn call_args_rel(prefix: Seq<char>, args: Vec<syntax::Expr>, i: int, params: Seq<Type>, borrow_params: Seq<usize>, temp_ok: bool, env: Seq<Binding>, ctx: LowerContext, r: Result<Seq<Expr>, Diagnostic>, env2: Seq<Binding>, t: Derivation) -> bool
    decreases args, args.len() - i,
{
    if i < 0 || i >= args.len() {
        r == Ok::<Seq<Expr>, Diagnostic>(Seq::empty()) && env2 == env
    } else {
        let allow = temp_ok && !borrow_params.contains(i as usize);
        &&& expr_rel(args[i], Some(params[i]), allow, env, ctx, ex_at(t, 0), env_at(t, 0), deriv_at(t, 0))
        &&& match ex_at(t, 0) {
            Err(d) => r == Err::<Seq<Expr>, Diagnostic>(d),
            Ok(x) => if !assignable(expr_ty(x), params[i]) {
                r is Err && type_error(r->Err_0, prefix + type_text(params[i]) + ", got "@ + type_text(expr_ty(x)), expr_line(args[i]), expr_column(args[i]))
            } else {
                let m = if copyable(params[i]) { env_at(t, 0) } else { moved_after(env_at(t, 0), x) };
                call_args_rel(prefix, args, i + 1, params, borrow_params, temp_ok, m, ctx, exs_at(t, 1), env2, deriv_at(t, 1)) && match exs_at(t, 1) {
                    Err(d) => r == Err::<Seq<Expr>, Diagnostic>(d),
                    Ok(xs) => r == Ok::<Seq<Expr>, Diagnostic>(seq![x] + xs),
                }
            },
        }
    }
}

/// The operations of the async runtime.
#[derive(Clone, Copy, Debug, PartialEq, Eq, Structural)]
pub enum AsyncOp {
    Channel,
    Ready,
    IsCanceled,
    Spawn,
    Join,
    Cancel,
    Recv,
    Selected,
    SelectedValue,
    Timeout,
    Send,
    Select,
}

/// The async runtime operation that the intrinsic `name` performs, if it is one.
pub open spec fn async_op(name: Seq<char>) -> Option<AsyncOp> {
    if name == "async_channel"@ {
        Some(AsyncOp::Channel)
    } else if name == "async_ready"@ {
        Some(AsyncOp::Ready)
    } else if name == "async_is_canceled"@ {
        Some(AsyncOp::IsCanceled)
    } else if name == "async_spawn"@ {
        Some(AsyncOp::Spawn)
    } else if name == "async_join"@ {
        Some(AsyncOp::Join)
    } else if name == "async_cancel"@ {
        Some(AsyncOp::Cancel)
    } else if name == "async_recv"@ {
        Some(AsyncOp::Recv)
    } else if name == "async_selected"@ {
        Some(AsyncOp::Selected)
    } else if name == "async_selected_value"@ {
        Some(AsyncOp::SelectedValue)
    } else if name == "async_timeout"@ {
        Some(AsyncOp::Timeout)
    } else if name == "async_send"@ {
        Some(AsyncOp::Send)
    } else if name == "async_select"@ {
        Some(AsyncOp::Select)
    } else {
        None
    }
}

/// Computes `async_op`.
pub fn async_op_of(name: &str) -> (r: Option<AsyncOp>)
    ensures
        r == async_op(name@),
{
    if crate::text::str_eq(name, "async_channel") {
        Some(AsyncOp::Channel)
    } else if crate::text::str_eq(name, "async_ready") {
        Some(AsyncOp::Ready)
    } else if crate::text::str_eq(name, "async_is_canceled") {
        Some(AsyncOp::IsCanceled)
    } else if crate::text::str_eq(name, "async_spawn") {
        Some(AsyncOp::Spawn)
    } else if crate::text::str_eq(name, "async_join") {
        Some(AsyncOp::Join)
    } else if crate::text::str_eq(name, "async_cancel") {
        Some(AsyncOp::Cancel)
    } else if crate::text::str_eq(name, "async_recv") {
        Some(AsyncOp::Recv)
    } else if crate::text::str_eq(name, "async_selected") {
        Some(AsyncOp::Selected)
    } else if crate::text::str_eq(name, "async_selected_value") {
        Some(AsyncOp::SelectedValue)
    } else if crate::text::str_eq(name, "async_timeout") {
        Some(AsyncOp::Timeout)
    } else if crate::text::str_eq(name, "async_send") {
        Some(AsyncOp::Send)
    } else if crate::text::str_eq(name, "async_select") {
        Some(AsyncOp::Select)
    } else {
        None
    }
}

/// The intrinsics of the async runtime: each takes one explicit type argument, the
/// type of the values it works with.
pub open spec fn is_async_intrinsic(name: Seq<char>) -> bool {
    async_op(name) is Some
}

/// Decides `is_async_intrinsic`.
pub fn is_async_intrinsic_name(name: &str) -> (r: bool)
    ensures
        r == is_async_intrinsic(name@),
{
    async_op_of(name).is_some()
}

/// The map lookup intrinsics: each takes a map, then (but for the key listings) a key.
pub open spec fn is_map_lookup(name: Seq<char>) -> bool {
    ||| name == "map_get"@ || name == "map_contains_key"@ || name == "map_keys"@ || name == "contains"@
    ||| name == "get"@ || name == "get_or_default"@ || name == "keys"@
}

/// Decides `is_map_lookup`.
pub fn is_map_lookup_name(name: &str) -> (r: bool)
    ensures
        r == is_map_lookup(name@),
{
    crate::text::str_eq(name, "map_get") || crate::text::str_eq(name, "map_contains_key")
        || crate::text::str_eq(name, "map_keys") || crate::text::str_eq(name, "contains")
        || crate::text::str_eq(name, "get") || crate::text::str_eq(name, "get_or_default")
        || crate::text::str_eq(name, "keys")
}

/// The intrinsics whose explicit type arguments monomorphization keeps: the async runtime
/// intrinsics and the map lookups.
pub open spec fn preserves_intrinsic_type_args(name: Seq<char>) -> bool {
    is_async_intrinsic(name) || is_map_lookup(name)
}

/// Decides `preserves_intrinsic_type_args`.
pub fn preserves_intrinsic_type_args_name(name: &str) -> (r: bool)
    ensures
        r == preserves_intrinsic_type_args(name@),
{
    is_async_intrinsic_name(name) || is_map_lookup_name(name)
}

/// Whether the map lookup `name` lists the keys.
pub open spec fn is_key_listing(name: Seq<char>) -> bool {
    name == "map_keys"@ || name == "keys"@
}

/// How many arguments the map lookup `name` takes.
pub open spec fn map_lookup_arity(name: Seq<char>) -> nat {
    if is_key_listing(name) {
        1
    } else if name == "get_or_default"@ {
        3
    } else {
        2
    }
}

/// The type of a lookup `name` in a map from `k` to `v` (a key, not a key listing).
pub open spec fn map_lookup_result(name: Seq<char>, v: Type) -> Type {
    if name == "map_get"@ || name == "get"@ {
        Type::Option(Box::new(v))
    } else if name == "get_or_default"@ {
        v
    } else {
        Type::Bool
    }
}

/// `x` is a call of `name` with arguments `args` at `line`, `column`, whose type equals `ty`.
pub open spec fn call_typed(x: Expr, name: String, args: Seq<Expr>, ty: Type, line: usize, column: usize) -> bool {
    &&& x matches Expr::Call { name: n, args: a, ty: t, span }
    &&& n == name && a@ == args && type_eq(t, ty) && span == point_span(line, column)
}

/// `r` is the lowering of `get_or_default` on the lowered map `m` with values of type `v`
/// and the lowered key `key`: the default lowered where `v` is expected (step 4 of `t`)
/// and required to have it; the default, map and key are then moved.
pub open spec fn map_default_rel(name: String, args: Vec<syntax::Expr>, m: Expr, key: Expr, v: Type, line: usize, column: usize, env: Seq<Binding>, ctx: LowerContext, r: Result<Expr, Diagnostic>, env2: Seq<Binding>, t: Derivation) -> bool
    decreases args, 1int,
{
    &&& arg_rel(args, 2, Some(v), false, env, ctx, ex_at(t, 4), env_at(t, 4), deriv_at(t, 4))
    &&& match ex_at(t, 4) {
        Err(d) => r == Err::<Expr, Diagnostic>(d),
        Ok(dv) => if !type_eq(expr_ty(dv), v) {
            r is Err && type_error(r->Err_0, name@ + " expects default type "@ + type_text(v) + ", got "@ + type_text(expr_ty(dv)), expr_line(args[2]), expr_column(args[2]))
        } else {
            &&& env2 == moved_after(moved_after(moved_after(env_at(t, 4), dv), m), key)
            &&& r is Ok && call_typed(r->Ok_0, name, seq![m, key, dv], v, line, column)
        },
    }
}

/// `r` is the lowering of the map lookup `name` on the lowered map `m`, a map from `k` to
/// `v`, once its explicit type arguments, if any, agreed: the key lowered where `k` is
/// expected (step 3 of `t`), for `get_or_default` the default where `v` is (step 4),
/// each required to have that type; the default, map and key are then moved.
pub open spec fn map_args_rel(name: String, args: Vec<syntax::Expr>, m: Expr, k: Type, v: Type, line: usize, column: usize, env: Seq<Binding>, ctx: LowerContext, r: Result<Expr, Diagnostic>, env2: Seq<Binding>, t: Derivation) -> bool
    decreases args, 2int,
{
    let n = name@;
    if is_key_listing(n) {
        env2 == moved_after(env, m) && r is Ok && call_typed(r->Ok_0, name, seq![m], Type::Array(Box::new(k), None), line, column)
    } else {
        &&& arg_rel(args, 1, Some(k), false, env, ctx, ex_at(t, 3), env_at(t, 3), deriv_at(t, 3))
        &&& match ex_at(t, 3) {
            Err(d) => r == Err::<Expr, Diagnostic>(d),
            Ok(key) => if !type_eq(expr_ty(key), k) {
                r is Err && type_error(r->Err_0, n + " expects key type "@ + type_text(k) + ", got "@ + type_text(expr_ty(key)), expr_line(args[1]), expr_column(args[1]))
            } else if n == "get_or_default"@ {
                map_default_rel(name, args, m, key, v, line, column, env_at(t, 3), ctx, r, env2, t)
            } else {
                &&& env2 == moved_after(moved_after(env_at(t, 3), m), key)
                &&& r is Ok && call_typed(r->Ok_0, name, seq![m, key], map_lookup_result(n, v), line, column)
            },
        }
    }
}

/// `r` is the lowering of the map lookup `name` on the lowered map `m`, a map from `k` to
/// `v`: two explicit type arguments (steps 1 and 2 of `t`) must name exactly `k` and `v`.
pub open spec fn map_lookup_rel(name: String, type_args: Vec<syntax::TypeName>, args: Vec<syntax::Expr>, m: Expr, k: Type, v: Type, line: usize, column: usize, env: Seq<Binding>, ctx: LowerContext, r: Result<Expr, Diagnostic>, env2: Seq<Binding>, t: Derivation) -> bool
    decreases args, 3int,
{
    if type_args.len() == 2 {
        &&& type_rel(type_args[0], *ctx.type_names, ctx.consts@, line, column, ty_at(t, 1), deriv_at(t, 1))
        &&& match ty_at(t, 1) {
            Err(d) => r == Err::<Expr, Diagnostic>(d),
            Ok(ek) => {
                &&& type_rel(type_args[1], *ctx.type_names, ctx.consts@, line, column, ty_at(t, 2), deriv_at(t, 2))
                &&& match ty_at(t, 2) {
                    Err(d) => r == Err::<Expr, Diagnostic>(d),
                    Ok(ev) => if !type_eq(ek, k) || !type_eq(ev, v) {
                        r is Err && type_error(r->Err_0, name@ + " type arguments expect {"@ + type_text(ek) + ": "@ + type_text(ev) + "}, got "@
                            + type_text(expr_ty(m)), line, column)
                    } else {
                        map_args_rel(name, args, m, k, v, line, column, env, ctx, r, env2, t)
                    },
                }
            },
        }
    } else {
        map_args_rel(name, args, m, k, v, line, column, env, ctx, r, env2, t)
    }
}

/// The signature of a host intrinsic that takes at most one argument of a fixed type:
/// the capability it needs, if any; its argument's type and how a mismatch names that
/// argument, if it takes one; and its type.
pub open spec fn table_intrinsic(name: Seq<char>) -> Option<(Option<CapabilityKind>, Option<(Type, Seq<char>)>, Type)> {
    if name == "panic"@ {
        Some((None, Some((Type::String, "a string argument"@)), Type::Never))
    } else if name == "io_eprintln"@ {
        Some((None, Some((Type::String, "a string argument"@)), Type::Int))
    } else if name == "io_readline"@ {
        Some((None, None, Type::Option(Box::new(Type::String))))
    } else if name == "io_read_to_string"@ {
        Some((None, None, Type::String))
    } else if name == "json_parse_int"@ {
        Some((None, Some((Type::String, "a string argument"@)), Type::Option(Box::new(Type::Int))))
    } else if name == "json_parse_bool"@ {
        Some((None, Some((Type::String, "a string argument"@)), Type::Option(Box::new(Type::Bool))))
    } else if name == "json_parse_string"@ {
        Some((None, Some((Type::String, "a string argument"@)), Type::Option(Box::new(Type::String))))
    } else if name == "json_stringify_int"@ {
        Some((None, Some((Type::Int, "an int argument"@)), Type::String))
    } else if name == "json_stringify_bool"@ {
        Some((None, Some((Type::Bool, "a bool argument"@)), Type::String))
    } else if name == "json_stringify_string"@ {
        Some((None, Some((Type::String, "a string argument"@)), Type::String))
    } else if name == "json_parse_value"@ {
        Some((None, Some((Type::String, "a string argument"@)), Type::Option(Box::new(Type::String))))
    } else if name == "json_stringify_value"@ {
        Some((None, Some((Type::String, "a string argument"@)), Type::String))
    } else if name == "cli_args"@ {
        Some((None, None, Type::Array(Box::new(Type::String), None)))
    } else if name == "cli_arg_count"@ {
        Some((None, None, Type::Int))
    } else if name == "cli_arg"@ {
        Some((None, Some((Type::Int, "an int argument"@)), Type::Option(Box::new(Type::String))))
    } else if name == "fs_read"@ {
        Some((Some(CapabilityKind::Fs), Some((Type::String, "a string argument"@)), Type::Option(Box::new(Type::String))))
    } else if name == "clock_now_ms"@ {
        Some((Some(CapabilityKind::Clock), None, Type::Int))
    } else if name == "clock_sleep_ms"@ {
        Some((Some(CapabilityKind::Clock), Some((Type::Int, "an int argument"@)), Type::Int))
    } else if name == "clock_elapsed_ms"@ {
        Some((Some(CapabilityKind::Clock), Some((Type::Int, "an int argument"@)), Type::Int))
    } else if name == "env_get"@ {
        Some((Some(CapabilityKind::Env), Some((Type::String, "a string argument"@)), Type::Option(Box::new(Type::String))))
    } else if name == "crypto_sha256"@ {
        Some((Some(CapabilityKind::Crypto), Some((Type::String, "a string argument"@)), Type::String))
    } else if name == "crypto_rand_bytes"@ {
        Some((Some(CapabilityKind::Crypto), Some((Type::Int, "an int length"@)), Type::Array(Box::new(Type::Numeric(NumericType::U8)), None)))
    } else if name == "crypto_rand_u64"@ {
        Some((Some(CapabilityKind::Crypto), None, Type::Numeric(NumericType::U64)))
    } else {
        None
    }
}

/// Looks up `table_intrinsic`.
pub fn table_intrinsic_of(name: &str) -> (r: Option<(Option<CapabilityKind>, Option<(Type, &'static str)>, Type)>)
    ensures
        match r {
            None => table_intrinsic(name@) is None,
            Some((c, p, t)) => table_intrinsic(name@) == Some((c, match p { Some((pt, l)) => Some((pt, l@)), None => None }, t)),
        },
{
    if crate::text::str_eq(name, "panic") {
        Some((None, Some((Type::String, "a string argument")), Type::Never))
    } else if crate::text::str_eq(name, "io_eprintln") {
        Some((None, Some((Type::String, "a string argument")), Type::Int))
    } else if crate::text::str_eq(name, "io_readline") {
        Some((None, None, Type::Option(Box::new(Type::String))))
    } else if crate::text::str_eq(name, "io_read_to_string") {
        Some((None, None, Type::String))
    } else if crate::text::str_eq(name, "json_parse_int") {
        Some((None, Some((Type::String, "a string argument")), Type::Option(Box::new(Type::Int))))
    } else if crate::text::str_eq(name, "json_parse_bool") {
        Some((None, Some((Type::String, "a string argument")), Type::Option(Box::new(Type::Bool))))
    } else if crate::text::str_eq(name, "json_parse_string") {
        Some((None, Some((Type::String, "a string argument")), Type::Option(Box::new(Type::String))))
    } else if crate::text::str_eq(name, "json_stringify_int") {
        Some((None, Some((Type::Int, "an int argument")), Type::String))
    } else if crate::text::str_eq(name, "json_stringify_bool") {
        Some((None, Some((Type::Bool, "a bool argument")), Type::String))
    } else if crate::text::str_eq(name, "json_stringify_string") {
        Some((None, Some((Type::String, "a string argument")), Type::String))
    } else if crate::text::str_eq(name, "json_parse_value") {
        Some((None, Some((Type::String, "a string argument")), Type::Option(Box::new(Type::String))))
    } else if crate::text::str_eq(name, "json_stringify_value") {
        Some((None, Some((Type::String, "a string argument")), Type::String))
    } else if crate::text::str_eq(name, "cli_args") {
        Some((None, None, Type::Array(Box::new(Type::String), None)))
    } else if crate::text::str_eq(name, "cli_arg_count") {
        Some((None, None, Type::Int))
    } else if crate::text::str_eq(name, "cli_arg") {
        Some((None, Some((Type::Int, "an int argument")), Type::Option(Box::new(Type::String))))
    } else if crate::text::str_eq(name, "fs_read") {
        Some((Some(CapabilityKind::Fs), Some((Type::String, "a string argument")), Type::Option(Box::new(Type::String))))
    } else if crate::text::str_eq(name, "clock_now_ms") {
        Some((Some(CapabilityKind::Clock), None, Type::Int))
    } else if crate::text::str_eq(name, "clock_sleep_ms") {
        Some((Some(CapabilityKind::Clock), Some((Type::Int, "an int argument")), Type::Int))
    } else if crate::text::str_eq(name, "clock_elapsed_ms") {
        Some((Some(CapabilityKind::Clock), Some((Type::Int, "an int argument")), Type::Int))
    } else if crate::text::str_eq(name, "env_get") {
        Some((Some(CapabilityKind::Env), Some((Type::String, "a string argument")), Type::Option(Box::new(Type::String))))
    } else if crate::text::str_eq(name, "crypto_sha256") {
        Some((Some(CapabilityKind::Crypto), Some((Type::String, "a string argument")), Type::String))
    } else if crate::text::str_eq(name, "crypto_rand_bytes") {
        Some((Some(CapabilityKind::Crypto), Some((Type::Int, "an int length")), Type::Array(Box::new(Type::Numeric(NumericType::U8)), None)))
    } else if crate::text::str_eq(name, "crypto_rand_u64") {
        Some((Some(CapabilityKind::Crypto), None, Type::Numeric(NumericType::U64)))
    } else {
        None
    }
}

/// Whether `name` is a host intrinsic of `table_intrinsic`.
pub open spec fn is_table_intrinsic(name: Seq<char>) -> bool {
    table_intrinsic(name) is Some
}

/// `r` is the lowering of a call `name` of a host intrinsic with signature `sig` (see
/// `table_intrinsic`): its capability, then its arity, then its argument, lowered where
/// its type is expected and required to have it, then moved.
pub open spec fn table_call_rel(name: String, args: Vec<syntax::Expr>, sig: (Option<CapabilityKind>, Option<(Type, Seq<char>)>, Type), line: usize, column: usize, env: Seq<Binding>, ctx: LowerContext, r: Result<Expr, Diagnostic>, env2: Seq<Binding>, t: Derivation) -> bool
    decreases args, 1int,
{
    let (cap, param, result) = sig;
    let n = name@;
    if cap is Some && !capability_enabled(*ctx.capabilities, cap->Some_0) {
        missing_capability(r, n, cap->Some_0, line, column)
    } else {
        match param {
            None => if args.len() != 0 {
                r is Err && type_error(r->Err_0, n + " expects 0 arguments, got "@ + decimal(args.len() as nat), line, column)
            } else {
                env2 == env && r is Ok && call_shape(r->Ok_0, name, seq![], result, line, column)
            },
            Some((pt, label)) => if args.len() != 1 {
                r is Err && type_error(r->Err_0, n + " expects 1 argument, got "@ + decimal(args.len() as nat), line, column)
            } else {
                &&& arg_rel(args, 0, Some(pt), false, env, ctx, ex_at(t, 0), env_at(t, 0), deriv_at(t, 0))
                &&& match ex_at(t, 0) {
                    Err(d) => r == Err::<Expr, Diagnostic>(d),
                    Ok(x) => if !type_eq(expr_ty(x), pt) {
                        r is Err && type_error(r->Err_0, n + " expects "@ + label + ", got "@ + type_text(expr_ty(x)), expr_line(args[0]), expr_column(args[0]))
                    } else {
                        &&& env2 == moved_after(env_at(t, 0), x)
                        &&& r is Ok && call_shape(r->Ok_0, name, seq![x], result, line, column)
                    },
                }
            },
        }
    }
}

/// `r` is the lowering of `Ok(..)` (`is_ok`) or `Err(..)` where `expected` is expected:
/// only where a `Result` is expected, its payload lowered where the `Ok` or `Err` type is
/// expected and required to be assignable to it, then moved unless that type is copied.
pub open spec fn result_ctor_rel(is_ok: bool, args: Vec<syntax::Expr>, expected: Option<Type>, line: usize, column: usize, env: Seq<Binding>, ctx: LowerContext, r: Result<Expr, Diagnostic>, env2: Seq<Binding>, t: Derivation) -> bool
    decreases args, 1int,
{
    let ctor = if is_ok { "Ok"@ } else { "Err"@ };
    if args.len() != 1 {
        r is Err && type_error(r->Err_0, "Result::"@ + ctor + " expects 1 argument, got "@ + decimal(args.len() as nat), line, column)
    } else {
        match expected {
            Some(Type::Result(ok, err)) => {
                let want = if is_ok { *ok } else { *err };
                &&& arg_rel(args, 0, Some(want), false, env, ctx, ex_at(t, 0), env_at(t, 0), deriv_at(t, 0))
                &&& match ex_at(t, 0) {
                    Err(d) => r == Err::<Expr, Diagnostic>(d),
                    Ok(p) => if !assignable(expr_ty(p), want) {
                        r is Err && type_error(r->Err_0, "Result::"@ + ctor + " expects payload type "@ + type_text(want) + ", got "@
                            + type_text(expr_ty(p)), expr_line(args[0]), expr_column(args[0]))
                    } else {
                        &&& env2 == (if copyable(want) { env_at(t, 0) } else { moved_after(env_at(t, 0), p) })
                        &&& r is Ok
                        &&& r->Ok_0 matches Expr::EnumVariant { enum_name, variant, field_names, payloads, ty }
                        &&& enum_name@ == "Result"@ && variant@ == ctor && field_names@.len() == 0 && payloads@ == seq![p]
                        &&& type_eq(ty, Type::Result(ok, err))
                    },
                }
            },
            _ => r is Err && type_error(r->Err_0, ctor + " requires an expected Result<T, E> context"@, line, column),
        }
    }
}

/// The signature of a host intrinsic of fixed arity: the capability it needs, if any;
/// the types its arguments must have and how a mismatch names each; how its arity
/// message goes on after the count; whether each argument is moved as soon as it is
/// checked (else all are moved once all are checked); and its type.
pub open spec fn multi_intrinsic(name: Seq<char>) -> Option<(Option<CapabilityKind>, Seq<Type>, Seq<Seq<char>>, Seq<char>, bool, Type)> {
    if name == "json_parse_field_int"@ {
        Some((None, seq![Type::String, Type::String], seq!["a string JSON argument"@, "a string key argument"@], " arguments, got "@, false, Type::Option(Box::new(Type::Int))))
    } else if name == "json_parse_field_bool"@ {
        Some((None, seq![Type::String, Type::String], seq!["a string JSON argument"@, "a string key argument"@], " arguments, got "@, false, Type::Option(Box::new(Type::Bool))))
    } else if name == "json_parse_field_string"@ {
        Some((None, seq![Type::String, Type::String], seq!["a string JSON argument"@, "a string key argument"@], " arguments, got "@, false, Type::Option(Box::new(Type::String))))
    } else if name == "json_parse_field_value"@ {
        Some((None, seq![Type::String, Type::String], seq!["a string JSON argument"@, "a string key argument"@], " arguments, got "@, false, Type::Option(Box::new(Type::String))))
    } else if name == "regex_is_match"@ {
        Some((None, seq![Type::String, Type::String], seq!["argument 1 type string"@, "argument 2 type string"@], " arguments, got "@, true, Type::Bool))
    } else if name == "regex_find"@ {
        Some((None, seq![Type::String, Type::String], seq!["argument 1 type string"@, "argument 2 type string"@], " arguments, got "@, true, Type::Option(Box::new(Type::String))))
    } else if name == "regex_replace_all"@ {
        Some((None, seq![Type::String, Type::String, Type::String], seq!["argument 1 type string"@, "argument 2 type string"@, "argument 3 type string"@], " arguments, got "@, true, Type::String))
    } else if name == "string_line_at"@ {
        Some((None, seq![Type::Str, Type::Int], seq!["argument 1 type &str"@, "argument 2 type int"@], " arguments, got "@, true, Type::Option(Box::new(Type::String))))
    } else if name == "string_clone"@ {
        Some((None, seq![Type::Str], seq!["argument 1 type &str"@], " arguments, got "@, true, Type::String))
    } else if name == "string_starts_with"@ {
        Some((None, seq![Type::Str, Type::Str], seq!["argument 1 type &str"@, "argument 2 type &str"@], " arguments, got "@, true, Type::Bool))
    } else if name == "string_strip_prefix"@ {
        Some((None, seq![Type::Str, Type::Str], seq!["argument 1 type &str"@, "argument 2 type &str"@], " arguments, got "@, true, Type::Option(Box::new(Type::String))))
    } else if name == "string_strip_suffix"@ {
        Some((None, seq![Type::Str, Type::Str], seq!["argument 1 type &str"@, "argument 2 type &str"@], " arguments, got "@, true, Type::Option(Box::new(Type::String))))
    } else if name == "string_trim"@ {
        Some((None, seq![Type::Str], seq!["argument 1 type &str"@], " arguments, got "@, true, Type::String))
    } else if name == "string_trim_start"@ {
        Some((None, seq![Type::Str], seq!["argument 1 type &str"@], " arguments, got "@, true, Type::String))
    } else if name == "encoding_url_component_encode"@ {
        Some((None, seq![Type::String], seq!["string arguments"@], " argument(s), got "@, true, Type::String))
    } else if name == "encoding_url_component_decode"@ {
        Some((None, seq![Type::String], seq!["string arguments"@], " argument(s), got "@, true, Type::Option(Box::new(Type::String))))
    } else if name == "encoding_path_segment_encode"@ {
        Some((None, seq![Type::String], seq!["string arguments"@], " argument(s), got "@, true, Type::String))
    } else if name == "encoding_url_query_pair_encode"@ {
        Some((None, seq![Type::String, Type::String], seq!["string arguments"@, "string arguments"@], " argument(s), got "@, true, Type::String))
    } else if name == "encoding_path_join_segment"@ {
        Some((None, seq![Type::String, Type::String], seq!["string arguments"@, "string arguments"@], " argument(s), got "@, true, Type::String))
    } else if name == "fs_write"@ {
        Some((Some(CapabilityKind::FsWrite), seq![Type::String, Type::String], seq!["argument 1 type string"@, "argument 2 type string"@], " arguments, got "@, false, Type::Int))
    } else if name == "fs_append"@ {
        Some((Some(CapabilityKind::FsWrite), seq![Type::String, Type::String], seq!["argument 1 type string"@, "argument 2 type string"@], " arguments, got "@, false, Type::Int))
    } else if name == "fs_replace"@ {
        Some((Some(CapabilityKind::FsWrite), seq![Type::String, Type::String], seq!["argument 1 type string"@, "argument 2 type string"@], " arguments, got "@, false, Type::Int))
    } else if name == "fs_create"@ {
        Some((Some(CapabilityKind::FsWrite), seq![Type::String], seq!["argument 1 type string"@], " argument, got "@, true, Type::Int))
    } else if name == "fs_mkdir"@ {
        Some((Some(CapabilityKind::FsWrite), seq![Type::String], seq!["argument 1 type string"@], " argument, got "@, true, Type::Int))
    } else if name == "fs_mkdir_all"@ {
        Some((Some(CapabilityKind::FsWrite), seq![Type::String], seq!["argument 1 type string"@], " argument, got "@, true, Type::Int))
    } else if name == "fs_remove_file"@ {
        Some((Some(CapabilityKind::FsWrite), seq![Type::String], seq!["argument 1 type string"@], " argument, got "@, true, Type::Int))
    } else if name == "fs_remove_dir"@ {
        Some((Some(CapabilityKind::FsWrite), seq![Type::String], seq!["argument 1 type string"@], " argument, got "@, true, Type::Int))
    } else {
        None
    }
}

/// Looks up `multi_intrinsic`.
pub fn multi_intrinsic_of(name: &str) -> (r: Option<(Option<CapabilityKind>, Vec<Type>, Vec<&'static str>, &'static str, bool, Type)>)
    ensures
        match r {
            None => multi_intrinsic(name@) is None,
            Some((c, ts, ls, a, m, t)) => {
                let sig = multi_intrinsic(name@)->Some_0;
                &&& multi_intrinsic(name@) is Some
                &&& sig.0 == c && sig.1 == ts@ && sig.3 == a@ && sig.4 == m && sig.5 == t
                &&& ls.len() == sig.2.len()
                &&& forall|i: int| 0 <= i < ls.len() ==> #[trigger] ls@[i]@ == sig.2[i]
            },
        },
{
    if crate::text::str_eq(name, "json_parse_field_int") {
        let ts: Vec<Type> = vec![Type::String, Type::String];
        let ls: Vec<&'static str> = vec!["a string JSON argument", "a string key argument"];
        proof { assert(ts@ =~= seq![Type::String, Type::String]); }
        Some((None, ts, ls, " arguments, got ", false, Type::Option(Box::new(Type::Int))))
    } else if crate::text::str_eq(name, "json_parse_field_bool") {
        let ts: Vec<Type> = vec![Type::String, Type::String];
        let ls: Vec<&'static str> = vec!["a string JSON argument", "a string key argument"];
        proof { assert(ts@ =~= seq![Type::String, Type::String]); }
        Some((None, ts, ls, " arguments, got ", false, Type::Option(Box::new(Type::Bool))))
    } else if crate::text::str_eq(name, "json_parse_field_string") {
        let ts: Vec<Type> = vec![Type::String, Type::String];
        let ls: Vec<&'static str> = vec!["a string JSON argument", "a string key argument"];
        proof { assert(ts@ =~= seq![Type::String, Type::String]); }
        Some((None, ts, ls, " arguments, got ", false, Type::Option(Box::new(Type::String))))
    } else if crate::text::str_eq(name, "json_parse_field_value") {
        let ts: Vec<Type> = vec![Type::String, Type::String];
        let ls: Vec<&'static str> = vec!["a string JSON argument", "a string key argument"];
        proof { assert(ts@ =~= seq![Type::String, Type::String]); }
        Some((None, ts, ls, " arguments, got ", false, Type::Option(Box::new(Type::String))))
    } else if crate::text::str_eq(name, "regex_is_match") {
        let ts: Vec<Type> = vec![Type::String, Type::String];
        let ls: Vec<&'static str> = vec!["argument 1 type string", "argument 2 type string"];
        proof { assert(ts@ =~= seq![Type::String, Type::String]); }
        Some((None, ts, ls, " arguments, got ", true, Type::Bool))
    } else if crate::text::str_eq(name, "regex_find") {
        let ts: Vec<Type> = vec![Type::String, Type::String];
        let ls: Vec<&'static str> = vec!["argument 1 type string", "argument 2 type string"];
        proof { assert(ts@ =~= seq![Type::String, Type::String]); }
        Some((None, ts, ls, " arguments, got ", true, Type::Option(Box::new(Type::String))))
    } else if crate::text::str_eq(name, "regex_replace_all") {
        let ts: Vec<Type> = vec![Type::String, Type::String, Type::String];
        let ls: Vec<&'static str> = vec!["argument 1 type string", "argument 2 type string", "argument 3 type string"];
        proof { assert(ts@ =~= seq![Type::String, Type::String, Type::String]); }
        Some((None, ts, ls, " arguments, got ", true, Type::String))
    } else if crate::text::str_eq(name, "string_line_at") {
        let ts: Vec<Type> = vec![Type::Str, Type::Int];
        let ls: Vec<&'static str> = vec!["argument 1 type &str", "argument 2 type int"];
        proof { assert(ts@ =~= seq![Type::Str, Type::Int]); }
        Some((None, ts, ls, " arguments, got ", true, Type::Option(Box::new(Type::String))))
    } else if crate::text::str_eq(name, "string_clone") {
        let ts: Vec<Type> = vec![Type::Str];
        let ls: Vec<&'static str> = vec!["argument 1 type &str"];
        proof { assert(ts@ =~= seq![Type::Str]); }
        Some((None, ts, ls, " arguments, got ", true, Type::String))
    } else if crate::text::str_eq(name, "string_starts_with") {
        let ts: Vec<Type> = vec![Type::Str, Type::Str];
        let ls: Vec<&'static str> = vec!["argument 1 type &str", "argument 2 type &str"];
        proof { assert(ts@ =~= seq![Type::Str, Type::Str]); }
        Some((None, ts, ls, " arguments, got ", true, Type::Bool))
    } else if crate::text::str_eq(name, "string_strip_prefix") {
        let ts: Vec<Type> = vec![Type::Str, Type::Str];
        let ls: Vec<&'static str> = vec!["argument 1 type &str", "argument 2 type &str"];
        proof { assert(ts@ =~= seq![Type::Str, Type::Str]); }
        Some((None, ts, ls, " arguments, got ", true, Type::Option(Box::new(Type::String))))
    } else if crate::text::str_eq(name, "string_strip_suffix") {
        let ts: Vec<Type> = vec![Type::Str, Type::Str];
        let ls: Vec<&'static str> = vec!["argument 1 type &str", "argument 2 type &str"];
        proof { assert(ts@ =~= seq![Type::Str, Type::Str]); }
        Some((None, ts, ls, " arguments, got ", true, Type::Option(Box::new(Type::String))))
    } else if crate::text::str_eq(name, "string_trim") {
        let ts: Vec<Type> = vec![Type::Str];
        let ls: Vec<&'static str> = vec!["argument 1 type &str"];
        proof { assert(ts@ =~= seq![Type::Str]); }
        Some((None, ts, ls, " arguments, got ", true, Type::String))
    } else if crate::text::str_eq(name, "string_trim_start") {
        let ts: Vec<Type> = vec![Type::Str];
        let ls: Vec<&'static str> = vec!["argument 1 type &str"];
        proof { assert(ts@ =~= seq![Type::Str]); }
        Some((None, ts, ls, " arguments, got ", true, Type::String))
    } else if crate::text::str_eq(name, "encoding_url_component_encode") {
        let ts: Vec<Type> = vec![Type::String];
        let ls: Vec<&'static str> = vec!["string arguments"];
        proof { assert(ts@ =~= seq![Type::String]); }
        Some((None, ts, ls, " argument(s), got ", true, Type::String))
    } else if crate::text::str_eq(name, "encoding_url_component_decode") {
        let ts: Vec<Type> = vec![Type::String];
        let ls: Vec<&'static str> = vec!["string arguments"];
        proof { assert(ts@ =~= seq![Type::String]); }
        Some((None, ts, ls, " argument(s), got ", true, Type::Option(Box::new(Type::String))))
    } else if crate::text::str_eq(name, "encoding_path_segment_encode") {
        let ts: Vec<Type> = vec![Type::String];
        let ls: Vec<&'static str> = vec!["string arguments"];
        proof { assert(ts@ =~= seq![Type::String]); }
        Some((None, ts, ls, " argument(s), got ", true, Type::String))
    } else if crate::text::str_eq(name, "encoding_url_query_pair_encode") {
        let ts: Vec<Type> = vec![Type::String, Type::String];
        let ls: Vec<&'static str> = vec!["string arguments", "string arguments"];
        proof { assert(ts@ =~= seq![Type::String, Type::String]); }
        Some((None, ts, ls, " argument(s), got ", true, Type::String))
    } else if crate::text::str_eq(name, "encoding_path_join_segment") {
        let ts: Vec<Type> = vec![Type::String, Type::String];
        let ls: Vec<&'static str> = vec!["string arguments", "string arguments"];
        proof { assert(ts@ =~= seq![Type::String, Type::String]); }
        Some((None, ts, ls, " argument(s), got ", true, Type::String))
    } else if crate::text::str_eq(name, "fs_write") {
        let ts: Vec<Type> = vec![Type::String, Type::String];
        let ls: Vec<&'static str> = vec!["argument 1 type string", "argument 2 type string"];
        proof { assert(ts@ =~= seq![Type::String, Type::String]); }
        Some((Some(CapabilityKind::FsWrite), ts, ls, " arguments, got ", false, Type::Int))
    } else if crate::text::str_eq(name, "fs_append") {
        let ts: Vec<Type> = vec![Type::String, Type::String];
        let ls: Vec<&'static str> = vec!["argument 1 type string", "argument 2 type string"];
        proof { assert(ts@ =~= seq![Type::String, Type::String]); }
        Some((Some(CapabilityKind::FsWrite), ts, ls, " arguments, got ", false, Type::Int))
    } else if crate::text::str_eq(name, "fs_replace") {
        let ts: Vec<Type> = vec![Type::String, Type::String];
        let ls: Vec<&'static str> = vec!["argument 1 type string", "argument 2 type string"];
        proof { assert(ts@ =~= seq![Type::String, Type::String]); }
        Some((Some(CapabilityKind::FsWrite), ts, ls, " arguments, got ", false, Type::Int))
    } else if crate::text::str_eq(name, "fs_create") {
        let ts: Vec<Type> = vec![Type::String];
        let ls: Vec<&'static str> = vec!["argument 1 type string"];
        proof { assert(ts@ =~= seq![Type::String]); }
        Some((Some(CapabilityKind::FsWrite), ts, ls, " argument, got ", true, Type::Int))
    } else if crate::text::str_eq(name, "fs_mkdir") {
        let ts: Vec<Type> = vec![Type::String];
        let ls: Vec<&'static str> = vec!["argument 1 type string"];
        proof { assert(ts@ =~= seq![Type::String]); }
        Some((Some(CapabilityKind::FsWrite), ts, ls, " argument, got ", true, Type::Int))
    } else if crate::text::str_eq(name, "fs_mkdir_all") {
        let ts: Vec<Type> = vec![Type::String];
        let ls: Vec<&'static str> = vec!["argument 1 type string"];
        proof { assert(ts@ =~= seq![Type::String]); }
        Some((Some(CapabilityKind::FsWrite), ts, ls, " argument, got ", true, Type::Int))
    } else if crate::text::str_eq(name, "fs_remove_file") {
        let ts: Vec<Type> = vec![Type::String];
        let ls: Vec<&'static str> = vec!["argument 1 type string"];
        proof { assert(ts@ =~= seq![Type::String]); }
        Some((Some(CapabilityKind::FsWrite), ts, ls, " argument, got ", true, Type::Int))
    } else if crate::text::str_eq(name, "fs_remove_dir") {
        let ts: Vec<Type> = vec![Type::String];
        let ls: Vec<&'static str> = vec!["argument 1 type string"];
        proof { assert(ts@ =~= seq![Type::String]); }
        Some((Some(CapabilityKind::FsWrite), ts, ls, " argument, got ", true, Type::Int))
    } else {
        None
    }
}

/// The bindings after the values `xs` from position `i` on are moved, in order.
pub open spec fn moved_all(env: Seq<Binding>, xs: Seq<Expr>, i: int) -> Seq<Binding>
    decreases xs.len() - i,
{
    if i < 0 || i >= xs.len() {
        env
    } else {
        moved_all(moved_after(env, xs[i]), xs, i + 1)
    }
}

/// `r` is the lowering of the arguments of the host intrinsic `name` from position `i` on,
/// each where its type in `types` is expected and required to have it (a mismatch names
/// the argument by its label in `labels`), and moved as soon as it is checked where
/// `move_each` is set.
pub open spec fn labeled_args_rel(name: Seq<char>, args: Vec<syntax::Expr>, i: int, types: Seq<Type>, labels: Seq<Seq<char>>, move_each: bool, env: Seq<Binding>, ctx: LowerContext, r: Result<Seq<Expr>, Diagnostic>, env2: Seq<Binding>, t: Derivation) -> bool
    decreases args, args.len() - i,
{
    if i < 0 || i >= args.len() {
        r == Ok::<Seq<Expr>, Diagnostic>(Seq::empty()) && env2 == env
    } else {
        &&& expr_rel(args[i], Some(types[i]), false, env, ctx, ex_at(t, 0), env_at(t, 0), deriv_at(t, 0))
        &&& match ex_at(t, 0) {
            Err(d) => r == Err::<Seq<Expr>, Diagnostic>(d),
            Ok(x) => if !type_eq(expr_ty(x), types[i]) {
                r is Err && type_error(r->Err_0, name + " expects "@ + labels[i] + ", got "@ + type_text(expr_ty(x)), expr_line(args[i]), expr_column(args[i]))
            } else {
                let m = if move_each { moved_after(env_at(t, 0), x) } else { env_at(t, 0) };
                labeled_args_rel(name, args, i + 1, types, labels, move_each, m, ctx, exs_at(t, 1), env2, deriv_at(t, 1)) && match exs_at(t, 1) {
                    Err(d) => r == Err::<Seq<Expr>, Diagnostic>(d),
                    Ok(xs) => r == Ok::<Seq<Expr>, Diagnostic>(seq![x] + xs),
                }
            },
        }
    }
}

/// `r` is the lowering of a call `name` of a host intrinsic with signature `sig` (see
/// `multi_intrinsic`): its capability, then its arity, then its arguments in order (step
/// 0 of `t`), which are then moved unless each was moved when checked.
pub open spec fn multi_call_rel(name: String, args: Vec<syntax::Expr>, sig: (Option<CapabilityKind>, Seq<Type>, Seq<Seq<char>>, Seq<char>, bool, Type), line: usize, column: usize, env: Seq<Binding>, ctx: LowerContext, r: Result<Expr, Diagnostic>, env2: Seq<Binding>, t: Derivation) -> bool
    decreases args, args.len() + 1,
{
    let (cap, types, labels, arity_text, move_each, result) = sig;
    let n = name@;
    if cap is Some && !capability_enabled(*ctx.capabilities, cap->Some_0) {
        missing_capability(r, n, cap->Some_0, line, column)
    } else if args.len() != types.len() {
        r is Err && type_error(r->Err_0, n + " expects "@ + decimal(types.len()) + arity_text + decimal(args.len() as nat), line, column)
    } else {
        &&& labeled_args_rel(n, args, 0, types, labels, move_each, env, ctx, exs_at(t, 0), env_at(t, 0), deriv_at(t, 0))
        &&& match exs_at(t, 0) {
            Err(d) => r == Err::<Expr, Diagnostic>(d),
            Ok(xs) => {
                &&& env2 == (if move_each { env_at(t, 0) } else { moved_all(env_at(t, 0), xs, 0) })
                &&& r is Ok && call_shape(r->Ok_0, name, xs, result, line, column)
            },
        }
    }
}

/// Which call form a name selects: 1 `net_tcp_dial`, 2 `http_get`, 3 `process_status`,
/// 4 `Some`, 5 an async runtime intrinsic, 6 a map lookup, 7 a host intrinsic of
/// `table_intrinsic`, 8 `Ok`, 9 `Err`, 10 a host intrinsic of `multi_intrinsic`, 0 any
/// other name.
pub open spec fn call_kind(name: Seq<char>) -> int {
    if is_async_intrinsic(name) {
        5
    } else if is_map_lookup(name) {
        6
    } else if is_table_intrinsic(name) {
        7
    } else if multi_intrinsic(name) is Some {
        10
    } else if name == "net_tcp_dial"@ {
        1
    } else if name == "http_get"@ {
        2
    } else if name == "process_status"@ {
        3
    } else if name == "Some"@ {
        4
    } else if name == "Ok"@ {
        8
    } else if name == "Err"@ {
        9
    } else {
        0
    }
}

fn call_kind_of(name: &str) -> (k: u8)
    ensures
        k as int == call_kind(name@),
{
    if is_async_intrinsic_name(name) {
        5
    } else if is_map_lookup_name(name) {
        6
    } else if table_intrinsic_of(name).is_some() {
        7
    } else if multi_intrinsic_of(name).is_some() {
        10
    } else if crate::text::str_eq(name, "net_tcp_dial") {
        1
    } else if crate::text::str_eq(name, "http_get") {
        2
    } else if crate::text::str_eq(name, "process_status") {
        3
    } else if crate::text::str_eq(name, "Some") {
        4
    } else if crate::text::str_eq(name, "Ok") {
        8
    } else if crate::text::str_eq(name, "Err") {
        9
    } else {
        0
    }
}

/// How many arguments the async runtime operation `op` takes.
pub open spec fn async_arity(op: AsyncOp) -> nat {
    match op {
        AsyncOp::Channel => 0,
        AsyncOp::Timeout | AsyncOp::Send | AsyncOp::Select => 2,
        _ => 1,
    }
}

/// The type that argument `k` of the async runtime operation `op` must have, where `vt`
/// is the explicit type argument.
#[verifier::opaque]
pub open spec fn async_want(op: AsyncOp, vt: Type, k: int) -> Type {
    match op {
        AsyncOp::Ready => vt,
        AsyncOp::Join => Type::JoinHandle(Box::new(vt)),
        AsyncOp::Send => if k == 0 { Type::AsyncChannel(Box::new(vt)) } else { vt },
        AsyncOp::Recv => Type::AsyncChannel(Box::new(vt)),
        AsyncOp::Select => Type::Task(Box::new(Type::Option(Box::new(vt)))),
        AsyncOp::Selected | AsyncOp::SelectedValue => Type::SelectResult(Box::new(vt)),
        AsyncOp::Timeout => if k == 0 { Type::Task(Box::new(vt)) } else { Type::Int },
        _ => Type::Task(Box::new(vt)),
    }
}

/// The type of an async runtime operation `op` with explicit type argument `vt`.
#[verifier::opaque]
pub open spec fn async_result(op: AsyncOp, vt: Type) -> Type {
    match op {
        AsyncOp::Ready | AsyncOp::Cancel | AsyncOp::Join => Type::Task(Box::new(vt)),
        AsyncOp::Spawn => Type::JoinHandle(Box::new(vt)),
        AsyncOp::IsCanceled => Type::Bool,
        AsyncOp::Timeout | AsyncOp::Recv => Type::Task(Box::new(Type::Option(Box::new(vt)))),
        AsyncOp::Channel => Type::AsyncChannel(Box::new(vt)),
        AsyncOp::Send => Type::Task(Box::new(Type::AsyncChannel(Box::new(vt)))),
        AsyncOp::Select => Type::Task(Box::new(Type::SelectResult(Box::new(vt)))),
        AsyncOp::Selected => Type::Int,
        AsyncOp::SelectedValue => Type::Option(Box::new(vt)),
    }
}

/// The message for arguments of the two-argument operation `op`, called as `name`, that
/// do not have the types it takes.
#[verifier::opaque]
pub open spec fn async_pair_message(op: AsyncOp, name: Seq<char>, vt: Type) -> Seq<char> {
    match op {
        AsyncOp::Timeout => name + " expects "@ + type_text(Type::Task(Box::new(vt))) + " and int arguments"@,
        AsyncOp::Send => name + " expects "@ + type_text(Type::AsyncChannel(Box::new(vt))) + " and "@ + type_text(vt) + " arguments"@,
        _ => name + " expects two "@ + type_text(async_want(op, vt, 0)) + " arguments"@,
    }
}

/// `r` is the lowering of a call `name` of the async runtime operation `op` whose
/// explicit type argument lowered to `vt` (the first step of `t`): the arguments, each
/// lowered where the type the operation takes is expected and required to have it, then
/// moved (but for the duration of a timeout).
pub open spec fn async_rel(op: AsyncOp, name: String, args: Vec<syntax::Expr>, vt: Type, line: usize, column: usize, env: Seq<Binding>, ctx: LowerContext, r: Result<Expr, Diagnostic>, env2: Seq<Binding>, t: Derivation) -> bool
    decreases args, 1int,
{
    let n = name@;
    let arity = async_arity(op);
    let w0 = async_want(op, vt, 0);
    let w1 = async_want(op, vt, 1);
    if args.len() != arity {
        r is Err && type_error(r->Err_0, n + " expects "@ + decimal(arity) + " arguments, got "@ + decimal(args.len() as nat), line, column)
    } else if arity == 0 {
        env2 == env && r is Ok && call_shape(r->Ok_0, name, seq![], async_result(op, vt), line, column)
    } else {
        &&& arg_rel(args, 0, Some(w0), false, env, ctx, ex_at(t, 1), env_at(t, 1), deriv_at(t, 1))
        &&& match ex_at(t, 1) {
            Err(d) => r == Err::<Expr, Diagnostic>(d),
            Ok(a) => if arity == 1 {
                if !type_eq(expr_ty(a), w0) {
                    r is Err && type_error(r->Err_0, n + (if op is Ready { " expects value type "@ } else { " expects "@ }) + type_text(w0)
                        + ", got "@ + type_text(expr_ty(a)), expr_line(args[0]), expr_column(args[0]))
                } else {
                    &&& env2 == moved_after(env_at(t, 1), a)
                    &&& r is Ok && call_shape(r->Ok_0, name, seq![a], async_result(op, vt), line, column)
                }
            } else {
                &&& arg_rel(args, 1, Some(w1), false, env_at(t, 1), ctx, ex_at(t, 2), env_at(t, 2), deriv_at(t, 2))
                &&& match ex_at(t, 2) {
                    Err(d) => r == Err::<Expr, Diagnostic>(d),
                    Ok(b) => if !type_eq(expr_ty(a), w0) || !type_eq(expr_ty(b), w1) {
                        r is Err && type_error(r->Err_0, async_pair_message(op, n, vt), line, column)
                    } else {
                        let m = moved_after(env_at(t, 2), a);
                        &&& env2 == (if op is Timeout { m } else { moved_after(m, b) })
                        &&& r is Ok && call_shape(r->Ok_0, name, seq![a, b], async_result(op, vt), line, column)
                    },
                }
            },
        }
    }
}

/// `r` is a capability diagnostic for a call of `name` at `line`, `column` that needs
/// the capability `kind`.
pub open spec fn missing_capability(r: Result<Expr, Diagnostic>, name: Seq<char>, kind: CapabilityKind, line: usize, column: usize) -> bool {
    r is Err && capability_error(r->Err_0, call_requires(name, capability_requirement(kind)), line, column)
}

/// `r` is the lowering of the call `e`: the host-runtime intrinsics `net_tcp_dial`,
/// `http_get` and `process_status` (each gated by its capability and allowlists), a
/// declared function, `Some`, or an enum variant with payload.
pub open spec fn call_rel(e: syntax::Expr, expected: Option<Type>, env: Seq<Binding>, ctx: LowerContext, r: Result<Expr, Diagnostic>, env2: Seq<Binding>, t: Derivation) -> bool
    decreases e, 1int,
{
    match e {
        syntax::Expr::Call { name, type_args, args, line, column } => {
            let caps = *ctx.capabilities;
            let first = ex_at(t, 0);
            let firsts = exs_at(t, 0);
            let kind = call_kind(name@);
            if kind == 5 {
                if !capability_enabled(caps, CapabilityKind::Async) {
                    missing_capability(r, name@, CapabilityKind::Async, line, column)
                } else if type_args.len() != 1 {
                    r is Err && type_error(r->Err_0, name@ + " expects 1 explicit type argument, got "@ + decimal(type_args.len() as nat), line, column)
                } else {
                    &&& type_rel(type_args[0], *ctx.type_names, ctx.consts@, line, column, ty_at(t, 0), deriv_at(t, 0))
                    &&& match ty_at(t, 0) {
                        Err(d) => r == Err::<Expr, Diagnostic>(d),
                        Ok(vt) => async_rel(async_op(name@)->Some_0, name, args, vt, line, column, env, ctx, r, env2, t),
                    }
                }
            } else if kind == 10 {
                multi_call_rel(name, args, multi_intrinsic(name@)->Some_0, line, column, env, ctx, r, env2, t)
            } else if kind == 7 {
                table_call_rel(name, args, table_intrinsic(name@)->Some_0, line, column, env, ctx, r, env2, t)
            } else if kind == 6 {
                if type_args.len() != 0 && type_args.len() != 2 {
                    r is Err && type_error(r->Err_0, name@ + " expects 0 or 2 type arguments, got "@ + decimal(type_args.len() as nat), line, column)
                } else if args.len() != map_lookup_arity(name@) {
                    r is Err && type_error(r->Err_0, name@ + " expects "@ + decimal(map_lookup_arity(name@)) + " arguments, got "@ + decimal(args.len() as nat), line, column)
                } else {
                    &&& arg_rel(args, 0, None, false, env, ctx, first, env_at(t, 0), deriv_at(t, 0))
                    &&& match first {
                        Err(d) => r == Err::<Expr, Diagnostic>(d),
                        Ok(m) => match expr_ty(m) {
                            Type::MapOf(k, v) => map_lookup_rel(name, type_args, args, m, *k, *v, line, column, env_at(t, 0), ctx, r, env2, t),
                            _ => r is Err && type_error(r->Err_0, name@ + " expects a map value, got "@ + type_text(expr_ty(m)), expr_line(args[0]), expr_column(args[0])),
                        },
                    }
                }
            } else if kind == 1 {
                if !capability_enabled(caps, CapabilityKind::Net) {
                    missing_capability(r, name@, CapabilityKind::Net, line, column)
                } else if args.len() != 4 {
                    r is Err && type_error(r->Err_0, "net_tcp_dial expects 4 arguments, got "@ + decimal(args.len() as nat), line, column)
                } else {
                    &&& typed_args_rel("net_tcp_dial"@, args, 0, dial_arg_types(), env, ctx, firsts, env_at(t, 0), deriv_at(t, 0))
                    &&& match firsts {
                        Err(d) => r == Err::<Expr, Diagnostic>(d),
                        Ok(xs) => match host_violation(caps, name@, xs[0], net_peer_wrapper(ctx)) {
                            Some(m) => r is Err && capability_error(r->Err_0, m, line, column),
                            None => match port_violation(caps, name@, xs[1], net_peer_wrapper(ctx)) {
                                Some(m) => r is Err && capability_error(r->Err_0, m, line, column),
                                None => {
                                    &&& env2 == moved_after(moved_after(env_at(t, 0), xs[0]), xs[2])
                                    &&& r is Ok && call_shape(r->Ok_0, name, xs, Type::Option(Box::new(Type::String)), line, column)
                                },
                            },
                        },
                    }
                }
            } else if kind == 2 {
                if !capability_enabled(caps, CapabilityKind::Net) {
                    missing_capability(r, name@, CapabilityKind::Net, line, column)
                } else if args.len() != 1 {
                    r is Err && type_error(r->Err_0, "http_get expects 1 argument, got "@ + decimal(args.len() as nat), line, column)
                } else {
                    &&& arg_rel(args, 0, Some(Type::String), false, env, ctx, first, env_at(t, 0), deriv_at(t, 0))
                    &&& match first {
                        Err(d) => r == Err::<Expr, Diagnostic>(d),
                        Ok(u) => if !(expr_ty(u) is String) {
                            r is Err && type_error(r->Err_0, "http_get expects a string argument, got "@ + type_text(expr_ty(u)), expr_line(args[0]), expr_column(args[0]))
                        } else {
                            match http_get_violation(caps, name@, u, http_get_wrapper(ctx)) {
                                Some(m) => r is Err && capability_error(r->Err_0, m, line, column),
                                None => {
                                    &&& env2 == moved_after(env_at(t, 0), u)
                                    &&& r is Ok && call_shape(r->Ok_0, name, seq![u], Type::Option(Box::new(Type::String)), line, column)
                                },
                            }
                        },
                    }
                }
            } else if kind == 3 {
                if !capability_enabled(caps, CapabilityKind::Process) {
                    missing_capability(r, name@, CapabilityKind::Process, line, column)
                } else if args.len() != 1 {
                    r is Err && type_error(r->Err_0, "process_status expects 1 argument, got "@ + decimal(args.len() as nat), line, column)
                } else {
                    &&& arg_rel(args, 0, Some(Type::String), false, env, ctx, first, env_at(t, 0), deriv_at(t, 0))
                    &&& match first {
                        Err(d) => r == Err::<Expr, Diagnostic>(d),
                        Ok(c) => match process_violation(caps, ctx, c, process_wrapper(ctx)) {
                            Some(m) => r is Err && capability_error(r->Err_0, m, line, column),
                            None => if !(expr_ty(c) is String) {
                                r is Err && type_error(r->Err_0, "process_status expects a string argument, got "@ + type_text(expr_ty(c)), expr_line(args[0]), expr_column(args[0]))
                            } else {
                                &&& env2 == moved_after(env_at(t, 0), c)
                                &&& r is Ok && call_shape(r->Ok_0, name, seq![c], Type::Int, line, column)
                            },
                        },
                    }
                }
            } else {
                match signature_index(ctx.functions@, name@) {
                    Some(si) => {
                        let sig = ctx.functions@[si];
                        if sig.is_extern && !capability_enabled(caps, CapabilityKind::Ffi) {
                            missing_capability(r, name@, CapabilityKind::Ffi, line, column)
                        } else if args.len() != sig.params.len() {
                            r is Err && type_error(r->Err_0, "function "@ + debug_quoted(name@) + " expects "@ + decimal(sig.params.len() as nat)
                                + " arguments, got "@ + decimal(args.len() as nat), line, column)
                        } else {
                            &&& call_args_rel("function "@ + debug_quoted(name@) + " expects argument type "@, args, 0, sig.params@,
                                sig.borrow_return_params@, true, env, ctx, firsts, env_at(t, 0), deriv_at(t, 0))
                            &&& match firsts {
                                Err(d) => r == Err::<Expr, Diagnostic>(d),
                                Ok(xs) => match wrapper_check(caps, env_at(t, 0), name@, sig, xs) {
                                    Some(m) => r is Err && capability_error(r->Err_0, m, line, column),
                                    None => {
                                        &&& env2 == env_at(t, 0)
                                        &&& r is Ok
                                        &&& r->Ok_0 matches Expr::Call { name: n, args: a, ty, span }
                                        &&& n == name && a@ == xs && type_eq(ty, sig.return_ty) && span == point_span(line, column)
                                    },
                                },
                            }
                        }
                    },
                    None => if kind == 4 {
                        if args.len() != 1 {
                            r is Err && type_error(r->Err_0, "Option::Some expects 1 argument, got "@ + decimal(args.len() as nat), line, column)
                        } else {
                            let inner_expected = match expected {
                                Some(Type::Option(inner)) => Some(*inner),
                                _ => None,
                            };
                            &&& arg_rel(args, 0, inner_expected, false, env, ctx, first, env_at(t, 0), deriv_at(t, 0))
                            &&& match first {
                                Err(d) => r == Err::<Expr, Diagnostic>(d),
                                Ok(p) => if inner_expected is Some && !assignable(expr_ty(p), inner_expected->0) {
                                    r is Err && type_error(r->Err_0, "Option::Some expects payload type "@ + type_text(inner_expected->0) + ", got "@
                                        + type_text(expr_ty(p)), expr_line(args[0]), expr_column(args[0]))
                                } else {
                                    &&& env2 == (if copyable(expr_ty(p)) { env_at(t, 0) } else { moved_after(env_at(t, 0), p) })
                                    &&& r is Ok
                                    &&& r->Ok_0 matches Expr::EnumVariant { enum_name, variant, field_names, payloads, ty }
                                    &&& enum_name@ == "Option"@ && variant@ == "Some"@ && field_names@.len() == 0 && payloads@ == seq![p]
                                    &&& type_eq(ty, Type::Option(Box::new(expr_ty(p))))
                                },
                            }
                        }
                    } else if kind == 8 || kind == 9 {
                        result_ctor_rel(kind == 8, args, expected, line, column, env, ctx, r, env2, t)
                    } else {
                        match variant_resolution(ctx.enums@, name@, expected) {
                            Err(_) => r is Err && type_error(r->Err_0, ambiguous_variant_message(name@), line, column),
                            Ok(None) => r is Err && type_error(r->Err_0, "undefined function "@ + debug_quoted(name@), line, column),
                            Ok(Some((ei, vi))) => {
                                let owner = ctx.enums@[ei];
                                let v = owner.variants@[vi];
                                let quoted = debug_quoted(name@);
                                if v.payload_names@.len() > 0 {
                                    r is Err && type_error(r->Err_0, "enum variant "@ + quoted + " requires named payload fields"@, line, column)
                                } else if v.payload_tys@.len() == 0 {
                                    r is Err && type_error(r->Err_0, "enum variant "@ + quoted + " does not take arguments"@, line, column)
                                } else if args.len() != v.payload_tys.len() {
                                    r is Err && type_error(r->Err_0, "enum variant "@ + quoted + " expects "@ + decimal(v.payload_tys.len() as nat)
                                        + " arguments, got "@ + decimal(args.len() as nat), line, column)
                                } else {
                                    &&& call_args_rel("enum variant "@ + quoted + " expects payload type "@, args, 0, v.payload_tys@, Seq::empty(),
                                        false, env, ctx, firsts, env_at(t, 0), deriv_at(t, 0))
                                    &&& match firsts {
                                        Err(d) => r == Err::<Expr, Diagnostic>(d),
                                        Ok(xs) => {
                                            &&& env2 == env_at(t, 0)
                                            &&& r is Ok
                                            &&& r->Ok_0 matches Expr::EnumVariant { enum_name, variant, field_names, payloads, ty }
                                            &&& enum_name == owner.name && variant == name && field_names@.len() == 0 && payloads@ == xs
                                            &&& ty == Type::Enum(owner.name)
                                        },
                                    }
                                }
                            },
                        }
                    },
                }
            }
        },
        _ => false,
    }
}


// ---------------------------------------------------------------------------
// Lowering.

/// A recorded sub-lowering of an expression.
pub open spec fn ex_step(r: Result<Expr, Diagnostic>, env: Seq<Binding>, t: Derivation) -> Step {
    Step { out: Outcome::Ex(r), env, edges: seq![], sub: t }
}

/// A recorded sub-lowering of a list of expressions.
pub open spec fn exs_step(r: Result<Vec<Expr>, Diagnostic>, env: Seq<Binding>, t: Derivation) -> Step {
    Step { out: Outcome::Exs(seq_outcome(r)), env, edges: seq![], sub: t }
}

fn lower_var_ref(name: &String, line: usize, column: usize, expected: Option<&Type>, env: &Vec<Binding>, ctx: &LowerContext) -> (r: Result<Expr, Diagnostic>)
    ensures
        var_rel(*name, line, column, opt_ty(expected), env@, *ctx, r),
{
    match find_binding(env, name.as_str()) {
        Some(i) => {
            if env[i].moved {
                let m = quoted_message("use of moved value ", name.as_str(), "");
                proof { reveal_strlit(""); assert(m@ =~= "use of moved value "@ + debug_quoted(name@)); }
                return Err(ownership_error("use_after_move", m)
                    .with_help("consider restructuring to avoid the move, or ensure the value is only used once")
                    .with_span(line, column));
            }
            Ok(Expr::VarRef { name: name.clone(), ty: clone_type(&env[i].ty) })
        },
        None => {
            if crate::text::str_eq(name.as_str(), "None") {
                if let Some(Type::Option(inner)) = expected {
                    return Ok(Expr::EnumVariant {
                        enum_name: String::from_str("Option"),
                        variant: String::from_str("None"),
                        field_names: Vec::new(),
                        payloads: Vec::new(),
                        ty: Type::Option(Box::new(clone_type(inner))),
                    });
                }
                return Err(type_error_at(String::from_str("None requires an expected Option<T> context"), line, column));
            }
            match resolve_variant(ctx.enums, name.as_str(), expected, line, column) {
                Err(d) => Err(d),
                Ok(None) => {
                    let m = quoted_message("undefined variable ", name.as_str(), "");
                    proof { reveal_strlit(""); assert(m@ =~= "undefined variable "@ + debug_quoted(name@)); }
                    Err(type_error_at(m, line, column))
                },
                Ok(Some((ei, vi))) => {
                    let owner = &ctx.enums[ei];
                    let v = &owner.variants[vi];
                    if v.payload_tys.len() > 0 {
                        let m = quoted_message("enum variant ", name.as_str(), " requires ");
                        let mut m = m;
                        push_decimal(&mut m, v.payload_tys.len() as u64);
                        let m = concat(m, " arguments");
                        return Err(type_error_at(m, line, column));
                    }
                    Ok(Expr::EnumVariant {
                        enum_name: owner.name.clone(),
                        variant: name.clone(),
                        field_names: Vec::new(),
                        payloads: Vec::new(),
                        ty: Type::Enum(owner.name.clone()),
                    })
                },
            }
        },
    }
}

/// Lowers an expression where `expected` is expected, then coerces it to that type;
/// `allow` lets a temporary `String` be borrowed as `&str`.
pub fn lower_expr(e: &syntax::Expr, expected: Option<&Type>, allow: bool, env: &mut Vec<Binding>, ctx: &LowerContext) -> (out: (Result<Expr, Diagnostic>, Ghost<Derivation>))
    requires
        expr_spans_ok(*e),
        ctx_ok(*ctx),
    ensures
        env_frame(old(env)@, final(env)@),
        expr_rel(*e, opt_ty(expected), allow, old(env)@, *ctx, out.0, final(env)@, out.1@),
    decreases e, 3int,
{
    let (ri, Ghost(ti)) = lower_expr_inner(e, expected, env, ctx);
    let ghost t = Derivation::Node(seq![ex_step(ri, env@, ti)]);
    match ri {
        Err(d) => (Err(d), Ghost(t)),
        Ok(x) => (coerce_expr_to_expected(x, expected, allow), Ghost(t)),
    }
}

fn lower_expr_inner(e: &syntax::Expr, expected: Option<&Type>, env: &mut Vec<Binding>, ctx: &LowerContext) -> (out: (Result<Expr, Diagnostic>, Ghost<Derivation>))
    requires
        expr_spans_ok(*e),
        ctx_ok(*ctx),
    ensures
        env_frame(old(env)@, final(env)@),
        inner_rel(*e, opt_ty(expected), old(env)@, *ctx, out.0, final(env)@, out.1@),
    decreases e, 2int,
{
    match e {
        syntax::Expr::Literal(lit) => (Ok(lower_literal(lit, expected)), Ghost(Derivation::Leaf)),
        syntax::Expr::VarRef { name, line, column } => (lower_var_ref(name, *line, *column, expected, env, ctx), Ghost(Derivation::Leaf)),
        syntax::Expr::Call { .. } => lower_call(e, expected, env, ctx),
        syntax::Expr::BinaryAdd { .. } => lower_binary_add(e, env, ctx),
        syntax::Expr::BinaryCompare { .. } => lower_binary_compare(e, env, ctx),
        syntax::Expr::BinaryLogic { .. } => lower_binary_logic(e, env, ctx),
        syntax::Expr::Unary { .. } => lower_unary(e, env, ctx),
        syntax::Expr::TupleLiteral { .. } => lower_tuple_literal(e, expected, env, ctx),
        syntax::Expr::ArrayLiteral { .. } => lower_array_literal(e, expected, env, ctx),
        syntax::Expr::Cast { .. } => lower_cast(e, env, ctx),
    }
}

fn lower_unary(e: &syntax::Expr, env: &mut Vec<Binding>, ctx: &LowerContext) -> (out: (Result<Expr, Diagnostic>, Ghost<Derivation>))
    requires
        e is Unary,
        expr_spans_ok(*e),
        ctx_ok(*ctx),
    ensures
        env_frame(old(env)@, final(env)@),
        forall|expected: Option<Type>| inner_rel(*e, expected, old(env)@, *ctx, out.0, final(env)@, out.1@),
    decreases e, 1int,
{
    let (op, expr, line, column) = match e {
        syntax::Expr::Unary { op, expr, line, column } => (*op, expr, *line, *column),
        _ => { assert(false); return (Err(type_error_at(String::new(), 0, 0)), Ghost(Derivation::Leaf)); },
    };
    match op {
        syntax::UnaryOp::MutBorrow => {
            let name = match &**expr {
                syntax::Expr::VarRef { name, .. } => name,
                _ => {
                    let m = String::from_str("mutable local borrows currently require a named local target");
                    return (Err(type_error_at(m, line, column)), Ghost(Derivation::Leaf));
                },
            };
            match find_binding(env, name.as_str()) {
                None => {
                    let m = quoted_message("undefined variable ", name.as_str(), "");
                    proof { reveal_strlit(""); assert(m@ =~= "undefined variable "@ + debug_quoted(name@)); }
                    (Err(type_error_at(m, line, column)), Ghost(Derivation::Leaf))
                },
                Some(i) => {
                    if env[i].moved {
                        let m = quoted_message("use of moved value ", name.as_str(), "");
                        proof { reveal_strlit(""); assert(m@ =~= "use of moved value "@ + debug_quoted(name@)); }
                        return (Err(ownership_error("use_after_move", m)
                            .with_help("consider restructuring to avoid the move, or ensure the value is only used once")
                            .with_span(line, column)), Ghost(Derivation::Leaf));
                    }
                    let var = Expr::VarRef { name: name.clone(), ty: clone_type(&env[i].ty) };
                    let ty = Type::MutRef(Box::new(clone_type(&env[i].ty)));
                    (Ok(Expr::MutBorrow { expr: Box::new(var), ty }), Ghost(Derivation::Leaf))
                },
            }
        },
        syntax::UnaryOp::Deref => {
            let (rx, Ghost(tx)) = lower_expr(expr, None, false, env, ctx);
            let ghost t = Derivation::Node(seq![ex_step(rx, env@, tx)]);
            let x = match rx {
                Err(d) => return (Err(d), Ghost(t)),
                Ok(x) => x,
            };
            let inner = match x.ty() {
                Type::MutRef(inner) => clone_type(inner),
                _ => {
                    let m = got_message(String::from_str("dereference expects a mutable reference, got "), x.ty());
                    return (Err(type_error_at(m, line, column)), Ghost(t));
                },
            };
            (Ok(Expr::Deref { expr: Box::new(x), ty: inner }), Ghost(t))
        },
        syntax::UnaryOp::Await => {
            if let Err(d) = require_capability(ctx.capabilities, CapabilityKind::Async, "await", line, column) {
                return (Err(d), Ghost(Derivation::Leaf));
            }
            let (rx, Ghost(tx)) = lower_expr(expr, None, false, env, ctx);
            let ghost t = Derivation::Node(seq![ex_step(rx, env@, tx)]);
            let x = match rx {
                Err(d) => return (Err(d), Ghost(t)),
                Ok(x) => x,
            };
            let inner = match x.ty() {
                Type::Task(inner) => clone_type(inner),
                _ => {
                    let m = got_message(String::from_str("await expects a Task<T>, got "), x.ty());
                    return (Err(type_error_at(m, line, column)), Ghost(t));
                },
            };
            move_lowered_value(&x, env);
            (Ok(Expr::Await { expr: Box::new(x), ty: inner }), Ghost(t))
        },
    }
}

fn lower_elements(elements: &Vec<syntax::Expr>, i: usize, wants: Option<&Vec<Type>>, env: &mut Vec<Binding>, ctx: &LowerContext) -> (out: (Result<Vec<Expr>, Diagnostic>, Ghost<Derivation>))
    requires
        i <= elements.len(),
        args_spans_ok(*elements, i as int),
        ctx_ok(*ctx),
        wants is Some ==> wants->Some_0.len() == elements.len(),
    ensures
        env_frame(old(env)@, final(env)@),
        elements_rel(*elements, i as int, match wants { Some(w) => Some(w@), None => None }, old(env)@, *ctx, seq_outcome(out.0), final(env)@, out.1@),
        out.0 is Ok ==> out.0->Ok_0.len() == elements.len() - i,
    decreases elements, elements.len() - i,
{
    if i >= elements.len() {
        return (Ok(Vec::new()), Ghost(Derivation::Leaf));
    }
    proof { assert(decreases_to!(elements => elements[i as int])); }
    let want: Option<&Type> = match wants {
        Some(w) => Some(&w[i]),
        None => None,
    };
    let (rx, Ghost(tx)) = lower_expr(&elements[i], want, false, env, ctx);
    let ghost s0 = ex_step(rx, env@, tx);
    let x = match rx {
        Err(d) => return (Err(d), Ghost(Derivation::Node(seq![s0]))),
        Ok(x) => x,
    };
    if !x.ty().is_copy() {
        move_lowered_value(&x, env);
    }
    let (rs, Ghost(ts)) = lower_elements(elements, i + 1, wants, env, ctx);
    let ghost t = Derivation::Node(seq![s0, exs_step(rs, env@, ts)]);
    match rs {
        Err(d) => (Err(d), Ghost(t)),
        Ok(rest) => {
            let ghost rest_view = rest@;
            let mut v: Vec<Expr> = Vec::new();
            v.push(x);
            let mut rest = rest;
            v.append(&mut rest);
            proof { assert(v@ =~= seq![rx->Ok_0] + rest_view); }
            (Ok(v), Ghost(t))
        },
    }
}

fn lower_array_elements(elements: &Vec<syntax::Expr>, i: usize, want: Option<&Type>, lead: Option<&Type>, env: &mut Vec<Binding>, ctx: &LowerContext) -> (out: (Result<Vec<Expr>, Diagnostic>, Ghost<Derivation>))
    requires
        i <= elements.len(),
        args_spans_ok(*elements, i as int),
        ctx_ok(*ctx),
    ensures
        env_frame(old(env)@, final(env)@),
        array_elements_rel(*elements, i as int, opt_ty(want), opt_ty(lead), old(env)@, *ctx, seq_outcome(out.0), final(env)@, out.1@),
        out.0 is Ok ==> out.0->Ok_0.len() == elements.len() - i,
    decreases elements, elements.len() - i,
{
    if i >= elements.len() {
        return (Ok(Vec::new()), Ghost(Derivation::Leaf));
    }
    proof { assert(decreases_to!(elements => elements[i as int])); }
    let (rx, Ghost(tx)) = lower_expr(&elements[i], want, false, env, ctx);
    let ghost s0 = ex_step(rx, env@, tx);
    let x = match rx {
        Err(d) => return (Err(d), Ghost(Derivation::Node(seq![s0]))),
        Ok(x) => x,
    };
    if let Some(f) = lead {
        if !type_assignable_to(x.ty(), f) {
            let m = concat(got_message(String::from_str("array literal expects matching element types, got "), f), " and ");
            let m = got_message(m, x.ty());
            return (Err(type_error_at(m, elements[i].line(), elements[i].column())), Ghost(Derivation::Node(seq![s0])));
        }
    }
    if !x.ty().is_copy() {
        move_lowered_value(&x, env);
    }
    let (rs, Ghost(ts)) = match lead {
        Some(f) => lower_array_elements(elements, i + 1, want, Some(f), env, ctx),
        None => lower_array_elements(elements, i + 1, want, Some(x.ty()), env, ctx),
    };
    let ghost t = Derivation::Node(seq![s0, exs_step(rs, env@, ts)]);
    match rs {
        Err(d) => (Err(d), Ghost(t)),
        Ok(rest) => {
            let ghost rest_view = rest@;
            let mut v: Vec<Expr> = Vec::new();
            v.push(x);
            let mut rest = rest;
            v.append(&mut rest);
            proof { assert(v@ =~= seq![rx->Ok_0] + rest_view); }
            (Ok(v), Ghost(t))
        },
    }
}

fn lower_array_literal(e: &syntax::Expr, expected: Option<&Type>, env: &mut Vec<Binding>, ctx: &LowerContext) -> (out: (Result<Expr, Diagnostic>, Ghost<Derivation>))
    requires
        e is ArrayLiteral,
        expr_spans_ok(*e),
        ctx_ok(*ctx),
    ensures
        env_frame(old(env)@, final(env)@),
        inner_rel(*e, opt_ty(expected), old(env)@, *ctx, out.0, final(env)@, out.1@),
    decreases e, 1int,
{
    let (elements, line, column) = match e {
        syntax::Expr::ArrayLiteral { elements, line, column } => (elements, *line, *column),
        _ => { assert(false); return (Err(type_error_at(String::new(), 0, 0)), Ghost(Derivation::Leaf)); },
    };
    if elements.len() == 0 {
        let m = String::from_str("empty array literals are not yet supported in stage1");
        return (Err(type_error_at(m, line, column)), Ghost(Derivation::Leaf));
    }
    let want: Option<&Type> = match expected {
        Some(Type::Array(el, _)) => Some(&**el),
        _ => None,
    };
    let (rs, Ghost(ts)) = lower_array_elements(elements, 0, want, None, env, ctx);
    let ghost t = Derivation::Node(seq![exs_step(rs, env@, ts)]);
    let xs = match rs {
        Err(d) => return (Err(d), Ghost(t)),
        Ok(xs) => xs,
    };
    let el = clone_type(xs[0].ty());
    let n = elements.len();
    (Ok(Expr::ArrayLiteral { elements: xs, ty: Type::Array(Box::new(el), Some(n)) }), Ghost(t))
}

fn lower_tuple_literal(e: &syntax::Expr, expected: Option<&Type>, env: &mut Vec<Binding>, ctx: &LowerContext) -> (out: (Result<Expr, Diagnostic>, Ghost<Derivation>))
    requires
        e is TupleLiteral,
        expr_spans_ok(*e),
        ctx_ok(*ctx),
    ensures
        env_frame(old(env)@, final(env)@),
        inner_rel(*e, opt_ty(expected), old(env)@, *ctx, out.0, final(env)@, out.1@),
    decreases e, 1int,
{
    let (elements, line, column) = match e {
        syntax::Expr::TupleLiteral { elements, line, column } => (elements, *line, *column),
        _ => { assert(false); return (Err(type_error_at(String::new(), 0, 0)), Ghost(Derivation::Leaf)); },
    };
    let wants: Option<&Vec<Type>> = match expected {
        Some(Type::Tuple(ts)) => if ts.len() == elements.len() { Some(ts) } else { None },
        _ => None,
    };
    let (rs, Ghost(ts)) = lower_elements(elements, 0, wants, env, ctx);
    let ghost t = Derivation::Node(seq![exs_step(rs, env@, ts)]);
    let xs = match rs {
        Err(d) => return (Err(d), Ghost(t)),
        Ok(xs) => xs,
    };
    if xs.len() < 2 {
        let m = String::from_str("tuple literals require at least two elements");
        return (Err(type_error_at(m, line, column)), Ghost(t));
    }
    let mut tys: Vec<Type> = Vec::new();
    let mut k: usize = 0;
    while k < xs.len()
        invariant
            k <= xs.len(),
            tys.len() == k,
            forall|j: int| 0 <= j < k ==> type_eq(#[trigger] tys@[j], expr_ty(xs@[j])),
        decreases xs.len() - k,
    {
        tys.push(clone_type(xs[k].ty()));
        k = k + 1;
    }
    (Ok(Expr::TupleLiteral { elements: xs, ty: Type::Tuple(tys) }), Ghost(t))
}

fn lower_cast(e: &syntax::Expr, env: &mut Vec<Binding>, ctx: &LowerContext) -> (out: (Result<Expr, Diagnostic>, Ghost<Derivation>))
    requires
        e is Cast,
        expr_spans_ok(*e),
        ctx_ok(*ctx),
    ensures
        env_frame(old(env)@, final(env)@),
        forall|expected: Option<Type>| inner_rel(*e, expected, old(env)@, *ctx, out.0, final(env)@, out.1@),
    decreases e, 1int,
{
    let (expr, ty, line, column) = match e {
        syntax::Expr::Cast { expr, ty, line, column } => (expr, ty, *line, *column),
        _ => { assert(false); return (Err(type_error_at(String::new(), 0, 0)), Ghost(Derivation::Leaf)); },
    };
    let (rx, Ghost(tx)) = lower_expr(expr, None, false, env, ctx);
    let ghost s0 = ex_step(rx, env@, tx);
    let x = match rx {
        Err(d) => return (Err(d), Ghost(Derivation::Node(seq![s0]))),
        Ok(x) => x,
    };
    let (rt, Ghost(tt)) = lower_type(ty, ctx.type_names, ctx.consts, line, column);
    let ghost t = Derivation::Node(seq![s0, Step { out: Outcome::Ty(rt), env: seq![], edges: seq![], sub: tt }]);
    let target = match rt {
        Err(d) => return (Err(d), Ghost(t)),
        Ok(target) => target,
    };
    if !matches!(x.ty(), Type::Int | Type::Numeric(_)) || !matches!(target, Type::Int | Type::Numeric(_)) {
        let m = got_message(concat(got_message(String::from_str("cast expects numeric source and target types, got "), x.ty()), " as "), &target);
        return (Err(type_error_at(m, line, column)), Ghost(t));
    }
    if type_equals(x.ty(), &target) {
        return (Ok(x), Ghost(t));
    }
    (Ok(Expr::Cast { expr: Box::new(x), ty: target }), Ghost(t))
}

fn lower_binary_add(e: &syntax::Expr, env: &mut Vec<Binding>, ctx: &LowerContext) -> (out: (Result<Expr, Diagnostic>, Ghost<Derivation>))
    requires
        e is BinaryAdd,
        expr_spans_ok(*e),
        ctx_ok(*ctx),
    ensures
        env_frame(old(env)@, final(env)@),
        inner_rel(*e, None, old(env)@, *ctx, out.0, final(env)@, out.1@),
    decreases e, 1int,
{
    let (op, lhs, rhs, line, column) = match e {
        syntax::Expr::BinaryAdd { op, lhs, rhs, line, column } => (op, lhs, rhs, *line, *column),
        _ => { assert(false); return (Err(type_error_at(String::new(), 0, 0)), Ghost(Derivation::Leaf)); },
    };
    let (rl, Ghost(tl)) = lower_expr(lhs, None, false, env, ctx);
    let ghost s0 = ex_step(rl, env@, tl);
    let l = match rl {
        Err(d) => return (Err(d), Ghost(Derivation::Node(seq![s0]))),
        Ok(l) => l,
    };
    let (rr, Ghost(tr)) = lower_expr(rhs, None, false, env, ctx);
    let ghost t = Derivation::Node(seq![s0, ex_step(rr, env@, tr)]);
    let x = match rr {
        Err(d) => return (Err(d), Ghost(t)),
        Ok(x) => x,
    };
    let (aop, lexeme) = lower_arithmetic_op(*op);
    let numeric = type_equals(l.ty(), x.ty()) && crate::types::is_addable_numeric(l.ty());
    let strings = matches!(op, syntax::ArithmeticOp::Add) && crate::types::is_string_like_type(l.ty())
        && crate::types::is_string_like_type(x.ty());
    if numeric {
        let ty = match l.ty() {
            Type::Numeric(n) => Type::Numeric(*n),
            _ => Type::Int,
        };
        return (Ok(Expr::BinaryAdd { op: aop, lhs: Box::new(l), rhs: Box::new(x), ty }), Ghost(t));
    }
    if strings {
        return (Ok(Expr::BinaryAdd { op: ArithmeticOp::Add, lhs: Box::new(l), rhs: Box::new(x), ty: Type::String }), Ghost(t));
    }
    let prefix = concat(concat(concat(String::from_str("operator '"), lexeme), "' expects "), "matching numeric or string operands, got ");
    (Err(type_error_at(pair_message(prefix, l.ty(), x.ty()), line, column)), Ghost(t))
}

fn lower_binary_compare(e: &syntax::Expr, env: &mut Vec<Binding>, ctx: &LowerContext) -> (out: (Result<Expr, Diagnostic>, Ghost<Derivation>))
    requires
        e is BinaryCompare,
        expr_spans_ok(*e),
        ctx_ok(*ctx),
    ensures
        env_frame(old(env)@, final(env)@),
        inner_rel(*e, None, old(env)@, *ctx, out.0, final(env)@, out.1@),
    decreases e, 1int,
{
    let (op, lhs, rhs, line, column) = match e {
        syntax::Expr::BinaryCompare { op, lhs, rhs, line, column } => (op, lhs, rhs, *line, *column),
        _ => { assert(false); return (Err(type_error_at(String::new(), 0, 0)), Ghost(Derivation::Leaf)); },
    };
    let (rl, Ghost(tl)) = lower_expr(lhs, None, false, env, ctx);
    let ghost s0 = ex_step(rl, env@, tl);
    let l = match rl {
        Err(d) => return (Err(d), Ghost(Derivation::Node(seq![s0]))),
        Ok(l) => l,
    };
    let (rr, Ghost(tr)) = lower_expr(rhs, None, false, env, ctx);
    let ghost t = Derivation::Node(seq![s0, ex_step(rr, env@, tr)]);
    let x = match rr {
        Err(d) => return (Err(d), Ghost(t)),
        Ok(x) => x,
    };
    let cop = lower_compare_op(*op);
    let equality = matches!(op, syntax::CompareOp::Eq | syntax::CompareOp::Ne);
    let same = type_equals(l.ty(), x.ty());
    let mismatch = if equality {
        !same && !(crate::types::is_string_like_type(l.ty()) && crate::types::is_string_like_type(x.ty()))
    } else {
        !same || !crate::types::is_ordered_numeric(l.ty())
    };
    if mismatch {
        let prefix = concat(concat(String::from_str("operator '"), cop.lexeme()), "' expects ");
        let prefix = if equality {
            concat(prefix, "matching operand types, got ")
        } else {
            concat(prefix, "matching numeric operands, got ")
        };
        return (Err(type_error_at(pair_message(prefix, l.ty(), x.ty()), line, column)), Ghost(t));
    }
    (Ok(Expr::BinaryCompare { op: cop, lhs: Box::new(l), rhs: Box::new(x), ty: Type::Bool }), Ghost(t))
}

fn lower_binary_logic(e: &syntax::Expr, env: &mut Vec<Binding>, ctx: &LowerContext) -> (out: (Result<Expr, Diagnostic>, Ghost<Derivation>))
    requires
        e is BinaryLogic,
        expr_spans_ok(*e),
        ctx_ok(*ctx),
    ensures
        env_frame(old(env)@, final(env)@),
        inner_rel(*e, None, old(env)@, *ctx, out.0, final(env)@, out.1@),
    decreases e, 1int,
{
    let (op, lhs, rhs, line, column) = match e {
        syntax::Expr::BinaryLogic { op, lhs, rhs, line, column } => (op, lhs, rhs, *line, *column),
        _ => { assert(false); return (Err(type_error_at(String::new(), 0, 0)), Ghost(Derivation::Leaf)); },
    };
    let lop = lower_logic_op(*op);
    let prefix = concat(concat(concat(String::from_str("operator '"), lop.lexeme()), "' expects "), "bool operands, got ");
    let bool_ty = Type::Bool;
    let (rl, Ghost(tl)) = lower_expr(lhs, Some(&bool_ty), false, env, ctx);
    let ghost s0 = ex_step(rl, env@, tl);
    let l = match rl {
        Err(d) => return (Err(d), Ghost(Derivation::Node(seq![s0]))),
        Ok(l) => l,
    };
    if !matches!(l.ty(), Type::Bool) {
        return (Err(type_error_at(got_message(prefix, l.ty()), line, column)), Ghost(Derivation::Node(seq![s0])));
    }
    let (rr, Ghost(tr)) = lower_expr(rhs, Some(&bool_ty), false, env, ctx);
    let ghost t = Derivation::Node(seq![s0, ex_step(rr, env@, tr)]);
    let x = match rr {
        Err(d) => return (Err(d), Ghost(t)),
        Ok(x) => x,
    };
    if !matches!(x.ty(), Type::Bool) {
        return (Err(type_error_at(got_message(prefix, x.ty()), line, column)), Ghost(t));
    }
    (Ok(Expr::BinaryLogic { op: lop, lhs: Box::new(l), rhs: Box::new(x), ty: Type::Bool }), Ghost(t))
}


fn contains_index(v: &Vec<usize>, i: usize) -> (r: bool)
    ensures
        r == v@.contains(i),
{
    let mut k: usize = 0;
    while k < v.len()
        invariant
            k <= v.len(),
            forall|j: int| 0 <= j < k ==> v@[j] != i,
        decreases v.len() - k,
    {
        if v[k] == i {
            return true;
        }
        k = k + 1;
    }
    false
}

fn lower_arg(args: &Vec<syntax::Expr>, k: usize, expected: Option<&Type>, allow: bool, env: &mut Vec<Binding>, ctx: &LowerContext) -> (out: (Result<Expr, Diagnostic>, Ghost<Derivation>))
    requires
        k < args.len(),
        expr_spans_ok(args[k as int]),
        ctx_ok(*ctx),
    ensures
        env_frame(old(env)@, final(env)@),
        arg_rel(*args, k as int, opt_ty(expected), allow, old(env)@, *ctx, out.0, final(env)@, out.1@),
    decreases args, 0int,
{
    proof { assert(decreases_to!(args => args[k as int])); }
    lower_expr(&args[k], expected, allow, env, ctx)
}

fn lower_typed_args(fname: &str, args: &Vec<syntax::Expr>, i: usize, wants: &Vec<Type>, env: &mut Vec<Binding>, ctx: &LowerContext) -> (out: (Result<Vec<Expr>, Diagnostic>, Ghost<Derivation>))
    requires
        i <= args.len(),
        wants.len() == args.len(),
        args_spans_ok(*args, i as int),
        ctx_ok(*ctx),
    ensures
        env_frame(old(env)@, final(env)@),
        typed_args_rel(fname@, *args, i as int, wants@, old(env)@, *ctx, seq_outcome(out.0), final(env)@, out.1@),
        out.0 is Ok ==> out.0->Ok_0.len() == args.len() - i,
    decreases args, args.len() - i,
{
    if i >= args.len() {
        return (Ok(Vec::new()), Ghost(Derivation::Leaf));
    }
    proof { assert(decreases_to!(args => args[i as int])); }
    let (rx, Ghost(tx)) = lower_expr(&args[i], Some(&wants[i]), false, env, ctx);
    let ghost s0 = ex_step(rx, env@, tx);
    let x = match rx {
        Err(d) => return (Err(d), Ghost(Derivation::Node(seq![s0]))),
        Ok(x) => x,
    };
    if !type_equals(x.ty(), &wants[i]) {
        let mut m = concat(String::from_str(fname), " expects argument ");
        push_decimal(&mut m, (i + 1) as u64);
        let m = concat(got_message(concat(m, " type "), &wants[i]), ", got ");
        let m = got_message(m, x.ty());
        return (Err(type_error_at(m, args[i].line(), args[i].column())), Ghost(Derivation::Node(seq![s0])));
    }
    let (rs, Ghost(ts)) = lower_typed_args(fname, args, i + 1, wants, env, ctx);
    let ghost t = Derivation::Node(seq![s0, exs_step(rs, env@, ts)]);
    match rs {
        Err(d) => (Err(d), Ghost(t)),
        Ok(rest) => {
            let ghost rest_view = rest@;
            let mut v: Vec<Expr> = Vec::new();
            v.push(x);
            let mut rest = rest;
            v.append(&mut rest);
            proof { assert(v@ =~= seq![rx->Ok_0] + rest_view); }
            (Ok(v), Ghost(t))
        },
    }
}

fn lower_call_args(prefix: &String, args: &Vec<syntax::Expr>, i: usize, params: &Vec<Type>, borrow_params: &Vec<usize>, temp_ok: bool, env: &mut Vec<Binding>, ctx: &LowerContext) -> (out: (Result<Vec<Expr>, Diagnostic>, Ghost<Derivation>))
    requires
        i <= args.len(),
        params.len() == args.len(),
        args_spans_ok(*args, i as int),
        ctx_ok(*ctx),
    ensures
        env_frame(old(env)@, final(env)@),
        call_args_rel(prefix@, *args, i as int, params@, borrow_params@, temp_ok, old(env)@, *ctx, seq_outcome(out.0), final(env)@, out.1@),
        out.0 is Ok ==> out.0->Ok_0.len() == args.len() - i,
    decreases args, args.len() - i,
{
    if i >= args.len() {
        return (Ok(Vec::new()), Ghost(Derivation::Leaf));
    }
    proof { assert(decreases_to!(args => args[i as int])); }
    let allow = temp_ok && !contains_index(borrow_params, i);
    let (rx, Ghost(tx)) = lower_expr(&args[i], Some(&params[i]), allow, env, ctx);
    let ghost s0 = ex_step(rx, env@, tx);
    let x = match rx {
        Err(d) => return (Err(d), Ghost(Derivation::Node(seq![s0]))),
        Ok(x) => x,
    };
    if !type_assignable_to(x.ty(), &params[i]) {
        let m = concat(got_message(prefix.clone(), &params[i]), ", got ");
        let m = got_message(m, x.ty());
        return (Err(type_error_at(m, args[i].line(), args[i].column())), Ghost(Derivation::Node(seq![s0])));
    }
    if !params[i].is_copy() {
        move_lowered_value(&x, env);
    }
    let (rs, Ghost(ts)) = lower_call_args(prefix, args, i + 1, params, borrow_params, temp_ok, env, ctx);
    let ghost t = Derivation::Node(seq![s0, exs_step(rs, env@, ts)]);
    match rs {
        Err(d) => (Err(d), Ghost(t)),
        Ok(rest) => {
            let ghost rest_view = rest@;
            let mut v: Vec<Expr> = Vec::new();
            v.push(x);
            let mut rest = rest;
            v.append(&mut rest);
            proof { assert(v@ =~= seq![rx->Ok_0] + rest_view); }
            (Ok(v), Ghost(t))
        },
    }
}

/// `prefix` followed by `n` in decimal.
fn count_suffix(prefix: &str, n: usize) -> (s: String)
    ensures
        s@ == prefix@ + decimal(n as nat),
{
    let mut s = String::from_str(prefix);
    push_decimal(&mut s, n as u64);
    s
}

fn lower_call(e: &syntax::Expr, expected: Option<&Type>, env: &mut Vec<Binding>, ctx: &LowerContext) -> (out: (Result<Expr, Diagnostic>, Ghost<Derivation>))
    requires
        e is Call,
        expr_spans_ok(*e),
        ctx_ok(*ctx),
    ensures
        env_frame(old(env)@, final(env)@),
        call_rel(*e, opt_ty(expected), old(env)@, *ctx, out.0, final(env)@, out.1@),
    decreases e, 1int,
{
    let name = match e {
        syntax::Expr::Call { name, .. } => name,
        _ => { assert(false); return (Err(type_error_at(String::new(), 0, 0)), Ghost(Derivation::Leaf)); },
    };
    let kind = call_kind_of(name.as_str());
    if kind == 5 {
        return lower_async_runtime_intrinsic(e, env, ctx);
    }
    if kind == 6 {
        return lower_map_lookup_intrinsic(e, env, ctx);
    }
    if kind == 7 {
        return lower_table_intrinsic(e, env, ctx);
    }
    if kind == 10 {
        return lower_multi_intrinsic(e, env, ctx);
    }
    if kind == 1 {
        return lower_tcp_dial(e, env, ctx);
    }
    if kind == 2 {
        return lower_http_get(e, env, ctx);
    }
    if kind == 3 {
        return lower_process_status(e, env, ctx);
    }
    match find_signature(ctx.functions, name.as_str()) {
        Some(si) => lower_user_call(e, si, env, ctx),
        None => {
            if kind == 4 {
                lower_some(e, expected, env, ctx)
            } else if kind == 8 || kind == 9 {
                lower_result_ctor(e, expected, env, ctx)
            } else {
                lower_variant_call(e, expected, env, ctx)
            }
        },
    }
}

fn async_arity_of(op: AsyncOp) -> (k: usize)
    ensures
        k == async_arity(op),
{
    match op {
        AsyncOp::Channel => 0,
        AsyncOp::Timeout | AsyncOp::Send | AsyncOp::Select => 2,
        _ => 1,
    }
}

/// The type argument 0 of `op` must have, built around `vt`.
fn async_first_want(op: AsyncOp, vt: Type) -> (w: Type)
    ensures
        w == async_want(op, vt, 0),
{
    proof { reveal(async_want); }
    match op {
        AsyncOp::Ready => vt,
        AsyncOp::Join => Type::JoinHandle(Box::new(vt)),
        AsyncOp::Send | AsyncOp::Recv => Type::AsyncChannel(Box::new(vt)),
        AsyncOp::Select => Type::Task(Box::new(Type::Option(Box::new(vt)))),
        AsyncOp::Selected | AsyncOp::SelectedValue => Type::SelectResult(Box::new(vt)),
        _ => Type::Task(Box::new(vt)),
    }
}

/// The type of `op`, rebuilt from the type its first argument must have.
fn async_result_from(op: AsyncOp, w: Type, Ghost(vt): Ghost<Type>) -> (r: Type)
    requires
        !(op is Channel),
        w == async_want(op, vt, 0),
    ensures
        r == async_result(op, vt),
{
    proof { reveal(async_want); reveal(async_result); }
    match op {
        AsyncOp::Ready | AsyncOp::Send => Type::Task(Box::new(w)),
        AsyncOp::Cancel => w,
        AsyncOp::IsCanceled => Type::Bool,
        AsyncOp::Selected => Type::Int,
        _ => match w {
            Type::JoinHandle(b) => Type::Task(b),
            Type::AsyncChannel(b) => Type::Task(Box::new(Type::Option(b))),
            Type::SelectResult(b) => Type::Option(b),
            Type::Task(b) => match op {
                AsyncOp::Spawn => Type::JoinHandle(b),
                AsyncOp::Timeout => Type::Task(Box::new(Type::Option(b))),
                _ => match *b {
                    Type::Option(c) => Type::Task(Box::new(Type::SelectResult(c))),
                    other => other,
                },
            },
            other => other,
        },
    }
}

/// The type argument 1 of the two-argument operation `op` must have, read from the one
/// argument 0 must have.
fn async_second_want<'a>(op: AsyncOp, w0: &'a Type, int_ty: &'a Type, Ghost(vt): Ghost<Type>) -> (r: &'a Type)
    requires
        async_arity(op) == 2,
        *w0 == async_want(op, vt, 0),
        *int_ty == Type::Int,
    ensures
        *r == async_want(op, vt, 1),
{
    proof { reveal(async_want); }
    match op {
        AsyncOp::Timeout => int_ty,
        AsyncOp::Send => match w0 {
            Type::AsyncChannel(b) => b,
            _ => w0,
        },
        _ => w0,
    }
}

fn lower_async_runtime_intrinsic(e: &syntax::Expr, env: &mut Vec<Binding>, ctx: &LowerContext) -> (out: (Result<Expr, Diagnostic>, Ghost<Derivation>))
    requires
        e is Call && call_kind(e->Call_name@) == 5,
        expr_spans_ok(*e),
        ctx_ok(*ctx),
    ensures
        env_frame(old(env)@, final(env)@),
        forall|expected: Option<Type>| call_rel(*e, expected, old(env)@, *ctx, out.0, final(env)@, out.1@),
    decreases e, 0int,
{
    let (name, type_args, args, line, column) = match e {
        syntax::Expr::Call { name, type_args, args, line, column } => (name, type_args, args, *line, *column),
        _ => { assert(false); return (Err(type_error_at(String::new(), 0, 0)), Ghost(Derivation::Leaf)); },
    };
    let op = match async_op_of(name.as_str()) {
        Some(op) => op,
        None => { assert(false); return (Err(type_error_at(String::new(), 0, 0)), Ghost(Derivation::Leaf)); },
    };
    if let Err(d) = require_capability(ctx.capabilities, CapabilityKind::Async, name.as_str(), line, column) {
        return (Err(d), Ghost(Derivation::Leaf));
    }
    if type_args.len() != 1 {
        let m = count_suffix(concat(name.clone(), " expects 1 explicit type argument, got ").as_str(), type_args.len());
        return (Err(type_error_at(m, line, column)), Ghost(Derivation::Leaf));
    }
    let (rv, Ghost(tv)) = lower_type(&type_args[0], ctx.type_names, ctx.consts, line, column);
    let ghost s0 = Step { out: Outcome::Ty(rv), env: seq![], edges: seq![], sub: tv };
    match rv {
        Err(d) => (Err(d), Ghost(Derivation::Node(seq![s0]))),
        Ok(vt) => lower_async_args(op, name, args, vt, line, column, env, ctx, Ghost(s0)),
    }
}

/// Lowers the arguments of the async runtime operation `op` and builds the call; `s0`
/// is the recorded lowering of its type argument.
#[verifier::rlimit(40)]
fn lower_async_args(op: AsyncOp, name: &String, args: &Vec<syntax::Expr>, vt: Type, line: usize, column: usize, env: &mut Vec<Binding>, ctx: &LowerContext, Ghost(s0): Ghost<Step>) -> (out: (Result<Expr, Diagnostic>, Ghost<Derivation>))
    requires
        args_spans_ok(*args, 0),
        ctx_ok(*ctx),
        column < usize::MAX,
    ensures
        env_frame(old(env)@, final(env)@),
        step(out.1@, 0) == s0,
        async_rel(op, *name, *args, vt, line, column, old(env)@, *ctx, out.0, final(env)@, out.1@),
    decreases args, 2int,
{
    proof { assert(args_spans_ok(*args, 1)); }
    let arity = async_arity_of(op);
    if args.len() != arity {
        let m = count_message(concat(name.clone(), " expects "), arity, " arguments, got ", args.len());
        return (Err(type_error_at(m, line, column)), Ghost(Derivation::Node(seq![s0])));
    }
    let span = SourceSpan::point(line, column);
    if arity == 0 {
        let call_args: Vec<Expr> = Vec::new();
        proof { assert(call_args@ =~= seq![]); }
        proof { reveal(async_result); }
        return (Ok(Expr::Call { name: name.clone(), args: call_args, ty: Type::AsyncChannel(Box::new(vt)), span }), Ghost(Derivation::Node(seq![s0])));
    }
    let ghost gvt = vt;
    let w0 = async_first_want(op, vt);
    let (ra, Ghost(ta)) = lower_arg(args, 0, Some(&w0), false, env, ctx);
    let ghost s1 = ex_step(ra, env@, ta);
    let a = match ra {
        Err(d) => return (Err(d), Ghost(Derivation::Node(seq![s0, s1]))),
        Ok(a) => a,
    };
    if arity == 2 {
        return lower_async_second(op, name, args, a, w0, line, column, env, ctx, Ghost(gvt), Ghost(s0), Ghost(s1));
    }
    let ghost t = Derivation::Node(seq![s0, s1]);
    if !type_equals(a.ty(), &w0) {
        let pre = if op == AsyncOp::Ready { " expects value type " } else { " expects " };
        let m = got_message(concat(got_message(concat(name.clone(), pre), &w0), ", got "), a.ty());
        return (Err(type_error_at(m, args[0].line(), args[0].column())), Ghost(t));
    }
    move_lowered_value(&a, env);
    let ty = async_result_from(op, w0, Ghost(gvt));
    let ghost ga = a;
    let mut call_args: Vec<Expr> = Vec::new();
    call_args.push(a);
    proof { assert(call_args@ =~= seq![ga]); }
    (Ok(Expr::Call { name: name.clone(), args: call_args, ty, span }), Ghost(t))
}

/// Lowers the second argument of a two-argument async runtime operation, whose first
/// argument lowered to `a` (recorded as `s1`), checks both and builds the call.
#[verifier::rlimit(50)]
fn lower_async_second(op: AsyncOp, name: &String, args: &Vec<syntax::Expr>, a: Expr, w0: Type, line: usize, column: usize, env: &mut Vec<Binding>, ctx: &LowerContext, Ghost(vt): Ghost<Type>, Ghost(s0): Ghost<Step>, Ghost(s1): Ghost<Step>) -> (out: (Result<Expr, Diagnostic>, Ghost<Derivation>))
    requires
        args_spans_ok(*args, 0),
        ctx_ok(*ctx),
        column < usize::MAX,
        async_arity(op) == 2,
        args.len() == 2,
        w0 == async_want(op, vt, 0),
        s1.out == Outcome::Ex(Ok::<Expr, Diagnostic>(a)),
        s1.env == old(env)@,
    ensures
        env_frame(old(env)@, final(env)@),
        out.1@ == Derivation::Node(seq![s0, s1, step(out.1@, 2)]),
        ({
            let t = out.1@;
            &&& arg_rel(*args, 1, Some(async_want(op, vt, 1)), false, old(env)@, *ctx, ex_at(t, 2), env_at(t, 2), deriv_at(t, 2))
            &&& match ex_at(t, 2) {
                Err(d) => out.0 == Err::<Expr, Diagnostic>(d),
                Ok(b) => if !type_eq(expr_ty(a), w0) || !type_eq(expr_ty(b), async_want(op, vt, 1)) {
                    out.0 is Err && type_error(out.0->Err_0, async_pair_message(op, name@, vt), line, column)
                } else {
                    let m = moved_after(env_at(t, 2), a);
                    &&& final(env)@ == (if op is Timeout { m } else { moved_after(m, b) })
                    &&& out.0 is Ok && call_shape(out.0->Ok_0, *name, seq![a, b], async_result(op, vt), line, column)
                },
            }
        }),
    decreases args, 1int,
{
    proof { assert(args_spans_ok(*args, 1)); }
    let int_ty = Type::Int;
    let w1 = async_second_want(op, &w0, &int_ty, Ghost(vt));
    let (rb, Ghost(tb)) = lower_arg(args, 1, Some(w1), false, env, ctx);
    let ghost t = Derivation::Node(seq![s0, s1, ex_step(rb, env@, tb)]);
    let b = match rb {
        Err(d) => return (Err(d), Ghost(t)),
        Ok(b) => b,
    };
    if !type_equals(a.ty(), &w0) || !type_equals(b.ty(), w1) {
        let m = if op == AsyncOp::Timeout {
            concat(got_message(concat(name.clone(), " expects "), &w0), " and int arguments")
        } else if op == AsyncOp::Send {
            concat(got_message(concat(got_message(concat(name.clone(), " expects "), &w0), " and "), w1), " arguments")
        } else {
            concat(got_message(concat(name.clone(), " expects two "), &w0), " arguments")
        };
        proof { reveal(async_pair_message); reveal(async_want); }
        return (Err(type_error_at(m, line, column)), Ghost(t));
    }
    move_lowered_value(&a, env);
    if op != AsyncOp::Timeout {
        move_lowered_value(&b, env);
    }
    let ty = async_result_from(op, w0, Ghost(vt));
    let span = SourceSpan::point(line, column);
    let ghost (ga, gb) = (a, b);
    let mut call_args: Vec<Expr> = Vec::new();
    call_args.push(a);
    call_args.push(b);
    proof { assert(call_args@ =~= seq![ga, gb]); }
    (Ok(Expr::Call { name: name.clone(), args: call_args, ty, span }), Ghost(t))
}

fn map_lookup_arity_of(name: &str) -> (k: usize)
    ensures
        k == map_lookup_arity(name@),
{
    if crate::text::str_eq(name, "map_keys") || crate::text::str_eq(name, "keys") {
        1
    } else if crate::text::str_eq(name, "get_or_default") {
        3
    } else {
        2
    }
}

/// The type of the map lookup `name` in a map whose values have type `v`.
fn map_lookup_result_of(name: &str, v: &Type) -> (r: Type)
    ensures
        type_eq(r, map_lookup_result(name@, *v)),
{
    if crate::text::str_eq(name, "map_get") || crate::text::str_eq(name, "get") {
        Type::Option(Box::new(clone_type(v)))
    } else if crate::text::str_eq(name, "get_or_default") {
        clone_type(v)
    } else {
        Type::Bool
    }
}

fn lower_map_lookup_intrinsic(e: &syntax::Expr, env: &mut Vec<Binding>, ctx: &LowerContext) -> (out: (Result<Expr, Diagnostic>, Ghost<Derivation>))
    requires
        e is Call && call_kind(e->Call_name@) == 6,
        expr_spans_ok(*e),
        ctx_ok(*ctx),
    ensures
        env_frame(old(env)@, final(env)@),
        forall|expected: Option<Type>| call_rel(*e, expected, old(env)@, *ctx, out.0, final(env)@, out.1@),
    decreases e, 0int,
{
    let (name, type_args, args, line, column) = match e {
        syntax::Expr::Call { name, type_args, args, line, column } => (name, type_args, args, *line, *column),
        _ => { assert(false); return (Err(type_error_at(String::new(), 0, 0)), Ghost(Derivation::Leaf)); },
    };
    proof { assert(args_spans_ok(*args, 0)); }
    if type_args.len() != 0 && type_args.len() != 2 {
        let m = count_suffix(concat(name.clone(), " expects 0 or 2 type arguments, got ").as_str(), type_args.len());
        return (Err(type_error_at(m, line, column)), Ghost(Derivation::Leaf));
    }
    let arity = map_lookup_arity_of(name.as_str());
    if args.len() != arity {
        let m = count_message(concat(name.clone(), " expects "), arity, " arguments, got ", args.len());
        return (Err(type_error_at(m, line, column)), Ghost(Derivation::Leaf));
    }
    let (rm, Ghost(tm)) = lower_arg(args, 0, None, false, env, ctx);
    let ghost s0 = ex_step(rm, env@, tm);
    let m = match rm {
        Err(d) => return (Err(d), Ghost(Derivation::Node(seq![s0]))),
        Ok(m) => m,
    };
    if !matches!(m.ty(), Type::MapOf(_, _)) {
        let msg = got_message(concat(name.clone(), " expects a map value, got "), m.ty());
        return (Err(type_error_at(msg, args[0].line(), args[0].column())), Ghost(Derivation::Node(seq![s0])));
    }
    lower_map_lookup_rest(name, type_args, args, m, line, column, env, ctx, Ghost(s0))
}

/// Checks the explicit type arguments of the map lookup `name` on the lowered map `m`
/// against its key and value types, then lowers the rest; `s0` records the map.
fn lower_map_lookup_rest(name: &String, type_args: &Vec<syntax::TypeName>, args: &Vec<syntax::Expr>, m: Expr, line: usize, column: usize, env: &mut Vec<Binding>, ctx: &LowerContext, Ghost(s0): Ghost<Step>) -> (out: (Result<Expr, Diagnostic>, Ghost<Derivation>))
    requires
        expr_ty(m) is MapOf,
        args_spans_ok(*args, 0),
        ctx_ok(*ctx),
        column < usize::MAX,
        args.len() == map_lookup_arity(name@),
    ensures
        env_frame(old(env)@, final(env)@),
        step(out.1@, 0) == s0,
        match expr_ty(m) {
            Type::MapOf(k, v) => map_lookup_rel(*name, *type_args, *args, m, *k, *v, line, column, old(env)@, *ctx, out.0, final(env)@, out.1@),
            _ => true,
        },
    decreases args, 3int,
{
    let ghost mut s1: Step = s0;
    let ghost mut s2: Step = s0;
    if type_args.len() == 2 {
        let (rk, Ghost(tk)) = lower_type(&type_args[0], ctx.type_names, ctx.consts, line, column);
        proof { s1 = Step { out: Outcome::Ty(rk), env: seq![], edges: seq![], sub: tk }; }
        let ek = match rk {
            Err(d) => return (Err(d), Ghost(Derivation::Node(seq![s0, s1]))),
            Ok(x) => x,
        };
        let (rv, Ghost(tv)) = lower_type(&type_args[1], ctx.type_names, ctx.consts, line, column);
        proof { s2 = Step { out: Outcome::Ty(rv), env: seq![], edges: seq![], sub: tv }; }
        let ev = match rv {
            Err(d) => return (Err(d), Ghost(Derivation::Node(seq![s0, s1, s2]))),
            Ok(x) => x,
        };
        let agree = match m.ty() {
            Type::MapOf(k, v) => type_equals(&ek, k) && type_equals(&ev, v),
            _ => false,
        };
        if !agree {
            let msg = got_message(concat(got_message(concat(got_message(concat(name.clone(), " type arguments expect {"), &ek), ": "), &ev), "}, got "), m.ty());
            return (Err(type_error_at(msg, line, column)), Ghost(Derivation::Node(seq![s0, s1, s2])));
        }
    }
    let ghost pre = seq![s0, s1, s2];
    lower_map_args(name, args, m, line, column, env, ctx, Ghost(pre))
}

/// Lowers the key and, for `get_or_default`, the default of the map lookup `name` on the
/// lowered map `m`, and builds the call; `pre` records the earlier steps.
#[verifier::rlimit(50)]
fn lower_map_args(name: &String, args: &Vec<syntax::Expr>, m: Expr, line: usize, column: usize, env: &mut Vec<Binding>, ctx: &LowerContext, Ghost(pre): Ghost<Seq<Step>>) -> (out: (Result<Expr, Diagnostic>, Ghost<Derivation>))
    requires
        expr_ty(m) is MapOf,
        args_spans_ok(*args, 0),
        ctx_ok(*ctx),
        column < usize::MAX,
        args.len() == map_lookup_arity(name@),
        pre.len() == 3,
    ensures
        env_frame(old(env)@, final(env)@),
        forall|i: int| 0 <= i < 3 ==> step(out.1@, i) == pre[i],
        match expr_ty(m) {
            Type::MapOf(k, v) => map_args_rel(*name, *args, m, *k, *v, line, column, old(env)@, *ctx, out.0, final(env)@, out.1@),
            _ => true,
        },
    decreases args, 2int,
{
    proof { assert(args_spans_ok(*args, 1)); assert(args_spans_ok(*args, 2)); }
    let span = SourceSpan::point(line, column);
    let ghost env0 = env@;
    if crate::text::str_eq(name.as_str(), "map_keys") || crate::text::str_eq(name.as_str(), "keys") {
        let kt = match m.ty() {
            Type::MapOf(k, _) => clone_type(k),
            _ => Type::Error,
        };
        move_lowered_value(&m, env);
        let ghost gm = m;
        let mut call_args: Vec<Expr> = Vec::new();
        call_args.push(m);
        proof { assert(call_args@ =~= seq![gm]); }
        return (Ok(Expr::Call { name: name.clone(), args: call_args, ty: Type::Array(Box::new(kt), None), span }), Ghost(Derivation::Node(pre)));
    }
    let (rk, Ghost(tk)) = match m.ty() {
        Type::MapOf(k, _) => lower_arg(args, 1, Some(k), false, env, ctx),
        _ => { assert(false); return (Err(type_error_at(String::new(), 0, 0)), Ghost(Derivation::Leaf)); },
    };
    let ghost s3 = ex_step(rk, env@, tk);
    let key = match rk {
        Err(d) => return (Err(d), Ghost(Derivation::Node(pre.push(s3)))),
        Ok(x) => x,
    };
    let key_ok = match m.ty() {
        Type::MapOf(k, _) => type_equals(key.ty(), k),
        _ => false,
    };
    if !key_ok {
        let msg = match m.ty() {
            Type::MapOf(k, _) => got_message(concat(got_message(concat(name.clone(), " expects key type "), k), ", got "), key.ty()),
            _ => String::new(),
        };
        return (Err(type_error_at(msg, args[1].line(), args[1].column())), Ghost(Derivation::Node(pre.push(s3))));
    }
    if crate::text::str_eq(name.as_str(), "get_or_default") {
        let ghost pre4 = pre.push(s3);
        let out = lower_map_default(name, args, m, key, line, column, env, ctx, Ghost(pre4));
        proof {
            assert forall|i: int| 0 <= i < 3 implies step(out.1@, i) == pre[i] by {
                assert(step(out.1@, i) == pre4[i]);
            }
        }
        return out;
    }
    let ty = match m.ty() {
        Type::MapOf(_, v) => map_lookup_result_of(name.as_str(), v),
        _ => Type::Error,
    };
    move_lowered_value(&m, env);
    move_lowered_value(&key, env);
    let ghost (gm, gk) = (m, key);
    let mut call_args: Vec<Expr> = Vec::new();
    call_args.push(m);
    call_args.push(key);
    proof { assert(call_args@ =~= seq![gm, gk]); }
    (Ok(Expr::Call { name: name.clone(), args: call_args, ty, span }), Ghost(Derivation::Node(pre.push(s3))))
}

/// Lowers the default of `get_or_default` on the lowered map `m` with lowered key `key`,
/// and builds the call; `pre` records the earlier steps.
#[verifier::rlimit(50)]
fn lower_map_default(name: &String, args: &Vec<syntax::Expr>, m: Expr, key: Expr, line: usize, column: usize, env: &mut Vec<Binding>, ctx: &LowerContext, Ghost(pre): Ghost<Seq<Step>>) -> (out: (Result<Expr, Diagnostic>, Ghost<Derivation>))
    requires
        expr_ty(m) is MapOf,
        args_spans_ok(*args, 0),
        ctx_ok(*ctx),
        column < usize::MAX,
        args.len() == 3,
        pre.len() == 4,
    ensures
        env_frame(old(env)@, final(env)@),
        forall|i: int| 0 <= i < 4 ==> step(out.1@, i) == pre[i],
        match expr_ty(m) {
            Type::MapOf(_, v) => map_default_rel(*name, *args, m, key, *v, line, column, old(env)@, *ctx, out.0, final(env)@, out.1@),
            _ => true,
        },
    decreases args, 1int,
{
    proof { assert(args_spans_ok(*args, 1)); assert(args_spans_ok(*args, 2)); }
    let span = SourceSpan::point(line, column);
    let (rd, Ghost(td)) = match m.ty() {
        Type::MapOf(_, v) => lower_arg(args, 2, Some(v), false, env, ctx),
        _ => { assert(false); return (Err(type_error_at(String::new(), 0, 0)), Ghost(Derivation::Leaf)); },
    };
    let ghost t = Derivation::Node(pre.push(ex_step(rd, env@, td)));
    let dv = match rd {
        Err(d) => return (Err(d), Ghost(t)),
        Ok(x) => x,
    };
    let (default_ok, vt) = match m.ty() {
        Type::MapOf(_, v) => (type_equals(dv.ty(), v), clone_type(v)),
        _ => (false, Type::Error),
    };
    if !default_ok {
        let msg = match m.ty() {
            Type::MapOf(_, v) => got_message(concat(got_message(concat(name.clone(), " expects default type "), v), ", got "), dv.ty()),
            _ => String::new(),
        };
        return (Err(type_error_at(msg, args[2].line(), args[2].column())), Ghost(t));
    }
    move_lowered_value(&dv, env);
    move_lowered_value(&m, env);
    move_lowered_value(&key, env);
    let ghost (gm, gk, gd) = (m, key, dv);
    let mut call_args: Vec<Expr> = Vec::new();
    call_args.push(m);
    call_args.push(key);
    call_args.push(dv);
    proof { assert(call_args@ =~= seq![gm, gk, gd]); }
    (Ok(Expr::Call { name: name.clone(), args: call_args, ty: vt, span }), Ghost(t))
}

fn lower_labeled_args(name: &str, args: &Vec<syntax::Expr>, i: usize, types: &Vec<Type>, labels: &Vec<&'static str>, move_each: bool, env: &mut Vec<Binding>, ctx: &LowerContext) -> (out: (Result<Vec<Expr>, Diagnostic>, Ghost<Derivation>))
    requires
        i <= args.len(),
        types.len() == args.len(),
        labels.len() == args.len(),
        args_spans_ok(*args, i as int),
        ctx_ok(*ctx),
    ensures
        env_frame(old(env)@, final(env)@),
        labeled_args_rel(name@, *args, i as int, types@, labels@.map_values(|l: &'static str| l@), move_each, old(env)@, *ctx, seq_outcome(out.0), final(env)@, out.1@),
        out.0 is Ok ==> out.0->Ok_0.len() == args.len() - i,
    decreases args, args.len() - i,
{
    if i >= args.len() {
        return (Ok(Vec::new()), Ghost(Derivation::Leaf));
    }
    proof { assert(decreases_to!(args => args[i as int])); }
    let (rx, Ghost(tx)) = lower_expr(&args[i], Some(&types[i]), false, env, ctx);
    let ghost s0 = ex_step(rx, env@, tx);
    let x = match rx {
        Err(d) => return (Err(d), Ghost(Derivation::Node(seq![s0]))),
        Ok(x) => x,
    };
    if !type_equals(x.ty(), &types[i]) {
        let m = got_message(concat(concat(concat(String::from_str(name), " expects "), labels[i]), ", got "), x.ty());
        return (Err(type_error_at(m, args[i].line(), args[i].column())), Ghost(Derivation::Node(seq![s0])));
    }
    if move_each {
        move_lowered_value(&x, env);
    }
    let (rs, Ghost(ts)) = lower_labeled_args(name, args, i + 1, types, labels, move_each, env, ctx);
    let ghost t = Derivation::Node(seq![s0, exs_step(rs, env@, ts)]);
    match rs {
        Err(d) => (Err(d), Ghost(t)),
        Ok(rest) => {
            let ghost rest_view = rest@;
            let mut v: Vec<Expr> = Vec::new();
            v.push(x);
            let mut rest = rest;
            v.append(&mut rest);
            proof { assert(v@ =~= seq![rx->Ok_0] + rest_view); }
            (Ok(v), Ghost(t))
        },
    }
}

/// Moves the lowered values `xs`, in order.
fn move_all(xs: &Vec<Expr>, env: &mut Vec<Binding>)
    ensures
        final(env)@ == moved_all(old(env)@, xs@, 0),
        env_frame(old(env)@, final(env)@),
{
    let mut k: usize = 0;
    while k < xs.len()
        invariant
            k <= xs.len(),
            moved_all(env@, xs@, k as int) == moved_all(old(env)@, xs@, 0),
            env_frame(old(env)@, env@),
        decreases xs.len() - k,
    {
        move_lowered_value(&xs[k], env);
        k = k + 1;
    }
}

#[verifier::rlimit(50)]
fn lower_multi_intrinsic(e: &syntax::Expr, env: &mut Vec<Binding>, ctx: &LowerContext) -> (out: (Result<Expr, Diagnostic>, Ghost<Derivation>))
    requires
        e is Call && call_kind(e->Call_name@) == 10,
        expr_spans_ok(*e),
        ctx_ok(*ctx),
    ensures
        env_frame(old(env)@, final(env)@),
        multi_call_rel(e->Call_name, e->Call_args, multi_intrinsic(e->Call_name@)->Some_0, e->Call_line, e->Call_column, old(env)@, *ctx, out.0, final(env)@, out.1@),
    decreases e, 0int,
{
    let (name, args, line, column) = match e {
        syntax::Expr::Call { name, args, line, column, .. } => (name, args, *line, *column),
        _ => { assert(false); return (Err(type_error_at(String::new(), 0, 0)), Ghost(Derivation::Leaf)); },
    };
    let (cap, types, labels, arity_text, move_each, result) = match multi_intrinsic_of(name.as_str()) {
        Some(sig) => sig,
        None => { assert(false); return (Err(type_error_at(String::new(), 0, 0)), Ghost(Derivation::Leaf)); },
    };
    proof {
        assert(labels@.map_values(|l: &'static str| l@) =~= multi_intrinsic(name@)->Some_0.2);
    }
    if let Some(kind) = cap {
        if let Err(d) = require_capability(ctx.capabilities, kind, name.as_str(), line, column) {
            return (Err(d), Ghost(Derivation::Leaf));
        }
    }
    if args.len() != types.len() {
        let m = concat(count_suffix(concat(name.clone(), " expects ").as_str(), types.len()), arity_text);
        let m = count_suffix(m.as_str(), args.len());
        return (Err(type_error_at(m, line, column)), Ghost(Derivation::Leaf));
    }
    let (rs, Ghost(ts)) = lower_labeled_args(name.as_str(), args, 0, &types, &labels, move_each, env, ctx);
    let ghost t = Derivation::Node(seq![exs_step(rs, env@, ts)]);
    let xs = match rs {
        Err(d) => return (Err(d), Ghost(t)),
        Ok(xs) => xs,
    };
    if !move_each {
        move_all(&xs, env);
    }
    (Ok(Expr::Call { name: name.clone(), args: xs, ty: result, span: SourceSpan::point(line, column) }), Ghost(t))
}

#[verifier::rlimit(50)]
fn lower_table_intrinsic(e: &syntax::Expr, env: &mut Vec<Binding>, ctx: &LowerContext) -> (out: (Result<Expr, Diagnostic>, Ghost<Derivation>))
    requires
        e is Call && call_kind(e->Call_name@) == 7,
        expr_spans_ok(*e),
        ctx_ok(*ctx),
    ensures
        env_frame(old(env)@, final(env)@),
        table_call_rel(e->Call_name, e->Call_args, table_intrinsic(e->Call_name@)->Some_0, e->Call_line, e->Call_column, old(env)@, *ctx, out.0, final(env)@, out.1@),
    decreases e, 0int,
{
    let (name, args, line, column) = match e {
        syntax::Expr::Call { name, args, line, column, .. } => (name, args, *line, *column),
        _ => { assert(false); return (Err(type_error_at(String::new(), 0, 0)), Ghost(Derivation::Leaf)); },
    };
    proof { assert(args_spans_ok(*args, 0)); }
    let (cap, param, result) = match table_intrinsic_of(name.as_str()) {
        Some(sig) => sig,
        None => { assert(false); return (Err(type_error_at(String::new(), 0, 0)), Ghost(Derivation::Leaf)); },
    };
    if let Some(kind) = cap {
        if let Err(d) = require_capability(ctx.capabilities, kind, name.as_str(), line, column) {
            return (Err(d), Ghost(Derivation::Leaf));
        }
    }
    let span = SourceSpan::point(line, column);
    match param {
        None => {
            if args.len() != 0 {
                let m = count_suffix(concat(name.clone(), " expects 0 arguments, got ").as_str(), args.len());
                return (Err(type_error_at(m, line, column)), Ghost(Derivation::Leaf));
            }
            let call_args: Vec<Expr> = Vec::new();
            proof { assert(call_args@ =~= seq![]); }
            (Ok(Expr::Call { name: name.clone(), args: call_args, ty: result, span }), Ghost(Derivation::Leaf))
        },
        Some((pt, label)) => {
            if args.len() != 1 {
                let m = count_suffix(concat(name.clone(), " expects 1 argument, got ").as_str(), args.len());
                return (Err(type_error_at(m, line, column)), Ghost(Derivation::Leaf));
            }
            let (rx, Ghost(tx)) = lower_arg(args, 0, Some(&pt), false, env, ctx);
            let ghost t = Derivation::Node(seq![ex_step(rx, env@, tx)]);
            let x = match rx {
                Err(d) => return (Err(d), Ghost(t)),
                Ok(x) => x,
            };
            if !type_equals(x.ty(), &pt) {
                let m = got_message(concat(concat(concat(name.clone(), " expects "), label), ", got "), x.ty());
                return (Err(type_error_at(m, args[0].line(), args[0].column())), Ghost(t));
            }
            move_lowered_value(&x, env);
            let ghost gx = x;
            let mut call_args: Vec<Expr> = Vec::new();
            call_args.push(x);
            proof { assert(call_args@ =~= seq![gx]); }
            (Ok(Expr::Call { name: name.clone(), args: call_args, ty: result, span }), Ghost(t))
        },
    }
}

#[verifier::rlimit(50)]
fn lower_tcp_dial(e: &syntax::Expr, env: &mut Vec<Binding>, ctx: &LowerContext) -> (out: (Result<Expr, Diagnostic>, Ghost<Derivation>))
    requires
        e is Call && call_kind(e->Call_name@) == 1,
        expr_spans_ok(*e),
        ctx_ok(*ctx),
    ensures
        env_frame(old(env)@, final(env)@),
        forall|expected: Option<Type>| call_rel(*e, expected, old(env)@, *ctx, out.0, final(env)@, out.1@),
    decreases e, 0int,
{
    let (name, args, line, column) = match e {
        syntax::Expr::Call { name, args, line, column, .. } => (name, args, *line, *column),
        _ => { assert(false); return (Err(type_error_at(String::new(), 0, 0)), Ghost(Derivation::Leaf)); },
    };
    if let Err(d) = require_capability(ctx.capabilities, CapabilityKind::Net, name.as_str(), line, column) {
        return (Err(d), Ghost(Derivation::Leaf));
    }
    if args.len() != 4 {
        let m = count_suffix("net_tcp_dial expects 4 arguments, got ", args.len());
        return (Err(type_error_at(m, line, column)), Ghost(Derivation::Leaf));
    }
    let wants: Vec<Type> = vec![Type::String, Type::Int, Type::String, Type::Int];
    proof { assert(wants@ =~= dial_arg_types()); }
    let (rs, Ghost(ts)) = lower_typed_args("net_tcp_dial", args, 0, &wants, env, ctx);
    let ghost t = Derivation::Node(seq![exs_step(rs, env@, ts)]);
    let xs = match rs {
        Err(d) => return (Err(d), Ghost(t)),
        Ok(xs) => xs,
    };
    let host_ok = stdlib_dynamic_net_peer_host_allowed(ctx.capabilities, ctx);
    if let Err(d) = validate_net_host_allowlist_hir(ctx.capabilities, name.as_str(), &xs[0], line, column, host_ok) {
        return (Err(d), Ghost(t));
    }
    let port_ok = stdlib_dynamic_net_peer_port_allowed(ctx.capabilities, ctx);
    if let Err(d) = validate_net_port_allowlist_hir(ctx.capabilities, name.as_str(), &xs[1], line, column, port_ok) {
        return (Err(d), Ghost(t));
    }
    move_lowered_value(&xs[0], env);
    move_lowered_value(&xs[2], env);
    (Ok(Expr::Call { name: name.clone(), args: xs, ty: Type::Option(Box::new(Type::String)), span: SourceSpan::point(line, column) }), Ghost(t))
}

#[verifier::rlimit(50)]
fn lower_http_get(e: &syntax::Expr, env: &mut Vec<Binding>, ctx: &LowerContext) -> (out: (Result<Expr, Diagnostic>, Ghost<Derivation>))
    requires
        e is Call && call_kind(e->Call_name@) == 2,
        expr_spans_ok(*e),
        ctx_ok(*ctx),
    ensures
        env_frame(old(env)@, final(env)@),
        forall|expected: Option<Type>| call_rel(*e, expected, old(env)@, *ctx, out.0, final(env)@, out.1@),
    decreases e, 0int,
{
    let (name, args, line, column) = match e {
        syntax::Expr::Call { name, args, line, column, .. } => (name, args, *line, *column),
        _ => { assert(false); return (Err(type_error_at(String::new(), 0, 0)), Ghost(Derivation::Leaf)); },
    };
    proof { assert(args_spans_ok(*args, 0)); }
    if let Err(d) = require_capability(ctx.capabilities, CapabilityKind::Net, name.as_str(), line, column) {
        return (Err(d), Ghost(Derivation::Leaf));
    }
    if args.len() != 1 {
        let m = count_suffix("http_get expects 1 argument, got ", args.len());
        return (Err(type_error_at(m, line, column)), Ghost(Derivation::Leaf));
    }
    let string_ty = Type::String;
    let (ru, Ghost(tu)) = lower_arg(args, 0, Some(&string_ty), false, env, ctx);
    let ghost t = Derivation::Node(seq![ex_step(ru, env@, tu)]);
    let u = match ru {
        Err(d) => return (Err(d), Ghost(t)),
        Ok(u) => u,
    };
    if !matches!(u.ty(), Type::String) {
        let m = got_message(String::from_str("http_get expects a string argument, got "), u.ty());
        return (Err(type_error_at(m, args[0].line(), args[0].column())), Ghost(t));
    }
    let wrapper = is_stdlib_http_get_wrapper(ctx);
    if let Err(d) = validate_http_get_net_allowlist_hir(ctx.capabilities, name.as_str(), &u, line, column, wrapper) {
        return (Err(d), Ghost(t));
    }
    move_lowered_value(&u, env);
    let ghost gu = u;
    let mut call_args: Vec<Expr> = Vec::new();
    call_args.push(u);
    proof { assert(call_args@ =~= seq![gu]); }
    (Ok(Expr::Call { name: name.clone(), args: call_args, ty: Type::Option(Box::new(Type::String)), span: SourceSpan::point(line, column) }), Ghost(t))
}

#[verifier::rlimit(50)]
fn lower_process_status(e: &syntax::Expr, env: &mut Vec<Binding>, ctx: &LowerContext) -> (out: (Result<Expr, Diagnostic>, Ghost<Derivation>))
    requires
        e is Call && call_kind(e->Call_name@) == 3,
        expr_spans_ok(*e),
        ctx_ok(*ctx),
    ensures
        env_frame(old(env)@, final(env)@),
        forall|expected: Option<Type>| call_rel(*e, expected, old(env)@, *ctx, out.0, final(env)@, out.1@),
    decreases e, 0int,
{
    let (name, args, line, column) = match e {
        syntax::Expr::Call { name, args, line, column, .. } => (name, args, *line, *column),
        _ => { assert(false); return (Err(type_error_at(String::new(), 0, 0)), Ghost(Derivation::Leaf)); },
    };
    proof { assert(args_spans_ok(*args, 0)); }
    if let Err(d) = require_capability(ctx.capabilities, CapabilityKind::Process, name.as_str(), line, column) {
        return (Err(d), Ghost(Derivation::Leaf));
    }
    if args.len() != 1 {
        let m = count_suffix("process_status expects 1 argument, got ", args.len());
        return (Err(type_error_at(m, line, column)), Ghost(Derivation::Leaf));
    }
    let string_ty = Type::String;
    let (rc, Ghost(tc)) = lower_arg(args, 0, Some(&string_ty), false, env, ctx);
    let ghost t = Derivation::Node(seq![ex_step(rc, env@, tc)]);
    let c = match rc {
        Err(d) => return (Err(d), Ghost(t)),
        Ok(c) => c,
    };
    let wrapper = is_stdlib_process_wrapper(ctx);
    if let Err(d) = validate_process_command_allowlist_hir(ctx.capabilities, ctx, &c, line, column, wrapper) {
        return (Err(d), Ghost(t));
    }
    if !matches!(c.ty(), Type::String) {
        let m = got_message(String::from_str("process_status expects a string argument, got "), c.ty());
        return (Err(type_error_at(m, args[0].line(), args[0].column())), Ghost(t));
    }
    move_lowered_value(&c, env);
    let ghost gc = c;
    let mut call_args: Vec<Expr> = Vec::new();
    call_args.push(c);
    proof { assert(call_args@ =~= seq![gc]); }
    (Ok(Expr::Call { name: name.clone(), args: call_args, ty: Type::Int, span: SourceSpan::point(line, column) }), Ghost(t))
}

fn lower_user_call(e: &syntax::Expr, si: usize, env: &mut Vec<Binding>, ctx: &LowerContext) -> (out: (Result<Expr, Diagnostic>, Ghost<Derivation>))
    requires
        e is Call,
        call_kind(e->Call_name@) != 1 && call_kind(e->Call_name@) != 2 && call_kind(e->Call_name@) != 3,
        call_kind(e->Call_name@) != 5 && call_kind(e->Call_name@) != 6 && call_kind(e->Call_name@) != 7,
        call_kind(e->Call_name@) != 10,
        signature_index(ctx.functions@, e->Call_name@) == Some(si as int),
        si < ctx.functions.len(),
        expr_spans_ok(*e),
        ctx_ok(*ctx),
    ensures
        env_frame(old(env)@, final(env)@),
        forall|expected: Option<Type>| call_rel(*e, expected, old(env)@, *ctx, out.0, final(env)@, out.1@),
    decreases e, 0int,
{
    let (name, args, line, column) = match e {
        syntax::Expr::Call { name, args, line, column, .. } => (name, args, *line, *column),
        _ => { assert(false); return (Err(type_error_at(String::new(), 0, 0)), Ghost(Derivation::Leaf)); },
    };
    let sig = &ctx.functions[si];
    if sig.is_extern {
        if let Err(d) = require_capability(ctx.capabilities, CapabilityKind::Ffi, name.as_str(), line, column) {
            return (Err(d), Ghost(Derivation::Leaf));
        }
    }
    if args.len() != sig.params.len() {
        let m = count_message(quoted_message("function ", name.as_str(), " expects "), sig.params.len(), " arguments, got ", args.len());
        return (Err(type_error_at(m, line, column)), Ghost(Derivation::Leaf));
    }
    let prefix = quoted_message("function ", name.as_str(), " expects argument type ");
    let (rs, Ghost(ts)) = lower_call_args(&prefix, args, 0, &sig.params, &sig.borrow_return_params, true, env, ctx);
    let ghost t = Derivation::Node(seq![exs_step(rs, env@, ts)]);
    let xs = match rs {
        Err(d) => return (Err(d), Ghost(t)),
        Ok(xs) => xs,
    };
    if xs.len() >= crate::capabilities::wrapper_arity(sig) {
        if let Err(d) = validate_stdlib_network_wrapper_call_hir(ctx, ctx.capabilities, env, name.as_str(), sig, &xs, line, column) {
            return (Err(d), Ghost(t));
        }
    }
    (Ok(Expr::Call { name: name.clone(), args: xs, ty: clone_type(&sig.return_ty), span: SourceSpan::point(line, column) }), Ghost(t))
}

fn lower_some(e: &syntax::Expr, expected: Option<&Type>, env: &mut Vec<Binding>, ctx: &LowerContext) -> (out: (Result<Expr, Diagnostic>, Ghost<Derivation>))
    requires
        e is Call && call_kind(e->Call_name@) == 4,
        signature_index(ctx.functions@, e->Call_name@) is None,
        expr_spans_ok(*e),
        ctx_ok(*ctx),
    ensures
        env_frame(old(env)@, final(env)@),
        call_rel(*e, opt_ty(expected), old(env)@, *ctx, out.0, final(env)@, out.1@),
    decreases e, 0int,
{
    let (args, line, column) = match e {
        syntax::Expr::Call { args, line, column, .. } => (args, *line, *column),
        _ => { assert(false); return (Err(type_error_at(String::new(), 0, 0)), Ghost(Derivation::Leaf)); },
    };
    proof { assert(args_spans_ok(*args, 0)); }
    if args.len() != 1 {
        let m = count_suffix("Option::Some expects 1 argument, got ", args.len());
        return (Err(type_error_at(m, line, column)), Ghost(Derivation::Leaf));
    }
    let inner_expected: Option<&Type> = match expected {
        Some(Type::Option(inner)) => Some(&**inner),
        _ => None,
    };
    let (rp, Ghost(tp)) = lower_arg(args, 0, inner_expected, false, env, ctx);
    let ghost t = Derivation::Node(seq![ex_step(rp, env@, tp)]);
    let p = match rp {
        Err(d) => return (Err(d), Ghost(t)),
        Ok(p) => p,
    };
    if let Some(ie) = inner_expected {
        if !type_assignable_to(p.ty(), ie) {
            let m = concat(got_message(String::from_str("Option::Some expects payload type "), ie), ", got ");
            let m = got_message(m, p.ty());
            return (Err(type_error_at(m, args[0].line(), args[0].column())), Ghost(t));
        }
    }
    let inner_ty = clone_type(p.ty());
    if !p.ty().is_copy() {
        move_lowered_value(&p, env);
    }
    let ghost gp = p;
    let mut payloads: Vec<Expr> = Vec::new();
    payloads.push(p);
    proof { assert(payloads@ =~= seq![gp]); }
    (Ok(Expr::EnumVariant {
        enum_name: String::from_str("Option"),
        variant: String::from_str("Some"),
        field_names: Vec::new(),
        payloads,
        ty: Type::Option(Box::new(inner_ty)),
    }), Ghost(t))
}

fn lower_result_ctor(e: &syntax::Expr, expected: Option<&Type>, env: &mut Vec<Binding>, ctx: &LowerContext) -> (out: (Result<Expr, Diagnostic>, Ghost<Derivation>))
    requires
        e is Call && (call_kind(e->Call_name@) == 8 || call_kind(e->Call_name@) == 9),
        expr_spans_ok(*e),
        ctx_ok(*ctx),
    ensures
        env_frame(old(env)@, final(env)@),
        result_ctor_rel(call_kind(e->Call_name@) == 8, e->Call_args, opt_ty(expected), e->Call_line, e->Call_column, old(env)@, *ctx, out.0, final(env)@, out.1@),
    decreases e, 0int,
{
    let (name, args, line, column) = match e {
        syntax::Expr::Call { name, args, line, column, .. } => (name, args, *line, *column),
        _ => { assert(false); return (Err(type_error_at(String::new(), 0, 0)), Ghost(Derivation::Leaf)); },
    };
    proof { assert(args_spans_ok(*args, 0)); }
    let is_ok = crate::text::str_eq(name.as_str(), "Ok");
    let ctor = if is_ok { "Ok" } else { "Err" };
    if args.len() != 1 {
        let m = count_suffix(concat(concat(String::from_str("Result::"), ctor), " expects 1 argument, got ").as_str(), args.len());
        return (Err(type_error_at(m, line, column)), Ghost(Derivation::Leaf));
    }
    let (ok, err) = match expected {
        Some(Type::Result(ok, err)) => (ok, err),
        _ => {
            let m = concat(String::from_str(ctor), " requires an expected Result<T, E> context");
            return (Err(type_error_at(m, line, column)), Ghost(Derivation::Leaf));
        },
    };
    let want: &Type = if is_ok { ok } else { err };
    let (rp, Ghost(tp)) = lower_arg(args, 0, Some(want), false, env, ctx);
    let ghost t = Derivation::Node(seq![ex_step(rp, env@, tp)]);
    let p = match rp {
        Err(d) => return (Err(d), Ghost(t)),
        Ok(p) => p,
    };
    if !type_assignable_to(p.ty(), want) {
        let m = concat(got_message(concat(concat(String::from_str("Result::"), ctor), " expects payload type "), want), ", got ");
        let m = got_message(m, p.ty());
        return (Err(type_error_at(m, args[0].line(), args[0].column())), Ghost(t));
    }
    if !want.is_copy() {
        move_lowered_value(&p, env);
    }
    let ty = Type::Result(Box::new(clone_type(ok)), Box::new(clone_type(err)));
    let ghost gp = p;
    let mut payloads: Vec<Expr> = Vec::new();
    payloads.push(p);
    proof { assert(payloads@ =~= seq![gp]); }
    (Ok(Expr::EnumVariant {
        enum_name: String::from_str("Result"),
        variant: String::from_str(ctor),
        field_names: Vec::new(),
        payloads,
        ty,
    }), Ghost(t))
}

fn lower_variant_call(e: &syntax::Expr, expected: Option<&Type>, env: &mut Vec<Binding>, ctx: &LowerContext) -> (out: (Result<Expr, Diagnostic>, Ghost<Derivation>))
    requires
        e is Call,
        call_kind(e->Call_name@) == 0,
        signature_index(ctx.functions@, e->Call_name@) is None,
        expr_spans_ok(*e),
        ctx_ok(*ctx),
    ensures
        env_frame(old(env)@, final(env)@),
        call_rel(*e, opt_ty(expected), old(env)@, *ctx, out.0, final(env)@, out.1@),
    decreases e, 0int,
{
    let (name, args, line, column) = match e {
        syntax::Expr::Call { name, args, line, column, .. } => (name, args, *line, *column),
        _ => { assert(false); return (Err(type_error_at(String::new(), 0, 0)), Ghost(Derivation::Leaf)); },
    };
    let (ei, vi) = match resolve_variant(ctx.enums, name.as_str(), expected, line, column) {
        Err(d) => return (Err(d), Ghost(Derivation::Leaf)),
        Ok(None) => {
            let m = quoted_message("undefined function ", name.as_str(), "");
            proof { reveal_strlit(""); assert(m@ =~= "undefined function "@ + debug_quoted(name@)); }
            return (Err(type_error_at(m, line, column)), Ghost(Derivation::Leaf));
        },
        Ok(Some(found)) => found,
    };
    let owner = &ctx.enums[ei];
    let v = &owner.variants[vi];
    if v.payload_names.len() > 0 {
        let m = quoted_message("enum variant ", name.as_str(), " requires named payload fields");
        return (Err(type_error_at(m, line, column)), Ghost(Derivation::Leaf));
    }
    if v.payload_tys.len() == 0 {
        let m = quoted_message("enum variant ", name.as_str(), " does not take arguments");
        return (Err(type_error_at(m, line, column)), Ghost(Derivation::Leaf));
    }
    if args.len() != v.payload_tys.len() {
        let m = count_message(quoted_message("enum variant ", name.as_str(), " expects "), v.payload_tys.len(), " arguments, got ", args.len());
        return (Err(type_error_at(m, line, column)), Ghost(Derivation::Leaf));
    }
    let prefix = quoted_message("enum variant ", name.as_str(), " expects payload type ");
    let no_borrows: Vec<usize> = Vec::new();
    let (rs, Ghost(ts)) = lower_call_args(&prefix, args, 0, &v.payload_tys, &no_borrows, false, env, ctx);
    let ghost t = Derivation::Node(seq![exs_step(rs, env@, ts)]);
    let xs = match rs {
        Err(d) => return (Err(d), Ghost(t)),
        Ok(xs) => xs,
    };
    proof { assert(no_borrows@ =~= Seq::<usize>::empty()); }
    (Ok(Expr::EnumVariant {
        enum_name: owner.name.clone(),
        variant: name.clone(),
        field_names: Vec::new(),
        payloads: xs,
        ty: Type::Enum(owner.name.clone()),
    }), Ghost(t))
}

} // verus!
