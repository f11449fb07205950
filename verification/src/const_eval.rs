//! Integer constant evaluation and array-length checks.
use vstd::prelude::*;
use crate::capabilities::type_error;
use crate::context::{const_index, find_const};
use crate::diagnostics::Diagnostic;
use crate::render::{concat, debug_quoted, quote};
use crate::syntax::{ArithmeticOp, ConstDecl, Expr, Literal, Program, Stmt, TypeName};
use crate::text::{parse_i64, parse_i64_spec, trim, trim_spec};

verus! {

/// Integer division rounding toward zero, as Rust's `/` does.
pub open spec fn trunc_div(a: int, b: int) -> int {
    let q = (if a < 0 { -a } else { a }) / (if b < 0 { -b } else { b });
    if (a < 0) != (b < 0) { -q } else { q }
}

/// The value of an arithmetic operation on two integers.
pub open spec fn apply_op(op: ArithmeticOp, a: int, b: int) -> int {
    match op {
        ArithmeticOp::Add => a + b,
        ArithmeticOp::Sub => a - b,
        ArithmeticOp::Mul => a * b,
        ArithmeticOp::Div => trunc_div(a, b),
    }
}

/// The value of an integer constant expression built from literals and arithmetic.
pub open spec fn const_value(e: Expr) -> Option<int>
    decreases e,
{
    match e {
        Expr::Literal(Literal::Int(v)) => Some(v as int),
        Expr::BinaryAdd { op, lhs, rhs, .. } => match (const_value(*lhs), const_value(*rhs)) {
            (Some(a), Some(b)) => Some(apply_op(op, a, b)),
            _ => None,
        },
        _ => None,
    }
}

/// Evaluating `e` with 64-bit arithmetic neither overflows nor divides by zero.
pub open spec fn const_eval_safe(e: Expr) -> bool
    decreases e,
{
    match e {
        Expr::BinaryAdd { op, lhs, rhs, .. } => {
            &&& const_eval_safe(*lhs)
            &&& const_value(*lhs) is Some ==> {
                &&& const_eval_safe(*rhs)
                &&& const_value(*rhs) is Some ==> {
                    &&& !(op is Div && const_value(*rhs)->0 == 0)
                    &&& i64::MIN <= apply_op(op, const_value(*lhs)->0, const_value(*rhs)->0) <= i64::MAX
                }
            }
        },
        _ => true,
    }
}

proof fn lemma_const_value_range(e: Expr)
    requires
        const_eval_safe(e),
    ensures
        const_value(e) is Some ==> i64::MIN <= const_value(e)->0 <= i64::MAX,
    decreases e,
{
    if let Expr::BinaryAdd { lhs, rhs, .. } = e {
        lemma_const_value_range(*lhs);
        if const_value(*lhs) is Some {
            lemma_const_value_range(*rhs);
        }
    }
}

fn checked_op(op: ArithmeticOp, a: i64, b: i64) -> (r: i64)
    requires
        !(op is Div && b == 0),
        i64::MIN <= apply_op(op, a as int, b as int) <= i64::MAX,
    ensures
        r as int == apply_op(op, a as int, b as int),
{
    match op {
        ArithmeticOp::Add => a + b,
        ArithmeticOp::Sub => a - b,
        ArithmeticOp::Mul => a * b,
        ArithmeticOp::Div => {
            let ua: u64 = if a < 0 { (0i128 - a as i128) as u64 } else { a as u64 };
            let ub: u64 = if b < 0 { (0i128 - b as i128) as u64 } else { b as u64 };
            let q: u64 = ua / ub;
            if (a < 0) != (b < 0) {
                assert(q <= ua);
                (0i128 - q as i128) as i64
            } else {
                (q as i128) as i64
            }
        },
    }
}

/// Evaluates an integer constant expression built from literals and arithmetic.
pub fn eval_const_int_expr(expr: &Expr) -> (r: Option<i64>)
    requires
        const_eval_safe(*expr),
    ensures
        r is Some <==> const_value(*expr) is Some,
        r is Some ==> r->0 as int == const_value(*expr)->0,
    decreases expr,
{
    match expr {
        Expr::Literal(Literal::Int(value)) => Some(*value),
        Expr::BinaryAdd { op, lhs, rhs, .. } => {
            let a = eval_const_int_expr(lhs)?;
            let b = eval_const_int_expr(rhs)?;
            Some(checked_op(*op, a, b))
        },
        _ => None,
    }
}

/// Whether an initializer calls a function anywhere in its arithmetic.
pub open spec fn contains_call(e: Expr) -> bool
    decreases e,
{
    match e {
        Expr::Call { .. } => true,
        Expr::BinaryAdd { lhs, rhs, .. } => contains_call(*lhs) || contains_call(*rhs),
        Expr::BinaryCompare { lhs, rhs, .. } => contains_call(*lhs) || contains_call(*rhs),
        _ => false,
    }
}

/// Whether an initializer calls a function anywhere in its arithmetic.
pub fn const_int_expr_contains_call(expr: &Expr) -> (r: bool)
    ensures
        r == contains_call(*expr),
    decreases expr,
{
    match expr {
        Expr::Call { .. } => true,
        Expr::BinaryAdd { lhs, rhs, .. } | Expr::BinaryCompare { lhs, rhs, .. } => {
            const_int_expr_contains_call(lhs) || const_int_expr_contains_call(rhs)
        },
        _ => false,
    }
}

/// Every const initializer can be evaluated without overflow or division by zero.
pub open spec fn consts_safe(consts: Seq<ConstDecl>) -> bool {
    forall|i: int| 0 <= i < consts.len() ==> const_eval_safe(#[trigger] consts[i].expr)
}

/// The value of an array length written as `raw`: an integer numeral, or the name of a
/// const whose initializer evaluates to an integer. `Err` carries the reason and where.
pub open spec fn array_len_value(raw: Seq<char>, consts: Seq<ConstDecl>, line: usize, column: usize) -> Result<i64, (Seq<char>, usize, usize)> {
    match parse_i64_spec(raw) {
        Some(v) => Ok(v),
        None => match const_index(consts, raw) {
            None => Err(("array length "@ + debug_quoted(raw) + " must be a known int const/static expression"@, line, column)),
            Some(i) => match const_value(consts[i].expr) {
                Some(v) => Ok(v as i64),
                None => Err(("array length const "@ + debug_quoted(consts[i].name@) + " must evaluate to int"@, consts[i].line, consts[i].column)),
            },
        },
    }
}

/// `r` is the outcome `expected` describes, with `type` diagnostics for its errors.
pub open spec fn array_len_outcome(r: Result<i64, Diagnostic>, expected: Result<i64, (Seq<char>, usize, usize)>) -> bool {
    match expected {
        Ok(v) => r == Ok::<i64, Diagnostic>(v),
        Err((message, line, column)) => r is Err && type_error(r->Err_0, message, line, column),
    }
}

/// Resolves an array length written as `raw`.
pub fn resolve_const_array_len(raw: &str, consts: &Vec<ConstDecl>, line: usize, column: usize) -> (r: Result<i64, Diagnostic>)
    requires
        consts_safe(consts@),
    ensures
        array_len_outcome(r, array_len_value(raw@, consts@, line, column)),
{
    if let Some(value) = parse_i64(raw) {
        return Ok(value);
    }
    let i = match find_const(consts, raw) {
        Some(i) => i,
        None => {
            let m = concat(concat(String::from_str("array length "), quote(raw).as_str()), " must be a known int const/static expression");
            return Err(Diagnostic::new("type", m).with_span(line, column));
        },
    };
    let decl = &consts[i];
    proof { lemma_const_value_range(decl.expr); }
    match eval_const_int_expr(&decl.expr) {
        Some(v) => Ok(v),
        None => {
            let m = concat(concat(String::from_str("array length const "), quote(decl.name.as_str()).as_str()), " must evaluate to int");
            Err(Diagnostic::new("type", m).with_span(decl.line, decl.column))
        },
    }
}

/// The array length written as `raw`, after trimming surrounding whitespace.
pub open spec fn trimmed_len_value(raw: Seq<char>, consts: Seq<ConstDecl>, line: usize, column: usize) -> Result<i64, (Seq<char>, usize, usize)> {
    array_len_value(trim_spec(raw), consts, line, column)
}

/// The array length a declared type fixes, if any: checked to be non-negative.
pub open spec fn declared_len(ty: TypeName, consts: Seq<ConstDecl>, line: usize, column: usize) -> Result<Option<i64>, (Seq<char>, usize, usize)> {
    match ty {
        TypeName::Array(_, Some(raw)) => match trimmed_len_value(raw@, consts, line, column) {
            Err(e) => Err(e),
            Ok(v) => if v < 0 {
                Err(("array length must be non-negative"@, line, column))
            } else {
                Ok(Some(v))
            },
        },
        _ => Ok(None),
    }
}

pub(crate) fn trimmed_array_len(raw: &String, consts: &Vec<ConstDecl>, line: usize, column: usize) -> (r: Result<i64, Diagnostic>)
    requires
        consts_safe(consts@),
    ensures
        array_len_outcome(r, trimmed_len_value(raw@, consts@, line, column)),
{
    let t = trim(raw.as_str());
    resolve_const_array_len(t, consts, line, column)
}

pub(crate) fn non_negative_error(line: usize, column: usize) -> (d: Diagnostic)
    ensures
        type_error(d, "array length must be non-negative"@, line, column),
{
    Diagnostic::new("type", String::from_str("array length must be non-negative")).with_span(line, column)
}

/// The array length fixed by a declared type, if any.
pub fn declared_array_len(ty: &TypeName, consts: &Vec<ConstDecl>, line: usize, column: usize) -> (r: Result<Option<usize>, Diagnostic>)
    requires
        consts_safe(consts@),
    ensures
        match declared_len(*ty, consts@, line, column) {
            Ok(None) => r == Ok::<Option<usize>, Diagnostic>(None),
            Ok(Some(v)) => r == Ok::<Option<usize>, Diagnostic>(Some(v as usize)),
            Err((message, l, c)) => r is Err && type_error(r->Err_0, message, l, c),
        },
{
    match ty {
        TypeName::Array(_, Some(raw)) => {
            let value = trimmed_array_len(raw, consts, line, column)?;
            if value < 0 {
                return Err(non_negative_error(line, column));
            }
            Ok(Some(#[verifier::truncate] (value as usize)))
        },
        _ => Ok(None),
    }
}

/// Whether every array length written in a type resolves to a non-negative integer;
/// `Err` carries the first failure in a left-to-right walk.
pub open spec fn array_lengths_check(ty: TypeName, consts: Seq<ConstDecl>, line: usize, column: usize) -> Result<(), (Seq<char>, usize, usize)>
    decreases ty,
{
    match ty {
        TypeName::Array(inner, len) => {
            let here: Result<(), (Seq<char>, usize, usize)> = match len {
                Some(raw) => match trimmed_len_value(raw@, consts, line, column) {
                    Err(e) => Err(e),
                    Ok(v) => if v < 0 { Err(("array length must be non-negative"@, line, column)) } else { Ok(()) },
                },
                None => Ok(()),
            };
            match here {
                Err(e) => Err(e),
                Ok(_) => array_lengths_check(*inner, consts, line, column),
            }
        },
        TypeName::Slice(inner) | TypeName::MutSlice(inner) | TypeName::Option(inner) => array_lengths_check(*inner, consts, line, column),
        TypeName::Result(ok, err) | TypeName::MapOf(ok, err) => match array_lengths_check(*ok, consts, line, column) {
            Err(e) => Err(e),
            Ok(_) => array_lengths_check(*err, consts, line, column),
        },
        TypeName::Tuple(elements) => array_lengths_check_all(elements, 0, consts, line, column),
        TypeName::Named(_, args) => array_lengths_check_all(args, 0, consts, line, column),
        _ => Ok(()),
    }
}

/// The array-length check of each type of a list from position `i` on, in order.
pub open spec fn array_lengths_check_all(tys: Vec<TypeName>, i: int, consts: Seq<ConstDecl>, line: usize, column: usize) -> Result<(), (Seq<char>, usize, usize)>
    decreases tys, tys.len() - i,
{
    if i < 0 || i >= tys.len() {
        Ok(())
    } else {
        match array_lengths_check(tys[i], consts, line, column) {
            Err(e) => Err(e),
            Ok(_) => array_lengths_check_all(tys, i + 1, consts, line, column),
        }
    }
}

/// `r` is the outcome `expected` describes, with `type` diagnostics for its errors.
pub open spec fn unit_outcome(r: Result<(), Diagnostic>, expected: Result<(), (Seq<char>, usize, usize)>) -> bool {
    match expected {
        Ok(_) => r is Ok,
        Err((message, line, column)) => r is Err && type_error(r->Err_0, message, line, column),
    }
}

/// Checks every array length written in a type.
pub fn validate_const_array_lengths_in_type(ty: &TypeName, consts: &Vec<ConstDecl>, line: usize, column: usize) -> (r: Result<(), Diagnostic>)
    requires
        consts_safe(consts@),
    ensures
        unit_outcome(r, array_lengths_check(*ty, consts@, line, column)),
    decreases ty,
{
    match ty {
        TypeName::Array(inner, len) => {
            if let Some(raw) = len {
                let value = trimmed_array_len(raw, consts, line, column)?;
                if value < 0 {
                    return Err(non_negative_error(line, column));
                }
            }
            validate_const_array_lengths_in_type(inner, consts, line, column)
        },
        TypeName::Slice(inner) | TypeName::MutSlice(inner) | TypeName::Option(inner) => {
            validate_const_array_lengths_in_type(inner, consts, line, column)
        },
        TypeName::Result(ok, err) | TypeName::MapOf(ok, err) => {
            validate_const_array_lengths_in_type(ok, consts, line, column)?;
            validate_const_array_lengths_in_type(err, consts, line, column)
        },
        TypeName::Tuple(elements) => validate_array_lengths_in_types(elements, 0, consts, line, column),
        TypeName::Named(_, args) => validate_array_lengths_in_types(args, 0, consts, line, column),
        _ => Ok(()),
    }
}

fn validate_array_lengths_in_types(tys: &Vec<TypeName>, i: usize, consts: &Vec<ConstDecl>, line: usize, column: usize) -> (r: Result<(), Diagnostic>)
    requires
        consts_safe(consts@),
    ensures
        unit_outcome(r, array_lengths_check_all(*tys, i as int, consts@, line, column)),
    decreases tys, tys.len() - i,
{
    if i >= tys.len() {
        return Ok(());
    }
    proof { assert(decreases_to!(tys => tys[i as int])); }
    validate_const_array_lengths_in_type(&tys[i], consts, line, column)?;
    validate_array_lengths_in_types(tys, i + 1, consts, line, column)
}

/// The first array-length failure among struct fields from position `i` on.
pub open spec fn fields_check(fields: Vec<crate::syntax::StructField>, i: int, consts: Seq<ConstDecl>) -> Result<(), (Seq<char>, usize, usize)>
    decreases fields.len() - i,
{
    if i < 0 || i >= fields.len() {
        Ok(())
    } else {
        match array_lengths_check(fields[i].ty, consts, fields[i].line, fields[i].column) {
            Err(e) => Err(e),
            Ok(_) => fields_check(fields, i + 1, consts),
        }
    }
}

/// The first array-length failure among the fields of structs from position `i` on.
pub open spec fn structs_check(structs: Vec<crate::syntax::StructDecl>, i: int, consts: Seq<ConstDecl>) -> Result<(), (Seq<char>, usize, usize)>
    decreases structs.len() - i,
{
    if i < 0 || i >= structs.len() {
        Ok(())
    } else {
        match fields_check(structs[i].fields, 0, consts) {
            Err(e) => Err(e),
            Ok(_) => structs_check(structs, i + 1, consts),
        }
    }
}

/// The first array-length failure among payload types from position `i` on, located at
/// their variant.
pub open spec fn payloads_check(tys: Vec<TypeName>, i: int, consts: Seq<ConstDecl>, line: usize, column: usize) -> Result<(), (Seq<char>, usize, usize)>
    decreases tys.len() - i,
{
    if i < 0 || i >= tys.len() {
        Ok(())
    } else {
        match array_lengths_check(tys[i], consts, line, column) {
            Err(e) => Err(e),
            Ok(_) => payloads_check(tys, i + 1, consts, line, column),
        }
    }
}

/// The first array-length failure among the payloads of variants from position `i` on.
pub open spec fn variants_check(variants: Vec<crate::syntax::EnumVariantDecl>, i: int, consts: Seq<ConstDecl>) -> Result<(), (Seq<char>, usize, usize)>
    decreases variants.len() - i,
{
    if i < 0 || i >= variants.len() {
        Ok(())
    } else {
        match payloads_check(variants[i].payload_tys, 0, consts, variants[i].line, variants[i].column) {
            Err(e) => Err(e),
            Ok(_) => variants_check(variants, i + 1, consts),
        }
    }
}

/// The first array-length failure among the variants of enums from position `i` on.
pub open spec fn enums_check(enums: Vec<crate::syntax::EnumDecl>, i: int, consts: Seq<ConstDecl>) -> Result<(), (Seq<char>, usize, usize)>
    decreases enums.len() - i,
{
    if i < 0 || i >= enums.len() {
        Ok(())
    } else {
        match variants_check(enums[i].variants, 0, consts) {
            Err(e) => Err(e),
            Ok(_) => enums_check(enums, i + 1, consts),
        }
    }
}

/// The first array-length failure among type aliases from position `i` on.
pub open spec fn aliases_check(aliases: Vec<crate::syntax::TypeAliasDecl>, i: int, consts: Seq<ConstDecl>) -> Result<(), (Seq<char>, usize, usize)>
    decreases aliases.len() - i,
{
    if i < 0 || i >= aliases.len() {
        Ok(())
    } else {
        match array_lengths_check(aliases[i].ty, consts, aliases[i].line, aliases[i].column) {
            Err(e) => Err(e),
            Ok(_) => aliases_check(aliases, i + 1, consts),
        }
    }
}

/// The first array-length failure among parameters from position `i` on.
pub open spec fn params_check(params: Vec<crate::syntax::Param>, i: int, consts: Seq<ConstDecl>) -> Result<(), (Seq<char>, usize, usize)>
    decreases params.len() - i,
{
    if i < 0 || i >= params.len() {
        Ok(())
    } else {
        match array_lengths_check(params[i].ty, consts, params[i].line, params[i].column) {
            Err(e) => Err(e),
            Ok(_) => params_check(params, i + 1, consts),
        }
    }
}

/// The first array-length failure among function signatures from position `i` on:
/// each return type, then its parameters.
pub open spec fn functions_check(functions: Vec<crate::syntax::Function>, i: int, consts: Seq<ConstDecl>) -> Result<(), (Seq<char>, usize, usize)>
    decreases functions.len() - i,
{
    if i < 0 || i >= functions.len() {
        Ok(())
    } else {
        match array_lengths_check(functions[i].return_ty, consts, functions[i].line, functions[i].column) {
            Err(e) => Err(e),
            Ok(_) => match params_check(functions[i].params, 0, consts) {
                Err(e) => Err(e),
                Ok(_) => functions_check(functions, i + 1, consts),
            },
        }
    }
}

/// The first array-length failure among top-level `let` types from position `i` on.
pub open spec fn lets_check(stmts: Vec<Stmt>, i: int, consts: Seq<ConstDecl>) -> Result<(), (Seq<char>, usize, usize)>
    decreases stmts.len() - i,
{
    if i < 0 || i >= stmts.len() {
        Ok(())
    } else {
        let here = match stmts[i] {
            Stmt::Let { ty, line, column, .. } => array_lengths_check(ty, consts, line, column),
            _ => Ok(()),
        };
        match here {
            Err(e) => Err(e),
            Ok(_) => lets_check(stmts, i + 1, consts),
        }
    }
}

/// The first array-length failure of a program whose functions are `functions` and whose
/// top-level statements are `stmts`, in declaration order: struct fields, enum payloads,
/// type aliases, function signatures, then top-level `let` types.
pub open spec fn program_lengths_check(program: Program, functions: Vec<crate::syntax::Function>, stmts: Vec<Stmt>, consts: Seq<ConstDecl>) -> Result<(), (Seq<char>, usize, usize)> {
    match structs_check(program.structs, 0, consts) {
        Err(e) => Err(e),
        Ok(_) => match enums_check(program.enums, 0, consts) {
            Err(e) => Err(e),
            Ok(_) => match aliases_check(program.type_aliases, 0, consts) {
                Err(e) => Err(e),
                Ok(_) => match functions_check(functions, 0, consts) {
                    Err(e) => Err(e),
                    Ok(_) => lets_check(stmts, 0, consts),
                },
            },
        },
    }
}

fn validate_fields(fields: &Vec<crate::syntax::StructField>, i: usize, consts: &Vec<ConstDecl>) -> (r: Result<(), Diagnostic>)
    requires
        consts_safe(consts@),
    ensures
        unit_outcome(r, fields_check(*fields, i as int, consts@)),
    decreases fields.len() - i,
{
    if i >= fields.len() {
        return Ok(());
    }
    validate_const_array_lengths_in_type(&fields[i].ty, consts, fields[i].line, fields[i].column)?;
    validate_fields(fields, i + 1, consts)
}

fn validate_structs(structs: &Vec<crate::syntax::StructDecl>, i: usize, consts: &Vec<ConstDecl>) -> (r: Result<(), Diagnostic>)
    requires
        consts_safe(consts@),
    ensures
        unit_outcome(r, structs_check(*structs, i as int, consts@)),
    decreases structs.len() - i,
{
    if i >= structs.len() {
        return Ok(());
    }
    validate_fields(&structs[i].fields, 0, consts)?;
    validate_structs(structs, i + 1, consts)
}

fn validate_payloads(tys: &Vec<TypeName>, i: usize, consts: &Vec<ConstDecl>, line: usize, column: usize) -> (r: Result<(), Diagnostic>)
    requires
        consts_safe(consts@),
    ensures
        unit_outcome(r, payloads_check(*tys, i as int, consts@, line, column)),
    decreases tys.len() - i,
{
    if i >= tys.len() {
        return Ok(());
    }
    validate_const_array_lengths_in_type(&tys[i], consts, line, column)?;
    validate_payloads(tys, i + 1, consts, line, column)
}

fn validate_variants(variants: &Vec<crate::syntax::EnumVariantDecl>, i: usize, consts: &Vec<ConstDecl>) -> (r: Result<(), Diagnostic>)
    requires
        consts_safe(consts@),
    ensures
        unit_outcome(r, variants_check(*variants, i as int, consts@)),
    decreases variants.len() - i,
{
    if i >= variants.len() {
        return Ok(());
    }
    let variant = &variants[i];
    validate_payloads(&variant.payload_tys, 0, consts, variant.line, variant.column)?;
    validate_variants(variants, i + 1, consts)
}

fn validate_enums(enums: &Vec<crate::syntax::EnumDecl>, i: usize, consts: &Vec<ConstDecl>) -> (r: Result<(), Diagnostic>)
    requires
        consts_safe(consts@),
    ensures
        unit_outcome(r, enums_check(*enums, i as int, consts@)),
    decreases enums.len() - i,
{
    if i >= enums.len() {
        return Ok(());
    }
    validate_variants(&enums[i].variants, 0, consts)?;
    validate_enums(enums, i + 1, consts)
}

fn validate_aliases(aliases: &Vec<crate::syntax::TypeAliasDecl>, i: usize, consts: &Vec<ConstDecl>) -> (r: Result<(), Diagnostic>)
    requires
        consts_safe(consts@),
    ensures
        unit_outcome(r, aliases_check(*aliases, i as int, consts@)),
    decreases aliases.len() - i,
{
    if i >= aliases.len() {
        return Ok(());
    }
    validate_const_array_lengths_in_type(&aliases[i].ty, consts, aliases[i].line, aliases[i].column)?;
    validate_aliases(aliases, i + 1, consts)
}

fn validate_params(params: &Vec<crate::syntax::Param>, i: usize, consts: &Vec<ConstDecl>) -> (r: Result<(), Diagnostic>)
    requires
        consts_safe(consts@),
    ensures
        unit_outcome(r, params_check(*params, i as int, consts@)),
    decreases params.len() - i,
{
    if i >= params.len() {
        return Ok(());
    }
    validate_const_array_lengths_in_type(&params[i].ty, consts, params[i].line, params[i].column)?;
    validate_params(params, i + 1, consts)
}

fn validate_functions(functions: &Vec<crate::syntax::Function>, i: usize, consts: &Vec<ConstDecl>) -> (r: Result<(), Diagnostic>)
    requires
        consts_safe(consts@),
    ensures
        unit_outcome(r, functions_check(*functions, i as int, consts@)),
    decreases functions.len() - i,
{
    if i >= functions.len() {
        return Ok(());
    }
    let function = &functions[i];
    validate_const_array_lengths_in_type(&function.return_ty, consts, function.line, function.column)?;
    validate_params(&function.params, 0, consts)?;
    validate_functions(functions, i + 1, consts)
}

fn validate_lets(stmts: &Vec<Stmt>, i: usize, consts: &Vec<ConstDecl>) -> (r: Result<(), Diagnostic>)
    requires
        consts_safe(consts@),
    ensures
        unit_outcome(r, lets_check(*stmts, i as int, consts@)),
    decreases stmts.len() - i,
{
    if i >= stmts.len() {
        return Ok(());
    }
    if let Stmt::Let { ty, line, column, .. } = &stmts[i] {
        validate_const_array_lengths_in_type(ty, consts, *line, *column)?;
    }
    validate_lets(stmts, i + 1, consts)
}

/// Checks every array length written in a program's declarations, its functions being
/// `functions` and its top-level statements `stmts`.
pub fn validate_const_array_lengths_in_program(program: &Program, functions: &Vec<crate::syntax::Function>, stmts: &Vec<Stmt>, consts: &Vec<ConstDecl>) -> (r: Result<(), Diagnostic>)
    requires
        consts_safe(consts@),
    ensures
        unit_outcome(r, program_lengths_check(*program, *functions, *stmts, consts@)),
{
    validate_structs(&program.structs, 0, consts)?;
    validate_enums(&program.enums, 0, consts)?;
    validate_aliases(&program.type_aliases, 0, consts)?;
    validate_functions(functions, 0, consts)?;
    validate_lets(stmts, 0, consts)
}

proof fn lemma_trunc_div_range(a: int, b: int)
    requires
        i64::MIN <= a <= i64::MAX,
        b != 0,
        !(a == i64::MIN && b == -1),
        i64::MIN <= b <= i64::MAX,
    ensures
        i64::MIN <= trunc_div(a, b) <= i64::MAX,
{
    let ua = if a < 0 { -a } else { a };
    let ub = if b < 0 { -b } else { b };
    assert(ua / ub <= ua) by (nonlinear_arith)
        requires ua >= 0, ub >= 1;
    assert(ua / ub >= 0) by (nonlinear_arith)
        requires ua >= 0, ub >= 1;
    if a == i64::MIN && ub >= 2 {
        assert(ua / ub <= ua / 2) by (nonlinear_arith)
            requires ua >= 0, ub >= 2;
    }
    if a == i64::MIN && ub == 1 {
        assert(ua / 1 == ua);
    }
}

fn op_in_range(op: ArithmeticOp, a: i64, b: i64) -> (r: bool)
    ensures
        r == (!(op is Div && b == 0) && i64::MIN <= apply_op(op, a as int, b as int) <= i64::MAX),
{
    match op {
        ArithmeticOp::Add => {
            let v: i128 = a as i128 + b as i128;
            i64::MIN as i128 <= v && v <= i64::MAX as i128
        },
        ArithmeticOp::Sub => {
            let v: i128 = a as i128 - b as i128;
            i64::MIN as i128 <= v && v <= i64::MAX as i128
        },
        ArithmeticOp::Mul => {
            assert(-0x4000_0000_0000_0000_0000_0000_0000_0000 <= (a as int) * (b as int) <= 0x4000_0000_0000_0000_0000_0000_0000_0000) by (nonlinear_arith)
                requires i64::MIN <= a <= i64::MAX, i64::MIN <= b <= i64::MAX;
            let v: i128 = a as i128 * b as i128;
            i64::MIN as i128 <= v && v <= i64::MAX as i128
        },
        ArithmeticOp::Div => {
            if b == 0 {
                false
            } else if a == i64::MIN && b == -1 {
                assert(trunc_div(a as int, b as int) == 0x8000_0000_0000_0000);
                false
            } else {
                proof { lemma_trunc_div_range(a as int, b as int); }
                true
            }
        },
    }
}

/// Decides whether evaluating `e` with 64-bit arithmetic neither overflows nor divides
/// by zero.
pub fn check_const_eval_safe(e: &Expr) -> (r: bool)
    ensures
        r == const_eval_safe(*e),
    decreases e,
{
    match e {
        Expr::BinaryAdd { op, lhs, rhs, .. } => {
            if !check_const_eval_safe(lhs) {
                return false;
            }
            let a = match eval_const_int_expr(lhs) {
                None => return true,
                Some(a) => a,
            };
            if !check_const_eval_safe(rhs) {
                return false;
            }
            let b = match eval_const_int_expr(rhs) {
                None => return true,
                Some(b) => b,
            };
            op_in_range(*op, a, b)
        },
        _ => true,
    }
}

/// Decides whether every const initializer evaluates without overflow or division by zero.
pub fn check_consts_safe(consts: &Vec<ConstDecl>) -> (r: bool)
    ensures
        r == consts_safe(consts@),
{
    let mut i: usize = 0;
    while i < consts.len()
        invariant
            i <= consts.len(),
            forall|j: int| 0 <= j < i ==> const_eval_safe(#[trigger] consts@[j].expr),
        decreases consts.len() - i,
    {
        if !check_const_eval_safe(&consts[i].expr) {
            return false;
        }
        i = i + 1;
    }
    true
}

} // verus!
