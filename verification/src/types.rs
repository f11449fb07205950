//! Classification of lowered types and typed expressions.
use vstd::prelude::*;
use crate::model::{Type, NumericType, Expr, expr_ty, type_eq, clone_type};
use crate::diagnostics::{Diagnostic, diag_fields};
use crate::render::{decimal, push_decimal};

verus! {

/// The source spelling of a numeric type.
pub open spec fn numeric_name(n: NumericType) -> Seq<char> {
    match n {
        NumericType::I8 => "i8"@,
        NumericType::I16 => "i16"@,
        NumericType::I32 => "i32"@,
        NumericType::I64 => "i64"@,
        NumericType::U8 => "u8"@,
        NumericType::U16 => "u16"@,
        NumericType::U32 => "u32"@,
        NumericType::U64 => "u64"@,
        NumericType::F32 => "f32"@,
        NumericType::F64 => "f64"@,
    }
}

impl NumericType {
    /// The type's source spelling.
    pub fn as_str(self) -> (s: &'static str)
        ensures
            s@ == numeric_name(self),
    {
        match self {
            NumericType::I8 => "i8",
            NumericType::I16 => "i16",
            NumericType::I32 => "i32",
            NumericType::I64 => "i64",
            NumericType::U8 => "u8",
            NumericType::U16 => "u16",
            NumericType::U32 => "u32",
            NumericType::U64 => "u64",
            NumericType::F32 => "f32",
            NumericType::F64 => "f64",
        }
    }
}

/// Whether values of a type are copied rather than moved.
pub open spec fn copyable(t: Type) -> bool
    decreases t,
{
    match t {
        Type::Error | Type::Never | Type::Int | Type::Numeric(_) | Type::Bool | Type::Str
        | Type::Ptr(_) | Type::MutPtr(_) | Type::Slice(_) => true,
        Type::MutRef(_) | Type::MutSlice(_) => false,
        Type::Option(inner) => copyable(*inner),
        Type::Result(ok, err) => copyable(*ok) && copyable(*err),
        Type::Tuple(elements) => all_copyable(elements, 0),
        _ => false,
    }
}

/// Whether every type of the list from position `i` on is copyable.
pub open spec fn all_copyable(ts: Vec<Type>, i: int) -> bool
    decreases ts, ts.len() - i,
{
    if i < 0 || i >= ts.len() {
        true
    } else {
        copyable(ts[i]) && all_copyable(ts, i + 1)
    }
}

/// Whether a type may be used as a map key.
pub open spec fn map_key_type(t: Type) -> bool
    decreases t,
{
    match t {
        Type::Int | Type::Numeric(_) | Type::Bool | Type::String | Type::Str => true,
        Type::Tuple(elements) => all_map_key(elements, 0),
        _ => false,
    }
}

/// Whether every type of the list from position `i` on may be a map key.
pub open spec fn all_map_key(ts: Vec<Type>, i: int) -> bool
    decreases ts, ts.len() - i,
{
    if i < 0 || i >= ts.len() {
        true
    } else {
        map_key_type(ts[i]) && all_map_key(ts, i + 1)
    }
}

impl Type {
    /// Whether this is the error type.
    pub fn is_error(&self) -> (r: bool)
        ensures
            r == (*self is Error),
    {
        matches!(self, Type::Error)
    }

    /// Whether values of this type are copied rather than moved.
    pub fn is_copy(&self) -> (r: bool)
        ensures
            r == copyable(*self),
        decreases self,
    {
        match self {
            Type::Error | Type::Never | Type::Int | Type::Numeric(_) | Type::Bool | Type::Str
            | Type::Ptr(_) | Type::MutPtr(_) | Type::Slice(_) => true,
            Type::MutRef(_) | Type::MutSlice(_) => false,
            Type::Option(inner) => inner.is_copy(),
            Type::Result(ok, err) => ok.is_copy() && err.is_copy(),
            Type::Tuple(elements) => all_copy_from(elements, 0),
            Type::String | Type::Struct(_) | Type::Enum(_) | Type::MapOf(_, _) | Type::Array(_, _)
            | Type::Task(_) | Type::JoinHandle(_) | Type::AsyncChannel(_) | Type::SelectResult(_)
            | Type::Fn(_, _) => false,
        }
    }

    /// Whether this type may be used as a map key.
    pub fn supports_map_key(&self) -> (r: bool)
        ensures
            r == map_key_type(*self),
        decreases self,
    {
        match self {
            Type::Int | Type::Numeric(_) | Type::Bool | Type::String | Type::Str => true,
            Type::Tuple(elements) => all_map_key_from(elements, 0),
            _ => false,
        }
    }
}

fn all_copy_from(ts: &Vec<Type>, i: usize) -> (r: bool)
    ensures
        r == all_copyable(*ts, i as int),
    decreases ts, ts.len() - i,
{
    if i >= ts.len() {
        true
    } else {
        proof { assert(decreases_to!(ts => ts[i as int])); }
        ts[i].is_copy() && all_copy_from(ts, i + 1)
    }
}

fn all_map_key_from(ts: &Vec<Type>, i: usize) -> (r: bool)
    ensures
        r == all_map_key(*ts, i as int),
    decreases ts, ts.len() - i,
{
    if i >= ts.len() {
        true
    } else {
        proof { assert(decreases_to!(ts => ts[i as int])); }
        ts[i].supports_map_key() && all_map_key_from(ts, i + 1)
    }
}

/// Whether `ty` may be the operand of a numeric cast.
pub fn is_castable_numeric(ty: &Type) -> (r: bool)
    ensures
        r == (*ty is Int || *ty is Numeric),
{
    matches!(ty, Type::Int | Type::Numeric(_))
}

/// Whether values of `ty` may be ordered with `<`, `<=`, `>`, `>=`.
pub fn is_ordered_numeric(ty: &Type) -> (r: bool)
    ensures
        r == (*ty is Int || *ty is Numeric),
{
    matches!(ty, Type::Int | Type::Numeric(_))
}

/// Whether values of `ty` may be combined with arithmetic operators.
pub fn is_addable_numeric(ty: &Type) -> (r: bool)
    ensures
        r == (*ty is Int || *ty is Numeric),
{
    matches!(ty, Type::Int | Type::Numeric(_))
}

/// Whether `ty` is an owned or borrowed string.
pub fn is_string_like_type(ty: &Type) -> (r: bool)
    ensures
        r == (*ty is String || *ty is Str),
{
    matches!(ty, Type::String | Type::Str)
}

/// The name of the struct or enum that owns methods called on `ty`.
pub fn method_owner_name(ty: &Type) -> (r: Option<&str>)
    ensures
        match *ty {
            Type::Struct(name) => r is Some && r->0@ == name@,
            Type::Enum(name) => r is Some && r->0@ == name@,
            _ => r is None,
        },
{
    match ty {
        Type::Struct(name) | Type::Enum(name) => Some(name.as_str()),
        _ => None,
    }
}

/// Whether a type is an integer scalar (not a float).
pub open spec fn integer_type(t: Type) -> bool {
    match t {
        Type::Int => true,
        Type::Numeric(n) => !(n is F32 || n is F64),
        _ => false,
    }
}

/// The wrapping, checked and saturating arithmetic methods of integer types.
pub open spec fn numeric_method_kind(method: Seq<char>) -> int {
    if method == "wrapping_add"@ || method == "wrapping_sub"@ || method == "wrapping_mul"@
        || method == "wrapping_div"@ || method == "wrapping_rem"@ || method == "saturating_add"@
        || method == "saturating_sub"@ || method == "saturating_mul"@ {
        1
    } else if method == "checked_add"@ || method == "checked_sub"@ || method == "checked_mul"@
        || method == "checked_div"@ || method == "checked_rem"@ {
        2
    } else {
        0
    }
}

/// The result type of an integer arithmetic method: the receiver type for wrapping and
/// saturating methods, an optional receiver for checked methods.
pub fn numeric_method_return_ty(receiver: &Type, method: &str) -> (r: Option<Type>)
    ensures
        !integer_type(*receiver) || numeric_method_kind(method@) == 0 ==> r is None,
        integer_type(*receiver) && numeric_method_kind(method@) == 1 ==> r is Some && type_eq(r->0, *receiver),
        integer_type(*receiver) && numeric_method_kind(method@) == 2 ==> r is Some && (match r->0 {
            Type::Option(inner) => type_eq(*inner, *receiver),
            _ => false,
        }),
{
    let is_integer = match receiver {
        Type::Int => true,
        Type::Numeric(numeric) => !matches!(numeric, NumericType::F32 | NumericType::F64),
        _ => false,
    };
    if !is_integer {
        return None;
    }
    let kind = numeric_method_class(method);
    if kind == 1 {
        Some(clone_type(receiver))
    } else if kind == 2 {
        Some(Type::Option(Box::new(clone_type(receiver))))
    } else {
        None
    }
}

fn numeric_method_class(method: &str) -> (r: u8)
    ensures
        r as int == numeric_method_kind(method@),
{
    let m = String::from_str(method);
    if m == String::from_str("wrapping_add") || m == String::from_str("wrapping_sub")
        || m == String::from_str("wrapping_mul") || m == String::from_str("wrapping_div")
        || m == String::from_str("wrapping_rem") || m == String::from_str("saturating_add")
        || m == String::from_str("saturating_sub") || m == String::from_str("saturating_mul") {
        1
    } else if m == String::from_str("checked_add") || m == String::from_str("checked_sub")
        || m == String::from_str("checked_mul") || m == String::from_str("checked_div")
        || m == String::from_str("checked_rem") {
        2
    } else {
        0
    }
}

/// Whether borrowing a `String` expression as `&str` borrows a stable place.
pub fn is_stable_string_borrow_owner(expr: &Expr) -> (r: bool)
    ensures
        r == (*expr is VarRef || *expr is FieldAccess || *expr is TupleIndex),
{
    matches!(expr, Expr::VarRef { .. } | Expr::FieldAccess { .. } | Expr::TupleIndex { .. })
}

/// The message for a borrow of a temporary `String` where `&str` is expected.
pub open spec fn temporary_borrow_message() -> Seq<char> {
    "cannot borrow a temporary String as &str; bind the String to a local first"@
}

/// Coerces a `String` expression to `&str` where `&str` is expected: a borrow of a
/// stable place, or of a temporary where `allow_temporary_string_borrow` is set.
pub fn coerce_expr_to_expected(expr: Expr, expected: Option<&Type>, allow_temporary_string_borrow: bool) -> (r: Result<Expr, Diagnostic>)
    ensures
        match expected {
            Some(e) if *e is Str && expr_ty(expr) is String => {
                if !allow_temporary_string_borrow && !(expr is VarRef || expr is FieldAccess || expr is TupleIndex) {
                    r is Err && diag_fields(r->Err_0, "ownership"@, temporary_borrow_message(), None, None, None, None)
                } else {
                    r is Ok && r->Ok_0 == (Expr::StringBorrow { expr: Box::new(expr), ty: Type::Str })
                }
            },
            _ => r == Ok::<Expr, Diagnostic>(expr),
        },
{
    let borrow = match expected {
        Some(Type::Str) => matches!(expr.ty(), Type::String),
        _ => false,
    };
    if borrow {
        if !allow_temporary_string_borrow && !is_stable_string_borrow_owner(&expr) {
            return Err(Diagnostic::new(
                "ownership",
                String::from_str("cannot borrow a temporary String as &str; bind the String to a local first"),
            ));
        }
        Ok(Expr::StringBorrow { expr: Box::new(expr), ty: Type::Str })
    } else {
        Ok(expr)
    }
}

/// Coerces a lowered expression to the expected type, refusing borrows of temporaries.
pub fn coerce_lowered_expr_to_expected(lowered: Expr, expected: Option<&Type>) -> (r: Result<Expr, Diagnostic>)
    ensures
        match expected {
            Some(e) if *e is Str && expr_ty(lowered) is String => {
                if !(lowered is VarRef || lowered is FieldAccess || lowered is TupleIndex) {
                    r is Err && diag_fields(r->Err_0, "ownership"@, temporary_borrow_message(), None, None, None, None)
                } else {
                    r is Ok && r->Ok_0 == (Expr::StringBorrow { expr: Box::new(lowered), ty: Type::Str })
                }
            },
            _ => r == Ok::<Expr, Diagnostic>(lowered),
        },
{
    coerce_expr_to_expected(lowered, expected, false)
}

/// How a type is spelled in diagnostics.
pub open spec fn type_text(t: Type) -> Seq<char>
    decreases t,
{
    match t {
        Type::Error => "<type-error>"@,
        Type::Never => "!"@,
        Type::Int => "int"@,
        Type::Numeric(n) => numeric_name(n),
        Type::Bool => "bool"@,
        Type::String => "string"@,
        Type::Str => "&str"@,
        Type::Struct(name) => name@,
        Type::Enum(name) => name@,
        Type::Ptr(inner) => "ptr<"@ + type_text(*inner) + ">"@,
        Type::MutPtr(inner) => "mutptr<"@ + type_text(*inner) + ">"@,
        Type::MutRef(inner) => "&mut "@ + type_text(*inner),
        Type::Slice(inner) => "&["@ + type_text(*inner) + "]"@,
        Type::MutSlice(inner) => "&mut ["@ + type_text(*inner) + "]"@,
        Type::Option(inner) => "Option<"@ + type_text(*inner) + ">"@,
        Type::Result(ok, err) => "Result<"@ + type_text(*ok) + ", "@ + type_text(*err) + ">"@,
        Type::Tuple(elements) => "("@ + types_text(elements, 0) + ")"@,
        Type::MapOf(key, value) => "{"@ + type_text(*key) + ": "@ + type_text(*value) + "}"@,
        Type::Array(inner, Some(len)) => "["@ + type_text(*inner) + "; "@ + decimal(len as nat) + "]"@,
        Type::Array(inner, None) => "["@ + type_text(*inner) + "]"@,
        Type::Task(inner) => "Task<"@ + type_text(*inner) + ">"@,
        Type::JoinHandle(inner) => "JoinHandle<"@ + type_text(*inner) + ">"@,
        Type::AsyncChannel(inner) => "AsyncChannel<"@ + type_text(*inner) + ">"@,
        Type::SelectResult(inner) => "SelectResult<"@ + type_text(*inner) + ">"@,
        Type::Fn(params, ret) => "fn("@ + types_text(params, 0) + "): "@ + type_text(*ret),
    }
}

/// The spellings of a type list from position `i` on, separated by `, `.
pub open spec fn types_text(ts: Vec<Type>, i: int) -> Seq<char>
    decreases ts, ts.len() - i,
{
    if i < 0 || i >= ts.len() {
        Seq::empty()
    } else if i == ts.len() - 1 {
        type_text(ts[i])
    } else {
        type_text(ts[i]) + ", "@ + types_text(ts, i + 1)
    }
}

/// Appends the spelling of `t` to `out`.
pub fn push_type_text(out: &mut String, t: &Type)
    ensures
        final(out)@ == old(out)@ + type_text(*t),
    decreases t,
{
    let ghost start = out@;
    match t {
        Type::Error => out.append("<type-error>"),
        Type::Never => out.append("!"),
        Type::Int => out.append("int"),
        Type::Numeric(n) => out.append(n.as_str()),
        Type::Bool => out.append("bool"),
        Type::String => out.append("string"),
        Type::Str => out.append("&str"),
        Type::Struct(name) => out.append(name.as_str()),
        Type::Enum(name) => out.append(name.as_str()),
        Type::Ptr(inner) => {
            out.append("ptr<");
            push_type_text(out, inner);
            out.append(">");
        },
        Type::MutPtr(inner) => {
            out.append("mutptr<");
            push_type_text(out, inner);
            out.append(">");
        },
        Type::MutRef(inner) => {
            out.append("&mut ");
            push_type_text(out, inner);
        },
        Type::Slice(inner) => {
            out.append("&[");
            push_type_text(out, inner);
            out.append("]");
        },
        Type::MutSlice(inner) => {
            out.append("&mut [");
            push_type_text(out, inner);
            out.append("]");
        },
        Type::Option(inner) => {
            out.append("Option<");
            push_type_text(out, inner);
            out.append(">");
        },
        Type::Result(ok, err) => {
            out.append("Result<");
            push_type_text(out, ok);
            out.append(", ");
            push_type_text(out, err);
            out.append(">");
        },
        Type::Tuple(elements) => {
            out.append("(");
            push_types_text(out, elements, 0);
            out.append(")");
        },
        Type::MapOf(key, value) => {
            out.append("{");
            push_type_text(out, key);
            out.append(": ");
            push_type_text(out, value);
            out.append("}");
        },
        Type::Array(inner, len) => {
            out.append("[");
            push_type_text(out, inner);
            match len {
                Some(n) => {
                    out.append("; ");
                    push_decimal(out, *n as u64);
                },
                None => {},
            }
            out.append("]");
        },
        Type::Task(inner) => {
            out.append("Task<");
            push_type_text(out, inner);
            out.append(">");
        },
        Type::JoinHandle(inner) => {
            out.append("JoinHandle<");
            push_type_text(out, inner);
            out.append(">");
        },
        Type::AsyncChannel(inner) => {
            out.append("AsyncChannel<");
            push_type_text(out, inner);
            out.append(">");
        },
        Type::SelectResult(inner) => {
            out.append("SelectResult<");
            push_type_text(out, inner);
            out.append(">");
        },
        Type::Fn(params, ret) => {
            out.append("fn(");
            push_types_text(out, params, 0);
            out.append("): ");
            push_type_text(out, ret);
        },
    }
    proof {
        assert(out@ =~= start + type_text(*t));
    }
}

fn push_types_text(out: &mut String, ts: &Vec<Type>, i: usize)
    ensures
        final(out)@ == old(out)@ + types_text(*ts, i as int),
    decreases ts, ts.len() - i,
{
    if i >= ts.len() {
        proof { assert(out@ =~= out@ + Seq::<char>::empty()); }
        return;
    }
    let ghost start = out@;
    proof { assert(decreases_to!(ts => ts[i as int])); }
    push_type_text(out, &ts[i]);
    if i + 1 < ts.len() {
        out.append(", ");
        push_types_text(out, ts, i + 1);
    }
    proof {
        assert(out@ =~= start + types_text(*ts, i as int));
    }
}

/// The spelling of `t` in diagnostics.
pub fn type_to_string(t: &Type) -> (r: String)
    ensures
        r@ == type_text(*t),
{
    let mut out = String::new();
    push_type_text(&mut out, t);
    proof { assert(out@ =~= type_text(*t)); }
    out
}

} // verus!
