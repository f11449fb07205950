//! The lowered program representation and its type relations.
use vstd::prelude::*;
use crate::syntax;

verus! {

/// A lowered program.
#[derive(Debug)]
pub struct Program {
    pub path: String,
    pub structs: Vec<StructDef>,
    pub enums: Vec<EnumDef>,
    pub traits: Vec<TraitDef>,
    pub statics: Vec<StaticDef>,
    pub functions: Vec<Function>,
    pub stmts: Vec<Stmt>,
}

/// A lowered struct definition.
#[derive(Debug)]
pub struct StructDef {
    pub name: String,
    pub fields: Vec<StructField>,
}

/// A lowered struct field.
#[derive(Debug)]
pub struct StructField {
    pub name: String,
    pub ty: Type,
}

/// A lowered enum definition.
#[derive(Debug)]
pub struct EnumDef {
    pub name: String,
    pub variants: Vec<EnumVariantDef>,
}

/// A lowered enum variant.
#[derive(Debug)]
pub struct EnumVariantDef {
    pub name: String,
    pub payload_tys: Vec<Type>,
    pub payload_names: Vec<String>,
}

/// A lowered trait definition.
#[derive(Debug)]
pub struct TraitDef {
    pub name: String,
    pub methods: Vec<TraitMethodDef>,
}

/// A trait method signature, kept in source form.
#[derive(Debug)]
pub struct TraitMethodDef {
    pub name: String,
    pub params: Vec<syntax::TypeName>,
    pub return_ty: syntax::TypeName,
    pub has_self: bool,
}

/// A lowered `static` declaration.
#[derive(Debug)]
pub struct StaticDef {
    pub name: String,
    pub ty: Type,
    pub expr: Expr,
}

/// A lowered function.
#[derive(Debug)]
pub struct Function {
    pub name: String,
    pub source_name: String,
    pub path: String,
    pub params: Vec<Param>,
    pub return_ty: Type,
    pub body: Vec<Stmt>,
    pub is_property: bool,
    pub is_async: bool,
    pub is_extern: bool,
    pub extern_abi: Option<String>,
    pub extern_library: Option<String>,
    pub line: usize,
    pub column: usize,
}

/// A lowered parameter.
#[derive(Debug)]
pub struct Param {
    pub name: String,
    pub ty: Type,
}

/// A source range: start and end positions.
#[derive(Clone, Copy, Debug, PartialEq, Eq, Structural)]
pub struct SourceSpan {
    pub line: usize,
    pub column: usize,
    pub end_line: usize,
    pub end_column: usize,
}

impl SourceSpan {
    /// The one-character span at `line`, `column`.
    pub fn point(line: usize, column: usize) -> (span: SourceSpan)
        requires
            column < usize::MAX,
        ensures
            span == (SourceSpan { line, column, end_line: line, end_column: (column + 1) as usize }),
    {
        SourceSpan { line, column, end_line: line, end_column: column + 1 }
    }

    /// The span from (`line`, `column`) to (`end_line`, `end_column`).
    pub fn range(line: usize, column: usize, end_line: usize, end_column: usize) -> (span: SourceSpan)
        ensures
            span == (SourceSpan { line, column, end_line, end_column }),
    {
        SourceSpan { line, column, end_line, end_column }
    }
}

/// A lowered statement.
#[derive(Debug)]
pub enum Stmt {
    Let { name: String, ty: Type, expr: Expr, borrow_region_facts: Vec<BorrowRegionFact>, span: SourceSpan },
    Assign { target: Expr, expr: Expr, span: SourceSpan },
    Print { expr: Expr, span: SourceSpan },
    Panic { message: Expr, span: SourceSpan },
    Defer { expr: Expr, span: SourceSpan },
    If { cond: Expr, then_block: Vec<Stmt>, else_block: Option<Vec<Stmt>>, span: SourceSpan },
    While { cond: Expr, body: Vec<Stmt>, span: SourceSpan },
    Match { expr: Expr, arms: Vec<MatchArm>, span: SourceSpan },
    Break { span: SourceSpan },
    Continue { span: SourceSpan },
    Return { expr: Expr, borrow_region_facts: Vec<BorrowRegionFact>, span: SourceSpan },
}

/// One arm of a lowered `match` statement.
#[derive(Debug)]
pub struct MatchArm {
    pub enum_name: String,
    pub variant: String,
    pub bindings: Vec<String>,
    pub is_named: bool,
    pub ignore_payloads: bool,
    pub borrow_region_facts: Vec<BorrowRegionFact>,
    pub body: Vec<Stmt>,
}

/// One entry of a lowered map literal.
#[derive(Debug)]
pub struct MapEntry {
    pub key: Expr,
    pub value: Expr,
}

/// A lowered, typed expression.
#[derive(Debug)]
pub enum Expr {
    Literal { ty: Type, value: LiteralValue },
    VarRef { name: String, ty: Type },
    Call { name: String, args: Vec<Expr>, ty: Type, span: SourceSpan },
    BinaryAdd { op: ArithmeticOp, lhs: Box<Expr>, rhs: Box<Expr>, ty: Type },
    BinaryCompare { op: CompareOp, lhs: Box<Expr>, rhs: Box<Expr>, ty: Type },
    BinaryLogic { op: LogicOp, lhs: Box<Expr>, rhs: Box<Expr>, ty: Type },
    Cast { expr: Box<Expr>, ty: Type },
    MutBorrow { expr: Box<Expr>, ty: Type },
    Deref { expr: Box<Expr>, ty: Type },
    Try { expr: Box<Expr>, ty: Type },
    Await { expr: Box<Expr>, ty: Type },
    StructLiteral { name: String, fields: Vec<StructFieldValue>, ty: Type },
    FieldAccess { base: Box<Expr>, field: String, ty: Type },
    TupleLiteral { elements: Vec<Expr>, ty: Type },
    TupleIndex { base: Box<Expr>, index: usize, ty: Type },
    MapLiteral { entries: Vec<MapEntry>, ty: Type },
    EnumVariant { enum_name: String, variant: String, field_names: Vec<String>, payloads: Vec<Expr>, ty: Type },
    ArrayLiteral { elements: Vec<Expr>, ty: Type },
    Closure { params: Vec<Param>, body: Box<Expr>, ty: Type },
    Slice { base: Box<Expr>, start: Option<Box<Expr>>, end: Option<Box<Expr>>, ty: Type },
    Index { base: Box<Expr>, index: Box<Expr>, ty: Type },
    StringBorrow { expr: Box<Expr>, ty: Type },
    Match { expr: Box<Expr>, arms: Vec<MatchExprArm>, ty: Type },
}

/// One arm of a lowered `match` expression.
#[derive(Debug)]
pub struct MatchExprArm {
    pub enum_name: String,
    pub variant: String,
    pub bindings: Vec<String>,
    pub is_named: bool,
    pub expr: Expr,
}

/// A fact about which owner a borrowed binding or return value points into.
#[derive(Debug)]
pub struct BorrowRegionFact {
    pub binding: String,
    pub origin: BorrowRegionOrigin,
    pub scope: BorrowRegionScope,
    pub source: BorrowRegionSource,
}

/// The owner that a borrow points into, with the projection path within it.
#[derive(Debug)]
pub struct BorrowRegionOrigin {
    pub name: String,
    pub projection: Vec<BorrowRegionProjection>,
}

/// One step of a projection path.
#[derive(Debug)]
pub enum BorrowRegionProjection {
    Field(String),
    TupleIndex(usize),
}

/// How long a borrow region lives.
#[derive(Debug)]
pub enum BorrowRegionScope {
    Binding(String),
    Return { function: String, projection: Vec<BorrowRegionProjection> },
}

/// Where a borrow region comes from.
#[derive(Debug)]
pub enum BorrowRegionSource {
    Direct,
    EnumPayload { enum_origin: BorrowRegionOrigin, variant: String, payload_index: usize },
    AggregateReturn,
}

/// A lowered literal value.
#[derive(Debug)]
pub enum LiteralValue {
    Int(i64),
    Numeric { raw: String, ty: NumericType },
    Bool(bool),
    String(String),
}

/// Comparison operators.
#[derive(Clone, Copy, Debug, PartialEq, Eq, Structural)]
pub enum CompareOp {
    Eq,
    Ne,
    Lt,
    Le,
    Gt,
    Ge,
}

/// Logical operators.
#[derive(Clone, Copy, Debug, PartialEq, Eq, Structural)]
pub enum LogicOp {
    And,
    Or,
}

/// Arithmetic operators.
#[derive(Clone, Copy, Debug, PartialEq, Eq, Structural)]
pub enum ArithmeticOp {
    Add,
    Sub,
    Mul,
    Div,
}

/// A lowered struct-literal field initializer.
#[derive(Debug)]
pub struct StructFieldValue {
    pub name: String,
    pub expr: Expr,
}

/// The type annotation carried by an expression.
pub open spec fn expr_ty(e: Expr) -> Type {
    match e {
        Expr::Literal { ty, .. } => ty,
        Expr::VarRef { ty, .. } => ty,
        Expr::Call { ty, .. } => ty,
        Expr::BinaryAdd { ty, .. } => ty,
        Expr::BinaryCompare { ty, .. } => ty,
        Expr::BinaryLogic { ty, .. } => ty,
        Expr::Cast { ty, .. } => ty,
        Expr::MutBorrow { ty, .. } => ty,
        Expr::Deref { ty, .. } => ty,
        Expr::Try { ty, .. } => ty,
        Expr::Await { ty, .. } => ty,
        Expr::StructLiteral { ty, .. } => ty,
        Expr::FieldAccess { ty, .. } => ty,
        Expr::TupleLiteral { ty, .. } => ty,
        Expr::TupleIndex { ty, .. } => ty,
        Expr::MapLiteral { ty, .. } => ty,
        Expr::EnumVariant { ty, .. } => ty,
        Expr::ArrayLiteral { ty, .. } => ty,
        Expr::Closure { ty, .. } => ty,
        Expr::Slice { ty, .. } => ty,
        Expr::Index { ty, .. } => ty,
        Expr::StringBorrow { ty, .. } => ty,
        Expr::Match { ty, .. } => ty,
    }
}

impl Expr {
    /// The expression's type annotation.
    pub fn ty(&self) -> (r: &Type)
        ensures
            *r == expr_ty(*self),
    {
        match self {
            Expr::Literal { ty, .. } => ty,
            Expr::VarRef { ty, .. } => ty,
            Expr::Call { ty, .. } => ty,
            Expr::BinaryAdd { ty, .. } => ty,
            Expr::BinaryCompare { ty, .. } => ty,
            Expr::BinaryLogic { ty, .. } => ty,
            Expr::Cast { ty, .. } => ty,
            Expr::MutBorrow { ty, .. } => ty,
            Expr::Deref { ty, .. } => ty,
            Expr::Try { ty, .. } => ty,
            Expr::Await { ty, .. } => ty,
            Expr::StructLiteral { ty, .. } => ty,
            Expr::FieldAccess { ty, .. } => ty,
            Expr::TupleLiteral { ty, .. } => ty,
            Expr::TupleIndex { ty, .. } => ty,
            Expr::MapLiteral { ty, .. } => ty,
            Expr::EnumVariant { ty, .. } => ty,
            Expr::ArrayLiteral { ty, .. } => ty,
            Expr::Closure { ty, .. } => ty,
            Expr::Slice { ty, .. } => ty,
            Expr::Index { ty, .. } => ty,
            Expr::StringBorrow { ty, .. } => ty,
            Expr::Match { ty, .. } => ty,
        }
    }
}

/// The source spelling of a comparison operator.
pub open spec fn compare_lexeme(op: CompareOp) -> Seq<char> {
    match op {
        CompareOp::Eq => seq!['=', '='],
        CompareOp::Ne => seq!['!', '='],
        CompareOp::Lt => seq!['<'],
        CompareOp::Le => seq!['<', '='],
        CompareOp::Gt => seq!['>'],
        CompareOp::Ge => seq!['>', '='],
    }
}

impl CompareOp {
    /// The operator's source spelling.
    pub fn lexeme(self) -> (s: &'static str)
        ensures
            s@ == compare_lexeme(self),
    {
        match self {
            CompareOp::Eq => {
                proof { reveal_strlit("=="); }
                "=="
            },
            CompareOp::Ne => {
                proof { reveal_strlit("!="); }
                "!="
            },
            CompareOp::Lt => {
                proof { reveal_strlit("<"); }
                "<"
            },
            CompareOp::Le => {
                proof { reveal_strlit("<="); }
                "<="
            },
            CompareOp::Gt => {
                proof { reveal_strlit(">"); }
                ">"
            },
            CompareOp::Ge => {
                proof { reveal_strlit(">="); }
                ">="
            },
        }
    }
}

/// The source spelling of a logical operator.
pub open spec fn logic_lexeme(op: LogicOp) -> Seq<char> {
    match op {
        LogicOp::And => seq!['&', '&'],
        LogicOp::Or => seq!['|', '|'],
    }
}

impl LogicOp {
    /// The operator's source spelling.
    pub fn lexeme(self) -> (s: &'static str)
        ensures
            s@ == logic_lexeme(self),
    {
        match self {
            LogicOp::And => {
                proof { reveal_strlit("&&"); }
                "&&"
            },
            LogicOp::Or => {
                proof { reveal_strlit("||"); }
                "||"
            },
        }
    }
}

/// The sized numeric scalar types of the source language.
#[derive(Clone, Copy, Debug, PartialEq, Eq, Structural)]
pub enum NumericType {
    I8,
    I16,
    I32,
    I64,
    U8,
    U16,
    U32,
    U64,
    F32,
    F64,
}

/// A lowered type.
#[derive(Debug)]
pub enum Type {
    Error,
    Never,
    Int,
    Numeric(NumericType),
    Bool,
    String,
    Str,
    Struct(String),
    Enum(String),
    Ptr(Box<Type>),
    MutPtr(Box<Type>),
    MutRef(Box<Type>),
    Slice(Box<Type>),
    MutSlice(Box<Type>),
    Option(Box<Type>),
    Result(Box<Type>, Box<Type>),
    Tuple(Vec<Type>),
    MapOf(Box<Type>, Box<Type>),
    Array(Box<Type>, Option<usize>),
    Task(Box<Type>),
    JoinHandle(Box<Type>),
    AsyncChannel(Box<Type>),
    SelectResult(Box<Type>),
    Fn(Vec<Type>, Box<Type>),
}

/// Type equality: the same constructor with equal names and equal components.
pub open spec fn type_eq(a: Type, b: Type) -> bool
    decreases a,
{
    match (a, b) {
        (Type::Error, Type::Error) => true,
        (Type::Never, Type::Never) => true,
        (Type::Int, Type::Int) => true,
        (Type::Bool, Type::Bool) => true,
        (Type::String, Type::String) => true,
        (Type::Str, Type::Str) => true,
        (Type::Numeric(x), Type::Numeric(y)) => x == y,
        (Type::Struct(x), Type::Struct(y)) => x@ == y@,
        (Type::Enum(x), Type::Enum(y)) => x@ == y@,
        (Type::Ptr(x), Type::Ptr(y)) => type_eq(*x, *y),
        (Type::MutPtr(x), Type::MutPtr(y)) => type_eq(*x, *y),
        (Type::MutRef(x), Type::MutRef(y)) => type_eq(*x, *y),
        (Type::Slice(x), Type::Slice(y)) => type_eq(*x, *y),
        (Type::MutSlice(x), Type::MutSlice(y)) => type_eq(*x, *y),
        (Type::Option(x), Type::Option(y)) => type_eq(*x, *y),
        (Type::Task(x), Type::Task(y)) => type_eq(*x, *y),
        (Type::JoinHandle(x), Type::JoinHandle(y)) => type_eq(*x, *y),
        (Type::AsyncChannel(x), Type::AsyncChannel(y)) => type_eq(*x, *y),
        (Type::SelectResult(x), Type::SelectResult(y)) => type_eq(*x, *y),
        (Type::Result(x1, x2), Type::Result(y1, y2)) => type_eq(*x1, *y1) && type_eq(*x2, *y2),
        (Type::MapOf(x1, x2), Type::MapOf(y1, y2)) => type_eq(*x1, *y1) && type_eq(*x2, *y2),
        (Type::Tuple(xs), Type::Tuple(ys)) => types_eq(xs, ys, 0),
        (Type::Array(x, n), Type::Array(y, m)) => type_eq(*x, *y) && n == m,
        (Type::Fn(xs, x), Type::Fn(ys, y)) => types_eq(xs, ys, 0) && type_eq(*x, *y),
        _ => false,
    }
}

/// Pointwise equality of two type lists from position `i` on.
pub open spec fn types_eq(xs: Vec<Type>, ys: Vec<Type>, i: int) -> bool
    decreases xs, xs.len() - i,
{
    if xs.len() != ys.len() {
        false
    } else if i < 0 || i >= xs.len() {
        true
    } else {
        type_eq(xs[i], ys[i]) && types_eq(xs, ys, i + 1)
    }
}


/// Pointwise equality of equal-length lists gives list equality.
pub proof fn lemma_types_eq_pointwise(xs: Vec<Type>, ys: Vec<Type>, i: int)
    requires
        xs.len() == ys.len(),
        0 <= i,
        forall|j: int| i <= j < xs.len() ==> type_eq(#[trigger] xs[j], ys[j]),
    ensures
        types_eq(xs, ys, i),
    decreases xs.len() - i,
{
    if i < xs.len() {
        lemma_types_eq_pointwise(xs, ys, i + 1);
    }
}

/// Type equality is transitive.
pub proof fn lemma_type_eq_transitive(a: Type, b: Type, c: Type)
    requires
        type_eq(a, b),
        type_eq(b, c),
    ensures
        type_eq(a, c),
    decreases a,
{
    match (a, b, c) {
        (Type::Ptr(x), Type::Ptr(y), Type::Ptr(z)) | (Type::MutPtr(x), Type::MutPtr(y), Type::MutPtr(z))
        | (Type::MutRef(x), Type::MutRef(y), Type::MutRef(z)) | (Type::Slice(x), Type::Slice(y), Type::Slice(z))
        | (Type::MutSlice(x), Type::MutSlice(y), Type::MutSlice(z)) | (Type::Option(x), Type::Option(y), Type::Option(z))
        | (Type::Task(x), Type::Task(y), Type::Task(z)) | (Type::JoinHandle(x), Type::JoinHandle(y), Type::JoinHandle(z))
        | (Type::AsyncChannel(x), Type::AsyncChannel(y), Type::AsyncChannel(z))
        | (Type::SelectResult(x), Type::SelectResult(y), Type::SelectResult(z))
        | (Type::Array(x, _), Type::Array(y, _), Type::Array(z, _)) => lemma_type_eq_transitive(*x, *y, *z),
        (Type::Result(x1, x2), Type::Result(y1, y2), Type::Result(z1, z2))
        | (Type::MapOf(x1, x2), Type::MapOf(y1, y2), Type::MapOf(z1, z2)) => {
            lemma_type_eq_transitive(*x1, *y1, *z1);
            lemma_type_eq_transitive(*x2, *y2, *z2);
        },
        (Type::Tuple(xs), Type::Tuple(ys), Type::Tuple(zs)) => lemma_types_eq_transitive(xs, ys, zs, 0),
        (Type::Fn(xs, x), Type::Fn(ys, y), Type::Fn(zs, z)) => {
            lemma_types_eq_transitive(xs, ys, zs, 0);
            lemma_type_eq_transitive(*x, *y, *z);
        },
        _ => {},
    }
}

/// Pointwise type equality of lists is transitive.
pub proof fn lemma_types_eq_transitive(xs: Vec<Type>, ys: Vec<Type>, zs: Vec<Type>, i: int)
    requires
        types_eq(xs, ys, i),
        types_eq(ys, zs, i),
    ensures
        types_eq(xs, zs, i),
    decreases xs, xs.len() - i,
{
    if 0 <= i < xs.len() {
        assert(decreases_to!(xs => xs[i]));
        lemma_type_eq_transitive(xs[i], ys[i], zs[i]);
        lemma_types_eq_transitive(xs, ys, zs, i + 1);
    }
}

/// Deep copy of a type.
pub fn clone_type(t: &Type) -> (r: Type)
    ensures
        type_eq(r, *t),
    decreases t,
{
    match t {
        Type::Error => Type::Error,
        Type::Never => Type::Never,
        Type::Int => Type::Int,
        Type::Numeric(n) => Type::Numeric(*n),
        Type::Bool => Type::Bool,
        Type::String => Type::String,
        Type::Str => Type::Str,
        Type::Struct(name) => Type::Struct(name.clone()),
        Type::Enum(name) => Type::Enum(name.clone()),
        Type::Ptr(x) => Type::Ptr(Box::new(clone_type(x))),
        Type::MutPtr(x) => Type::MutPtr(Box::new(clone_type(x))),
        Type::MutRef(x) => Type::MutRef(Box::new(clone_type(x))),
        Type::Slice(x) => Type::Slice(Box::new(clone_type(x))),
        Type::MutSlice(x) => Type::MutSlice(Box::new(clone_type(x))),
        Type::Option(x) => Type::Option(Box::new(clone_type(x))),
        Type::Task(x) => Type::Task(Box::new(clone_type(x))),
        Type::JoinHandle(x) => Type::JoinHandle(Box::new(clone_type(x))),
        Type::AsyncChannel(x) => Type::AsyncChannel(Box::new(clone_type(x))),
        Type::SelectResult(x) => Type::SelectResult(Box::new(clone_type(x))),
        Type::Result(x, y) => Type::Result(Box::new(clone_type(x)), Box::new(clone_type(y))),
        Type::MapOf(x, y) => Type::MapOf(Box::new(clone_type(x)), Box::new(clone_type(y))),
        Type::Array(x, n) => Type::Array(Box::new(clone_type(x)), *n),
        Type::Tuple(xs) => {
            let ys = clone_types(xs);
            proof { lemma_types_eq_pointwise(ys, *xs, 0); }
            Type::Tuple(ys)
        },
        Type::Fn(xs, x) => {
            let ys = clone_types(xs);
            proof { lemma_types_eq_pointwise(ys, *xs, 0); }
            Type::Fn(ys, Box::new(clone_type(x)))
        },
    }
}

/// Deep copy of a type list.
pub fn clone_types(ts: &Vec<Type>) -> (r: Vec<Type>)
    ensures
        r.len() == ts.len(),
        forall|i: int| 0 <= i < ts.len() ==> type_eq(#[trigger] r[i], ts[i]),
    decreases ts,
{
    let mut out: Vec<Type> = Vec::new();
    let mut i: usize = 0;
    while i < ts.len()
        invariant
            i <= ts.len(),
            out.len() == i,
            forall|j: int| 0 <= j < i ==> type_eq(#[trigger] out[j], ts[j]),
        decreases ts.len() - i,
    {
        proof { assert(decreases_to!(ts => ts[i as int])); }
        let c = clone_type(&ts[i]);
        out.push(c);
        i = i + 1;
    }
    out
}

/// Decides type equality.
pub fn type_equals(a: &Type, b: &Type) -> (r: bool)
    ensures
        r == type_eq(*a, *b),
    decreases a,
{
    match (a, b) {
        (Type::Error, Type::Error) => true,
        (Type::Never, Type::Never) => true,
        (Type::Int, Type::Int) => true,
        (Type::Bool, Type::Bool) => true,
        (Type::String, Type::String) => true,
        (Type::Str, Type::Str) => true,
        (Type::Numeric(x), Type::Numeric(y)) => *x == *y,
        (Type::Struct(x), Type::Struct(y)) => *x == *y,
        (Type::Enum(x), Type::Enum(y)) => *x == *y,
        (Type::Ptr(x), Type::Ptr(y)) => type_equals(x, y),
        (Type::MutPtr(x), Type::MutPtr(y)) => type_equals(x, y),
        (Type::MutRef(x), Type::MutRef(y)) => type_equals(x, y),
        (Type::Slice(x), Type::Slice(y)) => type_equals(x, y),
        (Type::MutSlice(x), Type::MutSlice(y)) => type_equals(x, y),
        (Type::Option(x), Type::Option(y)) => type_equals(x, y),
        (Type::Task(x), Type::Task(y)) => type_equals(x, y),
        (Type::JoinHandle(x), Type::JoinHandle(y)) => type_equals(x, y),
        (Type::AsyncChannel(x), Type::AsyncChannel(y)) => type_equals(x, y),
        (Type::SelectResult(x), Type::SelectResult(y)) => type_equals(x, y),
        (Type::Result(x1, x2), Type::Result(y1, y2)) => type_equals(x1, y1) && type_equals(x2, y2),
        (Type::MapOf(x1, x2), Type::MapOf(y1, y2)) => type_equals(x1, y1) && type_equals(x2, y2),
        (Type::Tuple(xs), Type::Tuple(ys)) => types_equal_from(xs, ys, 0),
        (Type::Array(x, n), Type::Array(y, m)) => type_equals(x, y) && *n == *m,
        (Type::Fn(xs, x), Type::Fn(ys, y)) => types_equal_from(xs, ys, 0) && type_equals(x, y),
        _ => false,
    }
}

/// Decides pointwise equality of two type lists from position `i` on.
pub fn types_equal_from(xs: &Vec<Type>, ys: &Vec<Type>, i: usize) -> (r: bool)
    ensures
        r == types_eq(*xs, *ys, i as int),
    decreases xs, xs.len() - i,
{
    if xs.len() != ys.len() {
        false
    } else if i >= xs.len() {
        true
    } else {
        proof { assert(decreases_to!(xs => xs[i as int])); }
        if !type_equals(&xs[i], &ys[i]) {
            false
        } else {
            types_equal_from(xs, ys, i + 1)
        }
    }
}

impl PartialEq for Type {
    fn eq(&self, other: &Self) -> (r: bool) {
        type_equals(self, other)
    }
}

impl vstd::std_specs::cmp::PartialEqSpecImpl for Type {
    open spec fn obeys_eq_spec() -> bool {
        true
    }

    open spec fn eq_spec(&self, other: &Type) -> bool {
        type_eq(*self, *other)
    }
}

/// The unification of two types: `Never` and `Error` give way to the other side.
pub open spec fn unify_spec(left: Type, right: Type) -> Option<Type> {
    if left is Never && right is Never {
        Some(Type::Never)
    } else if left is Never {
        Some(right)
    } else if right is Never {
        Some(left)
    } else if left is Error {
        Some(right)
    } else if right is Error {
        Some(left)
    } else if type_eq(left, right) {
        Some(left)
    } else {
        None
    }
}

/// Unifies two types.
pub fn unify_types(left: &Type, right: &Type) -> (r: Option<Type>)
    ensures
        r is Some <==> unify_spec(*left, *right) is Some,
        r is Some ==> type_eq(r->0, unify_spec(*left, *right)->0),
{
    match (left, right) {
        (Type::Never, Type::Never) => Some(Type::Never),
        (Type::Never, other) => Some(clone_type(other)),
        (other, Type::Never) => Some(clone_type(other)),
        (Type::Error, other) => Some(clone_type(other)),
        (other, Type::Error) => Some(clone_type(other)),
        _ => {
            if type_equals(left, right) {
                Some(clone_type(left))
            } else {
                None
            }
        },
    }
}

/// Whether a value of type `actual` may be used where `expected` is required.
pub open spec fn assignable(actual: Type, expected: Type) -> bool
    decreases actual,
{
    if actual is Never || expected is Error || actual is Error {
        true
    } else {
        match (actual, expected) {
            (Type::Array(a, alen), Type::Array(e, elen)) => assignable(*a, *e) && (elen is None
                || alen == elen),
            (Type::Ptr(a), Type::Ptr(e)) => assignable(*a, *e),
            (Type::MutPtr(a), Type::MutPtr(e)) => assignable(*a, *e),
            (Type::MutRef(a), Type::MutRef(e)) => assignable(*a, *e),
            (Type::Slice(a), Type::Slice(e)) => assignable(*a, *e),
            (Type::MutSlice(a), Type::MutSlice(e)) => assignable(*a, *e),
            (Type::Option(a), Type::Option(e)) => assignable(*a, *e),
            (Type::Task(a), Type::Task(e)) => assignable(*a, *e),
            (Type::JoinHandle(a), Type::JoinHandle(e)) => assignable(*a, *e),
            (Type::AsyncChannel(a), Type::AsyncChannel(e)) => assignable(*a, *e),
            (Type::SelectResult(a), Type::SelectResult(e)) => assignable(*a, *e),
            (Type::Result(a1, a2), Type::Result(e1, e2)) => assignable(*a1, *e1) && assignable(*a2, *e2),
            (Type::MapOf(a1, a2), Type::MapOf(e1, e2)) => assignable(*a1, *e1) && assignable(*a2, *e2),
            (Type::Tuple(a), Type::Tuple(e)) => all_assignable(a, e, 0),
            (Type::Fn(ap, ar), Type::Fn(ep, er)) => all_assignable(ap, ep, 0) && assignable(*ar, *er),
            _ => type_eq(actual, expected),
        }
    }
}

/// Pointwise assignability of two equally long type lists from position `i` on.
pub open spec fn all_assignable(actual: Vec<Type>, expected: Vec<Type>, i: int) -> bool
    decreases actual, actual.len() - i,
{
    if actual.len() != expected.len() {
        false
    } else if i < 0 || i >= actual.len() {
        true
    } else {
        assignable(actual[i], expected[i]) && all_assignable(actual, expected, i + 1)
    }
}

/// Decides whether `actual` may be used where `expected` is required.
pub fn type_assignable_to(actual: &Type, expected: &Type) -> (r: bool)
    ensures
        r == assignable(*actual, *expected),
    decreases actual,
{
    match (actual, expected) {
        (Type::Never, _) => true,
        (_, Type::Error) => true,
        (Type::Error, _) => true,
        (Type::Array(a, alen), Type::Array(e, elen)) => {
            type_assignable_to(a, e) && match elen {
                Some(len) => *alen == Some(*len),
                None => true,
            }
        },
        (Type::Ptr(a), Type::Ptr(e)) => type_assignable_to(a, e),
        (Type::MutPtr(a), Type::MutPtr(e)) => type_assignable_to(a, e),
        (Type::MutRef(a), Type::MutRef(e)) => type_assignable_to(a, e),
        (Type::Slice(a), Type::Slice(e)) => type_assignable_to(a, e),
        (Type::MutSlice(a), Type::MutSlice(e)) => type_assignable_to(a, e),
        (Type::Option(a), Type::Option(e)) => type_assignable_to(a, e),
        (Type::Task(a), Type::Task(e)) => type_assignable_to(a, e),
        (Type::JoinHandle(a), Type::JoinHandle(e)) => type_assignable_to(a, e),
        (Type::AsyncChannel(a), Type::AsyncChannel(e)) => type_assignable_to(a, e),
        (Type::SelectResult(a), Type::SelectResult(e)) => type_assignable_to(a, e),
        (Type::Result(a1, a2), Type::Result(e1, e2)) => type_assignable_to(a1, e1)
            && type_assignable_to(a2, e2),
        (Type::MapOf(a1, a2), Type::MapOf(e1, e2)) => type_assignable_to(a1, e1)
            && type_assignable_to(a2, e2),
        (Type::Tuple(a), Type::Tuple(e)) => all_assignable_from(a, e, 0),
        (Type::Fn(ap, ar), Type::Fn(ep, er)) => all_assignable_from(ap, ep, 0)
            && type_assignable_to(ar, er),
        _ => match unify_types(actual, expected) {
            Some(ty) => type_equals(&ty, expected),
            None => false,
        },
    }
}

/// Decides pointwise assignability of two type lists from position `i` on.
pub fn all_assignable_from(actual: &Vec<Type>, expected: &Vec<Type>, i: usize) -> (r: bool)
    ensures
        r == all_assignable(*actual, *expected, i as int),
    decreases actual, actual.len() - i,
{
    if actual.len() != expected.len() {
        false
    } else if i >= actual.len() {
        true
    } else {
        proof { assert(decreases_to!(actual => actual[i as int])); }
        type_assignable_to(&actual[i], &expected[i]) && all_assignable_from(actual, expected, i + 1)
    }
}

} // verus!
