//! The parsed source program that lowering consumes.
use vstd::prelude::*;
use crate::model::NumericType;

verus! {

/// A type as written in source.
#[derive(Debug)]
pub enum TypeName {
    Int,
    Numeric(NumericType),
    Bool,
    String,
    Str,
    Named(String, Vec<TypeName>),
    Ptr(Box<TypeName>),
    MutPtr(Box<TypeName>),
    MutRef(Box<TypeName>),
    Slice(Box<TypeName>),
    MutSlice(Box<TypeName>),
    LifetimeSlice(String, Box<TypeName>),
    LifetimeMutSlice(String, Box<TypeName>),
    Option(Box<TypeName>),
    Result(Box<TypeName>, Box<TypeName>),
    MapOf(Box<TypeName>, Box<TypeName>),
    Tuple(Vec<TypeName>),
    Array(Box<TypeName>, Option<String>),
    Fn(Vec<TypeName>, Box<TypeName>),
}

/// A literal as written in source.
#[derive(Debug)]
pub enum Literal {
    Int(i64),
    Bool(bool),
    String(String),
}

/// Arithmetic operators as written in source.
#[derive(Clone, Copy, Debug, PartialEq, Eq, Structural)]
pub enum ArithmeticOp {
    Add,
    Sub,
    Mul,
    Div,
}

/// Comparison operators as written in source.
#[derive(Clone, Copy, Debug, PartialEq, Eq, Structural)]
pub enum CompareOp {
    Eq,
    Ne,
    Lt,
    Le,
    Gt,
    Ge,
}

/// Logical operators as written in source.
#[derive(Clone, Copy, Debug, PartialEq, Eq, Structural)]
pub enum LogicOp {
    And,
    Or,
}

/// Prefix operators as written in source: `*e`, `&mut e` and `e.await`.
#[derive(Clone, Copy, Debug, PartialEq, Eq, Structural)]
pub enum UnaryOp {
    Deref,
    MutBorrow,
    Await,
}

/// An expression as written in source.
#[derive(Debug)]
pub enum Expr {
    Literal(Literal),
    VarRef { name: String, line: usize, column: usize },
    Call { name: String, type_args: Vec<TypeName>, args: Vec<Expr>, line: usize, column: usize },
    BinaryAdd { op: ArithmeticOp, lhs: Box<Expr>, rhs: Box<Expr>, line: usize, column: usize },
    BinaryCompare { op: CompareOp, lhs: Box<Expr>, rhs: Box<Expr>, line: usize, column: usize },
    BinaryLogic { op: LogicOp, lhs: Box<Expr>, rhs: Box<Expr>, line: usize, column: usize },
    Unary { op: UnaryOp, expr: Box<Expr>, line: usize, column: usize },
    TupleLiteral { elements: Vec<Expr>, line: usize, column: usize },
    ArrayLiteral { elements: Vec<Expr>, line: usize, column: usize },
    Cast { expr: Box<Expr>, ty: TypeName, line: usize, column: usize },
}

/// One arm of a `match` statement as written in source.
#[derive(Debug)]
pub struct MatchArm {
    pub variant: String,
    pub bindings: Vec<String>,
    pub is_named: bool,
    pub body: Vec<Stmt>,
    pub line: usize,
    pub column: usize,
}

/// A statement as written in source.
#[derive(Debug)]
pub enum Stmt {
    Let { name: String, ty: TypeName, expr: Expr, line: usize, column: usize },
    Print { expr: Expr, line: usize, column: usize },
    Panic { expr: Expr, line: usize, column: usize },
    Defer { expr: Expr, line: usize, column: usize },
    Assign { target: Expr, expr: Expr, line: usize, column: usize },
    If { cond: Expr, then_block: Vec<Stmt>, else_block: Option<Vec<Stmt>>, line: usize, column: usize },
    While { cond: Expr, body: Vec<Stmt>, line: usize, column: usize },
    Match { expr: Expr, arms: Vec<MatchArm>, line: usize, column: usize },
    Break { line: usize, column: usize },
    Continue { line: usize, column: usize },
    Return { expr: Expr, line: usize, column: usize },
}

/// A function parameter as written in source.
#[derive(Debug)]
pub struct Param {
    pub name: String,
    pub ty: TypeName,
    pub line: usize,
    pub column: usize,
}

/// A function declaration as written in source.
#[derive(Debug)]
pub struct Function {
    pub name: String,
    pub source_name: String,
    pub path: String,
    pub type_params: Vec<String>,
    pub params: Vec<Param>,
    pub return_ty: TypeName,
    pub body: Vec<Stmt>,
    pub is_const: bool,
    pub is_async: bool,
    pub is_extern: bool,
    pub extern_abi: Option<String>,
    pub extern_library: Option<String>,
    pub line: usize,
    pub column: usize,
}

/// An enum variant declaration as written in source.
#[derive(Debug)]
pub struct EnumVariantDecl {
    pub name: String,
    pub payload_tys: Vec<TypeName>,
    pub payload_names: Vec<String>,
    pub line: usize,
    pub column: usize,
}

/// An enum declaration as written in source.
#[derive(Debug)]
pub struct EnumDecl {
    pub name: String,
    pub type_params: Vec<String>,
    pub variants: Vec<EnumVariantDecl>,
    pub line: usize,
    pub column: usize,
}

/// A struct field declaration as written in source.
#[derive(Debug)]
pub struct StructField {
    pub name: String,
    pub ty: TypeName,
    pub line: usize,
    pub column: usize,
}

/// A struct declaration as written in source.
#[derive(Debug)]
pub struct StructDecl {
    pub name: String,
    pub type_params: Vec<String>,
    pub fields: Vec<StructField>,
    pub line: usize,
    pub column: usize,
}

/// A type alias declaration as written in source.
#[derive(Debug)]
pub struct TypeAliasDecl {
    pub name: String,
    pub ty: TypeName,
    pub line: usize,
    pub column: usize,
}

/// A `const` or `static` declaration as written in source.
#[derive(Debug)]
pub struct ConstDecl {
    pub name: String,
    pub ty: TypeName,
    pub expr: Expr,
    pub is_static: bool,
    pub line: usize,
    pub column: usize,
}

/// A parsed source file.
#[derive(Debug)]
pub struct Program {
    pub path: String,
    pub consts: Vec<ConstDecl>,
    pub structs: Vec<StructDecl>,
    pub enums: Vec<EnumDecl>,
    pub type_aliases: Vec<TypeAliasDecl>,
    pub functions: Vec<Function>,
    pub stmts: Vec<Stmt>,
}

/// The line an expression starts on (literals carry no position: 0).
pub open spec fn expr_line(e: Expr) -> usize {
    match e {
        Expr::Literal(_) => 0,
        Expr::VarRef { line, .. } => line,
        Expr::Call { line, .. } => line,
        Expr::BinaryAdd { line, .. } => line,
        Expr::BinaryCompare { line, .. } => line,
        Expr::BinaryLogic { line, .. } => line,
        Expr::Unary { line, .. } => line,
        Expr::TupleLiteral { line, .. } => line,
        Expr::ArrayLiteral { line, .. } => line,
        Expr::Cast { line, .. } => line,
    }
}

/// The column an expression starts at (literals carry no position: 0).
pub open spec fn expr_column(e: Expr) -> usize {
    match e {
        Expr::Literal(_) => 0,
        Expr::VarRef { column, .. } => column,
        Expr::Call { column, .. } => column,
        Expr::BinaryAdd { column, .. } => column,
        Expr::BinaryCompare { column, .. } => column,
        Expr::BinaryLogic { column, .. } => column,
        Expr::Unary { column, .. } => column,
        Expr::TupleLiteral { column, .. } => column,
        Expr::ArrayLiteral { column, .. } => column,
        Expr::Cast { column, .. } => column,
    }
}

impl Expr {
    /// The line this expression starts on.
    pub fn line(&self) -> (r: usize)
        ensures
            r == expr_line(*self),
    {
        match self {
            Expr::Literal(_) => 0,
            Expr::VarRef { line, .. } | Expr::Call { line, .. } | Expr::BinaryAdd { line, .. }
            | Expr::BinaryCompare { line, .. } | Expr::BinaryLogic { line, .. } | Expr::Unary { line, .. } | Expr::TupleLiteral { line, .. }
            | Expr::ArrayLiteral { line, .. } | Expr::Cast { line, .. } => *line,
        }
    }

    /// The column this expression starts at.
    pub fn column(&self) -> (r: usize)
        ensures
            r == expr_column(*self),
    {
        match self {
            Expr::Literal(_) => 0,
            Expr::VarRef { column, .. } | Expr::Call { column, .. } | Expr::BinaryAdd { column, .. }
            | Expr::BinaryCompare { column, .. } | Expr::BinaryLogic { column, .. } | Expr::Unary { column, .. } | Expr::TupleLiteral { column, .. }
            | Expr::ArrayLiteral { column, .. } | Expr::Cast { column, .. } => *column,
        }
    }
}

/// The line a statement starts on.
pub open spec fn stmt_line(s: Stmt) -> usize {
    match s {
        Stmt::Let { line, .. } => line,
        Stmt::Print { line, .. } | Stmt::Panic { line, .. } | Stmt::Defer { line, .. } | Stmt::Assign { line, .. } => line,
        Stmt::If { line, .. } => line,
        Stmt::While { line, .. } => line,
        Stmt::Match { line, .. } => line,
        Stmt::Break { line, .. } => line,
        Stmt::Continue { line, .. } => line,
        Stmt::Return { line, .. } => line,
    }
}

/// The column a statement starts at.
pub open spec fn stmt_column(s: Stmt) -> usize {
    match s {
        Stmt::Let { column, .. } => column,
        Stmt::Print { column, .. } | Stmt::Panic { column, .. } | Stmt::Defer { column, .. } | Stmt::Assign { column, .. } => column,
        Stmt::If { column, .. } => column,
        Stmt::While { column, .. } => column,
        Stmt::Match { column, .. } => column,
        Stmt::Break { column, .. } => column,
        Stmt::Continue { column, .. } => column,
        Stmt::Return { column, .. } => column,
    }
}

impl Stmt {
    /// The line this statement starts on.
    pub fn line(&self) -> (r: usize)
        ensures
            r == stmt_line(*self),
    {
        match self {
            Stmt::Let { line, .. } | Stmt::Print { line, .. } | Stmt::Panic { line, .. } | Stmt::Defer { line, .. } | Stmt::Assign { line, .. } | Stmt::If { line, .. } | Stmt::While { line, .. }
            | Stmt::Match { line, .. } | Stmt::Break { line, .. } | Stmt::Continue { line, .. }
            | Stmt::Return { line, .. } => *line,
        }
    }

    /// The column this statement starts at.
    pub fn column(&self) -> (r: usize)
        ensures
            r == stmt_column(*self),
    {
        match self {
            Stmt::Let { column, .. } | Stmt::Print { column, .. } | Stmt::Panic { column, .. } | Stmt::Defer { column, .. } | Stmt::Assign { column, .. } | Stmt::If { column, .. }
            | Stmt::While { column, .. } | Stmt::Match { column, .. } | Stmt::Break { column, .. }
            | Stmt::Continue { column, .. } | Stmt::Return { column, .. } => *column,
        }
    }
}

/// Every call in `e` sits at a column that a one-character span can end after.
pub open spec fn expr_spans_ok(e: Expr) -> bool
    decreases e,
{
    match e {
        Expr::Literal(_) | Expr::VarRef { .. } => true,
        Expr::Call { args, column, .. } => column < usize::MAX && args_spans_ok(args, 0),
        Expr::BinaryAdd { lhs, rhs, .. } | Expr::BinaryCompare { lhs, rhs, .. } | Expr::BinaryLogic { lhs, rhs, .. } => {
            expr_spans_ok(*lhs) && expr_spans_ok(*rhs)
        },
        Expr::Unary { expr, column, .. } | Expr::Cast { expr, column, .. } => column < usize::MAX && expr_spans_ok(*expr),
        Expr::TupleLiteral { elements, column, .. } => column < usize::MAX && args_spans_ok(elements, 0),
        Expr::ArrayLiteral { elements, column, .. } => column < usize::MAX && args_spans_ok(elements, 0),
    }
}

/// `expr_spans_ok` for the arguments from position `i` on.
pub open spec fn args_spans_ok(args: Vec<Expr>, i: int) -> bool
    decreases args, args.len() - i,
{
    if i < 0 || i >= args.len() {
        true
    } else {
        expr_spans_ok(args[i]) && args_spans_ok(args, i + 1)
    }
}

/// Every statement and call in `s` sits at a column that a one-character span can end after.
pub open spec fn stmt_spans_ok(s: Stmt) -> bool
    decreases s,
{
    &&& stmt_column(s) < usize::MAX
    &&& match s {
        Stmt::Let { expr, .. } | Stmt::Print { expr, .. } | Stmt::Panic { expr, .. } | Stmt::Defer { expr, .. }
        | Stmt::Return { expr, .. } => expr_spans_ok(expr),
        Stmt::Assign { target, expr, .. } => expr_spans_ok(target) && expr_spans_ok(expr),
        Stmt::If { cond, then_block, else_block, .. } => {
            &&& expr_spans_ok(cond)
            &&& block_spans_ok(then_block, 0)
            &&& match else_block {
                Some(b) => block_spans_ok(b, 0),
                None => true,
            }
        },
        Stmt::While { cond, body, .. } => expr_spans_ok(cond) && block_spans_ok(body, 0),
        Stmt::Match { expr, arms, .. } => expr_spans_ok(expr) && arms_spans_ok(arms, 0),
        Stmt::Break { .. } | Stmt::Continue { .. } => true,
    }
}

/// `stmt_spans_ok` for the statements from position `i` on.
pub open spec fn block_spans_ok(block: Vec<Stmt>, i: int) -> bool
    decreases block, block.len() - i,
{
    if i < 0 || i >= block.len() {
        true
    } else {
        stmt_spans_ok(block[i]) && block_spans_ok(block, i + 1)
    }
}

/// `stmt_spans_ok` for the bodies of the match arms from position `i` on.
pub open spec fn arms_spans_ok(arms: Vec<MatchArm>, i: int) -> bool
    decreases arms, arms.len() - i,
{
    if i < 0 || i >= arms.len() {
        true
    } else {
        block_spans_ok(arms[i].body, 0) && arms_spans_ok(arms, i + 1)
    }
}

/// Decides `expr_spans_ok`.
pub fn check_expr_spans(e: &Expr) -> (r: bool)
    ensures
        r == expr_spans_ok(*e),
    decreases e,
{
    match e {
        Expr::Literal(_) | Expr::VarRef { .. } => true,
        Expr::Call { args, column, .. } => *column < usize::MAX && check_args_spans(args, 0),
        Expr::BinaryAdd { lhs, rhs, .. } | Expr::BinaryCompare { lhs, rhs, .. } | Expr::BinaryLogic { lhs, rhs, .. } => {
            check_expr_spans(lhs) && check_expr_spans(rhs)
        },
        Expr::Unary { expr, column, .. } | Expr::Cast { expr, column, .. } => *column < usize::MAX && check_expr_spans(expr),
        Expr::TupleLiteral { elements, column, .. } => *column < usize::MAX && check_args_spans(elements, 0),
        Expr::ArrayLiteral { elements, column, .. } => *column < usize::MAX && check_args_spans(elements, 0),
    }
}

/// Decides `args_spans_ok`.
pub fn check_args_spans(args: &Vec<Expr>, i: usize) -> (r: bool)
    requires
        i <= args.len(),
    ensures
        r == args_spans_ok(*args, i as int),
    decreases args, args.len() - i,
{
    if i >= args.len() {
        return true;
    }
    proof { assert(decreases_to!(args => args[i as int])); }
    check_expr_spans(&args[i]) && check_args_spans(args, i + 1)
}

/// Decides `stmt_spans_ok`.
pub fn check_stmt_spans(s: &Stmt) -> (r: bool)
    ensures
        r == stmt_spans_ok(*s),
    decreases s,
{
    if s.column() == usize::MAX {
        return false;
    }
    match s {
        Stmt::Let { expr, .. } | Stmt::Print { expr, .. } | Stmt::Panic { expr, .. } | Stmt::Defer { expr, .. }
        | Stmt::Return { expr, .. } => check_expr_spans(expr),
        Stmt::Assign { target, expr, .. } => check_expr_spans(target) && check_expr_spans(expr),
        Stmt::If { cond, then_block, else_block, .. } => {
            check_expr_spans(cond) && check_block_spans(then_block, 0) && match else_block {
                Some(b) => check_block_spans(b, 0),
                None => true,
            }
        },
        Stmt::While { cond, body, .. } => check_expr_spans(cond) && check_block_spans(body, 0),
        Stmt::Match { expr, arms, .. } => check_expr_spans(expr) && check_arms_spans(arms, 0),
        Stmt::Break { .. } | Stmt::Continue { .. } => true,
    }
}

/// Decides `block_spans_ok`.
pub fn check_block_spans(block: &Vec<Stmt>, i: usize) -> (r: bool)
    requires
        i <= block.len(),
    ensures
        r == block_spans_ok(*block, i as int),
    decreases block, block.len() - i,
{
    if i >= block.len() {
        return true;
    }
    proof { assert(decreases_to!(block => block[i as int])); }
    check_stmt_spans(&block[i]) && check_block_spans(block, i + 1)
}

/// Decides `arms_spans_ok`.
pub fn check_arms_spans(arms: &Vec<MatchArm>, i: usize) -> (r: bool)
    requires
        i <= arms.len(),
    ensures
        r == arms_spans_ok(*arms, i as int),
    decreases arms, arms.len() - i,
{
    if i >= arms.len() {
        return true;
    }
    proof { assert(decreases_to!(arms => arms[i as int])); }
    check_block_spans(&arms[i].body, 0) && check_arms_spans(arms, i + 1)
}

} // verus!
