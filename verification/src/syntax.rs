//! Surface syntax of the Cachet language, as produced by the parser and by
//! code generators that emit Cachet source.

use vstd::prelude::*;

use crate::ident::{Ident, Path};
use crate::span::Spanned;

verus! {

/// Whether a check is verified or assumed.
#[derive(Clone, Copy, PartialEq, Eq, Structural, Debug)]
pub enum CheckKind {
    Assert,
    Assume,
}

/// The kinds of unary negation.
#[derive(Clone, Copy, PartialEq, Eq, Structural, Debug)]
pub enum NegateKind {
    Arith,
    Bitwise,
    Logical,
}

/// How a variable parameter is passed.
#[derive(Clone, Copy, PartialEq, Eq, Structural, Debug)]
pub enum VarParamKind {
    In,
    Mut,
    Out,
}

/// Arithmetic binary operators.
#[derive(Clone, Copy, PartialEq, Eq, Structural, Debug)]
pub enum ArithBinOper {
    Mul,
    Div,
    Mod,
    Add,
    Sub,
}

/// Bitwise binary operators.
#[derive(Clone, Copy, PartialEq, Eq, Structural, Debug)]
pub enum BitwiseBinOper {
    Shl,
    Shr,
    And,
    Xor,
    Or,
}

/// Ordering comparisons between numbers.
#[derive(Clone, Copy, PartialEq, Eq, Structural, Debug)]
pub enum NumericCompareBinOper {
    Lt,
    Gt,
    Lte,
    Gte,
}

/// Comparison operators.
#[derive(Clone, Copy, PartialEq, Eq, Structural, Debug)]
pub enum CompareBinOper {
    Eq,
    Neq,
    Numeric(NumericCompareBinOper),
}

/// Logical binary operators.
#[derive(Clone, Copy, PartialEq, Eq, Structural, Debug)]
pub enum LogicalBinOper {
    And,
    Or,
}

/// Binary operators.
#[derive(Clone, Copy, PartialEq, Eq, Structural, Debug)]
pub enum BinOper {
    Arith(ArithBinOper),
    Bitwise(BitwiseBinOper),
    Compare(CompareBinOper),
    Logical(LogicalBinOper),
}

/// An attribute `#[path]`.
pub struct Attr {
    pub path: Spanned<Path>,
}

/// A module: a sequence of items.
pub struct Mod {
    pub items: Vec<Spanned<Item>>,
}

/// A top-level or nested item.
pub enum Item {
    Comment(Comment),
    Enum(EnumItem),
    Import(ImportItem),
    Struct(StructItem),
    Ir(IrItem),
    Impl(ImplItem),
    GlobalVar(GlobalVarItem),
    Fn(CallableItem),
    Op(CallableItem),
}

/// A line comment.
pub struct Comment {
    pub text: String,
}

/// An enumeration and its variants.
pub struct EnumItem {
    pub ident: Spanned<Ident>,
    pub attrs: Vec<Attr>,
    pub variants: Vec<Spanned<Ident>>,
}

/// An import of another source file, by path.
pub struct ImportItem {
    pub file_path: Spanned<String>,
}

/// A structure, its optional supertype and its fields.
pub struct StructItem {
    pub ident: Spanned<Ident>,
    pub supertype: Option<Spanned<Path>>,
    pub attrs: Vec<Attr>,
    pub fields: Vec<Field>,
}

/// A field of a structure: a variable or a label.
pub enum Field {
    Var(VarField),
    Label(Label),
}

impl Field {
    /// The name of the field.
    pub fn ident(&self) -> (r: Spanned<Ident>)
        ensures
            r.span == (match self {
                Field::Var(v) => v.ident.span,
                Field::Label(l) => l.ident.span,
            }),
            r.value == (match self {
                Field::Var(v) => v.ident.value,
                Field::Label(l) => l.ident.value,
            }),
    {
        match self {
            Field::Var(var_field) => Spanned::new(var_field.ident.span, var_field.ident.value.clone()),
            Field::Label(label) => Spanned::new(label.ident.span, label.ident.value.clone()),
        }
    }
}

/// A variable field and its type.
pub struct VarField {
    pub ident: Spanned<Ident>,
    pub type_: Spanned<Path>,
}

/// An intermediate representation: its name, the representation it emits,
/// and its members.
pub struct IrItem {
    pub ident: Spanned<Ident>,
    pub emits: Option<Spanned<Path>>,
    pub items: Vec<Spanned<Item>>,
}

/// Members attached to an existing type.
pub struct ImplItem {
    pub parent: Spanned<Path>,
    pub items: Vec<Spanned<Item>>,
}

/// A global variable, with its type and optional initial value.
pub struct GlobalVarItem {
    pub ident: Spanned<Ident>,
    pub attrs: Vec<Attr>,
    pub is_mut: bool,
    pub type_: Spanned<Path>,
    pub value: Option<Spanned<Expr>>,
}

/// A function or an operation.
pub struct CallableItem {
    pub ident: Spanned<Ident>,
    pub attrs: Vec<Attr>,
    pub is_unsafe: bool,
    pub params: Vec<Param>,
    pub emits: Option<Spanned<Path>>,
    pub ret: Option<Spanned<Path>>,
    pub body: Spanned<Option<Block>>,
}

/// A parameter of a callable.
pub enum Param {
    Var(VarParam),
    Label(LabelParam),
}

/// A variable parameter.
pub struct VarParam {
    pub ident: Spanned<Ident>,
    pub kind: VarParamKind,
    pub type_: Spanned<Path>,
}

/// A label parameter.
pub struct LabelParam {
    pub label: Label,
    pub is_out: bool,
}

/// A label of a given representation.
pub struct Label {
    pub ident: Spanned<Ident>,
    pub ir: Spanned<Path>,
}

/// An argument of a call.
pub enum Arg {
    Expr(Expr),
    Free(FreeArg),
    FieldAccess(FieldAccess),
    OutFreshVar(LocalVar),
    OutFreshLabel(LocalLabel),
}

/// An argument that is a bare path, to be told apart later.
pub struct FreeArg {
    pub path: Spanned<Path>,
    pub is_out: bool,
}

/// `parent.field`.
pub struct FieldAccess {
    pub parent: Spanned<Expr>,
    pub field: Spanned<Ident>,
}

/// `target(args)`.
pub struct Call {
    pub target: Spanned<Path>,
    pub args: Spanned<Vec<Spanned<Arg>>>,
}

/// A local variable declaration.
pub struct LocalVar {
    pub ident: Spanned<Ident>,
    pub is_mut: bool,
    pub type_: Option<Spanned<Path>>,
}

/// A local label declaration.
pub struct LocalLabel {
    pub ident: Spanned<Ident>,
    pub ir: Option<Spanned<Path>>,
}

/// A block of statements with an optional trailing value.
pub struct Block {
    pub stmts: Vec<Spanned<Stmt>>,
    pub value: Spanned<Option<Expr>>,
}

/// A statement.
pub enum Stmt {
    Comment(Comment),
    Let(LetStmt),
    Label(LabelStmt),
    If(IfStmt),
    Check(CheckStmt),
    Goto(GotoStmt),
    Bind(BindStmt),
    Emit(Call),
    Ret(RetStmt),
    Expr(Expr),
}

/// `let lhs = rhs;`.
pub struct LetStmt {
    pub lhs: LocalVar,
    pub rhs: Spanned<Expr>,
}

/// `label ident: ir;`.
pub struct LabelStmt {
    pub label: Label,
}

/// `if cond { then } else ...`.
pub struct IfStmt {
    pub cond: Spanned<Expr>,
    pub then: Block,
    pub else_: Option<ElseClause>,
}

/// The `else` part of an `if`.
pub enum ElseClause {
    ElseIf(Box<IfStmt>),
    Else(Block),
}

/// `assert cond;` or `assume cond;`.
pub struct CheckStmt {
    pub kind: CheckKind,
    pub cond: Spanned<Expr>,
}

/// `goto label;`.
pub struct GotoStmt {
    pub label: Spanned<Path>,
}

/// `bind label;`.
pub struct BindStmt {
    pub label: Spanned<Path>,
}

/// `return value;`.
pub struct RetStmt {
    pub value: Spanned<Option<Expr>>,
}

/// An expression.
pub enum Expr {
    Literal(Literal),
    Var(Spanned<Path>),
    Invoke(Call),
    FieldAccess(Box<FieldAccess>),
    Negate(Box<NegateExpr>),
    Cast(Box<CastExpr>),
    BinOper(Box<BinOperExpr>),
    Assign(Box<AssignExpr>),
}

/// An integer literal of a given width and signedness.
#[derive(Clone, Copy, PartialEq, Eq, Structural, Debug)]
pub enum Literal {
    Int8(i8),
    Int16(i16),
    Int32(i32),
    Int64(i64),
    UInt8(u8),
    UInt16(u16),
    UInt32(u32),
    UInt64(u64),
}

/// `-expr`, `~expr` or `!expr`.
pub struct NegateExpr {
    pub kind: Spanned<NegateKind>,
    pub expr: Spanned<Expr>,
}

/// `expr as type`.
pub struct CastExpr {
    pub expr: Spanned<Expr>,
    pub type_: Spanned<Path>,
}

/// `lhs oper rhs`.
pub struct BinOperExpr {
    pub oper: Spanned<BinOper>,
    pub lhs: Spanned<Expr>,
    pub rhs: Spanned<Expr>,
}

/// `lhs = rhs`.
pub struct AssignExpr {
    pub lhs: Spanned<Path>,
    pub rhs: Spanned<Expr>,
}

} // verus!
