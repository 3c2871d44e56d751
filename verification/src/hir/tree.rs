//! Resolved expressions.
//!
//! Names are gone: every reference is a canonical name with the module that
//! owns it, or the number of a local. A part that could not be resolved is an
//! `Error` node over what could.

use crate::exact_rational::ExactRational;
use crate::syntax::ast::{BinOp, FloatBits, KeyFormKind, MulDivOp, PluginPath, UnaryOp, UnitRef};
use crate::syntax::names::{
    ConstructorName, DeclName, DimName, FieldName, FnName, GenericParamName, IndexName, IndexVariantName, LocalName,
    ModuleAliasName, StructTypeName, UnitName,
};
use crate::syntax::non_empty::NonEmpty;
use crate::syntax::span::{Span, Spanned};
use vstd::prelude::*;

verus! {

#[derive(Clone, Copy, Debug, PartialEq, Eq, Structural)]
pub enum BuiltinConst {
    Pi,
    Tau,
    E,
}

#[derive(Clone, Copy, Debug, PartialEq, Eq, Structural)]
pub enum TimeScale {
    UTC,
    TAI,
    TT,
    TDB,
    GPST,
}

#[derive(Clone, Copy, Debug, PartialEq, Eq, Structural)]
pub enum BuiltinFnName {
    Sqrt,
    Abs,
    Sign,
    Exp,
    Ln,
    Log10,
    Sin,
    Cos,
    Tan,
    Asin,
    Acos,
    Atan,
    Atan2,
    Min,
    Max,
    Floor,
    Ceil,
    Round,
    Sum,
    Mean,
    Count,
    Dot,
    Matmul,
    Transpose,
    Eye,
    Datetime,
    Epoch,
}

#[derive(Debug, PartialEq, Eq)]
pub struct DagId {
    pub segments: Vec<String>,
}

#[derive(Debug, PartialEq, Eq)]
pub struct ResolvedDeclName {
    pub owner: DagId,
    pub name: DeclName,
}

#[derive(Debug, PartialEq, Eq)]
pub struct ResolvedIndexName {
    pub owner: DagId,
    pub name: IndexName,
}

#[derive(Debug, PartialEq, Eq)]
pub struct ResolvedConstructorName {
    pub owner: DagId,
    pub name: ConstructorName,
}

#[derive(Debug, PartialEq, Eq)]
pub struct ResolvedStructTypeName {
    pub owner: DagId,
    pub name: StructTypeName,
}

#[derive(Debug, PartialEq, Eq)]
pub struct ResolvedDimName {
    pub owner: DagId,
    pub name: DimName,
}

#[derive(Debug, PartialEq, Eq)]
pub struct ResolvedUnitName {
    pub owner: DagId,
    pub name: UnitName,
}

#[derive(Debug, PartialEq, Eq)]
pub struct ResolvedIndexVariant {
    pub index: ResolvedIndexName,
    pub variant: IndexVariantName,
}

#[derive(Debug, PartialEq, Eq)]
pub struct GenericParamId {
    pub name: GenericParamName,
}

#[derive(Clone, Copy, Debug, PartialEq, Eq, Structural)]
pub struct LocalId {
    pub id: u32,
}

#[derive(Debug, PartialEq, Eq)]
pub struct LocalDef {
    pub id: LocalId,
    pub name: LocalName,
    pub span: Span,
}

#[derive(Debug, PartialEq, Eq)]
pub struct IndexVariantRef {
    pub variant: ResolvedIndexVariant,
    pub index_span: Option<Span>,
    pub additional_index_spans: Vec<Span>,
    pub variant_span: Span,
}

#[derive(Debug, PartialEq, Eq)]
pub struct ResolvedUnitRef {
    pub spelling: UnitRef,
    pub resolved: ResolvedUnitName,
}

#[derive(Debug, PartialEq, Eq)]
pub struct ResolvedUnitExprItem {
    pub op: MulDivOp,
    pub name: Spanned<ResolvedUnitRef>,
    pub power: ExactRational,
}

#[derive(Debug, PartialEq, Eq)]
pub struct ResolvedUnitExpr {
    pub terms: Vec<ResolvedUnitExprItem>,
    pub span: Span,
}

#[derive(Debug, PartialEq, Eq)]
pub enum TypeSystemRef {
    Type(ResolvedStructTypeName),
    Dimension(ResolvedDimName),
    Index(ResolvedIndexName),
    IndexVariant(ResolvedIndexVariant),
}

#[derive(Debug, PartialEq, Eq)]
pub enum ConstRef {
    Decl(ResolvedDeclName),
    Constructor(ResolvedConstructorName),
    Builtin(BuiltinConst),
    TimeScale(TimeScale),
    GenericNatParam(GenericParamId),
}

#[derive(Debug, PartialEq, Eq)]
pub struct ExternFnRef {
    pub plugin: PluginPath,
    pub alias: ModuleAliasName,
    pub name: FnName,
}

#[derive(Debug, PartialEq, Eq)]
pub enum FunctionRef {
    Builtin(BuiltinFnName),
    Epoch { scale: Spanned<TimeScale> },
    External(ExternFnRef),
}

#[derive(Debug, PartialEq, Eq)]
pub enum MapKeyAxis {
    Explicit(Spanned<ResolvedIndexName>),
    Contextual,
}

#[derive(Debug)]
pub enum NatExpr {
    Literal(u64, Span),
    Param(GenericParamId, Span),
    Add(Vec<NatExpr>, Span),
    Mul(Vec<NatExpr>, Span),
}

/// A dimension, or a generic parameter that stands for one.
#[derive(Debug, PartialEq, Eq)]
pub enum DimRef {
    Named(ResolvedDimName),
    Param(GenericParamId),
}

#[derive(Debug, PartialEq, Eq)]
pub struct DimExprItem {
    pub op: MulDivOp,
    pub dimension: Spanned<DimRef>,
    pub power: ExactRational,
}

/// A product of powers of dimensions; without items, no dimension.
#[derive(Debug, PartialEq, Eq)]
pub struct DimExpr {
    pub items: Vec<DimExprItem>,
    pub span: Span,
}

/// An index, or a generic parameter that stands for one.
#[derive(Debug)]
pub enum IndexRef {
    Axis(ForBindingIndex),
    Param(GenericParamId, Span),
}

/// A type. Bounds on its values are no part of it.
#[derive(Debug)]
pub struct TypeExpr {
    pub kind: TypeExprKind,
    pub span: Span,
}

#[derive(Debug)]
#[allow(inconsistent_fields)]
pub enum TypeExprKind {
    Dimensionless,
    Bool,
    Int,
    Datetime,
    DatetimeApplication { type_args: Vec<TypeExpr> },
    /// The time scale of a date and time.
    TimeScale(TimeScale),
    ComplexApplication { generic_args: Vec<GenericArg> },
    KeyApplication { generic_args: Vec<GenericArg> },
    Quantity(DimExpr),
    Struct { name: ResolvedStructTypeName, generic_args: Vec<GenericArg> },
    Param(GenericParamId),
    Indexed { base: Box<TypeExpr>, indexes: Vec<IndexRef> },
}

#[derive(Debug)]
pub enum GenericArg {
    Nat(NatExpr),
    Index(IndexRef),
    Dimension(DimExpr),
    Type(TypeExpr),
}

#[derive(Debug)]
pub enum ForBindingIndex {
    Named(Spanned<ResolvedIndexName>),
    Finite { cardinality: NatExpr, span: Span },
}

#[derive(Debug)]
pub struct ForBinding {
    pub local: LocalDef,
    pub index: ForBindingIndex,
}

#[derive(Debug, PartialEq, Eq)]
pub enum PatternBinding {
    Bind { field: Spanned<FieldName>, local: LocalDef },
    Wildcard { field: Spanned<FieldName>, span: Span },
}

#[derive(Debug, PartialEq, Eq)]
pub enum MatchPattern {
    Constructor { constructor: Spanned<ResolvedConstructorName>, bindings: Vec<PatternBinding>, span: Span },
    IndexLabel { variant: IndexVariantRef, span: Span },
}

#[derive(Debug, PartialEq, Eq)]
pub struct UnfoldRecurrence {
    pub axis: Spanned<ResolvedIndexName>,
    pub previous_state: LocalDef,
    pub previous_index: LocalDef,
    pub current_index: LocalDef,
}

#[derive(Clone, Copy, Debug, PartialEq, Eq, Structural)]
pub struct CivilDateTimeLiteral {
    pub year: i16,
    pub month: i8,
    pub day: i8,
    pub hour: i8,
    pub minute: i8,
    pub second: i8,
    pub nanosecond: i32,
}

#[derive(Clone, Copy, Debug, PartialEq, Eq, Structural)]
pub struct OffsetDateTimeLiteral {
    pub second: i64,
    pub nanosecond: i32,
}

#[derive(Debug, PartialEq, Eq)]
pub struct IanaTimeZoneId {
    pub name: String,
}

#[derive(Debug, PartialEq, Eq)]
pub struct ZonedDateTimeLiteral {
    pub datetime: CivilDateTimeLiteral,
    pub time_zone: IanaTimeZoneId,
    pub second: i64,
    pub nanosecond: i32,
}

#[derive(Debug)]
pub struct Expr {
    pub kind: ExprKind,
    pub span: Span,
}

#[derive(Debug)]
#[allow(inconsistent_fields)]
pub enum ExprKind {
    Error { children: Vec<Expr> },
    Number(FloatBits),
    Integer(i64),
    Bool(bool),
    StringLiteral(String),
    OffsetDateTimeLiteral(OffsetDateTimeLiteral),
    CivilDateTimeLiteral(CivilDateTimeLiteral),
    ZonedDateTimeLiteral(ZonedDateTimeLiteral),
    IanaTimeZoneLiteral(IanaTimeZoneId),
    TypeSystemRef(Spanned<TypeSystemRef>),
    GraphRef(Spanned<ResolvedDeclName>),
    ConstRef(Spanned<ConstRef>),
    LocalRef(Spanned<LocalId>),
    BinOp { op: BinOp, lhs: Box<Expr>, rhs: Box<Expr> },
    UnaryOp { op: UnaryOp, operand: Box<Expr> },
    FnCall { callee: Spanned<FunctionRef>, args: Vec<Expr> },
    If { condition: Box<Expr>, then_branch: Box<Expr>, else_branch: Box<Expr> },
    QuantityLiteral { value: FloatBits, unit: ResolvedUnitExpr },
    Convert { expr: Box<Expr>, target: ResolvedUnitExpr },
    DisplayTimezone { expr: Box<Expr>, timezone: IanaTimeZoneId },
    FieldAccess { expr: Box<Expr>, field: Spanned<FieldName> },
    ConstructorCall { callee: Spanned<ResolvedConstructorName>, generic_args: Vec<GenericArg>, fields: Vec<FieldInit> },
    MapLiteral { entries: Vec<MapEntry> },
    ForComp { bindings: Vec<ForBinding>, body: Box<Expr> },
    IndexAccess { expr: Box<Expr>, args: NonEmpty<IndexArg> },
    Scan { source: Box<Expr>, init: Box<Expr>, acc: LocalDef, val: LocalDef, body: Box<Expr> },
    Unfold { recurrence: UnfoldRecurrence, init: Box<Expr>, body: Box<Expr> },
    KeyForm { kind: KeyFormKind, axis: ForBindingIndex, axis_span: Span, arg: Box<Expr> },
    Match { scrutinee: Box<Expr>, arms: Vec<MatchArm> },
    VariantLiteral(IndexVariantRef),
    DagCall { target: Spanned<DagId>, args: Vec<ParamBinding>, output: Spanned<ResolvedDeclName> },
}

#[derive(Debug)]
pub struct FieldInit {
    pub name: Spanned<FieldName>,
    pub value: Expr,
}

#[derive(Debug)]
pub struct ParamBinding {
    pub target: Spanned<ResolvedDeclName>,
    pub value: Expr,
}

#[derive(Debug)]
pub struct MapEntry {
    pub keys: NonEmpty<MapEntryKey>,
    pub value: Expr,
}

#[derive(Debug)]
pub enum MapEntryKey {
    IndexVariant(IndexVariantRef),
    FinitePosition { size: u64, position: Spanned<u64> },
    Expression { axis: MapKeyAxis, expr: Box<Expr> },
}

#[derive(Debug)]
pub enum IndexArg {
    Variant(IndexVariantRef),
    Var(Spanned<LocalId>),
    Expr(Box<Expr>),
}

#[derive(Debug)]
pub struct MatchArm {
    pub pattern: MatchPattern,
    pub body: Expr,
    pub span: Span,
}

#[derive(Debug)]
pub enum AssertBody {
    Expr(Expr),
    Tolerance { actual: Box<Expr>, expected: Box<Expr>, tolerance: Box<Expr> },
}

} // verus!
