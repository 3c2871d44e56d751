//! The syntax tree as the parser builds it, sugar included.

use crate::exact_rational::ExactRational;
use crate::syntax::names::{
    ConstructorName, DeclName, DimName, DimVarName, FieldName, FnName, FnParamName, GenericParamName, IndexName,
    IndexVarName, IndexVariantName, LocalName, ModuleAliasName, NameAtom, PlotPropertyName, StructTypeName, UnitName,
};
use crate::syntax::non_empty::NonEmpty;
use crate::syntax::span::{Span, Spanned};
use vstd::prelude::*;

verus! {

#[derive(Clone, Copy, Debug, PartialEq, Eq, Structural)]
pub enum UnaryOp {
    Neg,
    Not,
}

#[derive(Clone, Copy, Debug, PartialEq, Eq, Structural)]
pub enum MulDivOp {
    Mul,
    Div,
}

#[derive(Clone, Copy, Debug, PartialEq, Eq, Structural)]
pub enum Visibility {
    Private,
    Public,
}

#[derive(Clone, Copy, Debug, PartialEq, Eq, Structural)]
pub enum BindableVisibility {
    Private,
    Public,
    PublicBind,
}

#[derive(Clone, Copy, Debug, PartialEq, Eq, Structural)]
pub enum UnitConstness {
    Runtime,
    Const,
}

#[derive(Clone, Copy, Debug, PartialEq, Eq, Structural)]
pub enum MarkType {
    Line,
    Point,
    Bar,
    Area,
    Rule,
    Tick,
}

#[derive(Clone, Copy, Debug, PartialEq, Eq, Structural)]
pub enum EncodingChannel {
    X,
    Y,
    Color,
    Size,
    Shape,
    Opacity,
    Detail,
}

#[derive(Clone, Copy, Debug, PartialEq, Eq, Structural)]
pub enum MultiSlotKind {
    Param,
    Node,
    ConstNode,
}

#[derive(Clone, Copy, Debug, PartialEq, Eq, Structural)]
pub enum GenericConstraint {
    Dim,
    Index,
    Nat,
    Type,
}

#[derive(Clone, Copy, Debug, PartialEq, Eq, Structural)]
pub enum DomainBoundKind {
    Min,
    Max,
}

#[derive(Clone, Copy, Debug, PartialEq, Eq, Structural)]
pub enum ImportItemNamespace {
    Value,
    Type,
    Dim,
    Unit,
    Index,
}

#[derive(Clone, Copy, Debug, PartialEq, Eq, Structural)]
pub enum KeyFormKind {
    Static,
    Fin,
    Floor,
    Ceil,
    Nearest,
}

/// The bit pattern of a finite binary64 value.
#[derive(Clone, Copy, Debug, PartialEq, Eq, Structural)]
pub struct FloatBits {
    pub bits: u64,
}

/// How the exponent of a power was written.
#[derive(Clone, Copy, Debug, PartialEq, Eq, Structural)]
pub enum PowerExponent {
    /// An integer or a quotient of integers.
    Exact(ExactRational),
    /// A decimal literal, with its exact value where that fits.
    FloatSyntax { exact: Option<ExactRational> },
    /// Anything else: the exponent is known only at run time.
    Runtime,
}

#[derive(Clone, Copy, Debug, PartialEq, Eq, Structural)]
pub enum BinOp {
    Add,
    Sub,
    Mul,
    Div,
    Mod,
    Pow(PowerExponent),
    Eq,
    Ne,
    Lt,
    Gt,
    Le,
    Ge,
    And,
    Or,
}

/// A possibly qualified name: every segment but the last is a qualifier.
#[derive(Debug, Clone, PartialEq, Eq, Hash)]
pub struct NamePath {
    pub segments: NonEmpty<NameAtom>,
}

/// A name with the module path that qualifies it.
#[derive(Debug, Clone, PartialEq, Eq, Hash)]
pub struct ScopedName {
    pub qualifier: Vec<NameAtom>,
    pub member: NameAtom,
}

/// A unit as it is written: bare, or under one module alias.
#[derive(Debug, Clone, PartialEq, Eq, Hash)]
pub struct UnitRef {
    pub qualifier: Option<NameAtom>,
    pub name: UnitName,
}

/// The quoted location of a plugin.
#[derive(Debug, Clone, PartialEq, Eq, Hash)]
pub struct PluginPath {
    pub text: String,
}

/// The index that a discrete map key belongs to.
#[derive(Debug, Clone, PartialEq, Eq, Hash)]
pub enum MapEntryIndex {
    Named(NamePath),
    Finite(u64),
}

/// One entry of an index: a variant by name, or a position of a finite index.
#[derive(Debug, Clone, PartialEq, Eq, Hash)]
pub enum IndexEntryKey {
    Named(IndexVariantName),
    Position(u64),
}

#[derive(Debug)]
pub struct Ident {
    pub name: NameAtom,
    pub span: Span,
}

#[derive(Debug)]
pub struct IdentPath {
    pub segments: NonEmpty<Ident>,
}

#[derive(Debug)]
pub struct Attribute {
    pub name: Ident,
    pub args: Vec<AttributeArg>,
    pub span: Span,
}

#[derive(Debug)]
pub enum AttributeArg {
    Path { segments: NonEmpty<Ident>, span: Span },
    FinitePosition { position: u64, span: Span },
    Group { elements: Vec<AttributeArg>, span: Span },
}

#[derive(Debug)]
pub enum ImportKind {
    Selective(Vec<ImportItem>),
    Module { alias: Option<Spanned<ModuleAliasName>> },
}

#[derive(Debug)]
pub struct ModulePath {
    pub segments: NonEmpty<Ident>,
    pub span: Span,
}

#[derive(Debug)]
pub struct ImportItem {
    pub attributes: Vec<Attribute>,
    pub is_pub: bool,
    pub namespace: Option<ImportItemNamespace>,
    pub name: Ident,
    pub alias: Option<Ident>,
}

#[derive(Debug)]
pub struct ImportDecl {
    pub path: ModulePath,
    pub kind: ImportKind,
}

#[derive(Debug)]
pub struct BaseDimDecl {
    pub visibility: Visibility,
    pub name: Spanned<DimName>,
}

#[derive(Debug)]
pub struct DimDecl {
    pub visibility: Visibility,
    pub name: Spanned<DimName>,
    pub definition: DimExpr,
}

#[derive(Debug)]
pub struct DimExpr {
    pub terms: Vec<DimExprItem>,
    pub span: Span,
}

#[derive(Debug)]
pub struct DimExprItem {
    pub op: MulDivOp,
    pub term: DimTerm,
}

#[derive(Debug)]
pub struct DimTerm {
    pub name: IdentPath,
    pub power: Option<ExactRational>,
    pub span: Span,
}

#[derive(Debug)]
pub struct UnitExpr {
    pub terms: Vec<UnitExprItem>,
    pub span: Span,
}

#[derive(Debug)]
pub struct UnitExprItem {
    pub op: MulDivOp,
    pub name: Spanned<UnitRef>,
    pub power: Option<ExactRational>,
}

#[derive(Debug)]
pub enum UnresolvedRef {
    Path(IdentPath),
}

#[derive(Debug)]
pub enum TableIndexSpec {
    Named(Spanned<NamePath>),
    Finite { cardinality: u64, span: Span },
}

#[derive(Debug)]
pub enum NatExpr {
    Literal(u64, Span),
    Var(Ident),
    Add(Vec<NatExpr>, Span),
    Mul(Vec<NatExpr>, Span),
}

#[derive(Debug)]
pub enum AmbiguousGenericArg {
    Name(Ident),
    Mul(Vec<AmbiguousGenericArg>, Span),
}

#[derive(Debug)]
pub enum IndexExpr {
    Name(Spanned<NamePath>),
    Finite { cardinality: NatExpr, span: Span },
    BareNat(NatExpr),
}

#[derive(Debug)]
pub enum ForBindingIndex {
    Named(Spanned<NamePath>),
    Finite { cardinality: NatExpr, span: Span },
}

#[derive(Debug)]
pub struct ForBinding {
    pub var: Spanned<LocalName>,
    pub index: ForBindingIndex,
}

#[derive(Debug)]
pub enum PatternBinding {
    Bind { field: Spanned<FieldName>, var: Ident },
    Wildcard { field: Spanned<FieldName>, span: Span },
}

#[derive(Debug)]
pub enum MatchPattern {
    Path { path: IdentPath, bindings: Vec<PatternBinding>, span: Span },
    Constructor { name: Spanned<ConstructorName>, bindings: Vec<PatternBinding>, span: Span },
    IndexLabel { index: Spanned<NamePath>, variant: Spanned<IndexVariantName>, span: Span },
}

#[derive(Debug)]
pub enum MapKeyAxisSyntax {
    Explicit(Spanned<NamePath>),
    Contextual,
}

#[derive(Debug)]
pub struct MultiDeclSharedAxes {
    pub slice_axes: Vec<TableIndexSpec>,
    pub row_axis: TableIndexSpec,
}

#[derive(Debug)]
pub enum MultiSlotAxis {
    Underscore,
    Axis(Spanned<NamePath>),
}

#[derive(Debug)]
pub enum MultiSlotColumnSpan {
    Single(usize),
    Range { start: usize, end: usize, extra_axis: Spanned<NamePath> },
}

#[derive(Debug)]
pub enum MultiHeaderCell {
    Underscore { span: Span },
    Variant { axis: Spanned<NamePath>, variant: Spanned<IndexVariantName>, span: Span },
}

#[derive(Debug)]
pub enum ExternGenericBinder {
    Dim(Spanned<DimVarName>),
    Index(Spanned<IndexVarName>),
}

#[derive(Debug)]
pub struct Expr {
    pub kind: ExprKind,
    pub span: Span,
}

#[derive(Debug)]
#[allow(inconsistent_fields)]
pub enum ExprKind {
    Number(FloatBits),
    Integer(i64),
    Bool(bool),
    StringLiteral(String),
    GraphRef(Spanned<ScopedName>),
    BinOp { op: BinOp, lhs: Box<Expr>, rhs: Box<Expr> },
    UnaryOp { op: UnaryOp, operand: Box<Expr> },
    FnCall { callee: IdentPath, generic_args: Vec<GenericArg>, args: Vec<Expr> },
    If { condition: Box<Expr>, then_branch: Box<Expr>, else_branch: Box<Expr> },
    QuantityLiteral { value: FloatBits, unit: UnitExpr },
    Convert { expr: Box<Expr>, target: UnitExpr },
    DisplayTimezone { expr: Box<Expr>, timezone: String },
    FieldAccess { expr: Box<Expr>, field: Spanned<FieldName> },
    ConstructorCall { callee: IdentPath, generic_args: Vec<GenericArg>, fields: Vec<FieldInit> },
    MapLiteral { entries: Vec<MapEntry> },
    ForComp { bindings: Vec<ForBinding>, body: Box<Expr> },
    IndexAccess { expr: Box<Expr>, args: NonEmpty<IndexArg> },
    Scan { source: Box<Expr>, init: Box<Expr>, acc_name: Spanned<LocalName>, val_name: Spanned<LocalName>, body: Box<Expr> },
    Unfold {
        axis: Spanned<NamePath>,
        init: Box<Expr>,
        prev_state_name: Spanned<LocalName>,
        prev_index_name: Spanned<LocalName>,
        index_name: Spanned<LocalName>,
        body: Box<Expr>,
    },
    KeyForm { kind: KeyFormKind, axis: IndexExpr, arg: Box<Expr> },
    Match { scrutinee: Box<Expr>, arms: Vec<MatchArm> },
    InlineDagRef { path: ModulePath, args: Vec<ParamBinding>, output: Spanned<DeclName> },
    UnresolvedRef(UnresolvedRef),
    Sugar(RawExprSugar),
}

#[derive(Debug)]
pub enum RawExprSugar {
    TableLiteral { indexes: Vec<TableIndexSpec>, entries: Vec<MapEntry> },
}

#[derive(Debug)]
pub struct MapEntry {
    pub keys: NonEmpty<MapEntryKey>,
    pub value: Expr,
}

#[derive(Debug)]
pub enum MapEntryKey {
    Discrete { index: Spanned<MapEntryIndex>, additional_index_spans: Vec<Span>, entry: Spanned<IndexEntryKey> },
    Expression { axis: MapKeyAxisSyntax, expr: Expr },
}

#[derive(Debug)]
pub enum IndexArg {
    Variant { index: Spanned<NamePath>, variant: Spanned<IndexVariantName> },
    Var(Ident),
    Expr(Box<Expr>),
}

#[derive(Debug)]
pub struct FieldInit {
    pub name: Spanned<FieldName>,
    pub value: Expr,
}

#[derive(Debug)]
pub struct MatchArm {
    pub pattern: MatchPattern,
    pub body: Expr,
    pub span: Span,
}

#[derive(Debug)]
pub struct ParamBinding {
    pub name: Ident,
    pub value: Expr,
    pub span: Span,
}

#[derive(Debug)]
pub struct TypeExpr {
    pub kind: TypeExprKind,
    pub constraints: Vec<DomainBound>,
    pub span: Span,
}

#[derive(Debug)]
#[allow(inconsistent_fields)]
pub enum TypeExprKind {
    Dimensionless,
    Bool,
    Int,
    Datetime,
    DatetimeApplication { type_args: NonEmpty<TypeExpr> },
    ComplexApplication { generic_args: Vec<GenericArg> },
    KeyApplication { generic_args: Vec<GenericArg> },
    DimExpr(DimExpr),
    Indexed { base: Box<TypeExpr>, indexes: NonEmpty<IndexExpr> },
    TypeApplication { name: IdentPath, generic_args: NonEmpty<GenericArg> },
}

#[derive(Debug)]
pub struct DomainBound {
    pub kind: DomainBoundKind,
    pub kind_span: Span,
    pub value: Expr,
    pub span: Span,
}

#[derive(Debug)]
pub enum GenericArg {
    Type(TypeExpr),
    Index(IndexExpr),
    Nat(NatExpr),
    Ambiguous(AmbiguousGenericArg),
}

#[derive(Debug)]
pub struct ParamDecl {
    pub name: Spanned<DeclName>,
    pub type_ann: TypeExpr,
    pub value: Option<Expr>,
}

#[derive(Debug)]
pub struct ValueDecl {
    pub visibility: Visibility,
    pub name: Spanned<DeclName>,
    pub type_ann: TypeExpr,
    pub value: Expr,
}

#[derive(Debug)]
pub struct UnitDef {
    pub scale_expr: Expr,
    pub unit_expr: UnitExpr,
    pub span: Span,
}

#[derive(Debug)]
pub struct UnitDecl {
    pub visibility: Visibility,
    pub constness: UnitConstness,
    pub name: Spanned<UnitName>,
    pub dim_type: DimExpr,
    pub definition: Option<UnitDef>,
}

#[derive(Debug)]
pub struct FieldDecl {
    pub name: Spanned<FieldName>,
    pub type_ann: TypeExpr,
}

#[derive(Debug)]
pub struct UnionMember {
    pub name: Spanned<ConstructorName>,
    pub payload: Option<Vec<FieldDecl>>,
    pub span: Span,
}

#[derive(Debug)]
pub enum TypeDeclBody {
    Required,
    Constructors(Vec<UnionMember>),
}

#[derive(Debug)]
pub struct GenericParam {
    pub name: Spanned<GenericParamName>,
    pub constraint: GenericConstraint,
    pub default: Option<GenericArg>,
}

#[derive(Debug)]
pub struct TypeDecl {
    pub visibility: BindableVisibility,
    pub name: Spanned<StructTypeName>,
    pub generic_params: Vec<GenericParam>,
    pub body: TypeDeclBody,
}

#[derive(Debug)]
pub enum IndexDeclKind {
    Named { variants: Vec<Spanned<IndexVariantName>> },
    Range { start: Box<Expr>, end: Box<Expr>, step: Box<Expr> },
    Linspace { start: Box<Expr>, end: Box<Expr>, points: u64 },
    RequiredNamed,
    RequiredCoordinate { dimension: DimExpr },
}

#[derive(Debug)]
pub struct IndexDecl {
    pub visibility: BindableVisibility,
    pub name: Spanned<IndexName>,
    pub kind: IndexDeclKind,
}

#[derive(Debug)]
pub struct IncludeDecl {
    pub path: ModulePath,
    pub param_bindings: Vec<ParamBinding>,
    pub kind: ImportKind,
}

#[derive(Debug)]
pub enum AssertBody {
    Expr(Expr),
    Tolerance { actual: Box<Expr>, expected: Box<Expr>, tolerance: Box<Expr> },
}

#[derive(Debug)]
pub struct AssertDecl {
    pub visibility: Visibility,
    pub name: Spanned<DeclName>,
    pub body: AssertBody,
}

#[derive(Debug)]
pub struct PlotField {
    pub name: Spanned<PlotPropertyName>,
    pub value: Expr,
    pub span: Span,
}

#[derive(Debug)]
pub struct Encoding {
    pub channel: EncodingChannel,
    pub channel_span: Span,
    pub value: Expr,
    pub span: Span,
}

#[derive(Debug)]
pub struct MarkSpec {
    pub mark_type: MarkType,
    pub mark_type_span: Span,
    pub properties: Vec<PlotField>,
    pub span: Span,
}

#[derive(Debug)]
pub struct PlotDecl {
    pub visibility: Visibility,
    pub name: Spanned<DeclName>,
    pub mark: MarkSpec,
    pub encodings: Vec<Encoding>,
    pub properties: Vec<PlotField>,
}

#[derive(Debug)]
pub struct FigureDecl {
    pub visibility: Visibility,
    pub name: Spanned<DeclName>,
    pub plot_names: Vec<Spanned<DeclName>>,
    pub fields: Vec<PlotField>,
}

#[derive(Debug)]
pub struct LayerDecl {
    pub visibility: Visibility,
    pub name: Spanned<DeclName>,
    pub plot_names: Vec<Spanned<DeclName>>,
    pub fields: Vec<PlotField>,
}

#[derive(Debug)]
pub struct ExternFnParam {
    pub name: Spanned<FnParamName>,
    pub type_ann: TypeExpr,
}

#[derive(Debug)]
pub struct ExternFnDecl {
    pub name: Spanned<FnName>,
    pub generics: Vec<ExternGenericBinder>,
    pub params: Vec<ExternFnParam>,
    pub result: TypeExpr,
    pub span: Span,
}

#[derive(Debug)]
pub struct PluginImportDecl {
    pub path: Spanned<PluginPath>,
    pub alias: Spanned<ModuleAliasName>,
    pub functions: Vec<ExternFnDecl>,
}

#[derive(Debug)]
pub struct MultiDeclSlot {
    pub visibility: Visibility,
    pub kind: MultiSlotKind,
    pub name: Spanned<DeclName>,
    pub type_ann: TypeExpr,
    pub header_span: Span,
}

#[derive(Debug)]
pub struct MultiDataRow {
    pub(crate) label: Spanned<IndexEntryKey>,
    pub(crate) values: Vec<Expr>,
}

#[derive(Debug)]
pub struct MultiDeclSlice {
    pub(crate) prefix_keys: Vec<MapEntryKey>,
    pub(crate) header_cells: Vec<MultiHeaderCell>,
    pub(crate) column_layout: Vec<MultiSlotColumnSpan>,
    pub(crate) rows: Vec<MultiDataRow>,
}

#[derive(Debug)]
pub struct MultiDecl {
    pub(crate) slots: Vec<MultiDeclSlot>,
    pub(crate) shared_axes: MultiDeclSharedAxes,
    pub(crate) slot_axes: Vec<MultiSlotAxis>,
    pub(crate) slices: Vec<MultiDeclSlice>,
    pub(crate) span: Span,
    pub(crate) table_expr_span: Span,
}

#[derive(Debug)]
pub enum RawDeclSugar {
    Multi(MultiDecl),
}

#[derive(Debug)]
pub struct DagDecl {
    pub visibility: Visibility,
    pub name: Spanned<DeclName>,
    pub body: Vec<Declaration>,
    pub span: Span,
}

#[derive(Debug)]
pub enum DeclKind {
    Param(ParamDecl),
    Node(ValueDecl),
    ConstNode(ValueDecl),
    BaseDimension(BaseDimDecl),
    Dimension(DimDecl),
    Unit(UnitDecl),
    Type(TypeDecl),
    Index(IndexDecl),
    Import(ImportDecl),
    PluginImport(PluginImportDecl),
    Include(IncludeDecl),
    Dag(DagDecl),
    Assert(AssertDecl),
    Plot(PlotDecl),
    Figure(FigureDecl),
    Layer(LayerDecl),
    Sugar(RawDeclSugar),
}

#[derive(Debug)]
pub struct Declaration {
    pub attributes: Vec<Attribute>,
    pub kind: DeclKind,
    pub span: Span,
}

#[derive(Debug)]
pub struct File {
    pub declarations: Vec<Declaration>,
}

} // verus!
