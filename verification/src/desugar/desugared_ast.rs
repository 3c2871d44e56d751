//! The syntax tree after desugaring: no table literal and no multi-declaration
//! can be written in these types.

use crate::syntax::ast::{
    AmbiguousGenericArg, Attribute, BaseDimDecl, BinOp, BindableVisibility, DimDecl, DimExpr, DomainBoundKind,
    EncodingChannel, ExternGenericBinder, FloatBits, ForBinding, GenericConstraint, Ident, IdentPath, ImportDecl,
    ImportKind, IndexEntryKey, IndexExpr, KeyFormKind, MapEntryIndex, MapKeyAxisSyntax, MarkType, MatchPattern,
    ModulePath, NamePath, NatExpr, PluginPath, ScopedName, UnaryOp, UnitConstness, UnitExpr, UnresolvedRef,
    Visibility,
};
use crate::syntax::names::{
    ConstructorName, DeclName, FieldName, FnName, FnParamName, GenericParamName, IndexName, IndexVariantName,
    LocalName, ModuleAliasName, PlotPropertyName, StructTypeName, UnitName,
};
use crate::syntax::non_empty::NonEmpty;
use crate::syntax::span::{Span, Spanned};
use crate::syntax::term::{
    Spans, Syntax, Tag, Term, at, marks, node0, node1, node2, node3, node4, node5, node6, prepend, present,
};
use vstd::prelude::*;

verus! {

#[derive(Debug)]
pub struct Expr {
    pub kind: ExprKind,
    pub span: Span,
}

#[derive(Debug)]
#[allow(inconsistent_fields)]
pub enum ExprKind {
    Number(FloatBits),
    Integer(i64),
    Bool(bool),
    StringLiteral(String),
    GraphRef(Spanned<ScopedName>),
    BinOp { op: BinOp, lhs: Box<Expr>, rhs: Box<Expr> },
    UnaryOp { op: UnaryOp, operand: Box<Expr> },
    FnCall { callee: IdentPath, generic_args: Vec<GenericArg>, args: Vec<Expr> },
    If { condition: Box<Expr>, then_branch: Box<Expr>, else_branch: Box<Expr> },
    QuantityLiteral { value: FloatBits, unit: UnitExpr },
    Convert { expr: Box<Expr>, target: UnitExpr },
    DisplayTimezone { expr: Box<Expr>, timezone: String },
    FieldAccess { expr: Box<Expr>, field: Spanned<FieldName> },
    ConstructorCall { callee: IdentPath, generic_args: Vec<GenericArg>, fields: Vec<FieldInit> },
    MapLiteral { entries: Vec<MapEntry> },
    ForComp { bindings: Vec<ForBinding>, body: Box<Expr> },
    IndexAccess { expr: Box<Expr>, args: NonEmpty<IndexArg> },
    Scan { source: Box<Expr>, init: Box<Expr>, acc_name: Spanned<LocalName>, val_name: Spanned<LocalName>, body: Box<Expr> },
    Unfold {
        axis: Spanned<NamePath>,
        init: Box<Expr>,
        prev_state_name: Spanned<LocalName>,
        prev_index_name: Spanned<LocalName>,
        index_name: Spanned<LocalName>,
        body: Box<Expr>,
    },
    KeyForm { kind: KeyFormKind, axis: IndexExpr, arg: Box<Expr> },
    Match { scrutinee: Box<Expr>, arms: Vec<MatchArm> },
    InlineDagRef { path: ModulePath, args: Vec<ParamBinding>, output: Spanned<DeclName> },
    UnresolvedRef(UnresolvedRef),
}

#[derive(Debug)]
pub struct MapEntry {
    pub keys: NonEmpty<MapEntryKey>,
    pub value: Expr,
}

#[derive(Debug)]
pub enum MapEntryKey {
    Discrete { index: Spanned<MapEntryIndex>, additional_index_spans: Vec<Span>, entry: Spanned<IndexEntryKey> },
    Expression { axis: MapKeyAxisSyntax, expr: Expr },
}

#[derive(Debug)]
pub enum IndexArg {
    Variant { index: Spanned<NamePath>, variant: Spanned<IndexVariantName> },
    Var(Ident),
    Expr(Box<Expr>),
}

#[derive(Debug)]
pub struct FieldInit {
    pub name: Spanned<FieldName>,
    pub value: Expr,
}

#[derive(Debug)]
pub struct MatchArm {
    pub pattern: MatchPattern,
    pub body: Expr,
    pub span: Span,
}

#[derive(Debug)]
pub struct ParamBinding {
    pub name: Ident,
    pub value: Expr,
    pub span: Span,
}

#[derive(Debug)]
pub struct TypeExpr {
    pub kind: TypeExprKind,
    pub constraints: Vec<DomainBound>,
    pub span: Span,
}

#[derive(Debug)]
#[allow(inconsistent_fields)]
pub enum TypeExprKind {
    Dimensionless,
    Bool,
    Int,
    Datetime,
    DatetimeApplication { type_args: NonEmpty<TypeExpr> },
    ComplexApplication { generic_args: Vec<GenericArg> },
    KeyApplication { generic_args: Vec<GenericArg> },
    DimExpr(DimExpr),
    Indexed { base: Box<TypeExpr>, indexes: NonEmpty<IndexExpr> },
    TypeApplication { name: IdentPath, generic_args: NonEmpty<GenericArg> },
}

#[derive(Debug)]
pub struct DomainBound {
    pub kind: DomainBoundKind,
    pub kind_span: Span,
    pub value: Expr,
    pub span: Span,
}

#[derive(Debug)]
pub enum GenericArg {
    Type(TypeExpr),
    Index(IndexExpr),
    Nat(NatExpr),
    Ambiguous(AmbiguousGenericArg),
}

#[derive(Debug)]
pub struct ParamDecl {
    pub name: Spanned<DeclName>,
    pub type_ann: TypeExpr,
    pub value: Option<Expr>,
}

#[derive(Debug)]
pub struct ValueDecl {
    pub visibility: Visibility,
    pub name: Spanned<DeclName>,
    pub type_ann: TypeExpr,
    pub value: Expr,
}

#[derive(Debug)]
pub struct UnitDef {
    pub scale_expr: Expr,
    pub unit_expr: UnitExpr,
    pub span: Span,
}

#[derive(Debug)]
pub struct UnitDecl {
    pub visibility: Visibility,
    pub constness: UnitConstness,
    pub name: Spanned<UnitName>,
    pub dim_type: DimExpr,
    pub definition: Option<UnitDef>,
}

#[derive(Debug)]
pub struct FieldDecl {
    pub name: Spanned<FieldName>,
    pub type_ann: TypeExpr,
}

#[derive(Debug)]
pub struct UnionMember {
    pub name: Spanned<ConstructorName>,
    pub payload: Option<Vec<FieldDecl>>,
    pub span: Span,
}

#[derive(Debug)]
pub enum TypeDeclBody {
    Required,
    Constructors(Vec<UnionMember>),
}

#[derive(Debug)]
pub struct GenericParam {
    pub name: Spanned<GenericParamName>,
    pub constraint: GenericConstraint,
    pub default: Option<GenericArg>,
}

#[derive(Debug)]
pub struct TypeDecl {
    pub visibility: BindableVisibility,
    pub name: Spanned<StructTypeName>,
    pub generic_params: Vec<GenericParam>,
    pub body: TypeDeclBody,
}

#[derive(Debug)]
pub enum IndexDeclKind {
    Named { variants: Vec<Spanned<IndexVariantName>> },
    Range { start: Box<Expr>, end: Box<Expr>, step: Box<Expr> },
    Linspace { start: Box<Expr>, end: Box<Expr>, points: u64 },
    RequiredNamed,
    RequiredCoordinate { dimension: DimExpr },
}

#[derive(Debug)]
pub struct IndexDecl {
    pub visibility: BindableVisibility,
    pub name: Spanned<IndexName>,
    pub kind: IndexDeclKind,
}

#[derive(Debug)]
pub struct IncludeDecl {
    pub path: ModulePath,
    pub param_bindings: Vec<ParamBinding>,
    pub kind: ImportKind,
}

#[derive(Debug)]
pub enum AssertBody {
    Expr(Expr),
    Tolerance { actual: Box<Expr>, expected: Box<Expr>, tolerance: Box<Expr> },
}

#[derive(Debug)]
pub struct AssertDecl {
    pub visibility: Visibility,
    pub name: Spanned<DeclName>,
    pub body: AssertBody,
}

#[derive(Debug)]
pub struct PlotField {
    pub name: Spanned<PlotPropertyName>,
    pub value: Expr,
    pub span: Span,
}

#[derive(Debug)]
pub struct Encoding {
    pub channel: EncodingChannel,
    pub channel_span: Span,
    pub value: Expr,
    pub span: Span,
}

#[derive(Debug)]
pub struct MarkSpec {
    pub mark_type: MarkType,
    pub mark_type_span: Span,
    pub properties: Vec<PlotField>,
    pub span: Span,
}

#[derive(Debug)]
pub struct PlotDecl {
    pub visibility: Visibility,
    pub name: Spanned<DeclName>,
    pub mark: MarkSpec,
    pub encodings: Vec<Encoding>,
    pub properties: Vec<PlotField>,
}

#[derive(Debug)]
pub struct FigureDecl {
    pub visibility: Visibility,
    pub name: Spanned<DeclName>,
    pub plot_names: Vec<Spanned<DeclName>>,
    pub fields: Vec<PlotField>,
}

#[derive(Debug)]
pub struct LayerDecl {
    pub visibility: Visibility,
    pub name: Spanned<DeclName>,
    pub plot_names: Vec<Spanned<DeclName>>,
    pub fields: Vec<PlotField>,
}

#[derive(Debug)]
pub struct ExternFnParam {
    pub name: Spanned<FnParamName>,
    pub type_ann: TypeExpr,
}

#[derive(Debug)]
pub struct ExternFnDecl {
    pub name: Spanned<FnName>,
    pub generics: Vec<ExternGenericBinder>,
    pub params: Vec<ExternFnParam>,
    pub result: TypeExpr,
    pub span: Span,
}

#[derive(Debug)]
pub struct PluginImportDecl {
    pub path: Spanned<PluginPath>,
    pub alias: Spanned<ModuleAliasName>,
    pub functions: Vec<ExternFnDecl>,
}

#[derive(Debug)]
pub struct DagDecl {
    pub visibility: Visibility,
    pub name: Spanned<DeclName>,
    pub body: Vec<Declaration>,
    pub span: Span,
}

#[derive(Debug)]
pub enum DeclKind {
    Param(ParamDecl),
    Node(ValueDecl),
    ConstNode(ValueDecl),
    BaseDimension(BaseDimDecl),
    Dimension(DimDecl),
    Unit(UnitDecl),
    Type(TypeDecl),
    Index(IndexDecl),
    Import(ImportDecl),
    PluginImport(PluginImportDecl),
    Include(IncludeDecl),
    Dag(DagDecl),
    Assert(AssertDecl),
    Plot(PlotDecl),
    Figure(FigureDecl),
    Layer(LayerDecl),
}

#[derive(Debug)]
pub struct Declaration {
    pub attributes: Vec<Attribute>,
    pub kind: DeclKind,
    pub span: Span,
}

#[derive(Debug)]
pub struct File {
    pub declarations: Vec<Declaration>,
}

impl Expr {
    pub open spec fn to_term(self) -> Term
        decreases self,
    {
        node2(Tag::Expr, self.kind.to_term(), at(Spans::Kept, self.span))
    }

    pub open spec fn terms(v: Vec<Expr>) -> Seq<Term>
        decreases v,
    {
        Seq::new(v.len() as nat, |i: int| if 0 <= i < v.len() { v[i].to_term() } else { Term::Absent })
    }
}

impl ExprKind {
    pub open spec fn to_term(self) -> Term
        decreases self,
    {
        match self {
            ExprKind::Number(value) => node1(Tag::ExprNumber, value.term(Spans::Kept)),
            ExprKind::Integer(value) => node1(Tag::ExprInteger, value.term(Spans::Kept)),
            ExprKind::Bool(value) => node1(Tag::ExprBool, value.term(Spans::Kept)),
            ExprKind::StringLiteral(value) => node1(Tag::ExprStringLiteral, value.term(Spans::Kept)),
            ExprKind::GraphRef(value) => node1(Tag::ExprGraphRef, value.term(Spans::Kept)),
            ExprKind::BinOp { op, lhs, rhs } => node3(
                Tag::ExprBinOp,
                op.term(Spans::Kept),
                lhs.to_term(),
                rhs.to_term(),
            ),
            ExprKind::UnaryOp { op, operand } => node2(Tag::ExprUnaryOp, op.term(Spans::Kept), operand.to_term()),
            ExprKind::FnCall { callee, generic_args, args } => node3(
                Tag::ExprFnCall,
                callee.term(Spans::Kept),
                Term::List(GenericArg::terms(generic_args)),
                Term::List(Expr::terms(args)),
            ),
            ExprKind::If { condition, then_branch, else_branch } => node3(
                Tag::ExprIf,
                condition.to_term(),
                then_branch.to_term(),
                else_branch.to_term(),
            ),
            ExprKind::QuantityLiteral { value, unit } => node2(
                Tag::ExprQuantityLiteral,
                value.term(Spans::Kept),
                unit.term(Spans::Kept),
            ),
            ExprKind::Convert { expr, target } => node2(Tag::ExprConvert, expr.to_term(), target.term(Spans::Kept)),
            ExprKind::DisplayTimezone { expr, timezone } => node2(
                Tag::ExprDisplayTimezone,
                expr.to_term(),
                timezone.term(Spans::Kept),
            ),
            ExprKind::FieldAccess { expr, field } => node2(
                Tag::ExprFieldAccess,
                expr.to_term(),
                field.term(Spans::Kept),
            ),
            ExprKind::ConstructorCall { callee, generic_args, fields } => node3(
                Tag::ExprConstructorCall,
                callee.term(Spans::Kept),
                Term::List(GenericArg::terms(generic_args)),
                Term::List(FieldInit::terms(fields)),
            ),
            ExprKind::MapLiteral { entries } => node1(Tag::ExprMapLiteral, Term::List(MapEntry::terms(entries))),
            ExprKind::ForComp { bindings, body } => node2(
                Tag::ExprForComp,
                bindings.term(Spans::Kept),
                body.to_term(),
            ),
            ExprKind::IndexAccess { expr, args } => node2(
                Tag::ExprIndexAccess,
                expr.to_term(),
                Term::List(prepend(args.first.to_term(), IndexArg::terms(args.rest))),
            ),
            ExprKind::Scan { source, init, acc_name, val_name, body } => node5(
                Tag::ExprScan,
                source.to_term(),
                init.to_term(),
                acc_name.term(Spans::Kept),
                val_name.term(Spans::Kept),
                body.to_term(),
            ),
            ExprKind::Unfold { axis, init, prev_state_name, prev_index_name, index_name, body } => node6(
                Tag::ExprUnfold,
                axis.term(Spans::Kept),
                init.to_term(),
                prev_state_name.term(Spans::Kept),
                prev_index_name.term(Spans::Kept),
                index_name.term(Spans::Kept),
                body.to_term(),
            ),
            ExprKind::KeyForm { kind, axis, arg } => node3(
                Tag::ExprKeyForm,
                kind.term(Spans::Kept),
                axis.term(Spans::Kept),
                arg.to_term(),
            ),
            ExprKind::Match { scrutinee, arms } => node2(
                Tag::ExprMatch,
                scrutinee.to_term(),
                Term::List(MatchArm::terms(arms)),
            ),
            ExprKind::InlineDagRef { path, args, output } => node3(
                Tag::ExprInlineDagRef,
                path.term(Spans::Kept),
                Term::List(ParamBinding::terms(args)),
                output.term(Spans::Kept),
            ),
            ExprKind::UnresolvedRef(value) => node1(Tag::ExprUnresolvedRef, value.term(Spans::Kept)),
        }
    }
}

impl MapEntry {
    pub open spec fn to_term(self) -> Term
        decreases self,
    {
        node2(
            Tag::MapEntry,
            Term::List(prepend(self.keys.first.to_term(), MapEntryKey::terms(self.keys.rest))),
            self.value.to_term(),
        )
    }

    pub open spec fn terms(v: Vec<MapEntry>) -> Seq<Term>
        decreases v,
    {
        Seq::new(v.len() as nat, |i: int| if 0 <= i < v.len() { v[i].to_term() } else { Term::Absent })
    }
}

impl MapEntryKey {
    pub open spec fn to_term(self) -> Term
        decreases self,
    {
        match self {
            MapEntryKey::Discrete { index, additional_index_spans, entry } => node3(
                Tag::MapEntryKeyDiscrete,
                index.term(Spans::Kept),
                marks(Spans::Kept, additional_index_spans@),
                entry.term(Spans::Kept),
            ),
            MapEntryKey::Expression { axis, expr } => node2(
                Tag::MapEntryKeyExpression,
                axis.term(Spans::Kept),
                expr.to_term(),
            ),
        }
    }

    pub open spec fn terms(v: Vec<MapEntryKey>) -> Seq<Term>
        decreases v,
    {
        Seq::new(v.len() as nat, |i: int| if 0 <= i < v.len() { v[i].to_term() } else { Term::Absent })
    }
}

impl IndexArg {
    pub open spec fn to_term(self) -> Term
        decreases self,
    {
        match self {
            IndexArg::Variant { index, variant } => node2(
                Tag::IndexArgVariant,
                index.term(Spans::Kept),
                variant.term(Spans::Kept),
            ),
            IndexArg::Var(value) => node1(Tag::IndexArgVar, value.term(Spans::Kept)),
            IndexArg::Expr(value) => node1(Tag::IndexArgExpr, value.to_term()),
        }
    }

    pub open spec fn terms(v: Vec<IndexArg>) -> Seq<Term>
        decreases v,
    {
        Seq::new(v.len() as nat, |i: int| if 0 <= i < v.len() { v[i].to_term() } else { Term::Absent })
    }
}

impl FieldInit {
    pub open spec fn to_term(self) -> Term
        decreases self,
    {
        node2(Tag::FieldInit, self.name.term(Spans::Kept), self.value.to_term())
    }

    pub open spec fn terms(v: Vec<FieldInit>) -> Seq<Term>
        decreases v,
    {
        Seq::new(v.len() as nat, |i: int| if 0 <= i < v.len() { v[i].to_term() } else { Term::Absent })
    }
}

impl MatchArm {
    pub open spec fn to_term(self) -> Term
        decreases self,
    {
        node3(Tag::MatchArm, self.pattern.term(Spans::Kept), self.body.to_term(), at(Spans::Kept, self.span))
    }

    pub open spec fn terms(v: Vec<MatchArm>) -> Seq<Term>
        decreases v,
    {
        Seq::new(v.len() as nat, |i: int| if 0 <= i < v.len() { v[i].to_term() } else { Term::Absent })
    }
}

impl ParamBinding {
    pub open spec fn to_term(self) -> Term
        decreases self,
    {
        node3(Tag::ParamBinding, self.name.term(Spans::Kept), self.value.to_term(), at(Spans::Kept, self.span))
    }

    pub open spec fn terms(v: Vec<ParamBinding>) -> Seq<Term>
        decreases v,
    {
        Seq::new(v.len() as nat, |i: int| if 0 <= i < v.len() { v[i].to_term() } else { Term::Absent })
    }
}

impl TypeExpr {
    pub open spec fn to_term(self) -> Term
        decreases self,
    {
        node3(
            Tag::TypeExpr,
            self.kind.to_term(),
            Term::List(DomainBound::terms(self.constraints)),
            at(Spans::Kept, self.span),
        )
    }

    pub open spec fn terms(v: Vec<TypeExpr>) -> Seq<Term>
        decreases v,
    {
        Seq::new(v.len() as nat, |i: int| if 0 <= i < v.len() { v[i].to_term() } else { Term::Absent })
    }
}

impl TypeExprKind {
    pub open spec fn to_term(self) -> Term
        decreases self,
    {
        match self {
            TypeExprKind::Dimensionless => node0(Tag::TypeExprDimensionless),
            TypeExprKind::Bool => node0(Tag::TypeExprBool),
            TypeExprKind::Int => node0(Tag::TypeExprInt),
            TypeExprKind::Datetime => node0(Tag::TypeExprDatetime),
            TypeExprKind::DatetimeApplication { type_args } => node1(
                Tag::TypeExprDatetimeApplication,
                Term::List(prepend(type_args.first.to_term(), TypeExpr::terms(type_args.rest))),
            ),
            TypeExprKind::ComplexApplication { generic_args } => node1(
                Tag::TypeExprComplexApplication,
                Term::List(GenericArg::terms(generic_args)),
            ),
            TypeExprKind::KeyApplication { generic_args } => node1(
                Tag::TypeExprKeyApplication,
                Term::List(GenericArg::terms(generic_args)),
            ),
            TypeExprKind::DimExpr(value) => node1(Tag::TypeExprDimExpr, value.term(Spans::Kept)),
            TypeExprKind::Indexed { base, indexes } => node2(
                Tag::TypeExprIndexed,
                base.to_term(),
                indexes.term(Spans::Kept),
            ),
            TypeExprKind::TypeApplication { name, generic_args } => node2(
                Tag::TypeExprTypeApplication,
                name.term(Spans::Kept),
                Term::List(prepend(generic_args.first.to_term(), GenericArg::terms(generic_args.rest))),
            ),
        }
    }
}

impl DomainBound {
    pub open spec fn to_term(self) -> Term
        decreases self,
    {
        node4(
            Tag::DomainBound,
            self.kind.term(Spans::Kept),
            at(Spans::Kept, self.kind_span),
            self.value.to_term(),
            at(Spans::Kept, self.span),
        )
    }

    pub open spec fn terms(v: Vec<DomainBound>) -> Seq<Term>
        decreases v,
    {
        Seq::new(v.len() as nat, |i: int| if 0 <= i < v.len() { v[i].to_term() } else { Term::Absent })
    }
}

impl GenericArg {
    pub open spec fn to_term(self) -> Term
        decreases self,
    {
        match self {
            GenericArg::Type(value) => node1(Tag::GenericArgType, value.to_term()),
            GenericArg::Index(value) => node1(Tag::GenericArgIndex, value.term(Spans::Kept)),
            GenericArg::Nat(value) => node1(Tag::GenericArgNat, value.term(Spans::Kept)),
            GenericArg::Ambiguous(value) => node1(Tag::GenericArgAmbiguous, value.term(Spans::Kept)),
        }
    }

    pub open spec fn terms(v: Vec<GenericArg>) -> Seq<Term>
        decreases v,
    {
        Seq::new(v.len() as nat, |i: int| if 0 <= i < v.len() { v[i].to_term() } else { Term::Absent })
    }
}

impl ParamDecl {
    pub open spec fn to_term(self) -> Term
    {
        node3(
            Tag::ParamDecl,
            self.name.term(Spans::Kept),
            self.type_ann.to_term(),
            match self.value { Some(some) => present(some.to_term()), None => Term::Absent },
        )
    }
}

impl ValueDecl {
    pub open spec fn to_term(self) -> Term
    {
        node4(
            Tag::ValueDecl,
            self.visibility.term(Spans::Kept),
            self.name.term(Spans::Kept),
            self.type_ann.to_term(),
            self.value.to_term(),
        )
    }
}

impl UnitDef {
    pub open spec fn to_term(self) -> Term
    {
        node3(Tag::UnitDef, self.scale_expr.to_term(), self.unit_expr.term(Spans::Kept), at(Spans::Kept, self.span))
    }
}

impl UnitDecl {
    pub open spec fn to_term(self) -> Term
    {
        node5(
            Tag::UnitDecl,
            self.visibility.term(Spans::Kept),
            self.constness.term(Spans::Kept),
            self.name.term(Spans::Kept),
            self.dim_type.term(Spans::Kept),
            match self.definition { Some(some) => present(some.to_term()), None => Term::Absent },
        )
    }
}

impl FieldDecl {
    pub open spec fn to_term(self) -> Term
    {
        node2(Tag::FieldDecl, self.name.term(Spans::Kept), self.type_ann.to_term())
    }

    pub open spec fn terms(v: Vec<FieldDecl>) -> Seq<Term>
    {
        Seq::new(v.len() as nat, |i: int| if 0 <= i < v.len() { v[i].to_term() } else { Term::Absent })
    }
}

impl UnionMember {
    pub open spec fn to_term(self) -> Term
    {
        node3(
            Tag::UnionMember,
            self.name.term(Spans::Kept),
            match self.payload { Some(some) => present(Term::List(FieldDecl::terms(some))), None => Term::Absent },
            at(Spans::Kept, self.span),
        )
    }

    pub open spec fn terms(v: Vec<UnionMember>) -> Seq<Term>
    {
        Seq::new(v.len() as nat, |i: int| if 0 <= i < v.len() { v[i].to_term() } else { Term::Absent })
    }
}

impl TypeDeclBody {
    pub open spec fn to_term(self) -> Term
    {
        match self {
            TypeDeclBody::Required => node0(Tag::TypeDeclBodyRequired),
            TypeDeclBody::Constructors(value) => node1(
                Tag::TypeDeclBodyConstructors,
                Term::List(UnionMember::terms(value)),
            ),
        }
    }
}

impl GenericParam {
    pub open spec fn to_term(self) -> Term
    {
        node3(
            Tag::GenericParam,
            self.name.term(Spans::Kept),
            self.constraint.term(Spans::Kept),
            match self.default { Some(some) => present(some.to_term()), None => Term::Absent },
        )
    }

    pub open spec fn terms(v: Vec<GenericParam>) -> Seq<Term>
    {
        Seq::new(v.len() as nat, |i: int| if 0 <= i < v.len() { v[i].to_term() } else { Term::Absent })
    }
}

impl TypeDecl {
    pub open spec fn to_term(self) -> Term
    {
        node4(
            Tag::TypeDecl,
            self.visibility.term(Spans::Kept),
            self.name.term(Spans::Kept),
            Term::List(GenericParam::terms(self.generic_params)),
            self.body.to_term(),
        )
    }
}

impl IndexDeclKind {
    pub open spec fn to_term(self) -> Term
    {
        match self {
            IndexDeclKind::Named { variants } => node1(Tag::IndexDeclNamed, variants.term(Spans::Kept)),
            IndexDeclKind::Range { start, end, step } => node3(
                Tag::IndexDeclRange,
                start.to_term(),
                end.to_term(),
                step.to_term(),
            ),
            IndexDeclKind::Linspace { start, end, points } => node3(
                Tag::IndexDeclLinspace,
                start.to_term(),
                end.to_term(),
                points.term(Spans::Kept),
            ),
            IndexDeclKind::RequiredNamed => node0(Tag::IndexDeclRequiredNamed),
            IndexDeclKind::RequiredCoordinate { dimension } => node1(
                Tag::IndexDeclRequiredCoordinate,
                dimension.term(Spans::Kept),
            ),
        }
    }
}

impl IndexDecl {
    pub open spec fn to_term(self) -> Term
    {
        node3(Tag::IndexDecl, self.visibility.term(Spans::Kept), self.name.term(Spans::Kept), self.kind.to_term())
    }
}

impl IncludeDecl {
    pub open spec fn to_term(self) -> Term
    {
        node3(
            Tag::IncludeDecl,
            self.path.term(Spans::Kept),
            Term::List(ParamBinding::terms(self.param_bindings)),
            self.kind.term(Spans::Kept),
        )
    }
}

impl AssertBody {
    pub open spec fn to_term(self) -> Term
    {
        match self {
            AssertBody::Expr(value) => node1(Tag::AssertBodyExpr, value.to_term()),
            AssertBody::Tolerance { actual, expected, tolerance } => node3(
                Tag::AssertBodyTolerance,
                actual.to_term(),
                expected.to_term(),
                tolerance.to_term(),
            ),
        }
    }
}

impl AssertDecl {
    pub open spec fn to_term(self) -> Term
    {
        node3(Tag::AssertDecl, self.visibility.term(Spans::Kept), self.name.term(Spans::Kept), self.body.to_term())
    }
}

impl PlotField {
    pub open spec fn to_term(self) -> Term
    {
        node3(Tag::PlotField, self.name.term(Spans::Kept), self.value.to_term(), at(Spans::Kept, self.span))
    }

    pub open spec fn terms(v: Vec<PlotField>) -> Seq<Term>
    {
        Seq::new(v.len() as nat, |i: int| if 0 <= i < v.len() { v[i].to_term() } else { Term::Absent })
    }
}

impl Encoding {
    pub open spec fn to_term(self) -> Term
    {
        node4(
            Tag::Encoding,
            self.channel.term(Spans::Kept),
            at(Spans::Kept, self.channel_span),
            self.value.to_term(),
            at(Spans::Kept, self.span),
        )
    }

    pub open spec fn terms(v: Vec<Encoding>) -> Seq<Term>
    {
        Seq::new(v.len() as nat, |i: int| if 0 <= i < v.len() { v[i].to_term() } else { Term::Absent })
    }
}

impl MarkSpec {
    pub open spec fn to_term(self) -> Term
    {
        node4(
            Tag::MarkSpec,
            self.mark_type.term(Spans::Kept),
            at(Spans::Kept, self.mark_type_span),
            Term::List(PlotField::terms(self.properties)),
            at(Spans::Kept, self.span),
        )
    }
}

impl PlotDecl {
    pub open spec fn to_term(self) -> Term
    {
        node5(
            Tag::PlotDecl,
            self.visibility.term(Spans::Kept),
            self.name.term(Spans::Kept),
            self.mark.to_term(),
            Term::List(Encoding::terms(self.encodings)),
            Term::List(PlotField::terms(self.properties)),
        )
    }
}

impl FigureDecl {
    pub open spec fn to_term(self) -> Term
    {
        node4(
            Tag::FigureDecl,
            self.visibility.term(Spans::Kept),
            self.name.term(Spans::Kept),
            self.plot_names.term(Spans::Kept),
            Term::List(PlotField::terms(self.fields)),
        )
    }
}

impl LayerDecl {
    pub open spec fn to_term(self) -> Term
    {
        node4(
            Tag::LayerDecl,
            self.visibility.term(Spans::Kept),
            self.name.term(Spans::Kept),
            self.plot_names.term(Spans::Kept),
            Term::List(PlotField::terms(self.fields)),
        )
    }
}

impl ExternFnParam {
    pub open spec fn to_term(self) -> Term
    {
        node2(Tag::ExternFnParam, self.name.term(Spans::Kept), self.type_ann.to_term())
    }

    pub open spec fn terms(v: Vec<ExternFnParam>) -> Seq<Term>
    {
        Seq::new(v.len() as nat, |i: int| if 0 <= i < v.len() { v[i].to_term() } else { Term::Absent })
    }
}

impl ExternFnDecl {
    pub open spec fn to_term(self) -> Term
    {
        node5(
            Tag::ExternFnDecl,
            self.name.term(Spans::Kept),
            self.generics.term(Spans::Kept),
            Term::List(ExternFnParam::terms(self.params)),
            self.result.to_term(),
            at(Spans::Kept, self.span),
        )
    }

    pub open spec fn terms(v: Vec<ExternFnDecl>) -> Seq<Term>
    {
        Seq::new(v.len() as nat, |i: int| if 0 <= i < v.len() { v[i].to_term() } else { Term::Absent })
    }
}

impl PluginImportDecl {
    pub open spec fn to_term(self) -> Term
    {
        node3(
            Tag::PluginImportDecl,
            self.path.term(Spans::Kept),
            self.alias.term(Spans::Kept),
            Term::List(ExternFnDecl::terms(self.functions)),
        )
    }
}

impl DagDecl {
    pub open spec fn to_term(self) -> Term
        decreases self,
    {
        node4(
            Tag::DagDecl,
            self.visibility.term(Spans::Kept),
            self.name.term(Spans::Kept),
            Term::List(Declaration::terms(self.body)),
            at(Spans::Kept, self.span),
        )
    }
}

impl DeclKind {
    pub open spec fn to_term(self) -> Term
        decreases self,
    {
        match self {
            DeclKind::Param(value) => node1(Tag::DeclParam, value.to_term()),
            DeclKind::Node(value) => node1(Tag::DeclNode, value.to_term()),
            DeclKind::ConstNode(value) => node1(Tag::DeclConstNode, value.to_term()),
            DeclKind::BaseDimension(value) => node1(Tag::DeclBaseDimension, value.term(Spans::Kept)),
            DeclKind::Dimension(value) => node1(Tag::DeclDimension, value.term(Spans::Kept)),
            DeclKind::Unit(value) => node1(Tag::DeclUnit, value.to_term()),
            DeclKind::Type(value) => node1(Tag::DeclType, value.to_term()),
            DeclKind::Index(value) => node1(Tag::DeclIndex, value.to_term()),
            DeclKind::Import(value) => node1(Tag::DeclImport, value.term(Spans::Kept)),
            DeclKind::PluginImport(value) => node1(Tag::DeclPluginImport, value.to_term()),
            DeclKind::Include(value) => node1(Tag::DeclInclude, value.to_term()),
            DeclKind::Dag(value) => node1(Tag::DeclDag, value.to_term()),
            DeclKind::Assert(value) => node1(Tag::DeclAssert, value.to_term()),
            DeclKind::Plot(value) => node1(Tag::DeclPlot, value.to_term()),
            DeclKind::Figure(value) => node1(Tag::DeclFigure, value.to_term()),
            DeclKind::Layer(value) => node1(Tag::DeclLayer, value.to_term()),
        }
    }
}

impl Declaration {
    pub open spec fn to_term(self) -> Term
        decreases self,
    {
        node3(Tag::Declaration, self.attributes.term(Spans::Kept), self.kind.to_term(), at(Spans::Kept, self.span))
    }

    pub open spec fn terms(v: Vec<Declaration>) -> Seq<Term>
        decreases v,
    {
        Seq::new(v.len() as nat, |i: int| if 0 <= i < v.len() { v[i].to_term() } else { Term::Absent })
    }
}

impl File {
    pub open spec fn to_term(self) -> Term
    {
        node1(Tag::File, Term::List(Declaration::terms(self.declarations)))
    }
}

} // verus!
