//! The term of every syntax node.

use crate::syntax::ast::{
    AmbiguousGenericArg, AssertBody, AssertDecl, Attribute, AttributeArg, BaseDimDecl, BinOp, BindableVisibility,
    DagDecl, DeclKind, Declaration, DimDecl, DimExpr, DimExprItem, DimTerm, DomainBound, DomainBoundKind, Encoding,
    EncodingChannel, Expr, ExprKind, ExternFnDecl, ExternFnParam, ExternGenericBinder, FieldDecl, FieldInit,
    FigureDecl, File, FloatBits, ForBinding, ForBindingIndex, GenericArg, GenericConstraint, GenericParam, Ident,
    IdentPath, ImportDecl, ImportItem, ImportItemNamespace, ImportKind, IncludeDecl, IndexArg, IndexDecl,
    IndexDeclKind, IndexEntryKey, IndexExpr, KeyFormKind, LayerDecl, MapEntry, MapEntryIndex, MapEntryKey,
    MapKeyAxisSyntax, MarkSpec, MarkType, MatchArm, MatchPattern, ModulePath, MulDivOp, MultiDataRow, MultiDecl,
    MultiDeclSharedAxes, MultiDeclSlice, MultiDeclSlot, MultiHeaderCell, MultiSlotAxis, MultiSlotColumnSpan,
    MultiSlotKind, NamePath, NatExpr, ParamBinding, ParamDecl, PatternBinding, PlotDecl, PlotField, PluginImportDecl,
    PluginPath, RawDeclSugar, RawExprSugar, ScopedName, TableIndexSpec, TypeDecl, TypeDeclBody, TypeExpr,
    TypeExprKind, UnaryOp, UnionMember, UnitConstness, UnitDecl, UnitDef, UnitExpr, UnitExprItem, UnitRef,
    UnresolvedRef, ValueDecl, Visibility,
};
use crate::syntax::term::{
    Reading, Spans, Symbol, Syntax, Tag, Term, at, canonical, marks, node0, node1, node2, node3, node4, node5, node6,
    prepend, present,
};
use vstd::prelude::*;

verus! {

impl Syntax for UnaryOp {
    open spec fn term(&self, s: Spans) -> Term {
        Term::Symbol(Symbol::UnaryOp(*self))
    }
}

impl Syntax for MulDivOp {
    open spec fn term(&self, s: Spans) -> Term {
        Term::Symbol(Symbol::MulDivOp(*self))
    }
}

impl Syntax for Visibility {
    open spec fn term(&self, s: Spans) -> Term {
        Term::Symbol(Symbol::Visibility(*self))
    }
}

impl Syntax for BindableVisibility {
    open spec fn term(&self, s: Spans) -> Term {
        Term::Symbol(Symbol::BindableVisibility(*self))
    }
}

impl Syntax for UnitConstness {
    open spec fn term(&self, s: Spans) -> Term {
        Term::Symbol(Symbol::UnitConstness(*self))
    }
}

impl Syntax for MarkType {
    open spec fn term(&self, s: Spans) -> Term {
        Term::Symbol(Symbol::MarkType(*self))
    }
}

impl Syntax for EncodingChannel {
    open spec fn term(&self, s: Spans) -> Term {
        Term::Symbol(Symbol::EncodingChannel(*self))
    }
}

impl Syntax for MultiSlotKind {
    open spec fn term(&self, s: Spans) -> Term {
        Term::Symbol(Symbol::MultiSlotKind(*self))
    }
}

impl Syntax for GenericConstraint {
    open spec fn term(&self, s: Spans) -> Term {
        Term::Symbol(Symbol::GenericConstraint(*self))
    }
}

impl Syntax for DomainBoundKind {
    open spec fn term(&self, s: Spans) -> Term {
        Term::Symbol(Symbol::DomainBoundKind(*self))
    }
}

impl Syntax for ImportItemNamespace {
    open spec fn term(&self, s: Spans) -> Term {
        Term::Symbol(Symbol::ImportItemNamespace(*self))
    }
}

impl Syntax for KeyFormKind {
    open spec fn term(&self, s: Spans) -> Term {
        Term::Symbol(Symbol::KeyFormKind(*self))
    }
}

impl Syntax for BinOp {
    open spec fn term(&self, s: Spans) -> Term {
        Term::Symbol(Symbol::BinOp(*self))
    }
}

impl Syntax for FloatBits {
    open spec fn term(&self, s: Spans) -> Term {
        Term::Int(self.bits as int)
    }
}

impl Syntax for NamePath {
    open spec fn term(&self, s: Spans) -> Term {
        self.segments.term(s)
    }
}

impl Syntax for ScopedName {
    open spec fn term(&self, s: Spans) -> Term {
        node2(Tag::ScopedName, self.qualifier.term(s), self.member.term(s))
    }
}

impl Syntax for UnitRef {
    open spec fn term(&self, s: Spans) -> Term {
        node2(Tag::UnitRef, self.qualifier.term(s), self.name.term(s))
    }
}

impl Syntax for PluginPath {
    open spec fn term(&self, s: Spans) -> Term {
        Term::Text(self.text@)
    }
}

impl Syntax for MapEntryIndex {
    open spec fn term(&self, s: Spans) -> Term {
        match *self {
            MapEntryIndex::Named(path) => node1(Tag::MapEntryIndexNamed, path.term(s)),
            MapEntryIndex::Finite(size) => node1(Tag::MapEntryIndexFinite, Term::Int(size as int)),
        }
    }
}

impl Syntax for IndexEntryKey {
    open spec fn term(&self, s: Spans) -> Term {
        match *self {
            IndexEntryKey::Named(name) => node1(Tag::IndexEntryKeyNamed, name.term(s)),
            IndexEntryKey::Position(position) => node1(Tag::IndexEntryKeyPosition, Term::Int(position as int)),
        }
    }
}

impl Syntax for Ident {
    open spec fn term(&self, s: Spans) -> Term {
        node2(Tag::Ident, self.name.term(s), at(s, self.span))
    }
}

impl Syntax for IdentPath {
    open spec fn term(&self, s: Spans) -> Term {
        node1(Tag::IdentPath, self.segments.term(s))
    }
}

impl Syntax for Attribute {
    open spec fn term(&self, s: Spans) -> Term {
        node3(Tag::Attribute, self.name.term(s), self.args.term(s), at(s, self.span))
    }
}

impl AttributeArg {
    /// The tree below this node.
    pub open spec fn to_term(self, s: Spans) -> Term
        decreases self,
    {
        match self {
            AttributeArg::Path { segments, span } => node2(Tag::AttributeArgPath, segments.term(s), at(s, span)),
            AttributeArg::FinitePosition { position, span } => node2(
                Tag::AttributeArgFinitePosition,
                position.term(s),
                at(s, span),
            ),
            AttributeArg::Group { elements, span } => node2(
                Tag::AttributeArgGroup,
                Term::List(AttributeArg::terms(elements, s)),
                at(s, span),
            ),
        }
    }

    pub open spec fn terms(v: Vec<AttributeArg>, s: Spans) -> Seq<Term>
        decreases v,
    {
        Seq::new(v.len() as nat, |i: int| if 0 <= i < v.len() { v[i].to_term(s) } else { Term::Absent })
    }
}

impl Syntax for AttributeArg {
    open spec fn term(&self, s: Spans) -> Term {
        self.to_term(s)
    }
}

impl Syntax for ImportKind {
    open spec fn term(&self, s: Spans) -> Term {
        match *self {
            ImportKind::Selective(value) => node1(Tag::ImportSelective, value.term(s)),
            ImportKind::Module { alias } => node1(Tag::ImportModule, alias.term(s)),
        }
    }
}

impl Syntax for ModulePath {
    open spec fn term(&self, s: Spans) -> Term {
        node2(Tag::ModulePath, self.segments.term(s), at(s, self.span))
    }
}

impl Syntax for ImportItem {
    open spec fn term(&self, s: Spans) -> Term {
        node5(
            Tag::ImportItem,
            self.attributes.term(s),
            self.is_pub.term(s),
            self.namespace.term(s),
            self.name.term(s),
            self.alias.term(s),
        )
    }
}

impl Syntax for ImportDecl {
    open spec fn term(&self, s: Spans) -> Term {
        node2(Tag::ImportDecl, self.path.term(s), self.kind.term(s))
    }
}

impl Syntax for BaseDimDecl {
    open spec fn term(&self, s: Spans) -> Term {
        node2(Tag::BaseDimDecl, self.visibility.term(s), self.name.term(s))
    }
}

impl Syntax for DimDecl {
    open spec fn term(&self, s: Spans) -> Term {
        node3(Tag::DimDecl, self.visibility.term(s), self.name.term(s), self.definition.term(s))
    }
}

impl Syntax for DimExpr {
    open spec fn term(&self, s: Spans) -> Term {
        node2(Tag::DimExpr, self.terms.term(s), at(s, self.span))
    }
}

impl Syntax for DimExprItem {
    open spec fn term(&self, s: Spans) -> Term {
        node2(Tag::DimExprItem, self.op.term(s), self.term.term(s))
    }
}

impl Syntax for DimTerm {
    open spec fn term(&self, s: Spans) -> Term {
        node3(Tag::DimTerm, self.name.term(s), self.power.term(s), at(s, self.span))
    }
}

impl Syntax for UnitExpr {
    open spec fn term(&self, s: Spans) -> Term {
        node2(Tag::UnitExpr, self.terms.term(s), at(s, self.span))
    }
}

impl Syntax for UnitExprItem {
    open spec fn term(&self, s: Spans) -> Term {
        node3(Tag::UnitExprItem, self.op.term(s), self.name.term(s), self.power.term(s))
    }
}

impl Syntax for UnresolvedRef {
    open spec fn term(&self, s: Spans) -> Term {
        match *self {
            UnresolvedRef::Path(value) => value.term(s),
        }
    }
}

impl Syntax for TableIndexSpec {
    open spec fn term(&self, s: Spans) -> Term {
        match *self {
            TableIndexSpec::Named(value) => node1(Tag::TableIndexSpecNamed, value.term(s)),
            TableIndexSpec::Finite { cardinality, span } => node2(
                Tag::TableIndexSpecFinite,
                cardinality.term(s),
                at(s, span),
            ),
        }
    }
}

impl NatExpr {
    /// The tree below this node.
    pub open spec fn to_term(self, s: Spans) -> Term
        decreases self,
    {
        match self {
            NatExpr::Literal(value, span) => node2(Tag::NatExprLiteral, value.term(s), at(s, span)),
            NatExpr::Var(value) => node1(Tag::NatExprVar, value.term(s)),
            NatExpr::Add(value, span) => node2(Tag::NatExprAdd, Term::List(NatExpr::terms(value, s)), at(s, span)),
            NatExpr::Mul(value, span) => node2(Tag::NatExprMul, Term::List(NatExpr::terms(value, s)), at(s, span)),
        }
    }

    pub open spec fn terms(v: Vec<NatExpr>, s: Spans) -> Seq<Term>
        decreases v,
    {
        Seq::new(v.len() as nat, |i: int| if 0 <= i < v.len() { v[i].to_term(s) } else { Term::Absent })
    }
}

impl Syntax for NatExpr {
    open spec fn term(&self, s: Spans) -> Term {
        self.to_term(s)
    }
}

impl AmbiguousGenericArg {
    /// The tree below this node.
    pub open spec fn to_term(self, s: Spans) -> Term
        decreases self,
    {
        match self {
            AmbiguousGenericArg::Name(value) => node1(Tag::AmbiguousGenericArgName, value.term(s)),
            AmbiguousGenericArg::Mul(value, span) => node2(
                Tag::AmbiguousGenericArgMul,
                Term::List(AmbiguousGenericArg::terms(value, s)),
                at(s, span),
            ),
        }
    }

    pub open spec fn terms(v: Vec<AmbiguousGenericArg>, s: Spans) -> Seq<Term>
        decreases v,
    {
        Seq::new(v.len() as nat, |i: int| if 0 <= i < v.len() { v[i].to_term(s) } else { Term::Absent })
    }
}

impl Syntax for AmbiguousGenericArg {
    open spec fn term(&self, s: Spans) -> Term {
        self.to_term(s)
    }
}

impl Syntax for IndexExpr {
    open spec fn term(&self, s: Spans) -> Term {
        match *self {
            IndexExpr::Name(value) => node1(Tag::IndexExprName, value.term(s)),
            IndexExpr::Finite { cardinality, span } => node2(Tag::IndexExprFinite, cardinality.term(s), at(s, span)),
            IndexExpr::BareNat(value) => node1(Tag::IndexExprBareNat, value.term(s)),
        }
    }
}

impl Syntax for ForBindingIndex {
    open spec fn term(&self, s: Spans) -> Term {
        match *self {
            ForBindingIndex::Named(value) => node1(Tag::ForBindingIndexNamed, value.term(s)),
            ForBindingIndex::Finite { cardinality, span } => node2(
                Tag::ForBindingIndexFinite,
                cardinality.term(s),
                at(s, span),
            ),
        }
    }
}

impl Syntax for ForBinding {
    open spec fn term(&self, s: Spans) -> Term {
        node2(Tag::ForBinding, self.var.term(s), self.index.term(s))
    }
}

impl Syntax for PatternBinding {
    open spec fn term(&self, s: Spans) -> Term {
        match *self {
            PatternBinding::Bind { field, var } => node2(Tag::PatternBindingBind, field.term(s), var.term(s)),
            PatternBinding::Wildcard { field, span } => node2(
                Tag::PatternBindingWildcard,
                field.term(s),
                at(s, span),
            ),
        }
    }
}

impl Syntax for MatchPattern {
    open spec fn term(&self, s: Spans) -> Term {
        match *self {
            MatchPattern::Path { path, bindings, span } => node3(
                Tag::MatchPatternPath,
                path.term(s),
                bindings.term(s),
                at(s, span),
            ),
            MatchPattern::Constructor { name, bindings, span } => node3(
                Tag::MatchPatternConstructor,
                name.term(s),
                bindings.term(s),
                at(s, span),
            ),
            MatchPattern::IndexLabel { index, variant, span } => node3(
                Tag::MatchPatternIndexLabel,
                index.term(s),
                variant.term(s),
                at(s, span),
            ),
        }
    }
}

impl Syntax for MapKeyAxisSyntax {
    open spec fn term(&self, s: Spans) -> Term {
        match *self {
            MapKeyAxisSyntax::Explicit(value) => node1(Tag::MapKeyAxisSyntaxExplicit, value.term(s)),
            MapKeyAxisSyntax::Contextual => node0(Tag::MapKeyAxisSyntaxContextual),
        }
    }
}

impl Syntax for MultiDeclSharedAxes {
    open spec fn term(&self, s: Spans) -> Term {
        node2(Tag::MultiDeclSharedAxes, self.slice_axes.term(s), self.row_axis.term(s))
    }
}

impl Syntax for MultiSlotAxis {
    open spec fn term(&self, s: Spans) -> Term {
        match *self {
            MultiSlotAxis::Underscore => node0(Tag::MultiSlotAxisUnderscore),
            MultiSlotAxis::Axis(value) => node1(Tag::MultiSlotAxisAxis, value.term(s)),
        }
    }
}

impl Syntax for MultiSlotColumnSpan {
    open spec fn term(&self, s: Spans) -> Term {
        match *self {
            MultiSlotColumnSpan::Single(value) => node1(Tag::MultiSlotColumnSpanSingle, value.term(s)),
            MultiSlotColumnSpan::Range { start, end, extra_axis } => node3(
                Tag::MultiSlotColumnSpanRange,
                start.term(s),
                end.term(s),
                extra_axis.term(s),
            ),
        }
    }
}

impl Syntax for MultiHeaderCell {
    open spec fn term(&self, s: Spans) -> Term {
        match *self {
            MultiHeaderCell::Underscore { span } => node1(Tag::MultiHeaderCellUnderscore, at(s, span)),
            MultiHeaderCell::Variant { axis, variant, span } => node3(
                Tag::MultiHeaderCellVariant,
                axis.term(s),
                variant.term(s),
                at(s, span),
            ),
        }
    }
}

impl Syntax for ExternGenericBinder {
    open spec fn term(&self, s: Spans) -> Term {
        match *self {
            ExternGenericBinder::Dim(value) => node1(Tag::ExternGenericBinderDim, value.term(s)),
            ExternGenericBinder::Index(value) => node1(Tag::ExternGenericBinderIndex, value.term(s)),
        }
    }
}

impl Expr {
    pub open spec fn to_term(self, r: Reading) -> Term
        decreases self,
    {
        node2(Tag::Expr, self.kind.to_term(r), at(r.spans(), self.span))
    }

    pub open spec fn terms(v: Vec<Expr>, r: Reading) -> Seq<Term>
        decreases v,
    {
        Seq::new(v.len() as nat, |i: int| if 0 <= i < v.len() { v[i].to_term(r) } else { Term::Absent })
    }
}

impl Syntax for Expr {
    open spec fn term(&self, s: Spans) -> Term {
        self.to_term(Reading::of(s))
    }
}

impl ExprKind {
    #[verifier::opaque]
    pub open spec fn to_term(self, r: Reading) -> Term
        decreases self,
    {
        match self {
            ExprKind::Number(value) => node1(Tag::ExprNumber, value.term(r.spans())),
            ExprKind::Integer(value) => node1(Tag::ExprInteger, value.term(r.spans())),
            ExprKind::Bool(value) => node1(Tag::ExprBool, value.term(r.spans())),
            ExprKind::StringLiteral(value) => node1(Tag::ExprStringLiteral, value.term(r.spans())),
            ExprKind::GraphRef(value) => node1(Tag::ExprGraphRef, value.term(r.spans())),
            ExprKind::BinOp { op, lhs, rhs } => node3(
                Tag::ExprBinOp,
                op.term(r.spans()),
                lhs.to_term(r),
                rhs.to_term(r),
            ),
            ExprKind::UnaryOp { op, operand } => node2(Tag::ExprUnaryOp, op.term(r.spans()), operand.to_term(r)),
            ExprKind::FnCall { callee, generic_args, args } => node3(
                Tag::ExprFnCall,
                callee.term(r.spans()),
                Term::List(GenericArg::terms(generic_args, r)),
                Term::List(Expr::terms(args, r)),
            ),
            ExprKind::If { condition, then_branch, else_branch } => node3(
                Tag::ExprIf,
                condition.to_term(r),
                then_branch.to_term(r),
                else_branch.to_term(r),
            ),
            ExprKind::QuantityLiteral { value, unit } => node2(
                Tag::ExprQuantityLiteral,
                value.term(r.spans()),
                unit.term(r.spans()),
            ),
            ExprKind::Convert { expr, target } => node2(Tag::ExprConvert, expr.to_term(r), target.term(r.spans())),
            ExprKind::DisplayTimezone { expr, timezone } => node2(
                Tag::ExprDisplayTimezone,
                expr.to_term(r),
                timezone.term(r.spans()),
            ),
            ExprKind::FieldAccess { expr, field } => node2(
                Tag::ExprFieldAccess,
                expr.to_term(r),
                field.term(r.spans()),
            ),
            ExprKind::ConstructorCall { callee, generic_args, fields } => node3(
                Tag::ExprConstructorCall,
                callee.term(r.spans()),
                Term::List(GenericArg::terms(generic_args, r)),
                Term::List(FieldInit::terms(fields, r)),
            ),
            ExprKind::MapLiteral { entries } => node1(Tag::ExprMapLiteral, Term::List(MapEntry::terms(entries, r))),
            ExprKind::ForComp { bindings, body } => node2(
                Tag::ExprForComp,
                bindings.term(r.spans()),
                body.to_term(r),
            ),
            ExprKind::IndexAccess { expr, args } => node2(
                Tag::ExprIndexAccess,
                expr.to_term(r),
                Term::List(prepend(args.first.to_term(r), IndexArg::terms(args.rest, r))),
            ),
            ExprKind::Scan { source, init, acc_name, val_name, body } => node5(
                Tag::ExprScan,
                source.to_term(r),
                init.to_term(r),
                acc_name.term(r.spans()),
                val_name.term(r.spans()),
                body.to_term(r),
            ),
            ExprKind::Unfold { axis, init, prev_state_name, prev_index_name, index_name, body } => node6(
                Tag::ExprUnfold,
                axis.term(r.spans()),
                init.to_term(r),
                prev_state_name.term(r.spans()),
                prev_index_name.term(r.spans()),
                index_name.term(r.spans()),
                body.to_term(r),
            ),
            ExprKind::KeyForm { kind, axis, arg } => node3(
                Tag::ExprKeyForm,
                kind.term(r.spans()),
                axis.term(r.spans()),
                arg.to_term(r),
            ),
            ExprKind::Match { scrutinee, arms } => node2(
                Tag::ExprMatch,
                scrutinee.to_term(r),
                Term::List(MatchArm::terms(arms, r)),
            ),
            ExprKind::InlineDagRef { path, args, output } => node3(
                Tag::ExprInlineDagRef,
                path.term(r.spans()),
                Term::List(ParamBinding::terms(args, r)),
                output.term(r.spans()),
            ),
            ExprKind::UnresolvedRef(value) => node1(Tag::ExprUnresolvedRef, value.term(r.spans())),
            ExprKind::Sugar(value) => value.to_term(r),
        }
    }
}

impl Syntax for ExprKind {
    open spec fn term(&self, s: Spans) -> Term {
        self.to_term(Reading::of(s))
    }
}

impl RawExprSugar {
    pub open spec fn to_term(self, r: Reading) -> Term
        decreases self,
    {
        match self {
            RawExprSugar::TableLiteral { indexes, entries } => match r {
                Reading::Exact => node2(
                    Tag::TableLiteral,
                    indexes.term(r.spans()),
                    Term::List(MapEntry::terms(entries, r)),
                ),
                Reading::SpanFree => node2(
                    Tag::TableLiteral,
                    indexes.term(r.spans()),
                    Term::List(canonical(MapEntry::terms(entries, r))),
                ),
                Reading::Desugared => node1(Tag::ExprMapLiteral, Term::List(MapEntry::terms(entries, r))),
            },
        }
    }
}

impl Syntax for RawExprSugar {
    open spec fn term(&self, s: Spans) -> Term {
        self.to_term(Reading::of(s))
    }
}

impl MapEntry {
    pub open spec fn to_term(self, r: Reading) -> Term
        decreases self,
    {
        node2(
            Tag::MapEntry,
            Term::List(prepend(self.keys.first.to_term(r), MapEntryKey::terms(self.keys.rest, r))),
            self.value.to_term(r),
        )
    }

    pub open spec fn terms(v: Vec<MapEntry>, r: Reading) -> Seq<Term>
        decreases v,
    {
        Seq::new(v.len() as nat, |i: int| if 0 <= i < v.len() { v[i].to_term(r) } else { Term::Absent })
    }
}

impl Syntax for MapEntry {
    open spec fn term(&self, s: Spans) -> Term {
        self.to_term(Reading::of(s))
    }
}

impl MapEntryKey {
    pub open spec fn to_term(self, r: Reading) -> Term
        decreases self,
    {
        match self {
            MapEntryKey::Discrete { index, additional_index_spans, entry } => node3(
                Tag::MapEntryKeyDiscrete,
                index.term(r.spans()),
                marks(r.spans(), additional_index_spans@),
                entry.term(r.spans()),
            ),
            MapEntryKey::Expression { axis, expr } => node2(
                Tag::MapEntryKeyExpression,
                axis.term(r.spans()),
                expr.to_term(r),
            ),
        }
    }

    pub open spec fn terms(v: Vec<MapEntryKey>, r: Reading) -> Seq<Term>
        decreases v,
    {
        Seq::new(v.len() as nat, |i: int| if 0 <= i < v.len() { v[i].to_term(r) } else { Term::Absent })
    }
}

impl Syntax for MapEntryKey {
    open spec fn term(&self, s: Spans) -> Term {
        self.to_term(Reading::of(s))
    }
}

impl IndexArg {
    pub open spec fn to_term(self, r: Reading) -> Term
        decreases self,
    {
        match self {
            IndexArg::Variant { index, variant } => node2(
                Tag::IndexArgVariant,
                index.term(r.spans()),
                variant.term(r.spans()),
            ),
            IndexArg::Var(value) => node1(Tag::IndexArgVar, value.term(r.spans())),
            IndexArg::Expr(value) => node1(Tag::IndexArgExpr, value.to_term(r)),
        }
    }

    pub open spec fn terms(v: Vec<IndexArg>, r: Reading) -> Seq<Term>
        decreases v,
    {
        Seq::new(v.len() as nat, |i: int| if 0 <= i < v.len() { v[i].to_term(r) } else { Term::Absent })
    }
}

impl Syntax for IndexArg {
    open spec fn term(&self, s: Spans) -> Term {
        self.to_term(Reading::of(s))
    }
}

impl FieldInit {
    pub open spec fn to_term(self, r: Reading) -> Term
        decreases self,
    {
        node2(Tag::FieldInit, self.name.term(r.spans()), self.value.to_term(r))
    }

    pub open spec fn terms(v: Vec<FieldInit>, r: Reading) -> Seq<Term>
        decreases v,
    {
        Seq::new(v.len() as nat, |i: int| if 0 <= i < v.len() { v[i].to_term(r) } else { Term::Absent })
    }
}

impl Syntax for FieldInit {
    open spec fn term(&self, s: Spans) -> Term {
        self.to_term(Reading::of(s))
    }
}

impl MatchArm {
    pub open spec fn to_term(self, r: Reading) -> Term
        decreases self,
    {
        node3(Tag::MatchArm, self.pattern.term(r.spans()), self.body.to_term(r), at(r.spans(), self.span))
    }

    pub open spec fn terms(v: Vec<MatchArm>, r: Reading) -> Seq<Term>
        decreases v,
    {
        Seq::new(v.len() as nat, |i: int| if 0 <= i < v.len() { v[i].to_term(r) } else { Term::Absent })
    }
}

impl Syntax for MatchArm {
    open spec fn term(&self, s: Spans) -> Term {
        self.to_term(Reading::of(s))
    }
}

impl ParamBinding {
    pub open spec fn to_term(self, r: Reading) -> Term
        decreases self,
    {
        node3(Tag::ParamBinding, self.name.term(r.spans()), self.value.to_term(r), at(r.spans(), self.span))
    }

    pub open spec fn terms(v: Vec<ParamBinding>, r: Reading) -> Seq<Term>
        decreases v,
    {
        Seq::new(v.len() as nat, |i: int| if 0 <= i < v.len() { v[i].to_term(r) } else { Term::Absent })
    }
}

impl Syntax for ParamBinding {
    open spec fn term(&self, s: Spans) -> Term {
        self.to_term(Reading::of(s))
    }
}

impl TypeExpr {
    pub open spec fn to_term(self, r: Reading) -> Term
        decreases self,
    {
        node3(
            Tag::TypeExpr,
            self.kind.to_term(r),
            Term::List(DomainBound::terms(self.constraints, r)),
            at(r.spans(), self.span),
        )
    }

    pub open spec fn terms(v: Vec<TypeExpr>, r: Reading) -> Seq<Term>
        decreases v,
    {
        Seq::new(v.len() as nat, |i: int| if 0 <= i < v.len() { v[i].to_term(r) } else { Term::Absent })
    }
}

impl Syntax for TypeExpr {
    open spec fn term(&self, s: Spans) -> Term {
        self.to_term(Reading::of(s))
    }
}

impl TypeExprKind {
    pub open spec fn to_term(self, r: Reading) -> Term
        decreases self,
    {
        match self {
            TypeExprKind::Dimensionless => node0(Tag::TypeExprDimensionless),
            TypeExprKind::Bool => node0(Tag::TypeExprBool),
            TypeExprKind::Int => node0(Tag::TypeExprInt),
            TypeExprKind::Datetime => node0(Tag::TypeExprDatetime),
            TypeExprKind::DatetimeApplication { type_args } => node1(
                Tag::TypeExprDatetimeApplication,
                Term::List(prepend(type_args.first.to_term(r), TypeExpr::terms(type_args.rest, r))),
            ),
            TypeExprKind::ComplexApplication { generic_args } => node1(
                Tag::TypeExprComplexApplication,
                Term::List(GenericArg::terms(generic_args, r)),
            ),
            TypeExprKind::KeyApplication { generic_args } => node1(
                Tag::TypeExprKeyApplication,
                Term::List(GenericArg::terms(generic_args, r)),
            ),
            TypeExprKind::DimExpr(value) => node1(Tag::TypeExprDimExpr, value.term(r.spans())),
            TypeExprKind::Indexed { base, indexes } => node2(
                Tag::TypeExprIndexed,
                base.to_term(r),
                indexes.term(r.spans()),
            ),
            TypeExprKind::TypeApplication { name, generic_args } => node2(
                Tag::TypeExprTypeApplication,
                name.term(r.spans()),
                Term::List(prepend(generic_args.first.to_term(r), GenericArg::terms(generic_args.rest, r))),
            ),
        }
    }
}

impl Syntax for TypeExprKind {
    open spec fn term(&self, s: Spans) -> Term {
        self.to_term(Reading::of(s))
    }
}

impl DomainBound {
    pub open spec fn to_term(self, r: Reading) -> Term
        decreases self,
    {
        node4(
            Tag::DomainBound,
            self.kind.term(r.spans()),
            at(r.spans(), self.kind_span),
            self.value.to_term(r),
            at(r.spans(), self.span),
        )
    }

    pub open spec fn terms(v: Vec<DomainBound>, r: Reading) -> Seq<Term>
        decreases v,
    {
        Seq::new(v.len() as nat, |i: int| if 0 <= i < v.len() { v[i].to_term(r) } else { Term::Absent })
    }
}

impl Syntax for DomainBound {
    open spec fn term(&self, s: Spans) -> Term {
        self.to_term(Reading::of(s))
    }
}

impl GenericArg {
    pub open spec fn to_term(self, r: Reading) -> Term
        decreases self,
    {
        match self {
            GenericArg::Type(value) => node1(Tag::GenericArgType, value.to_term(r)),
            GenericArg::Index(value) => node1(Tag::GenericArgIndex, value.term(r.spans())),
            GenericArg::Nat(value) => node1(Tag::GenericArgNat, value.term(r.spans())),
            GenericArg::Ambiguous(value) => node1(Tag::GenericArgAmbiguous, value.term(r.spans())),
        }
    }

    pub open spec fn terms(v: Vec<GenericArg>, r: Reading) -> Seq<Term>
        decreases v,
    {
        Seq::new(v.len() as nat, |i: int| if 0 <= i < v.len() { v[i].to_term(r) } else { Term::Absent })
    }
}

impl Syntax for GenericArg {
    open spec fn term(&self, s: Spans) -> Term {
        self.to_term(Reading::of(s))
    }
}

impl ParamDecl {
    pub open spec fn to_term(self, r: Reading) -> Term
    {
        node3(
            Tag::ParamDecl,
            self.name.term(r.spans()),
            self.type_ann.to_term(r),
            match self.value { Some(some) => present(some.to_term(r)), None => Term::Absent },
        )
    }
}

impl Syntax for ParamDecl {
    open spec fn term(&self, s: Spans) -> Term {
        self.to_term(Reading::of(s))
    }
}

impl ValueDecl {
    pub open spec fn to_term(self, r: Reading) -> Term
    {
        node4(
            Tag::ValueDecl,
            self.visibility.term(r.spans()),
            self.name.term(r.spans()),
            self.type_ann.to_term(r),
            self.value.to_term(r),
        )
    }
}

impl Syntax for ValueDecl {
    open spec fn term(&self, s: Spans) -> Term {
        self.to_term(Reading::of(s))
    }
}

impl UnitDef {
    pub open spec fn to_term(self, r: Reading) -> Term
    {
        node3(Tag::UnitDef, self.scale_expr.to_term(r), self.unit_expr.term(r.spans()), at(r.spans(), self.span))
    }
}

impl Syntax for UnitDef {
    open spec fn term(&self, s: Spans) -> Term {
        self.to_term(Reading::of(s))
    }
}

impl UnitDecl {
    pub open spec fn to_term(self, r: Reading) -> Term
    {
        node5(
            Tag::UnitDecl,
            self.visibility.term(r.spans()),
            self.constness.term(r.spans()),
            self.name.term(r.spans()),
            self.dim_type.term(r.spans()),
            match self.definition { Some(some) => present(some.to_term(r)), None => Term::Absent },
        )
    }
}

impl Syntax for UnitDecl {
    open spec fn term(&self, s: Spans) -> Term {
        self.to_term(Reading::of(s))
    }
}

impl FieldDecl {
    pub open spec fn to_term(self, r: Reading) -> Term
    {
        node2(Tag::FieldDecl, self.name.term(r.spans()), self.type_ann.to_term(r))
    }

    pub open spec fn terms(v: Vec<FieldDecl>, r: Reading) -> Seq<Term>
    {
        Seq::new(v.len() as nat, |i: int| if 0 <= i < v.len() { v[i].to_term(r) } else { Term::Absent })
    }
}

impl Syntax for FieldDecl {
    open spec fn term(&self, s: Spans) -> Term {
        self.to_term(Reading::of(s))
    }
}

impl UnionMember {
    pub open spec fn to_term(self, r: Reading) -> Term
    {
        node3(
            Tag::UnionMember,
            self.name.term(r.spans()),
            match self.payload { Some(some) => present(Term::List(FieldDecl::terms(some, r))), None => Term::Absent },
            at(r.spans(), self.span),
        )
    }

    pub open spec fn terms(v: Vec<UnionMember>, r: Reading) -> Seq<Term>
    {
        Seq::new(v.len() as nat, |i: int| if 0 <= i < v.len() { v[i].to_term(r) } else { Term::Absent })
    }
}

impl Syntax for UnionMember {
    open spec fn term(&self, s: Spans) -> Term {
        self.to_term(Reading::of(s))
    }
}

impl TypeDeclBody {
    pub open spec fn to_term(self, r: Reading) -> Term
    {
        match self {
            TypeDeclBody::Required => node0(Tag::TypeDeclBodyRequired),
            TypeDeclBody::Constructors(value) => node1(
                Tag::TypeDeclBodyConstructors,
                Term::List(UnionMember::terms(value, r)),
            ),
        }
    }
}

impl Syntax for TypeDeclBody {
    open spec fn term(&self, s: Spans) -> Term {
        self.to_term(Reading::of(s))
    }
}

impl GenericParam {
    pub open spec fn to_term(self, r: Reading) -> Term
    {
        node3(
            Tag::GenericParam,
            self.name.term(r.spans()),
            self.constraint.term(r.spans()),
            match self.default { Some(some) => present(some.to_term(r)), None => Term::Absent },
        )
    }

    pub open spec fn terms(v: Vec<GenericParam>, r: Reading) -> Seq<Term>
    {
        Seq::new(v.len() as nat, |i: int| if 0 <= i < v.len() { v[i].to_term(r) } else { Term::Absent })
    }
}

impl Syntax for GenericParam {
    open spec fn term(&self, s: Spans) -> Term {
        self.to_term(Reading::of(s))
    }
}

impl TypeDecl {
    pub open spec fn to_term(self, r: Reading) -> Term
    {
        node4(
            Tag::TypeDecl,
            self.visibility.term(r.spans()),
            self.name.term(r.spans()),
            Term::List(GenericParam::terms(self.generic_params, r)),
            self.body.to_term(r),
        )
    }
}

impl Syntax for TypeDecl {
    open spec fn term(&self, s: Spans) -> Term {
        self.to_term(Reading::of(s))
    }
}

impl IndexDeclKind {
    pub open spec fn to_term(self, r: Reading) -> Term
    {
        match self {
            IndexDeclKind::Named { variants } => node1(Tag::IndexDeclNamed, variants.term(r.spans())),
            IndexDeclKind::Range { start, end, step } => node3(
                Tag::IndexDeclRange,
                start.to_term(r),
                end.to_term(r),
                step.to_term(r),
            ),
            IndexDeclKind::Linspace { start, end, points } => node3(
                Tag::IndexDeclLinspace,
                start.to_term(r),
                end.to_term(r),
                points.term(r.spans()),
            ),
            IndexDeclKind::RequiredNamed => node0(Tag::IndexDeclRequiredNamed),
            IndexDeclKind::RequiredCoordinate { dimension } => node1(
                Tag::IndexDeclRequiredCoordinate,
                dimension.term(r.spans()),
            ),
        }
    }
}

impl Syntax for IndexDeclKind {
    open spec fn term(&self, s: Spans) -> Term {
        self.to_term(Reading::of(s))
    }
}

impl IndexDecl {
    pub open spec fn to_term(self, r: Reading) -> Term
    {
        node3(Tag::IndexDecl, self.visibility.term(r.spans()), self.name.term(r.spans()), self.kind.to_term(r))
    }
}

impl Syntax for IndexDecl {
    open spec fn term(&self, s: Spans) -> Term {
        self.to_term(Reading::of(s))
    }
}

impl IncludeDecl {
    pub open spec fn to_term(self, r: Reading) -> Term
    {
        node3(
            Tag::IncludeDecl,
            self.path.term(r.spans()),
            Term::List(ParamBinding::terms(self.param_bindings, r)),
            self.kind.term(r.spans()),
        )
    }
}

impl Syntax for IncludeDecl {
    open spec fn term(&self, s: Spans) -> Term {
        self.to_term(Reading::of(s))
    }
}

impl AssertBody {
    pub open spec fn to_term(self, r: Reading) -> Term
    {
        match self {
            AssertBody::Expr(value) => node1(Tag::AssertBodyExpr, value.to_term(r)),
            AssertBody::Tolerance { actual, expected, tolerance } => node3(
                Tag::AssertBodyTolerance,
                actual.to_term(r),
                expected.to_term(r),
                tolerance.to_term(r),
            ),
        }
    }
}

impl Syntax for AssertBody {
    open spec fn term(&self, s: Spans) -> Term {
        self.to_term(Reading::of(s))
    }
}

impl AssertDecl {
    pub open spec fn to_term(self, r: Reading) -> Term
    {
        node3(Tag::AssertDecl, self.visibility.term(r.spans()), self.name.term(r.spans()), self.body.to_term(r))
    }
}

impl Syntax for AssertDecl {
    open spec fn term(&self, s: Spans) -> Term {
        self.to_term(Reading::of(s))
    }
}

impl PlotField {
    pub open spec fn to_term(self, r: Reading) -> Term
    {
        node3(Tag::PlotField, self.name.term(r.spans()), self.value.to_term(r), at(r.spans(), self.span))
    }

    pub open spec fn terms(v: Vec<PlotField>, r: Reading) -> Seq<Term>
    {
        Seq::new(v.len() as nat, |i: int| if 0 <= i < v.len() { v[i].to_term(r) } else { Term::Absent })
    }
}

impl Syntax for PlotField {
    open spec fn term(&self, s: Spans) -> Term {
        self.to_term(Reading::of(s))
    }
}

impl Encoding {
    pub open spec fn to_term(self, r: Reading) -> Term
    {
        node4(
            Tag::Encoding,
            self.channel.term(r.spans()),
            at(r.spans(), self.channel_span),
            self.value.to_term(r),
            at(r.spans(), self.span),
        )
    }

    pub open spec fn terms(v: Vec<Encoding>, r: Reading) -> Seq<Term>
    {
        Seq::new(v.len() as nat, |i: int| if 0 <= i < v.len() { v[i].to_term(r) } else { Term::Absent })
    }
}

impl Syntax for Encoding {
    open spec fn term(&self, s: Spans) -> Term {
        self.to_term(Reading::of(s))
    }
}

impl MarkSpec {
    pub open spec fn to_term(self, r: Reading) -> Term
    {
        node4(
            Tag::MarkSpec,
            self.mark_type.term(r.spans()),
            at(r.spans(), self.mark_type_span),
            Term::List(PlotField::terms(self.properties, r)),
            at(r.spans(), self.span),
        )
    }
}

impl Syntax for MarkSpec {
    open spec fn term(&self, s: Spans) -> Term {
        self.to_term(Reading::of(s))
    }
}

impl PlotDecl {
    pub open spec fn to_term(self, r: Reading) -> Term
    {
        node5(
            Tag::PlotDecl,
            self.visibility.term(r.spans()),
            self.name.term(r.spans()),
            self.mark.to_term(r),
            Term::List(Encoding::terms(self.encodings, r)),
            Term::List(PlotField::terms(self.properties, r)),
        )
    }
}

impl Syntax for PlotDecl {
    open spec fn term(&self, s: Spans) -> Term {
        self.to_term(Reading::of(s))
    }
}

impl FigureDecl {
    pub open spec fn to_term(self, r: Reading) -> Term
    {
        node4(
            Tag::FigureDecl,
            self.visibility.term(r.spans()),
            self.name.term(r.spans()),
            self.plot_names.term(r.spans()),
            Term::List(PlotField::terms(self.fields, r)),
        )
    }
}

impl Syntax for FigureDecl {
    open spec fn term(&self, s: Spans) -> Term {
        self.to_term(Reading::of(s))
    }
}

impl LayerDecl {
    pub open spec fn to_term(self, r: Reading) -> Term
    {
        node4(
            Tag::LayerDecl,
            self.visibility.term(r.spans()),
            self.name.term(r.spans()),
            self.plot_names.term(r.spans()),
            Term::List(PlotField::terms(self.fields, r)),
        )
    }
}

impl Syntax for LayerDecl {
    open spec fn term(&self, s: Spans) -> Term {
        self.to_term(Reading::of(s))
    }
}

impl ExternFnParam {
    pub open spec fn to_term(self, r: Reading) -> Term
    {
        node2(Tag::ExternFnParam, self.name.term(r.spans()), self.type_ann.to_term(r))
    }

    pub open spec fn terms(v: Vec<ExternFnParam>, r: Reading) -> Seq<Term>
    {
        Seq::new(v.len() as nat, |i: int| if 0 <= i < v.len() { v[i].to_term(r) } else { Term::Absent })
    }
}

impl Syntax for ExternFnParam {
    open spec fn term(&self, s: Spans) -> Term {
        self.to_term(Reading::of(s))
    }
}

impl ExternFnDecl {
    pub open spec fn to_term(self, r: Reading) -> Term
    {
        node5(
            Tag::ExternFnDecl,
            self.name.term(r.spans()),
            self.generics.term(r.spans()),
            Term::List(ExternFnParam::terms(self.params, r)),
            self.result.to_term(r),
            at(r.spans(), self.span),
        )
    }

    pub open spec fn terms(v: Vec<ExternFnDecl>, r: Reading) -> Seq<Term>
    {
        Seq::new(v.len() as nat, |i: int| if 0 <= i < v.len() { v[i].to_term(r) } else { Term::Absent })
    }
}

impl Syntax for ExternFnDecl {
    open spec fn term(&self, s: Spans) -> Term {
        self.to_term(Reading::of(s))
    }
}

impl PluginImportDecl {
    pub open spec fn to_term(self, r: Reading) -> Term
    {
        node3(
            Tag::PluginImportDecl,
            self.path.term(r.spans()),
            self.alias.term(r.spans()),
            Term::List(ExternFnDecl::terms(self.functions, r)),
        )
    }
}

impl Syntax for PluginImportDecl {
    open spec fn term(&self, s: Spans) -> Term {
        self.to_term(Reading::of(s))
    }
}

impl MultiDeclSlot {
    pub open spec fn to_term(self, r: Reading) -> Term
    {
        node5(
            Tag::MultiDeclSlot,
            self.visibility.term(r.spans()),
            self.kind.term(r.spans()),
            self.name.term(r.spans()),
            self.type_ann.to_term(r),
            at(r.spans(), self.header_span),
        )
    }

    pub open spec fn terms(v: Vec<MultiDeclSlot>, r: Reading) -> Seq<Term>
    {
        Seq::new(v.len() as nat, |i: int| if 0 <= i < v.len() { v[i].to_term(r) } else { Term::Absent })
    }
}

impl Syntax for MultiDeclSlot {
    open spec fn term(&self, s: Spans) -> Term {
        self.to_term(Reading::of(s))
    }
}

impl MultiDataRow {
    pub open(crate) spec fn to_term(self, r: Reading) -> Term
    {
        node2(Tag::MultiDataRow, self.label.term(r.spans()), Term::List(Expr::terms(self.values, r)))
    }

    pub open(crate) spec fn terms(v: Vec<MultiDataRow>, r: Reading) -> Seq<Term>
    {
        Seq::new(v.len() as nat, |i: int| if 0 <= i < v.len() { v[i].to_term(r) } else { Term::Absent })
    }
}

impl Syntax for MultiDataRow {
    open(crate) spec fn term(&self, s: Spans) -> Term {
        self.to_term(Reading::of(s))
    }
}

impl MultiDeclSlice {
    pub open(crate) spec fn to_term(self, r: Reading) -> Term
    {
        node4(
            Tag::MultiDeclSlice,
            Term::List(MapEntryKey::terms(self.prefix_keys, r)),
            self.header_cells.term(r.spans()),
            self.column_layout.term(r.spans()),
            Term::List(MultiDataRow::terms(self.rows, r)),
        )
    }

    pub open(crate) spec fn terms(v: Vec<MultiDeclSlice>, r: Reading) -> Seq<Term>
    {
        Seq::new(v.len() as nat, |i: int| if 0 <= i < v.len() { v[i].to_term(r) } else { Term::Absent })
    }
}

impl Syntax for MultiDeclSlice {
    open(crate) spec fn term(&self, s: Spans) -> Term {
        self.to_term(Reading::of(s))
    }
}

impl MultiDecl {
    pub open(crate) spec fn to_term(self, r: Reading) -> Term
    {
        node6(
            Tag::MultiDecl,
            Term::List(MultiDeclSlot::terms(self.slots, r)),
            self.shared_axes.term(r.spans()),
            self.slot_axes.term(r.spans()),
            Term::List(MultiDeclSlice::terms(self.slices, r)),
            at(r.spans(), self.span),
            at(r.spans(), self.table_expr_span),
        )
    }
}

impl Syntax for MultiDecl {
    open(crate) spec fn term(&self, s: Spans) -> Term {
        self.to_term(Reading::of(s))
    }
}

impl RawDeclSugar {
    pub open(crate) spec fn to_term(self, r: Reading) -> Term
    {
        match self {
            RawDeclSugar::Multi(value) => node1(Tag::RawDeclSugarMulti, value.to_term(r)),
        }
    }
}

impl Syntax for RawDeclSugar {
    open(crate) spec fn term(&self, s: Spans) -> Term {
        self.to_term(Reading::of(s))
    }
}

impl DagDecl {
    pub open(crate) spec fn to_term(self, r: Reading) -> Term
        decreases self,
    {
        node4(
            Tag::DagDecl,
            self.visibility.term(r.spans()),
            self.name.term(r.spans()),
            Term::List(Declaration::terms(self.body, r)),
            at(r.spans(), self.span),
        )
    }
}

impl Syntax for DagDecl {
    open(crate) spec fn term(&self, s: Spans) -> Term {
        self.to_term(Reading::of(s))
    }
}

impl DeclKind {
    pub open(crate) spec fn to_term(self, r: Reading) -> Term
        decreases self,
    {
        match self {
            DeclKind::Param(value) => node1(Tag::DeclParam, value.to_term(r)),
            DeclKind::Node(value) => node1(Tag::DeclNode, value.to_term(r)),
            DeclKind::ConstNode(value) => node1(Tag::DeclConstNode, value.to_term(r)),
            DeclKind::BaseDimension(value) => node1(Tag::DeclBaseDimension, value.term(r.spans())),
            DeclKind::Dimension(value) => node1(Tag::DeclDimension, value.term(r.spans())),
            DeclKind::Unit(value) => node1(Tag::DeclUnit, value.to_term(r)),
            DeclKind::Type(value) => node1(Tag::DeclType, value.to_term(r)),
            DeclKind::Index(value) => node1(Tag::DeclIndex, value.to_term(r)),
            DeclKind::Import(value) => node1(Tag::DeclImport, value.term(r.spans())),
            DeclKind::PluginImport(value) => node1(Tag::DeclPluginImport, value.to_term(r)),
            DeclKind::Include(value) => node1(Tag::DeclInclude, value.to_term(r)),
            DeclKind::Dag(value) => node1(Tag::DeclDag, value.to_term(r)),
            DeclKind::Assert(value) => node1(Tag::DeclAssert, value.to_term(r)),
            DeclKind::Plot(value) => node1(Tag::DeclPlot, value.to_term(r)),
            DeclKind::Figure(value) => node1(Tag::DeclFigure, value.to_term(r)),
            DeclKind::Layer(value) => node1(Tag::DeclLayer, value.to_term(r)),
            DeclKind::Sugar(value) => value.to_term(r),
        }
    }
}

impl Syntax for DeclKind {
    open(crate) spec fn term(&self, s: Spans) -> Term {
        self.to_term(Reading::of(s))
    }
}

impl Declaration {
    pub open(crate) spec fn to_term(self, r: Reading) -> Term
        decreases self,
    {
        node3(Tag::Declaration, self.attributes.term(r.spans()), self.kind.to_term(r), at(r.spans(), self.span))
    }

    pub open(crate) spec fn terms(v: Vec<Declaration>, r: Reading) -> Seq<Term>
        decreases v,
    {
        Seq::new(v.len() as nat, |i: int| if 0 <= i < v.len() { v[i].to_term(r) } else { Term::Absent })
    }
}

impl Syntax for Declaration {
    open(crate) spec fn term(&self, s: Spans) -> Term {
        self.to_term(Reading::of(s))
    }
}

impl File {
    pub open(crate) spec fn to_term(self, r: Reading) -> Term
    {
        node1(Tag::File, Term::List(Declaration::terms(self.declarations, r)))
    }
}

impl Syntax for File {
    open(crate) spec fn term(&self, s: Spans) -> Term {
        self.to_term(Reading::of(s))
    }
}

} // verus!
