//! The term of every resolved node, and copies that keep it.

use crate::hir::tree::{
    AssertBody, BuiltinConst, BuiltinFnName, CivilDateTimeLiteral, ConstRef, DagId, DimExpr, DimExprItem, DimRef,
    Expr, ExprKind, ExternFnRef, FieldInit, ForBinding, ForBindingIndex, FunctionRef, GenericArg, GenericParamId,
    IanaTimeZoneId, IndexArg, IndexRef, IndexVariantRef, LocalDef, LocalId, MapEntry, MapEntryKey, MapKeyAxis,
    MatchArm, MatchPattern, NatExpr, OffsetDateTimeLiteral, ParamBinding, PatternBinding, ResolvedConstructorName,
    ResolvedDeclName, ResolvedDimName, ResolvedIndexName, ResolvedIndexVariant, ResolvedStructTypeName,
    ResolvedUnitExpr, ResolvedUnitExprItem, ResolvedUnitName, ResolvedUnitRef, TimeScale, TypeExpr, TypeExprKind,
    TypeSystemRef, UnfoldRecurrence, ZonedDateTimeLiteral,
};
use crate::syntax::term::{
    DeepClone, Spans, Symbol, Syntax, Tag, Term, at, node0, node1, node2, node3, node4, node5, node7, prepend,
};
use vstd::prelude::*;

verus! {

impl Syntax for BuiltinConst {
    open spec fn term(&self, s: Spans) -> Term {
        Term::Symbol(Symbol::BuiltinConst(*self))
    }
}

impl DeepClone for BuiltinConst {
    fn deep_clone(&self) -> (r: Self) {
        *self
    }
}

impl Syntax for TimeScale {
    open spec fn term(&self, s: Spans) -> Term {
        Term::Symbol(Symbol::TimeScale(*self))
    }
}

impl DeepClone for TimeScale {
    fn deep_clone(&self) -> (r: Self) {
        *self
    }
}

impl Syntax for BuiltinFnName {
    open spec fn term(&self, s: Spans) -> Term {
        Term::Symbol(Symbol::BuiltinFnName(*self))
    }
}

impl DeepClone for BuiltinFnName {
    fn deep_clone(&self) -> (r: Self) {
        *self
    }
}

impl Syntax for DagId {
    open spec fn term(&self, s: Spans) -> Term {
        node1(Tag::HirDagId, self.segments.term(s))
    }
}

impl Syntax for ResolvedDeclName {
    open spec fn term(&self, s: Spans) -> Term {
        node2(Tag::HirResolvedDeclName, self.owner.term(s), self.name.term(s))
    }
}

impl Syntax for ResolvedIndexName {
    open spec fn term(&self, s: Spans) -> Term {
        node2(Tag::HirResolvedIndexName, self.owner.term(s), self.name.term(s))
    }
}

impl Syntax for ResolvedConstructorName {
    open spec fn term(&self, s: Spans) -> Term {
        node2(Tag::HirResolvedConstructorName, self.owner.term(s), self.name.term(s))
    }
}

impl Syntax for ResolvedStructTypeName {
    open spec fn term(&self, s: Spans) -> Term {
        node2(Tag::HirResolvedStructTypeName, self.owner.term(s), self.name.term(s))
    }
}

impl Syntax for ResolvedDimName {
    open spec fn term(&self, s: Spans) -> Term {
        node2(Tag::HirResolvedDimName, self.owner.term(s), self.name.term(s))
    }
}

impl Syntax for ResolvedUnitName {
    open spec fn term(&self, s: Spans) -> Term {
        node2(Tag::HirResolvedUnitName, self.owner.term(s), self.name.term(s))
    }
}

impl Syntax for ResolvedIndexVariant {
    open spec fn term(&self, s: Spans) -> Term {
        node2(Tag::HirResolvedIndexVariant, self.index.term(s), self.variant.term(s))
    }
}

impl Syntax for GenericParamId {
    open spec fn term(&self, s: Spans) -> Term {
        node1(Tag::HirGenericParamId, self.name.term(s))
    }
}

impl Syntax for LocalId {
    open spec fn term(&self, s: Spans) -> Term {
        node1(Tag::HirLocalId, Term::Int(self.id as int))
    }
}

impl Syntax for LocalDef {
    open spec fn term(&self, s: Spans) -> Term {
        node3(Tag::HirLocalDef, self.id.term(s), self.name.term(s), at(s, self.span))
    }
}

impl Syntax for IndexVariantRef {
    open spec fn term(&self, s: Spans) -> Term {
        node4(
            Tag::HirIndexVariantRef,
            self.variant.term(s),
            self.index_span.term(s),
            self.additional_index_spans.term(s),
            at(s, self.variant_span),
        )
    }
}

impl Syntax for ResolvedUnitRef {
    open spec fn term(&self, s: Spans) -> Term {
        node2(Tag::HirResolvedUnitRef, self.spelling.term(s), self.resolved.term(s))
    }
}

impl Syntax for ResolvedUnitExprItem {
    open spec fn term(&self, s: Spans) -> Term {
        node3(Tag::HirResolvedUnitExprItem, self.op.term(s), self.name.term(s), self.power.term(s))
    }
}

impl Syntax for ResolvedUnitExpr {
    open spec fn term(&self, s: Spans) -> Term {
        node2(Tag::HirResolvedUnitExpr, self.terms.term(s), at(s, self.span))
    }
}

impl Syntax for TypeSystemRef {
    open spec fn term(&self, s: Spans) -> Term {
        match *self {
            TypeSystemRef::Type(value) => node1(Tag::HirTypeSystemRefType, value.term(s)),
            TypeSystemRef::Dimension(value) => node1(Tag::HirTypeSystemRefDimension, value.term(s)),
            TypeSystemRef::Index(value) => node1(Tag::HirTypeSystemRefIndex, value.term(s)),
            TypeSystemRef::IndexVariant(value) => node1(Tag::HirTypeSystemRefIndexVariant, value.term(s)),
        }
    }
}

impl Syntax for ConstRef {
    open spec fn term(&self, s: Spans) -> Term {
        match *self {
            ConstRef::Decl(value) => node1(Tag::HirConstRefDecl, value.term(s)),
            ConstRef::Constructor(value) => node1(Tag::HirConstRefConstructor, value.term(s)),
            ConstRef::Builtin(value) => node1(Tag::HirConstRefBuiltin, value.term(s)),
            ConstRef::TimeScale(value) => node1(Tag::HirConstRefTimeScale, value.term(s)),
            ConstRef::GenericNatParam(value) => node1(Tag::HirConstRefGenericNatParam, value.term(s)),
        }
    }
}

impl Syntax for ExternFnRef {
    open spec fn term(&self, s: Spans) -> Term {
        node3(Tag::HirExternFnRef, self.plugin.term(s), self.alias.term(s), self.name.term(s))
    }
}

impl Syntax for FunctionRef {
    open spec fn term(&self, s: Spans) -> Term {
        match *self {
            FunctionRef::Builtin(value) => node1(Tag::HirFunctionRefBuiltin, value.term(s)),
            FunctionRef::Epoch { scale } => node1(Tag::HirFunctionRefEpoch, scale.term(s)),
            FunctionRef::External(value) => node1(Tag::HirFunctionRefExternal, value.term(s)),
        }
    }
}

impl Syntax for MapKeyAxis {
    open spec fn term(&self, s: Spans) -> Term {
        match *self {
            MapKeyAxis::Explicit(value) => node1(Tag::HirMapKeyAxisExplicit, value.term(s)),
            MapKeyAxis::Contextual => node0(Tag::HirMapKeyAxisContextual),
        }
    }
}

impl NatExpr {
    pub open spec fn to_term(self, s: Spans) -> Term
        decreases self,
    {
        match self {
            NatExpr::Literal(value, span) => node2(Tag::HirNatExprLiteral, value.term(s), at(s, span)),
            NatExpr::Param(value, span) => node2(Tag::HirNatExprParam, value.term(s), at(s, span)),
            NatExpr::Add(value, span) => node2(Tag::HirNatExprAdd, Term::List(NatExpr::terms(value, s)), at(s, span)),
            NatExpr::Mul(value, span) => node2(Tag::HirNatExprMul, Term::List(NatExpr::terms(value, s)), at(s, span)),
        }
    }

    pub open spec fn terms(v: Vec<NatExpr>, s: Spans) -> Seq<Term>
        decreases v,
    {
        Seq::new(v.len() as nat, |i: int| if 0 <= i < v.len() { v[i].to_term(s) } else { Term::Absent })
    }
}

impl Syntax for NatExpr {
    open spec fn term(&self, s: Spans) -> Term {
        self.to_term(s)
    }
}

impl Syntax for DimRef {
    open spec fn term(&self, s: Spans) -> Term {
        match *self {
            DimRef::Named(value) => node1(Tag::HirDimRefNamed, value.term(s)),
            DimRef::Param(value) => node1(Tag::HirDimRefParam, value.term(s)),
        }
    }
}

impl Syntax for DimExprItem {
    open spec fn term(&self, s: Spans) -> Term {
        node3(Tag::HirDimExprItem, self.op.term(s), self.dimension.term(s), self.power.term(s))
    }
}

impl Syntax for DimExpr {
    open spec fn term(&self, s: Spans) -> Term {
        node2(Tag::HirDimExpr, self.items.term(s), at(s, self.span))
    }
}

impl Syntax for IndexRef {
    open spec fn term(&self, s: Spans) -> Term {
        match *self {
            IndexRef::Axis(value) => value.term(s),
            IndexRef::Param(value, span) => node2(Tag::HirIndexRefParam, value.term(s), at(s, span)),
        }
    }
}

impl TypeExpr {
    pub open spec fn to_term(self, s: Spans) -> Term
        decreases self,
    {
        node2(Tag::HirTypeExpr, self.kind.to_term(s), at(s, self.span))
    }

    pub open spec fn terms(v: Vec<TypeExpr>, s: Spans) -> Seq<Term>
        decreases v,
    {
        Seq::new(v.len() as nat, |i: int| if 0 <= i < v.len() { v[i].to_term(s) } else { Term::Absent })
    }
}

impl TypeExprKind {
    pub open spec fn to_term(self, s: Spans) -> Term
        decreases self,
    {
        match self {
            TypeExprKind::Dimensionless => node0(Tag::HirTypeDimensionless),
            TypeExprKind::Bool => node0(Tag::HirTypeBool),
            TypeExprKind::Int => node0(Tag::HirTypeInt),
            TypeExprKind::Datetime => node0(Tag::HirTypeDatetime),
            TypeExprKind::DatetimeApplication { type_args } => node1(
                Tag::HirTypeDatetimeApplication,
                Term::List(TypeExpr::terms(type_args, s)),
            ),
            TypeExprKind::TimeScale(value) => node1(Tag::HirTypeTimeScale, value.term(s)),
            TypeExprKind::ComplexApplication { generic_args } => node1(
                Tag::HirTypeComplexApplication,
                Term::List(GenericArg::terms(generic_args, s)),
            ),
            TypeExprKind::KeyApplication { generic_args } => node1(
                Tag::HirTypeKeyApplication,
                Term::List(GenericArg::terms(generic_args, s)),
            ),
            TypeExprKind::Quantity(value) => node1(Tag::HirTypeQuantity, value.term(s)),
            TypeExprKind::Struct { name, generic_args } => node2(
                Tag::HirTypeStruct,
                name.term(s),
                Term::List(GenericArg::terms(generic_args, s)),
            ),
            TypeExprKind::Param(value) => node1(Tag::HirTypeParam, value.term(s)),
            TypeExprKind::Indexed { base, indexes } => node2(Tag::HirTypeIndexed, base.to_term(s), indexes.term(s)),
        }
    }
}

impl GenericArg {
    pub open spec fn to_term(self, s: Spans) -> Term
        decreases self,
    {
        match self {
            GenericArg::Nat(value) => node1(Tag::HirGenericArgNat, value.term(s)),
            GenericArg::Index(value) => node1(Tag::HirGenericArgIndex, value.term(s)),
            GenericArg::Dimension(value) => node1(Tag::HirGenericArgDimension, value.term(s)),
            GenericArg::Type(value) => node1(Tag::HirGenericArgType, value.to_term(s)),
        }
    }

    pub open spec fn terms(v: Vec<GenericArg>, s: Spans) -> Seq<Term>
        decreases v,
    {
        Seq::new(v.len() as nat, |i: int| if 0 <= i < v.len() { v[i].to_term(s) } else { Term::Absent })
    }
}

impl Syntax for TypeExpr {
    open spec fn term(&self, s: Spans) -> Term {
        self.to_term(s)
    }
}

impl Syntax for GenericArg {
    open spec fn term(&self, s: Spans) -> Term {
        self.to_term(s)
    }
}

impl Syntax for ForBindingIndex {
    open spec fn term(&self, s: Spans) -> Term {
        match *self {
            ForBindingIndex::Named(value) => node1(Tag::HirForBindingIndexNamed, value.term(s)),
            ForBindingIndex::Finite { cardinality, span } => node2(
                Tag::HirForBindingIndexFinite,
                cardinality.term(s),
                at(s, span),
            ),
        }
    }
}

impl Syntax for ForBinding {
    open spec fn term(&self, s: Spans) -> Term {
        node2(Tag::HirForBinding, self.local.term(s), self.index.term(s))
    }
}

impl Syntax for PatternBinding {
    open spec fn term(&self, s: Spans) -> Term {
        match *self {
            PatternBinding::Bind { field, local } => node2(Tag::HirPatternBindingBind, field.term(s), local.term(s)),
            PatternBinding::Wildcard { field, span } => node2(
                Tag::HirPatternBindingWildcard,
                field.term(s),
                at(s, span),
            ),
        }
    }
}

impl Syntax for MatchPattern {
    open spec fn term(&self, s: Spans) -> Term {
        match *self {
            MatchPattern::Constructor { constructor, bindings, span } => node3(
                Tag::HirMatchPatternConstructor,
                constructor.term(s),
                bindings.term(s),
                at(s, span),
            ),
            MatchPattern::IndexLabel { variant, span } => node2(
                Tag::HirMatchPatternIndexLabel,
                variant.term(s),
                at(s, span),
            ),
        }
    }
}

impl Syntax for UnfoldRecurrence {
    open spec fn term(&self, s: Spans) -> Term {
        node4(
            Tag::HirUnfoldRecurrence,
            self.axis.term(s),
            self.previous_state.term(s),
            self.previous_index.term(s),
            self.current_index.term(s),
        )
    }
}

impl Syntax for CivilDateTimeLiteral {
    open spec fn term(&self, s: Spans) -> Term {
        node7(
            Tag::HirCivilDateTimeLiteral,
            self.year.term(s),
            self.month.term(s),
            self.day.term(s),
            self.hour.term(s),
            self.minute.term(s),
            self.second.term(s),
            self.nanosecond.term(s),
        )
    }
}

impl Syntax for OffsetDateTimeLiteral {
    open spec fn term(&self, s: Spans) -> Term {
        node2(Tag::HirOffsetDateTimeLiteral, self.second.term(s), self.nanosecond.term(s))
    }
}

impl Syntax for IanaTimeZoneId {
    open spec fn term(&self, s: Spans) -> Term {
        node1(Tag::HirIanaTimeZoneId, self.name.term(s))
    }
}

impl Syntax for ZonedDateTimeLiteral {
    open spec fn term(&self, s: Spans) -> Term {
        node4(
            Tag::HirZonedDateTimeLiteral,
            self.datetime.term(s),
            self.time_zone.term(s),
            self.second.term(s),
            self.nanosecond.term(s),
        )
    }
}

impl Expr {
    pub open spec fn to_term(self) -> Term
        decreases self,
    {
        node2(Tag::HirExpr, self.kind.to_term(), Term::At(self.span))
    }

    pub open spec fn terms(v: Vec<Expr>) -> Seq<Term>
        decreases v,
    {
        Seq::new(v.len() as nat, |i: int| if 0 <= i < v.len() { v[i].to_term() } else { Term::Absent })
    }
}

impl ExprKind {
    #[verifier::opaque]
    pub open spec fn to_term(self) -> Term
        decreases self,
    {
        match self {
            ExprKind::Error { children } => node1(Tag::HirExprError, Term::List(Expr::terms(children))),
            ExprKind::Number(value) => node1(Tag::HirExprNumber, value.term(Spans::Kept)),
            ExprKind::Integer(value) => node1(Tag::HirExprInteger, value.term(Spans::Kept)),
            ExprKind::Bool(value) => node1(Tag::HirExprBool, value.term(Spans::Kept)),
            ExprKind::StringLiteral(value) => node1(Tag::HirExprStringLiteral, value.term(Spans::Kept)),
            ExprKind::OffsetDateTimeLiteral(value) => node1(
                Tag::HirExprOffsetDateTimeLiteral,
                value.term(Spans::Kept),
            ),
            ExprKind::CivilDateTimeLiteral(value) => node1(Tag::HirExprCivilDateTimeLiteral, value.term(Spans::Kept)),
            ExprKind::ZonedDateTimeLiteral(value) => node1(Tag::HirExprZonedDateTimeLiteral, value.term(Spans::Kept)),
            ExprKind::IanaTimeZoneLiteral(value) => node1(Tag::HirExprIanaTimeZoneLiteral, value.term(Spans::Kept)),
            ExprKind::TypeSystemRef(value) => node1(Tag::HirExprTypeSystemRef, value.term(Spans::Kept)),
            ExprKind::GraphRef(value) => node1(Tag::HirExprGraphRef, value.term(Spans::Kept)),
            ExprKind::ConstRef(value) => node1(Tag::HirExprConstRef, value.term(Spans::Kept)),
            ExprKind::LocalRef(value) => node1(Tag::HirExprLocalRef, value.term(Spans::Kept)),
            ExprKind::BinOp { op, lhs, rhs } => node3(
                Tag::HirExprBinOp,
                op.term(Spans::Kept),
                lhs.to_term(),
                rhs.to_term(),
            ),
            ExprKind::UnaryOp { op, operand } => node2(Tag::HirExprUnaryOp, op.term(Spans::Kept), operand.to_term()),
            ExprKind::FnCall { callee, args } => node2(
                Tag::HirExprFnCall,
                callee.term(Spans::Kept),
                Term::List(Expr::terms(args)),
            ),
            ExprKind::If { condition, then_branch, else_branch } => node3(
                Tag::HirExprIf,
                condition.to_term(),
                then_branch.to_term(),
                else_branch.to_term(),
            ),
            ExprKind::QuantityLiteral { value, unit } => node2(
                Tag::HirExprQuantityLiteral,
                value.term(Spans::Kept),
                unit.term(Spans::Kept),
            ),
            ExprKind::Convert { expr, target } => node2(
                Tag::HirExprConvert,
                expr.to_term(),
                target.term(Spans::Kept),
            ),
            ExprKind::DisplayTimezone { expr, timezone } => node2(
                Tag::HirExprDisplayTimezone,
                expr.to_term(),
                timezone.term(Spans::Kept),
            ),
            ExprKind::FieldAccess { expr, field } => node2(
                Tag::HirExprFieldAccess,
                expr.to_term(),
                field.term(Spans::Kept),
            ),
            ExprKind::ConstructorCall { callee, generic_args, fields } => node3(
                Tag::HirExprConstructorCall,
                callee.term(Spans::Kept),
                generic_args.term(Spans::Kept),
                Term::List(FieldInit::terms(fields)),
            ),
            ExprKind::MapLiteral { entries } => node1(Tag::HirExprMapLiteral, Term::List(MapEntry::terms(entries))),
            ExprKind::ForComp { bindings, body } => node2(
                Tag::HirExprForComp,
                bindings.term(Spans::Kept),
                body.to_term(),
            ),
            ExprKind::IndexAccess { expr, args } => node2(
                Tag::HirExprIndexAccess,
                expr.to_term(),
                Term::List(prepend(args.first.to_term(), IndexArg::terms(args.rest))),
            ),
            ExprKind::Scan { source, init, acc, val, body } => node5(
                Tag::HirExprScan,
                source.to_term(),
                init.to_term(),
                acc.term(Spans::Kept),
                val.term(Spans::Kept),
                body.to_term(),
            ),
            ExprKind::Unfold { recurrence, init, body } => node3(
                Tag::HirExprUnfold,
                recurrence.term(Spans::Kept),
                init.to_term(),
                body.to_term(),
            ),
            ExprKind::KeyForm { kind, axis, axis_span, arg } => node4(
                Tag::HirExprKeyForm,
                kind.term(Spans::Kept),
                axis.term(Spans::Kept),
                Term::At(axis_span),
                arg.to_term(),
            ),
            ExprKind::Match { scrutinee, arms } => node2(
                Tag::HirExprMatch,
                scrutinee.to_term(),
                Term::List(MatchArm::terms(arms)),
            ),
            ExprKind::VariantLiteral(value) => node1(Tag::HirExprVariantLiteral, value.term(Spans::Kept)),
            ExprKind::DagCall { target, args, output } => node3(
                Tag::HirExprDagCall,
                target.term(Spans::Kept),
                Term::List(ParamBinding::terms(args)),
                output.term(Spans::Kept),
            ),
        }
    }
}

impl FieldInit {
    pub open spec fn to_term(self) -> Term
        decreases self,
    {
        node2(Tag::HirFieldInit, self.name.term(Spans::Kept), self.value.to_term())
    }

    pub open spec fn terms(v: Vec<FieldInit>) -> Seq<Term>
        decreases v,
    {
        Seq::new(v.len() as nat, |i: int| if 0 <= i < v.len() { v[i].to_term() } else { Term::Absent })
    }
}

impl ParamBinding {
    pub open spec fn to_term(self) -> Term
        decreases self,
    {
        node2(Tag::HirParamBinding, self.target.term(Spans::Kept), self.value.to_term())
    }

    pub open spec fn terms(v: Vec<ParamBinding>) -> Seq<Term>
        decreases v,
    {
        Seq::new(v.len() as nat, |i: int| if 0 <= i < v.len() { v[i].to_term() } else { Term::Absent })
    }
}

impl MapEntry {
    pub open spec fn to_term(self) -> Term
        decreases self,
    {
        node2(
            Tag::HirMapEntry,
            Term::List(prepend(self.keys.first.to_term(), MapEntryKey::terms(self.keys.rest))),
            self.value.to_term(),
        )
    }

    pub open spec fn terms(v: Vec<MapEntry>) -> Seq<Term>
        decreases v,
    {
        Seq::new(v.len() as nat, |i: int| if 0 <= i < v.len() { v[i].to_term() } else { Term::Absent })
    }
}

impl MapEntryKey {
    pub open spec fn to_term(self) -> Term
        decreases self,
    {
        match self {
            MapEntryKey::IndexVariant(value) => node1(Tag::HirMapEntryKeyIndexVariant, value.term(Spans::Kept)),
            MapEntryKey::FinitePosition { size, position } => node2(
                Tag::HirMapEntryKeyFinitePosition,
                size.term(Spans::Kept),
                position.term(Spans::Kept),
            ),
            MapEntryKey::Expression { axis, expr } => node2(
                Tag::HirMapEntryKeyExpression,
                axis.term(Spans::Kept),
                expr.to_term(),
            ),
        }
    }

    pub open spec fn terms(v: Vec<MapEntryKey>) -> Seq<Term>
        decreases v,
    {
        Seq::new(v.len() as nat, |i: int| if 0 <= i < v.len() { v[i].to_term() } else { Term::Absent })
    }
}

impl IndexArg {
    pub open spec fn to_term(self) -> Term
        decreases self,
    {
        match self {
            IndexArg::Variant(value) => node1(Tag::HirIndexArgVariant, value.term(Spans::Kept)),
            IndexArg::Var(value) => node1(Tag::HirIndexArgVar, value.term(Spans::Kept)),
            IndexArg::Expr(value) => node1(Tag::HirIndexArgExpr, value.to_term()),
        }
    }

    pub open spec fn terms(v: Vec<IndexArg>) -> Seq<Term>
        decreases v,
    {
        Seq::new(v.len() as nat, |i: int| if 0 <= i < v.len() { v[i].to_term() } else { Term::Absent })
    }
}

impl MatchArm {
    pub open spec fn to_term(self) -> Term
        decreases self,
    {
        node3(Tag::HirMatchArm, self.pattern.term(Spans::Kept), self.body.to_term(), Term::At(self.span))
    }

    pub open spec fn terms(v: Vec<MatchArm>) -> Seq<Term>
        decreases v,
    {
        Seq::new(v.len() as nat, |i: int| if 0 <= i < v.len() { v[i].to_term() } else { Term::Absent })
    }
}

impl AssertBody {
    pub open spec fn to_term(self) -> Term
    {
        match self {
            AssertBody::Expr(value) => node1(Tag::HirAssertBodyExpr, value.to_term()),
            AssertBody::Tolerance { actual, expected, tolerance } => node3(
                Tag::HirAssertBodyTolerance,
                actual.to_term(),
                expected.to_term(),
                tolerance.to_term(),
            ),
        }
    }
}

impl DeepClone for DagId {
    fn deep_clone(&self) -> (r: Self) {
        DagId {
            segments: self.segments.deep_clone(),
        }
    }
}

impl DeepClone for ResolvedDeclName {
    fn deep_clone(&self) -> (r: Self) {
        ResolvedDeclName {
            owner: self.owner.deep_clone(),
            name: self.name.deep_clone(),
        }
    }
}

impl DeepClone for ResolvedIndexName {
    fn deep_clone(&self) -> (r: Self) {
        ResolvedIndexName {
            owner: self.owner.deep_clone(),
            name: self.name.deep_clone(),
        }
    }
}

impl DeepClone for ResolvedConstructorName {
    fn deep_clone(&self) -> (r: Self) {
        ResolvedConstructorName {
            owner: self.owner.deep_clone(),
            name: self.name.deep_clone(),
        }
    }
}

impl DeepClone for ResolvedStructTypeName {
    fn deep_clone(&self) -> (r: Self) {
        ResolvedStructTypeName {
            owner: self.owner.deep_clone(),
            name: self.name.deep_clone(),
        }
    }
}

impl DeepClone for ResolvedDimName {
    fn deep_clone(&self) -> (r: Self) {
        ResolvedDimName {
            owner: self.owner.deep_clone(),
            name: self.name.deep_clone(),
        }
    }
}

impl DeepClone for ResolvedUnitName {
    fn deep_clone(&self) -> (r: Self) {
        ResolvedUnitName {
            owner: self.owner.deep_clone(),
            name: self.name.deep_clone(),
        }
    }
}

impl DeepClone for ResolvedIndexVariant {
    fn deep_clone(&self) -> (r: Self) {
        ResolvedIndexVariant {
            index: self.index.deep_clone(),
            variant: self.variant.deep_clone(),
        }
    }
}

impl DeepClone for GenericParamId {
    fn deep_clone(&self) -> (r: Self) {
        GenericParamId {
            name: self.name.deep_clone(),
        }
    }
}

impl DeepClone for LocalId {
    fn deep_clone(&self) -> (r: Self) {
        *self
    }
}

impl DeepClone for LocalDef {
    fn deep_clone(&self) -> (r: Self) {
        LocalDef {
            id: self.id.deep_clone(),
            name: self.name.deep_clone(),
            span: self.span,
        }
    }
}

impl DeepClone for IndexVariantRef {
    fn deep_clone(&self) -> (r: Self) {
        IndexVariantRef {
            variant: self.variant.deep_clone(),
            index_span: self.index_span.deep_clone(),
            additional_index_spans: self.additional_index_spans.deep_clone(),
            variant_span: self.variant_span,
        }
    }
}

impl DeepClone for ResolvedUnitRef {
    fn deep_clone(&self) -> (r: Self) {
        ResolvedUnitRef {
            spelling: self.spelling.deep_clone(),
            resolved: self.resolved.deep_clone(),
        }
    }
}

impl DeepClone for ResolvedUnitExprItem {
    fn deep_clone(&self) -> (r: Self) {
        ResolvedUnitExprItem {
            op: self.op.deep_clone(),
            name: self.name.deep_clone(),
            power: self.power.deep_clone(),
        }
    }
}

impl DeepClone for ResolvedUnitExpr {
    fn deep_clone(&self) -> (r: Self) {
        ResolvedUnitExpr {
            terms: self.terms.deep_clone(),
            span: self.span,
        }
    }
}

impl DeepClone for TypeSystemRef {
    fn deep_clone(&self) -> (r: Self) {
        match self {
            TypeSystemRef::Type(value) => TypeSystemRef::Type(value.deep_clone()),
            TypeSystemRef::Dimension(value) => TypeSystemRef::Dimension(value.deep_clone()),
            TypeSystemRef::Index(value) => TypeSystemRef::Index(value.deep_clone()),
            TypeSystemRef::IndexVariant(value) => TypeSystemRef::IndexVariant(value.deep_clone()),
        }
    }
}

impl DeepClone for ConstRef {
    fn deep_clone(&self) -> (r: Self) {
        match self {
            ConstRef::Decl(value) => ConstRef::Decl(value.deep_clone()),
            ConstRef::Constructor(value) => ConstRef::Constructor(value.deep_clone()),
            ConstRef::Builtin(value) => ConstRef::Builtin(value.deep_clone()),
            ConstRef::TimeScale(value) => ConstRef::TimeScale(value.deep_clone()),
            ConstRef::GenericNatParam(value) => ConstRef::GenericNatParam(value.deep_clone()),
        }
    }
}

impl DeepClone for ExternFnRef {
    fn deep_clone(&self) -> (r: Self) {
        ExternFnRef {
            plugin: self.plugin.deep_clone(),
            alias: self.alias.deep_clone(),
            name: self.name.deep_clone(),
        }
    }
}

impl DeepClone for FunctionRef {
    fn deep_clone(&self) -> (r: Self) {
        match self {
            FunctionRef::Builtin(value) => FunctionRef::Builtin(value.deep_clone()),
            FunctionRef::Epoch { scale } => FunctionRef::Epoch { scale: scale.deep_clone() },
            FunctionRef::External(value) => FunctionRef::External(value.deep_clone()),
        }
    }
}

impl DeepClone for MapKeyAxis {
    fn deep_clone(&self) -> (r: Self) {
        match self {
            MapKeyAxis::Explicit(value) => MapKeyAxis::Explicit(value.deep_clone()),
            MapKeyAxis::Contextual => MapKeyAxis::Contextual,
        }
    }
}

impl NatExpr {
    fn duplicate(&self) -> (r: Self)
        ensures
            r.to_term(Spans::Kept) == self.to_term(Spans::Kept),
        decreases self,
    {
        match self {
            NatExpr::Literal(value, span) => NatExpr::Literal(value.deep_clone(), *span),
            NatExpr::Param(value, span) => NatExpr::Param(value.deep_clone(), *span),
            NatExpr::Add(value, span) => NatExpr::Add(NatExpr::duplicate_list(value), *span),
            NatExpr::Mul(value, span) => NatExpr::Mul(NatExpr::duplicate_list(value), *span),
        }
    }

    pub(crate) fn duplicate_list(v: &Vec<NatExpr>) -> (r: Vec<NatExpr>)
        ensures
            r.len() == v.len(),
            NatExpr::terms(r, Spans::Kept) == NatExpr::terms(*v, Spans::Kept),
        decreases v,
    {
        let mut out: Vec<NatExpr> = Vec::new();
        for i in 0..v.len()
            invariant
                out.len() == i,
                forall|j: int| 0 <= j < i ==> (#[trigger] out[j]).to_term(Spans::Kept) == v[j].to_term(Spans::Kept),
        {
            out.push(v[i].duplicate());
        }
        assert(NatExpr::terms(out, Spans::Kept) =~= NatExpr::terms(*v, Spans::Kept));
        out
    }
}

impl DeepClone for NatExpr {
    fn deep_clone(&self) -> (r: Self) {
        self.duplicate()
    }
}

impl DeepClone for DimRef {
    fn deep_clone(&self) -> (r: Self) {
        match self {
            DimRef::Named(value) => DimRef::Named(value.deep_clone()),
            DimRef::Param(value) => DimRef::Param(value.deep_clone()),
        }
    }
}

impl DeepClone for DimExprItem {
    fn deep_clone(&self) -> (r: Self) {
        DimExprItem { op: self.op, dimension: self.dimension.deep_clone(), power: self.power }
    }
}

impl DeepClone for DimExpr {
    fn deep_clone(&self) -> (r: Self) {
        DimExpr { items: self.items.deep_clone(), span: self.span }
    }
}

impl DeepClone for IndexRef {
    fn deep_clone(&self) -> (r: Self) {
        match self {
            IndexRef::Axis(value) => IndexRef::Axis(value.deep_clone()),
            IndexRef::Param(value, span) => IndexRef::Param(value.deep_clone(), *span),
        }
    }
}

impl TypeExpr {
    fn duplicate(&self) -> (r: Self)
        ensures
            r.to_term(Spans::Kept) == self.to_term(Spans::Kept),
        decreases self,
    {
        TypeExpr { kind: self.kind.duplicate(), span: self.span }
    }

    pub(crate) fn duplicate_list(v: &Vec<TypeExpr>) -> (r: Vec<TypeExpr>)
        ensures
            r.len() == v.len(),
            TypeExpr::terms(r, Spans::Kept) == TypeExpr::terms(*v, Spans::Kept),
        decreases v,
    {
        let mut out: Vec<TypeExpr> = Vec::new();
        for i in 0..v.len()
            invariant
                out.len() == i,
                forall|j: int| 0 <= j < i ==> (#[trigger] out[j]).to_term(Spans::Kept) == v[j].to_term(Spans::Kept),
        {
            out.push(v[i].duplicate());
        }
        assert(TypeExpr::terms(out, Spans::Kept) =~= TypeExpr::terms(*v, Spans::Kept));
        out
    }
}

impl TypeExprKind {
    fn duplicate(&self) -> (r: Self)
        ensures
            r.to_term(Spans::Kept) == self.to_term(Spans::Kept),
        decreases self,
    {
        match self {
            TypeExprKind::Dimensionless => TypeExprKind::Dimensionless,
            TypeExprKind::Bool => TypeExprKind::Bool,
            TypeExprKind::Int => TypeExprKind::Int,
            TypeExprKind::Datetime => TypeExprKind::Datetime,
            TypeExprKind::DatetimeApplication { type_args } => TypeExprKind::DatetimeApplication {
                type_args: TypeExpr::duplicate_list(type_args),
            },
            TypeExprKind::TimeScale(value) => TypeExprKind::TimeScale(*value),
            TypeExprKind::ComplexApplication { generic_args } => TypeExprKind::ComplexApplication {
                generic_args: GenericArg::duplicate_list(generic_args),
            },
            TypeExprKind::KeyApplication { generic_args } => TypeExprKind::KeyApplication {
                generic_args: GenericArg::duplicate_list(generic_args),
            },
            TypeExprKind::Quantity(value) => TypeExprKind::Quantity(value.deep_clone()),
            TypeExprKind::Struct { name, generic_args } => TypeExprKind::Struct {
                name: name.deep_clone(),
                generic_args: GenericArg::duplicate_list(generic_args),
            },
            TypeExprKind::Param(value) => TypeExprKind::Param(value.deep_clone()),
            TypeExprKind::Indexed { base, indexes } => TypeExprKind::Indexed {
                base: Box::new(base.duplicate()),
                indexes: indexes.deep_clone(),
            },
        }
    }
}

impl GenericArg {
    fn duplicate(&self) -> (r: Self)
        ensures
            r.to_term(Spans::Kept) == self.to_term(Spans::Kept),
        decreases self,
    {
        match self {
            GenericArg::Nat(value) => GenericArg::Nat(value.deep_clone()),
            GenericArg::Index(value) => GenericArg::Index(value.deep_clone()),
            GenericArg::Dimension(value) => GenericArg::Dimension(value.deep_clone()),
            GenericArg::Type(value) => GenericArg::Type(value.duplicate()),
        }
    }

    pub(crate) fn duplicate_list(v: &Vec<GenericArg>) -> (r: Vec<GenericArg>)
        ensures
            r.len() == v.len(),
            GenericArg::terms(r, Spans::Kept) == GenericArg::terms(*v, Spans::Kept),
        decreases v,
    {
        let mut out: Vec<GenericArg> = Vec::new();
        for i in 0..v.len()
            invariant
                out.len() == i,
                forall|j: int| 0 <= j < i ==> (#[trigger] out[j]).to_term(Spans::Kept) == v[j].to_term(Spans::Kept),
        {
            out.push(v[i].duplicate());
        }
        assert(GenericArg::terms(out, Spans::Kept) =~= GenericArg::terms(*v, Spans::Kept));
        out
    }
}

impl DeepClone for GenericArg {
    fn deep_clone(&self) -> (r: Self) {
        self.duplicate()
    }
}

impl DeepClone for ForBindingIndex {
    fn deep_clone(&self) -> (r: Self) {
        match self {
            ForBindingIndex::Named(value) => ForBindingIndex::Named(value.deep_clone()),
            ForBindingIndex::Finite { cardinality, span } => ForBindingIndex::Finite {
                cardinality: cardinality.deep_clone(),
                span: *span,
            },
        }
    }
}

impl DeepClone for ForBinding {
    fn deep_clone(&self) -> (r: Self) {
        ForBinding {
            local: self.local.deep_clone(),
            index: self.index.deep_clone(),
        }
    }
}

impl DeepClone for PatternBinding {
    fn deep_clone(&self) -> (r: Self) {
        match self {
            PatternBinding::Bind { field, local } => PatternBinding::Bind {
                field: field.deep_clone(),
                local: local.deep_clone(),
            },
            PatternBinding::Wildcard { field, span } => PatternBinding::Wildcard {
                field: field.deep_clone(),
                span: *span,
            },
        }
    }
}

impl DeepClone for MatchPattern {
    fn deep_clone(&self) -> (r: Self) {
        match self {
            MatchPattern::Constructor { constructor, bindings, span } => MatchPattern::Constructor {
                constructor: constructor.deep_clone(),
                bindings: bindings.deep_clone(),
                span: *span,
            },
            MatchPattern::IndexLabel { variant, span } => MatchPattern::IndexLabel {
                variant: variant.deep_clone(),
                span: *span,
            },
        }
    }
}

impl DeepClone for UnfoldRecurrence {
    fn deep_clone(&self) -> (r: Self) {
        UnfoldRecurrence {
            axis: self.axis.deep_clone(),
            previous_state: self.previous_state.deep_clone(),
            previous_index: self.previous_index.deep_clone(),
            current_index: self.current_index.deep_clone(),
        }
    }
}

impl DeepClone for CivilDateTimeLiteral {
    fn deep_clone(&self) -> (r: Self) {
        *self
    }
}

impl DeepClone for OffsetDateTimeLiteral {
    fn deep_clone(&self) -> (r: Self) {
        *self
    }
}

impl DeepClone for IanaTimeZoneId {
    fn deep_clone(&self) -> (r: Self) {
        IanaTimeZoneId {
            name: self.name.deep_clone(),
        }
    }
}

impl DeepClone for ZonedDateTimeLiteral {
    fn deep_clone(&self) -> (r: Self) {
        ZonedDateTimeLiteral {
            datetime: self.datetime.deep_clone(),
            time_zone: self.time_zone.deep_clone(),
            second: self.second.deep_clone(),
            nanosecond: self.nanosecond.deep_clone(),
        }
    }
}

} // verus!
