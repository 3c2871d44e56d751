//! Copies of syntax trees that keep every term.

use crate::exact_rational::ExactRational;
use crate::syntax::ast::{
    AmbiguousGenericArg, Attribute, AttributeArg, BaseDimDecl, BinOp, BindableVisibility, DimDecl, DimExpr,
    DimExprItem, DimTerm, DomainBound, DomainBoundKind, EncodingChannel, Expr, ExprKind, ExternGenericBinder,
    FieldInit, FloatBits, ForBinding, ForBindingIndex, GenericArg, GenericConstraint, Ident, IdentPath, ImportDecl,
    ImportItem, ImportItemNamespace, ImportKind, IndexArg, IndexEntryKey, IndexExpr, KeyFormKind, MapEntry,
    MapEntryIndex, MapEntryKey, MapKeyAxisSyntax, MarkType, MatchArm, MatchPattern, ModulePath, MulDivOp,
    MultiDeclSharedAxes, MultiHeaderCell, MultiSlotAxis, MultiSlotColumnSpan, MultiSlotKind, NamePath, NatExpr,
    ParamBinding, PatternBinding, PluginPath, RawExprSugar, ScopedName, TableIndexSpec, TypeExpr, TypeExprKind,
    UnaryOp, UnitConstness, UnitExpr, UnitExprItem, UnitRef, UnresolvedRef, Visibility,
};
use crate::syntax::non_empty::NonEmpty;
use crate::syntax::span::{Span, Spanned};
use crate::syntax::term::{DeepClone, Reading, Spans, Syntax, seq_terms};
use vstd::prelude::*;

verus! {

impl<T: DeepClone> DeepClone for Option<T> {
    fn deep_clone(&self) -> (r: Self) {
        match self {
            Some(x) => Some(x.deep_clone()),
            None => None,
        }
    }
}

impl<T: DeepClone> DeepClone for Vec<T> {
    fn deep_clone(&self) -> (r: Self) {
        let mut out: Vec<T> = Vec::new();
        for i in 0..self.len()
            invariant
                out.len() == i,
                forall|j: int| 0 <= j < i ==> (#[trigger] out[j]).term(Spans::Kept) == self[j].term(Spans::Kept),
        {
            out.push(self[i].deep_clone());
        }
        assert(seq_terms(out@, Spans::Kept) =~= seq_terms(self@, Spans::Kept));
        out
    }
}

impl<T: DeepClone> DeepClone for NonEmpty<T> {
    fn deep_clone(&self) -> (r: Self) {
        NonEmpty::new(self.first.deep_clone(), self.rest.deep_clone())
    }
}

impl<T: DeepClone> DeepClone for Spanned<T> {
    fn deep_clone(&self) -> (r: Self) {
        Spanned { value: self.value.deep_clone(), span: self.span }
    }
}

impl DeepClone for String {
    fn deep_clone(&self) -> (r: Self) {
        self.clone()
    }
}

impl DeepClone for FloatBits {
    fn deep_clone(&self) -> (r: Self) {
        *self
    }
}

impl DeepClone for ExactRational {
    fn deep_clone(&self) -> (r: Self) {
        *self
    }
}

impl DeepClone for NamePath {
    fn deep_clone(&self) -> (r: Self) {
        NamePath { segments: self.segments.deep_clone() }
    }
}

impl DeepClone for ScopedName {
    fn deep_clone(&self) -> (r: Self) {
        ScopedName { qualifier: self.qualifier.deep_clone(), member: self.member.deep_clone() }
    }
}

impl DeepClone for UnitRef {
    fn deep_clone(&self) -> (r: Self) {
        UnitRef { qualifier: self.qualifier.deep_clone(), name: self.name.deep_clone() }
    }
}

impl DeepClone for MapEntryIndex {
    fn deep_clone(&self) -> (r: Self) {
        match self {
            MapEntryIndex::Named(path) => MapEntryIndex::Named(path.deep_clone()),
            MapEntryIndex::Finite(size) => MapEntryIndex::Finite(*size),
        }
    }
}

impl DeepClone for IndexEntryKey {
    fn deep_clone(&self) -> (r: Self) {
        match self {
            IndexEntryKey::Named(name) => IndexEntryKey::Named(name.deep_clone()),
            IndexEntryKey::Position(position) => IndexEntryKey::Position(*position),
        }
    }
}

impl DeepClone for Span {
    fn deep_clone(&self) -> (r: Self) {
        *self
    }
}

impl DeepClone for PluginPath {
    fn deep_clone(&self) -> (r: Self) {
        PluginPath { text: self.text.clone() }
    }
}

impl DeepClone for bool {
    fn deep_clone(&self) -> (r: Self) {
        *self
    }
}

impl DeepClone for i8 {
    fn deep_clone(&self) -> (r: Self) {
        *self
    }
}

impl DeepClone for i16 {
    fn deep_clone(&self) -> (r: Self) {
        *self
    }
}

impl DeepClone for i32 {
    fn deep_clone(&self) -> (r: Self) {
        *self
    }
}

impl DeepClone for i64 {
    fn deep_clone(&self) -> (r: Self) {
        *self
    }
}

impl DeepClone for u64 {
    fn deep_clone(&self) -> (r: Self) {
        *self
    }
}

impl DeepClone for usize {
    fn deep_clone(&self) -> (r: Self) {
        *self
    }
}

/// A copy of a list of positions.
pub fn copy_spans(v: &Vec<Span>) -> (r: Vec<Span>)
    ensures
        r@ == v@,
{
    let mut out: Vec<Span> = Vec::new();
    for i in 0..v.len()
        invariant
            out@ == v@.subrange(0, i as int),
    {
        out.push(v[i]);
        assert(out@ =~= v@.subrange(0, i as int + 1));
    }
    assert(out@ =~= v@);
    out
}

impl DeepClone for UnaryOp {
    fn deep_clone(&self) -> (r: Self) {
        *self
    }
}

impl DeepClone for MulDivOp {
    fn deep_clone(&self) -> (r: Self) {
        *self
    }
}

impl DeepClone for Visibility {
    fn deep_clone(&self) -> (r: Self) {
        *self
    }
}

impl DeepClone for BindableVisibility {
    fn deep_clone(&self) -> (r: Self) {
        *self
    }
}

impl DeepClone for UnitConstness {
    fn deep_clone(&self) -> (r: Self) {
        *self
    }
}

impl DeepClone for MarkType {
    fn deep_clone(&self) -> (r: Self) {
        *self
    }
}

impl DeepClone for EncodingChannel {
    fn deep_clone(&self) -> (r: Self) {
        *self
    }
}

impl DeepClone for MultiSlotKind {
    fn deep_clone(&self) -> (r: Self) {
        *self
    }
}

impl DeepClone for GenericConstraint {
    fn deep_clone(&self) -> (r: Self) {
        *self
    }
}

impl DeepClone for DomainBoundKind {
    fn deep_clone(&self) -> (r: Self) {
        *self
    }
}

impl DeepClone for ImportItemNamespace {
    fn deep_clone(&self) -> (r: Self) {
        *self
    }
}

impl DeepClone for KeyFormKind {
    fn deep_clone(&self) -> (r: Self) {
        *self
    }
}

impl DeepClone for BinOp {
    fn deep_clone(&self) -> (r: Self) {
        *self
    }
}

impl DeepClone for Ident {
    fn deep_clone(&self) -> (r: Self) {
        Ident {
            name: self.name.deep_clone(),
            span: self.span,
        }
    }
}

impl DeepClone for IdentPath {
    fn deep_clone(&self) -> (r: Self) {
        IdentPath {
            segments: self.segments.deep_clone(),
        }
    }
}

impl DeepClone for Attribute {
    fn deep_clone(&self) -> (r: Self) {
        Attribute {
            name: self.name.deep_clone(),
            args: self.args.deep_clone(),
            span: self.span,
        }
    }
}

impl AttributeArg {
    fn duplicate(&self) -> (r: Self)
        ensures
            r.to_term(Spans::Kept) == self.to_term(Spans::Kept),
        decreases self,
    {
        match self {
            AttributeArg::Path { segments, span } => AttributeArg::Path {
                segments: segments.deep_clone(),
                span: *span,
            },
            AttributeArg::FinitePosition { position, span } => AttributeArg::FinitePosition {
                position: position.deep_clone(),
                span: *span,
            },
            AttributeArg::Group { elements, span } => AttributeArg::Group {
                elements: AttributeArg::duplicate_list(elements),
                span: *span,
            },
        }
    }

    pub(crate) fn duplicate_list(v: &Vec<AttributeArg>) -> (r: Vec<AttributeArg>)
        ensures
            r.len() == v.len(),
            AttributeArg::terms(r, Spans::Kept) == AttributeArg::terms(*v, Spans::Kept),
        decreases v,
    {
        let mut out: Vec<AttributeArg> = Vec::new();
        for i in 0..v.len()
            invariant
                out.len() == i,
                forall|j: int| 0 <= j < i ==> (#[trigger] out[j]).to_term(Spans::Kept) == v[j].to_term(Spans::Kept),
        {
            out.push(v[i].duplicate());
        }
        assert(AttributeArg::terms(out, Spans::Kept) =~= AttributeArg::terms(*v, Spans::Kept));
        out
    }
}

impl DeepClone for AttributeArg {
    fn deep_clone(&self) -> (r: Self) {
        self.duplicate()
    }
}

impl DeepClone for ImportKind {
    fn deep_clone(&self) -> (r: Self) {
        match self {
            ImportKind::Selective(value) => ImportKind::Selective(value.deep_clone()),
            ImportKind::Module { alias } => ImportKind::Module { alias: alias.deep_clone() },
        }
    }
}

impl DeepClone for ModulePath {
    fn deep_clone(&self) -> (r: Self) {
        ModulePath {
            segments: self.segments.deep_clone(),
            span: self.span,
        }
    }
}

impl DeepClone for ImportItem {
    fn deep_clone(&self) -> (r: Self) {
        ImportItem {
            attributes: self.attributes.deep_clone(),
            is_pub: self.is_pub.deep_clone(),
            namespace: self.namespace.deep_clone(),
            name: self.name.deep_clone(),
            alias: self.alias.deep_clone(),
        }
    }
}

impl DeepClone for ImportDecl {
    fn deep_clone(&self) -> (r: Self) {
        ImportDecl {
            path: self.path.deep_clone(),
            kind: self.kind.deep_clone(),
        }
    }
}

impl DeepClone for BaseDimDecl {
    fn deep_clone(&self) -> (r: Self) {
        BaseDimDecl {
            visibility: self.visibility.deep_clone(),
            name: self.name.deep_clone(),
        }
    }
}

impl DeepClone for DimDecl {
    fn deep_clone(&self) -> (r: Self) {
        DimDecl {
            visibility: self.visibility.deep_clone(),
            name: self.name.deep_clone(),
            definition: self.definition.deep_clone(),
        }
    }
}

impl DeepClone for DimExpr {
    fn deep_clone(&self) -> (r: Self) {
        DimExpr {
            terms: self.terms.deep_clone(),
            span: self.span,
        }
    }
}

impl DeepClone for DimExprItem {
    fn deep_clone(&self) -> (r: Self) {
        DimExprItem {
            op: self.op.deep_clone(),
            term: self.term.deep_clone(),
        }
    }
}

impl DeepClone for DimTerm {
    fn deep_clone(&self) -> (r: Self) {
        DimTerm {
            name: self.name.deep_clone(),
            power: self.power.deep_clone(),
            span: self.span,
        }
    }
}

impl DeepClone for UnitExpr {
    fn deep_clone(&self) -> (r: Self) {
        UnitExpr {
            terms: self.terms.deep_clone(),
            span: self.span,
        }
    }
}

impl DeepClone for UnitExprItem {
    fn deep_clone(&self) -> (r: Self) {
        UnitExprItem {
            op: self.op.deep_clone(),
            name: self.name.deep_clone(),
            power: self.power.deep_clone(),
        }
    }
}

impl DeepClone for UnresolvedRef {
    fn deep_clone(&self) -> (r: Self) {
        match self {
            UnresolvedRef::Path(value) => UnresolvedRef::Path(value.deep_clone()),
        }
    }
}

impl DeepClone for TableIndexSpec {
    fn deep_clone(&self) -> (r: Self) {
        match self {
            TableIndexSpec::Named(value) => TableIndexSpec::Named(value.deep_clone()),
            TableIndexSpec::Finite { cardinality, span } => TableIndexSpec::Finite {
                cardinality: cardinality.deep_clone(),
                span: *span,
            },
        }
    }
}

impl NatExpr {
    fn duplicate(&self) -> (r: Self)
        ensures
            r.to_term(Spans::Kept) == self.to_term(Spans::Kept),
        decreases self,
    {
        match self {
            NatExpr::Literal(value, span) => NatExpr::Literal(value.deep_clone(), *span),
            NatExpr::Var(value) => NatExpr::Var(value.deep_clone()),
            NatExpr::Add(value, span) => NatExpr::Add(NatExpr::duplicate_list(value), *span),
            NatExpr::Mul(value, span) => NatExpr::Mul(NatExpr::duplicate_list(value), *span),
        }
    }

    pub(crate) fn duplicate_list(v: &Vec<NatExpr>) -> (r: Vec<NatExpr>)
        ensures
            r.len() == v.len(),
            NatExpr::terms(r, Spans::Kept) == NatExpr::terms(*v, Spans::Kept),
        decreases v,
    {
        let mut out: Vec<NatExpr> = Vec::new();
        for i in 0..v.len()
            invariant
                out.len() == i,
                forall|j: int| 0 <= j < i ==> (#[trigger] out[j]).to_term(Spans::Kept) == v[j].to_term(Spans::Kept),
        {
            out.push(v[i].duplicate());
        }
        assert(NatExpr::terms(out, Spans::Kept) =~= NatExpr::terms(*v, Spans::Kept));
        out
    }
}

impl DeepClone for NatExpr {
    fn deep_clone(&self) -> (r: Self) {
        self.duplicate()
    }
}

impl AmbiguousGenericArg {
    fn duplicate(&self) -> (r: Self)
        ensures
            r.to_term(Spans::Kept) == self.to_term(Spans::Kept),
        decreases self,
    {
        match self {
            AmbiguousGenericArg::Name(value) => AmbiguousGenericArg::Name(value.deep_clone()),
            AmbiguousGenericArg::Mul(value, span) => AmbiguousGenericArg::Mul(
                AmbiguousGenericArg::duplicate_list(value),
                *span,
            ),
        }
    }

    pub(crate) fn duplicate_list(v: &Vec<AmbiguousGenericArg>) -> (r: Vec<AmbiguousGenericArg>)
        ensures
            r.len() == v.len(),
            AmbiguousGenericArg::terms(r, Spans::Kept) == AmbiguousGenericArg::terms(*v, Spans::Kept),
        decreases v,
    {
        let mut out: Vec<AmbiguousGenericArg> = Vec::new();
        for i in 0..v.len()
            invariant
                out.len() == i,
                forall|j: int| 0 <= j < i ==> (#[trigger] out[j]).to_term(Spans::Kept) == v[j].to_term(Spans::Kept),
        {
            out.push(v[i].duplicate());
        }
        assert(AmbiguousGenericArg::terms(out, Spans::Kept) =~= AmbiguousGenericArg::terms(*v, Spans::Kept));
        out
    }
}

impl DeepClone for AmbiguousGenericArg {
    fn deep_clone(&self) -> (r: Self) {
        self.duplicate()
    }
}

impl DeepClone for IndexExpr {
    fn deep_clone(&self) -> (r: Self) {
        match self {
            IndexExpr::Name(value) => IndexExpr::Name(value.deep_clone()),
            IndexExpr::Finite { cardinality, span } => IndexExpr::Finite {
                cardinality: cardinality.deep_clone(),
                span: *span,
            },
            IndexExpr::BareNat(value) => IndexExpr::BareNat(value.deep_clone()),
        }
    }
}

impl DeepClone for ForBindingIndex {
    fn deep_clone(&self) -> (r: Self) {
        match self {
            ForBindingIndex::Named(value) => ForBindingIndex::Named(value.deep_clone()),
            ForBindingIndex::Finite { cardinality, span } => ForBindingIndex::Finite {
                cardinality: cardinality.deep_clone(),
                span: *span,
            },
        }
    }
}

impl DeepClone for ForBinding {
    fn deep_clone(&self) -> (r: Self) {
        ForBinding {
            var: self.var.deep_clone(),
            index: self.index.deep_clone(),
        }
    }
}

impl DeepClone for PatternBinding {
    fn deep_clone(&self) -> (r: Self) {
        match self {
            PatternBinding::Bind { field, var } => PatternBinding::Bind {
                field: field.deep_clone(),
                var: var.deep_clone(),
            },
            PatternBinding::Wildcard { field, span } => PatternBinding::Wildcard {
                field: field.deep_clone(),
                span: *span,
            },
        }
    }
}

impl DeepClone for MatchPattern {
    fn deep_clone(&self) -> (r: Self) {
        match self {
            MatchPattern::Path { path, bindings, span } => MatchPattern::Path {
                path: path.deep_clone(),
                bindings: bindings.deep_clone(),
                span: *span,
            },
            MatchPattern::Constructor { name, bindings, span } => MatchPattern::Constructor {
                name: name.deep_clone(),
                bindings: bindings.deep_clone(),
                span: *span,
            },
            MatchPattern::IndexLabel { index, variant, span } => MatchPattern::IndexLabel {
                index: index.deep_clone(),
                variant: variant.deep_clone(),
                span: *span,
            },
        }
    }
}

impl DeepClone for MapKeyAxisSyntax {
    fn deep_clone(&self) -> (r: Self) {
        match self {
            MapKeyAxisSyntax::Explicit(value) => MapKeyAxisSyntax::Explicit(value.deep_clone()),
            MapKeyAxisSyntax::Contextual => MapKeyAxisSyntax::Contextual,
        }
    }
}

impl DeepClone for MultiDeclSharedAxes {
    fn deep_clone(&self) -> (r: Self) {
        MultiDeclSharedAxes {
            slice_axes: self.slice_axes.deep_clone(),
            row_axis: self.row_axis.deep_clone(),
        }
    }
}

impl DeepClone for MultiSlotAxis {
    fn deep_clone(&self) -> (r: Self) {
        match self {
            MultiSlotAxis::Underscore => MultiSlotAxis::Underscore,
            MultiSlotAxis::Axis(value) => MultiSlotAxis::Axis(value.deep_clone()),
        }
    }
}

impl DeepClone for MultiSlotColumnSpan {
    fn deep_clone(&self) -> (r: Self) {
        match self {
            MultiSlotColumnSpan::Single(value) => MultiSlotColumnSpan::Single(value.deep_clone()),
            MultiSlotColumnSpan::Range { start, end, extra_axis } => MultiSlotColumnSpan::Range {
                start: start.deep_clone(),
                end: end.deep_clone(),
                extra_axis: extra_axis.deep_clone(),
            },
        }
    }
}

impl DeepClone for MultiHeaderCell {
    fn deep_clone(&self) -> (r: Self) {
        match self {
            MultiHeaderCell::Underscore { span } => MultiHeaderCell::Underscore { span: *span },
            MultiHeaderCell::Variant { axis, variant, span } => MultiHeaderCell::Variant {
                axis: axis.deep_clone(),
                variant: variant.deep_clone(),
                span: *span,
            },
        }
    }
}

impl DeepClone for ExternGenericBinder {
    fn deep_clone(&self) -> (r: Self) {
        match self {
            ExternGenericBinder::Dim(value) => ExternGenericBinder::Dim(value.deep_clone()),
            ExternGenericBinder::Index(value) => ExternGenericBinder::Index(value.deep_clone()),
        }
    }
}

impl Expr {
    pub fn duplicate(&self) -> (r: Self)
        ensures
            r.to_term(Reading::Exact) == self.to_term(Reading::Exact),
            r.to_term(Reading::Desugared) == self.to_term(Reading::Desugared),
        decreases self,
    {
        proof {
            reveal(ExprKind::to_term);
        }
        Expr {
            kind: self.kind.duplicate(),
            span: self.span,
        }
    }

    pub(crate) fn duplicate_list(v: &Vec<Expr>) -> (r: Vec<Expr>)
        ensures
            r.len() == v.len(),
            Expr::terms(r, Reading::Exact) == Expr::terms(*v, Reading::Exact),
            Expr::terms(r, Reading::Desugared) == Expr::terms(*v, Reading::Desugared),
        decreases v,
    {
        let mut out: Vec<Expr> = Vec::new();
        for i in 0..v.len()
            invariant
                out.len() == i,
                forall|j: int| 0 <= j < i ==> (
                    #[trigger] out[j]
                ).to_term(Reading::Exact) == v[j].to_term(Reading::Exact),
                forall|j: int| 0 <= j < i ==> (#[trigger] out[j]).to_term(
                    Reading::Desugared
                ) == v[j].to_term(Reading::Desugared),
        {
            out.push(v[i].duplicate());
        }
        assert(Expr::terms(out, Reading::Exact) =~= Expr::terms(*v, Reading::Exact));
        assert(Expr::terms(out, Reading::Desugared) =~= Expr::terms(*v, Reading::Desugared));
        out
    }
}

impl ExprKind {
    pub fn duplicate(&self) -> (r: Self)
        ensures
            r.to_term(Reading::Exact) == self.to_term(Reading::Exact),
            r.to_term(Reading::Desugared) == self.to_term(Reading::Desugared),
        decreases self,
    {
        proof {
            reveal(ExprKind::to_term);
        }
        match self {
            ExprKind::Number(value) => ExprKind::Number(value.deep_clone()),
            ExprKind::Integer(value) => ExprKind::Integer(value.deep_clone()),
            ExprKind::Bool(value) => ExprKind::Bool(value.deep_clone()),
            ExprKind::StringLiteral(value) => ExprKind::StringLiteral(value.deep_clone()),
            ExprKind::GraphRef(value) => ExprKind::GraphRef(value.deep_clone()),
            ExprKind::BinOp { op, lhs, rhs } => ExprKind::BinOp {
                op: op.deep_clone(),
                lhs: Box::new(lhs.duplicate()),
                rhs: Box::new(rhs.duplicate()),
            },
            ExprKind::UnaryOp { op, operand } => ExprKind::UnaryOp {
                op: op.deep_clone(),
                operand: Box::new(operand.duplicate()),
            },
            ExprKind::FnCall { callee, generic_args, args } => ExprKind::FnCall {
                callee: callee.deep_clone(),
                generic_args: GenericArg::duplicate_list(generic_args),
                args: Expr::duplicate_list(args),
            },
            ExprKind::If { condition, then_branch, else_branch } => ExprKind::If {
                condition: Box::new(condition.duplicate()),
                then_branch: Box::new(then_branch.duplicate()),
                else_branch: Box::new(else_branch.duplicate()),
            },
            ExprKind::QuantityLiteral { value, unit } => ExprKind::QuantityLiteral {
                value: value.deep_clone(),
                unit: unit.deep_clone(),
            },
            ExprKind::Convert { expr, target } => ExprKind::Convert {
                expr: Box::new(expr.duplicate()),
                target: target.deep_clone(),
            },
            ExprKind::DisplayTimezone { expr, timezone } => ExprKind::DisplayTimezone {
                expr: Box::new(expr.duplicate()),
                timezone: timezone.deep_clone(),
            },
            ExprKind::FieldAccess { expr, field } => ExprKind::FieldAccess {
                expr: Box::new(expr.duplicate()),
                field: field.deep_clone(),
            },
            ExprKind::ConstructorCall { callee, generic_args, fields } => ExprKind::ConstructorCall {
                callee: callee.deep_clone(),
                generic_args: GenericArg::duplicate_list(generic_args),
                fields: FieldInit::duplicate_list(fields),
            },
            ExprKind::MapLiteral { entries } => ExprKind::MapLiteral { entries: MapEntry::duplicate_list(entries) },
            ExprKind::ForComp { bindings, body } => ExprKind::ForComp {
                bindings: bindings.deep_clone(),
                body: Box::new(body.duplicate()),
            },
            ExprKind::IndexAccess { expr, args } => ExprKind::IndexAccess {
                expr: Box::new(expr.duplicate()),
                args: NonEmpty::new(args.first.duplicate(), IndexArg::duplicate_list(&args.rest)),
            },
            ExprKind::Scan { source, init, acc_name, val_name, body } => ExprKind::Scan {
                source: Box::new(source.duplicate()),
                init: Box::new(init.duplicate()),
                acc_name: acc_name.deep_clone(),
                val_name: val_name.deep_clone(),
                body: Box::new(body.duplicate()),
            },
            ExprKind::Unfold { axis, init, prev_state_name, prev_index_name, index_name, body } => ExprKind::Unfold {
                axis: axis.deep_clone(),
                init: Box::new(init.duplicate()),
                prev_state_name: prev_state_name.deep_clone(),
                prev_index_name: prev_index_name.deep_clone(),
                index_name: index_name.deep_clone(),
                body: Box::new(body.duplicate()),
            },
            ExprKind::KeyForm { kind, axis, arg } => ExprKind::KeyForm {
                kind: kind.deep_clone(),
                axis: axis.deep_clone(),
                arg: Box::new(arg.duplicate()),
            },
            ExprKind::Match { scrutinee, arms } => ExprKind::Match {
                scrutinee: Box::new(scrutinee.duplicate()),
                arms: MatchArm::duplicate_list(arms),
            },
            ExprKind::InlineDagRef { path, args, output } => ExprKind::InlineDagRef {
                path: path.deep_clone(),
                args: ParamBinding::duplicate_list(args),
                output: output.deep_clone(),
            },
            ExprKind::UnresolvedRef(value) => ExprKind::UnresolvedRef(value.deep_clone()),
            ExprKind::Sugar(value) => ExprKind::Sugar(value.duplicate()),
        }
    }
}

impl RawExprSugar {
    pub fn duplicate(&self) -> (r: Self)
        ensures
            r.to_term(Reading::Exact) == self.to_term(Reading::Exact),
            r.to_term(Reading::Desugared) == self.to_term(Reading::Desugared),
        decreases self,
    {
        match self {
            RawExprSugar::TableLiteral { indexes, entries } => RawExprSugar::TableLiteral {
                indexes: indexes.deep_clone(),
                entries: MapEntry::duplicate_list(entries),
            },
        }
    }
}

impl MapEntry {
    pub fn duplicate(&self) -> (r: Self)
        ensures
            r.to_term(Reading::Exact) == self.to_term(Reading::Exact),
            r.to_term(Reading::Desugared) == self.to_term(Reading::Desugared),
        decreases self,
    {
        MapEntry {
            keys: NonEmpty::new(self.keys.first.duplicate(), MapEntryKey::duplicate_list(&self.keys.rest)),
            value: self.value.duplicate(),
        }
    }

    pub(crate) fn duplicate_list(v: &Vec<MapEntry>) -> (r: Vec<MapEntry>)
        ensures
            r.len() == v.len(),
            MapEntry::terms(r, Reading::Exact) == MapEntry::terms(*v, Reading::Exact),
            MapEntry::terms(r, Reading::Desugared) == MapEntry::terms(*v, Reading::Desugared),
        decreases v,
    {
        let mut out: Vec<MapEntry> = Vec::new();
        for i in 0..v.len()
            invariant
                out.len() == i,
                forall|j: int| 0 <= j < i ==> (
                    #[trigger] out[j]
                ).to_term(Reading::Exact) == v[j].to_term(Reading::Exact),
                forall|j: int| 0 <= j < i ==> (#[trigger] out[j]).to_term(
                    Reading::Desugared
                ) == v[j].to_term(Reading::Desugared),
        {
            out.push(v[i].duplicate());
        }
        assert(MapEntry::terms(out, Reading::Exact) =~= MapEntry::terms(*v, Reading::Exact));
        assert(MapEntry::terms(out, Reading::Desugared) =~= MapEntry::terms(*v, Reading::Desugared));
        out
    }
}

impl MapEntryKey {
    pub fn duplicate(&self) -> (r: Self)
        ensures
            r.to_term(Reading::Exact) == self.to_term(Reading::Exact),
            r.to_term(Reading::Desugared) == self.to_term(Reading::Desugared),
        decreases self,
    {
        match self {
            MapEntryKey::Discrete { index, additional_index_spans, entry } => MapEntryKey::Discrete {
                index: index.deep_clone(),
                additional_index_spans: copy_spans(additional_index_spans),
                entry: entry.deep_clone(),
            },
            MapEntryKey::Expression { axis, expr } => MapEntryKey::Expression {
                axis: axis.deep_clone(),
                expr: expr.duplicate(),
            },
        }
    }

    pub(crate) fn duplicate_list(v: &Vec<MapEntryKey>) -> (r: Vec<MapEntryKey>)
        ensures
            r.len() == v.len(),
            MapEntryKey::terms(r, Reading::Exact) == MapEntryKey::terms(*v, Reading::Exact),
            MapEntryKey::terms(r, Reading::Desugared) == MapEntryKey::terms(*v, Reading::Desugared),
        decreases v,
    {
        let mut out: Vec<MapEntryKey> = Vec::new();
        for i in 0..v.len()
            invariant
                out.len() == i,
                forall|j: int| 0 <= j < i ==> (
                    #[trigger] out[j]
                ).to_term(Reading::Exact) == v[j].to_term(Reading::Exact),
                forall|j: int| 0 <= j < i ==> (#[trigger] out[j]).to_term(
                    Reading::Desugared
                ) == v[j].to_term(Reading::Desugared),
        {
            out.push(v[i].duplicate());
        }
        assert(MapEntryKey::terms(out, Reading::Exact) =~= MapEntryKey::terms(*v, Reading::Exact));
        assert(MapEntryKey::terms(out, Reading::Desugared) =~= MapEntryKey::terms(*v, Reading::Desugared));
        out
    }
}

impl IndexArg {
    pub fn duplicate(&self) -> (r: Self)
        ensures
            r.to_term(Reading::Exact) == self.to_term(Reading::Exact),
            r.to_term(Reading::Desugared) == self.to_term(Reading::Desugared),
        decreases self,
    {
        match self {
            IndexArg::Variant { index, variant } => IndexArg::Variant {
                index: index.deep_clone(),
                variant: variant.deep_clone(),
            },
            IndexArg::Var(value) => IndexArg::Var(value.deep_clone()),
            IndexArg::Expr(value) => IndexArg::Expr(Box::new(value.duplicate())),
        }
    }

    pub(crate) fn duplicate_list(v: &Vec<IndexArg>) -> (r: Vec<IndexArg>)
        ensures
            r.len() == v.len(),
            IndexArg::terms(r, Reading::Exact) == IndexArg::terms(*v, Reading::Exact),
            IndexArg::terms(r, Reading::Desugared) == IndexArg::terms(*v, Reading::Desugared),
        decreases v,
    {
        let mut out: Vec<IndexArg> = Vec::new();
        for i in 0..v.len()
            invariant
                out.len() == i,
                forall|j: int| 0 <= j < i ==> (
                    #[trigger] out[j]
                ).to_term(Reading::Exact) == v[j].to_term(Reading::Exact),
                forall|j: int| 0 <= j < i ==> (#[trigger] out[j]).to_term(
                    Reading::Desugared
                ) == v[j].to_term(Reading::Desugared),
        {
            out.push(v[i].duplicate());
        }
        assert(IndexArg::terms(out, Reading::Exact) =~= IndexArg::terms(*v, Reading::Exact));
        assert(IndexArg::terms(out, Reading::Desugared) =~= IndexArg::terms(*v, Reading::Desugared));
        out
    }
}

impl FieldInit {
    pub fn duplicate(&self) -> (r: Self)
        ensures
            r.to_term(Reading::Exact) == self.to_term(Reading::Exact),
            r.to_term(Reading::Desugared) == self.to_term(Reading::Desugared),
        decreases self,
    {
        FieldInit {
            name: self.name.deep_clone(),
            value: self.value.duplicate(),
        }
    }

    pub(crate) fn duplicate_list(v: &Vec<FieldInit>) -> (r: Vec<FieldInit>)
        ensures
            r.len() == v.len(),
            FieldInit::terms(r, Reading::Exact) == FieldInit::terms(*v, Reading::Exact),
            FieldInit::terms(r, Reading::Desugared) == FieldInit::terms(*v, Reading::Desugared),
        decreases v,
    {
        let mut out: Vec<FieldInit> = Vec::new();
        for i in 0..v.len()
            invariant
                out.len() == i,
                forall|j: int| 0 <= j < i ==> (
                    #[trigger] out[j]
                ).to_term(Reading::Exact) == v[j].to_term(Reading::Exact),
                forall|j: int| 0 <= j < i ==> (#[trigger] out[j]).to_term(
                    Reading::Desugared
                ) == v[j].to_term(Reading::Desugared),
        {
            out.push(v[i].duplicate());
        }
        assert(FieldInit::terms(out, Reading::Exact) =~= FieldInit::terms(*v, Reading::Exact));
        assert(FieldInit::terms(out, Reading::Desugared) =~= FieldInit::terms(*v, Reading::Desugared));
        out
    }
}

impl MatchArm {
    pub fn duplicate(&self) -> (r: Self)
        ensures
            r.to_term(Reading::Exact) == self.to_term(Reading::Exact),
            r.to_term(Reading::Desugared) == self.to_term(Reading::Desugared),
        decreases self,
    {
        MatchArm {
            pattern: self.pattern.deep_clone(),
            body: self.body.duplicate(),
            span: self.span,
        }
    }

    pub(crate) fn duplicate_list(v: &Vec<MatchArm>) -> (r: Vec<MatchArm>)
        ensures
            r.len() == v.len(),
            MatchArm::terms(r, Reading::Exact) == MatchArm::terms(*v, Reading::Exact),
            MatchArm::terms(r, Reading::Desugared) == MatchArm::terms(*v, Reading::Desugared),
        decreases v,
    {
        let mut out: Vec<MatchArm> = Vec::new();
        for i in 0..v.len()
            invariant
                out.len() == i,
                forall|j: int| 0 <= j < i ==> (
                    #[trigger] out[j]
                ).to_term(Reading::Exact) == v[j].to_term(Reading::Exact),
                forall|j: int| 0 <= j < i ==> (#[trigger] out[j]).to_term(
                    Reading::Desugared
                ) == v[j].to_term(Reading::Desugared),
        {
            out.push(v[i].duplicate());
        }
        assert(MatchArm::terms(out, Reading::Exact) =~= MatchArm::terms(*v, Reading::Exact));
        assert(MatchArm::terms(out, Reading::Desugared) =~= MatchArm::terms(*v, Reading::Desugared));
        out
    }
}

impl ParamBinding {
    pub fn duplicate(&self) -> (r: Self)
        ensures
            r.to_term(Reading::Exact) == self.to_term(Reading::Exact),
            r.to_term(Reading::Desugared) == self.to_term(Reading::Desugared),
        decreases self,
    {
        ParamBinding {
            name: self.name.deep_clone(),
            value: self.value.duplicate(),
            span: self.span,
        }
    }

    pub(crate) fn duplicate_list(v: &Vec<ParamBinding>) -> (r: Vec<ParamBinding>)
        ensures
            r.len() == v.len(),
            ParamBinding::terms(r, Reading::Exact) == ParamBinding::terms(*v, Reading::Exact),
            ParamBinding::terms(r, Reading::Desugared) == ParamBinding::terms(*v, Reading::Desugared),
        decreases v,
    {
        let mut out: Vec<ParamBinding> = Vec::new();
        for i in 0..v.len()
            invariant
                out.len() == i,
                forall|j: int| 0 <= j < i ==> (
                    #[trigger] out[j]
                ).to_term(Reading::Exact) == v[j].to_term(Reading::Exact),
                forall|j: int| 0 <= j < i ==> (#[trigger] out[j]).to_term(
                    Reading::Desugared
                ) == v[j].to_term(Reading::Desugared),
        {
            out.push(v[i].duplicate());
        }
        assert(ParamBinding::terms(out, Reading::Exact) =~= ParamBinding::terms(*v, Reading::Exact));
        assert(ParamBinding::terms(out, Reading::Desugared) =~= ParamBinding::terms(*v, Reading::Desugared));
        out
    }
}

impl TypeExpr {
    pub fn duplicate(&self) -> (r: Self)
        ensures
            r.to_term(Reading::Exact) == self.to_term(Reading::Exact),
            r.to_term(Reading::Desugared) == self.to_term(Reading::Desugared),
        decreases self,
    {
        TypeExpr {
            kind: self.kind.duplicate(),
            constraints: DomainBound::duplicate_list(&self.constraints),
            span: self.span,
        }
    }

    pub(crate) fn duplicate_list(v: &Vec<TypeExpr>) -> (r: Vec<TypeExpr>)
        ensures
            r.len() == v.len(),
            TypeExpr::terms(r, Reading::Exact) == TypeExpr::terms(*v, Reading::Exact),
            TypeExpr::terms(r, Reading::Desugared) == TypeExpr::terms(*v, Reading::Desugared),
        decreases v,
    {
        let mut out: Vec<TypeExpr> = Vec::new();
        for i in 0..v.len()
            invariant
                out.len() == i,
                forall|j: int| 0 <= j < i ==> (
                    #[trigger] out[j]
                ).to_term(Reading::Exact) == v[j].to_term(Reading::Exact),
                forall|j: int| 0 <= j < i ==> (#[trigger] out[j]).to_term(
                    Reading::Desugared
                ) == v[j].to_term(Reading::Desugared),
        {
            out.push(v[i].duplicate());
        }
        assert(TypeExpr::terms(out, Reading::Exact) =~= TypeExpr::terms(*v, Reading::Exact));
        assert(TypeExpr::terms(out, Reading::Desugared) =~= TypeExpr::terms(*v, Reading::Desugared));
        out
    }
}

impl TypeExprKind {
    pub fn duplicate(&self) -> (r: Self)
        ensures
            r.to_term(Reading::Exact) == self.to_term(Reading::Exact),
            r.to_term(Reading::Desugared) == self.to_term(Reading::Desugared),
        decreases self,
    {
        match self {
            TypeExprKind::Dimensionless => TypeExprKind::Dimensionless,
            TypeExprKind::Bool => TypeExprKind::Bool,
            TypeExprKind::Int => TypeExprKind::Int,
            TypeExprKind::Datetime => TypeExprKind::Datetime,
            TypeExprKind::DatetimeApplication { type_args } => TypeExprKind::DatetimeApplication {
                type_args: NonEmpty::new(type_args.first.duplicate(), TypeExpr::duplicate_list(&type_args.rest))
            },
            TypeExprKind::ComplexApplication { generic_args } => TypeExprKind::ComplexApplication {
                generic_args: GenericArg::duplicate_list(generic_args)
            },
            TypeExprKind::KeyApplication { generic_args } => TypeExprKind::KeyApplication {
                generic_args: GenericArg::duplicate_list(generic_args)
            },
            TypeExprKind::DimExpr(value) => TypeExprKind::DimExpr(value.deep_clone()),
            TypeExprKind::Indexed { base, indexes } => TypeExprKind::Indexed {
                base: Box::new(base.duplicate()),
                indexes: indexes.deep_clone(),
            },
            TypeExprKind::TypeApplication { name, generic_args } => TypeExprKind::TypeApplication {
                name: name.deep_clone(),
                generic_args: NonEmpty::new(
                    generic_args.first.duplicate(),
                    GenericArg::duplicate_list(&generic_args.rest),
                ),
            },
        }
    }
}

impl DomainBound {
    pub fn duplicate(&self) -> (r: Self)
        ensures
            r.to_term(Reading::Exact) == self.to_term(Reading::Exact),
            r.to_term(Reading::Desugared) == self.to_term(Reading::Desugared),
        decreases self,
    {
        DomainBound {
            kind: self.kind.deep_clone(),
            kind_span: self.kind_span,
            value: self.value.duplicate(),
            span: self.span,
        }
    }

    pub(crate) fn duplicate_list(v: &Vec<DomainBound>) -> (r: Vec<DomainBound>)
        ensures
            r.len() == v.len(),
            DomainBound::terms(r, Reading::Exact) == DomainBound::terms(*v, Reading::Exact),
            DomainBound::terms(r, Reading::Desugared) == DomainBound::terms(*v, Reading::Desugared),
        decreases v,
    {
        let mut out: Vec<DomainBound> = Vec::new();
        for i in 0..v.len()
            invariant
                out.len() == i,
                forall|j: int| 0 <= j < i ==> (
                    #[trigger] out[j]
                ).to_term(Reading::Exact) == v[j].to_term(Reading::Exact),
                forall|j: int| 0 <= j < i ==> (#[trigger] out[j]).to_term(
                    Reading::Desugared
                ) == v[j].to_term(Reading::Desugared),
        {
            out.push(v[i].duplicate());
        }
        assert(DomainBound::terms(out, Reading::Exact) =~= DomainBound::terms(*v, Reading::Exact));
        assert(DomainBound::terms(out, Reading::Desugared) =~= DomainBound::terms(*v, Reading::Desugared));
        out
    }
}

impl GenericArg {
    pub fn duplicate(&self) -> (r: Self)
        ensures
            r.to_term(Reading::Exact) == self.to_term(Reading::Exact),
            r.to_term(Reading::Desugared) == self.to_term(Reading::Desugared),
        decreases self,
    {
        match self {
            GenericArg::Type(value) => GenericArg::Type(value.duplicate()),
            GenericArg::Index(value) => GenericArg::Index(value.deep_clone()),
            GenericArg::Nat(value) => GenericArg::Nat(value.deep_clone()),
            GenericArg::Ambiguous(value) => GenericArg::Ambiguous(value.deep_clone()),
        }
    }

    pub(crate) fn duplicate_list(v: &Vec<GenericArg>) -> (r: Vec<GenericArg>)
        ensures
            r.len() == v.len(),
            GenericArg::terms(r, Reading::Exact) == GenericArg::terms(*v, Reading::Exact),
            GenericArg::terms(r, Reading::Desugared) == GenericArg::terms(*v, Reading::Desugared),
        decreases v,
    {
        let mut out: Vec<GenericArg> = Vec::new();
        for i in 0..v.len()
            invariant
                out.len() == i,
                forall|j: int| 0 <= j < i ==> (
                    #[trigger] out[j]
                ).to_term(Reading::Exact) == v[j].to_term(Reading::Exact),
                forall|j: int| 0 <= j < i ==> (#[trigger] out[j]).to_term(
                    Reading::Desugared
                ) == v[j].to_term(Reading::Desugared),
        {
            out.push(v[i].duplicate());
        }
        assert(GenericArg::terms(out, Reading::Exact) =~= GenericArg::terms(*v, Reading::Exact));
        assert(GenericArg::terms(out, Reading::Desugared) =~= GenericArg::terms(*v, Reading::Desugared));
        out
    }
}

} // verus!
