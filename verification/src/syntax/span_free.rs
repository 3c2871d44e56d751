//! Equivalence up to layout sees everything but positions and the order of
//! table entries.

use crate::exact_rational::ExactRational;
use crate::syntax::ast::{
    AmbiguousGenericArg, AssertBody, AssertDecl, Attribute, AttributeArg, BaseDimDecl, BinOp, BindableVisibility,
    DagDecl, DeclKind, Declaration, DimDecl, DimExpr, DimExprItem, DimTerm, DomainBound, DomainBoundKind, Encoding,
    EncodingChannel, Expr, ExprKind, ExternFnDecl, ExternFnParam, ExternGenericBinder, FieldDecl, FieldInit,
    FigureDecl, File, FloatBits, ForBinding, ForBindingIndex, GenericArg, GenericConstraint, GenericParam, Ident,
    IdentPath, ImportDecl, ImportItem, ImportItemNamespace, ImportKind, IncludeDecl, IndexArg, IndexDecl,
    IndexDeclKind, IndexEntryKey, IndexExpr, KeyFormKind, LayerDecl, MapEntry, MapEntryIndex, MapEntryKey,
    MapKeyAxisSyntax, MarkSpec, MarkType, MatchArm, MatchPattern, ModulePath, MulDivOp, MultiDataRow, MultiDecl,
    MultiDeclSharedAxes, MultiDeclSlice, MultiDeclSlot, MultiHeaderCell, MultiSlotAxis, MultiSlotColumnSpan,
    MultiSlotKind, NamePath, NatExpr, ParamBinding, ParamDecl, PatternBinding, PlotDecl, PlotField, PluginImportDecl,
    PluginPath, RawDeclSugar, RawExprSugar, ScopedName, TableIndexSpec, TypeDecl, TypeDeclBody, TypeExpr,
    TypeExprKind, UnaryOp, UnionMember, UnitConstness, UnitDecl, UnitDef, UnitExpr, UnitExprItem, UnitRef,
    UnresolvedRef, ValueDecl, Visibility,
};
use crate::syntax::names::{
    ConstructorName, DeclName, DimName, DimVarName, FieldName, FnName, FnParamName, GenericParamName, IndexName,
    IndexVarName, IndexVariantName, LocalName, ModuleAliasName, NameAtom, PlotPropertyName, StructTypeName, UnitName,
};
use crate::syntax::non_empty::NonEmpty;
use crate::syntax::span::Spanned;
use crate::syntax::term::{
    canonical, marks, node0, node1, node2, node3, node4, node5, node6, pair, prepend, seq_terms, Reading, Spans,
    Syntax, Tag, Term,
};
use vstd::prelude::*;

verus! {

/// A tree without its positions, and with the entries of each table in a fixed
/// order.
pub open spec fn bare(t: Term) -> Term
    decreases t, 1nat,
{
    match t {
        Term::At(_) => Term::Absent,
        Term::Present(inner) => Term::Present(Box::new(bare(*inner))),
        Term::List(items) => Term::List(bare_all(items)),
        Term::Pair(a, b) => Term::Pair(Box::new(bare(*a)), Box::new(bare(*b))),
        Term::Node(tag, parts) => Term::Node(tag, Box::new(bare_parts(tag, *parts))),
        _ => t,
    }
}

pub open spec fn bare_all(items: Seq<Term>) -> Seq<Term>
    decreases items,
{
    Seq::new(items.len(), |i: int| if 0 <= i < items.len() { bare(items[i]) } else { Term::Absent })
}

/// The parts of a node without positions. The further places of a map key are
/// positions too.
pub open spec fn bare_parts(tag: Tag, parts: Term) -> Term
    decreases parts, 2nat,
{
    match parts {
        Term::Pair(a, b) => if tag == Tag::TableLiteral {
            match *b {
                Term::List(entries) => Term::Pair(
                    Box::new(bare(*a)),
                    Box::new(Term::List(canonical(bare_all(entries)))),
                ),
                _ => bare(parts),
            }
        } else if tag == Tag::MapEntryKeyDiscrete {
            match *b {
                Term::Pair(_, c) => Term::Pair(
                    Box::new(bare(*a)),
                    Box::new(Term::Pair(Box::new(Term::Absent), Box::new(bare(*c)))),
                ),
                _ => bare(parts),
            }
        } else {
            bare(parts)
        },
        _ => bare(parts),
    }
}

/// Whether a node is bare part by part.
pub open spec fn plain(tag: Tag) -> bool {
    tag != Tag::TableLiteral && tag != Tag::MapEntryKeyDiscrete
}

pub proof fn lemma_pair(a: Term, b: Term)
    ensures
        bare(pair(a, b)) == pair(bare(a), bare(b)),
{
}

pub broadcast proof fn lemma_node0(tag: Tag)
    ensures
        #[trigger] bare(node0(tag)) == node0(tag),
{
    assert(bare(Term::Absent) == Term::Absent);
    assert(bare_parts(tag, Term::Absent) == Term::Absent);
}

pub broadcast proof fn lemma_node1(tag: Tag, a: Term)
    requires
        plain(tag),
    ensures
        #[trigger] bare(node1(tag, a)) == node1(tag, bare(a)),
{
    assert(bare_parts(tag, a) == bare(a));
}

pub broadcast proof fn lemma_node2(tag: Tag, a: Term, b: Term)
    requires
        plain(tag),
    ensures
        #[trigger] bare(node2(tag, a, b)) == node2(tag, bare(a), bare(b)),
{
    lemma_pair(a, b);
    assert(bare_parts(tag, pair(a, b)) == bare(pair(a, b)));
}

pub broadcast proof fn lemma_node3(tag: Tag, a: Term, b: Term, c: Term)
    requires
        plain(tag),
    ensures
        #[trigger] bare(node3(tag, a, b, c)) == node3(tag, bare(a), bare(b), bare(c)),
{
    lemma_pair(b, c);
    lemma_pair(a, pair(b, c));
    assert(bare_parts(tag, pair(a, pair(b, c))) == bare(pair(a, pair(b, c))));
}

pub broadcast proof fn lemma_node4(tag: Tag, a: Term, b: Term, c: Term, d: Term)
    requires
        plain(tag),
    ensures
        #[trigger] bare(node4(tag, a, b, c, d)) == node4(tag, bare(a), bare(b), bare(c), bare(d)),
{
    lemma_pair(c, d);
    lemma_pair(b, pair(c, d));
    lemma_pair(a, pair(b, pair(c, d)));
    assert(bare_parts(tag, pair(a, pair(b, pair(c, d)))) == bare(pair(a, pair(b, pair(c, d)))));
}

pub broadcast proof fn lemma_node5(tag: Tag, a: Term, b: Term, c: Term, d: Term, e: Term)
    requires
        plain(tag),
    ensures
        #[trigger] bare(node5(tag, a, b, c, d, e)) == node5(tag, bare(a), bare(b), bare(c), bare(d), bare(e)),
{
    lemma_pair(d, e);
    lemma_pair(c, pair(d, e));
    lemma_pair(b, pair(c, pair(d, e)));
    lemma_pair(a, pair(b, pair(c, pair(d, e))));
    assert(bare_parts(tag, pair(a, pair(b, pair(c, pair(d, e))))) == bare(pair(a, pair(b, pair(c, pair(d, e))))));
}

pub broadcast proof fn lemma_node6(tag: Tag, a: Term, b: Term, c: Term, d: Term, e: Term, f: Term)
    requires
        plain(tag),
    ensures
        #[trigger] bare(node6(tag, a, b, c, d, e, f)) == node6(
            tag,
            bare(a),
            bare(b),
            bare(c),
            bare(d),
            bare(e),
            bare(f),
        ),
{
    lemma_pair(e, f);
    lemma_pair(d, pair(e, f));
    lemma_pair(c, pair(d, pair(e, f)));
    lemma_pair(b, pair(c, pair(d, pair(e, f))));
    lemma_pair(a, pair(b, pair(c, pair(d, pair(e, f)))));
    assert(
        bare_parts(
            tag,
            pair(a, pair(b, pair(c, pair(d, pair(e, f))))),
        ) == bare(pair(a, pair(b, pair(c, pair(d, pair(e, f))))))
    );
}

pub broadcast group bare_nodes {
    lemma_node0,
    lemma_node1,
    lemma_node2,
    lemma_node3,
    lemma_node4,
    lemma_node5,
    lemma_node6,
}

pub proof fn lemma_bare_prepend(a: Term, s: Seq<Term>)
    ensures
        bare(Term::List(prepend(a, s))) == Term::List(prepend(bare(a), bare_all(s))),
{
    assert(bare_all(prepend(a, s)) =~= prepend(bare(a), bare_all(s)));
}

/// Trees that are the same without positions where their bare terms are.
pub trait SpanFree: Syntax {
    proof fn lemma_bare(&self)
        ensures
            self.term(Spans::Dropped) == bare(self.term(Spans::Kept)),
    ;
}

impl<T: SpanFree> SpanFree for Option<T> {
    proof fn lemma_bare(&self) {
        match self {
            Some(x) => x.lemma_bare(),
            None => {},
        }
    }
}

proof fn lemma_seq<T: SpanFree>(v: Seq<T>)
    ensures
        Term::List(seq_terms(v, Spans::Dropped)) == bare(Term::List(seq_terms(v, Spans::Kept))),
{
    assert forall|i: int| 0 <= i < v.len() implies (#[trigger] v[i]).term(Spans::Dropped) == bare(
        v[i].term(Spans::Kept),
    ) by {
        v[i].lemma_bare();
    }
    assert(seq_terms(v, Spans::Dropped) =~= bare_all(seq_terms(v, Spans::Kept)));
}

impl<T: SpanFree> SpanFree for Vec<T> {
    proof fn lemma_bare(&self) {
        lemma_seq(self@);
    }
}

impl<T: SpanFree> SpanFree for NonEmpty<T> {
    proof fn lemma_bare(&self) {
        self.first.lemma_bare();
        lemma_seq(self.rest@);
        lemma_bare_prepend(self.first.term(Spans::Kept), seq_terms(self.rest@, Spans::Kept));
    }
}

impl<T: SpanFree> SpanFree for Spanned<T> {
    proof fn lemma_bare(&self) {
        self.value.lemma_bare();
        lemma_pair(self.value.term(Spans::Kept), Term::At(self.span));
        assert(bare(Term::At(self.span)) == Term::Absent);
    }
}

impl SpanFree for bool {
    proof fn lemma_bare(&self) {
    }
}

impl SpanFree for i64 {
    proof fn lemma_bare(&self) {
    }
}

impl SpanFree for u64 {
    proof fn lemma_bare(&self) {
    }
}

impl SpanFree for usize {
    proof fn lemma_bare(&self) {
    }
}

impl SpanFree for String {
    proof fn lemma_bare(&self) {
    }
}

impl SpanFree for NameAtom {
    proof fn lemma_bare(&self) {
    }
}

impl SpanFree for FloatBits {
    proof fn lemma_bare(&self) {
    }
}

impl SpanFree for PluginPath {
    proof fn lemma_bare(&self) {
    }
}

impl SpanFree for ExactRational {
    proof fn lemma_bare(&self) {
        let n = Term::Int(self.numerator as int);
        let d = Term::Int(self.denominator as int);
        lemma_pair(n, d);
        assert(bare(n) == n && bare(d) == d);
    }
}

impl SpanFree for BinOp {
    proof fn lemma_bare(&self) {
    }
}

impl SpanFree for UnaryOp {
    proof fn lemma_bare(&self) {
    }
}

impl SpanFree for MulDivOp {
    proof fn lemma_bare(&self) {
    }
}

impl SpanFree for Visibility {
    proof fn lemma_bare(&self) {
    }
}

impl SpanFree for BindableVisibility {
    proof fn lemma_bare(&self) {
    }
}

impl SpanFree for UnitConstness {
    proof fn lemma_bare(&self) {
    }
}

impl SpanFree for MarkType {
    proof fn lemma_bare(&self) {
    }
}

impl SpanFree for EncodingChannel {
    proof fn lemma_bare(&self) {
    }
}

impl SpanFree for MultiSlotKind {
    proof fn lemma_bare(&self) {
    }
}

impl SpanFree for GenericConstraint {
    proof fn lemma_bare(&self) {
    }
}

impl SpanFree for DomainBoundKind {
    proof fn lemma_bare(&self) {
    }
}

impl SpanFree for ImportItemNamespace {
    proof fn lemma_bare(&self) {
    }
}

impl SpanFree for KeyFormKind {
    proof fn lemma_bare(&self) {
    }
}

impl SpanFree for DeclName {
    proof fn lemma_bare(&self) {
    }
}

impl SpanFree for DimName {
    proof fn lemma_bare(&self) {
    }
}

impl SpanFree for UnitName {
    proof fn lemma_bare(&self) {
    }
}

impl SpanFree for IndexName {
    proof fn lemma_bare(&self) {
    }
}

impl SpanFree for IndexVariantName {
    proof fn lemma_bare(&self) {
    }
}

impl SpanFree for FieldName {
    proof fn lemma_bare(&self) {
    }
}

impl SpanFree for ConstructorName {
    proof fn lemma_bare(&self) {
    }
}

impl SpanFree for StructTypeName {
    proof fn lemma_bare(&self) {
    }
}

impl SpanFree for GenericParamName {
    proof fn lemma_bare(&self) {
    }
}

impl SpanFree for PlotPropertyName {
    proof fn lemma_bare(&self) {
    }
}

impl SpanFree for LocalName {
    proof fn lemma_bare(&self) {
    }
}

impl SpanFree for ModuleAliasName {
    proof fn lemma_bare(&self) {
    }
}

impl SpanFree for DimVarName {
    proof fn lemma_bare(&self) {
    }
}

impl SpanFree for IndexVarName {
    proof fn lemma_bare(&self) {
    }
}

impl SpanFree for FnName {
    proof fn lemma_bare(&self) {
    }
}

impl SpanFree for FnParamName {
    proof fn lemma_bare(&self) {
    }
}

impl SpanFree for NamePath {
    proof fn lemma_bare(&self) {
        self.segments.lemma_bare();
    }
}

impl SpanFree for ScopedName {
    proof fn lemma_bare(&self) {
        broadcast use bare_nodes;

        self.qualifier.lemma_bare();
        self.member.lemma_bare();
    }
}

impl SpanFree for UnitRef {
    proof fn lemma_bare(&self) {
        broadcast use bare_nodes;

        self.qualifier.lemma_bare();
        self.name.lemma_bare();
    }
}

impl SpanFree for MapEntryIndex {
    proof fn lemma_bare(&self) {
        broadcast use bare_nodes;

        match self {
            MapEntryIndex::Named(path) => path.lemma_bare(),
            MapEntryIndex::Finite(_) => {},
        }
    }
}

impl SpanFree for IndexEntryKey {
    proof fn lemma_bare(&self) {
        broadcast use bare_nodes;

        match self {
            IndexEntryKey::Named(name) => name.lemma_bare(),
            IndexEntryKey::Position(_) => {},
        }
    }
}

impl SpanFree for Ident {
    proof fn lemma_bare(&self) {
        broadcast use bare_nodes;

        self.name.lemma_bare();
    }
}

impl SpanFree for IdentPath {
    proof fn lemma_bare(&self) {
        broadcast use bare_nodes;

        self.segments.lemma_bare();
    }
}

impl SpanFree for Attribute {
    proof fn lemma_bare(&self) {
        broadcast use bare_nodes;

        self.name.lemma_bare();
        self.args.lemma_bare();
    }
}

impl AttributeArg {
    proof fn lemma_bare_tree(self)
        ensures
            self.to_term(Spans::Dropped) == bare(self.to_term(Spans::Kept)),
        decreases self,
    {
        broadcast use bare_nodes;

        match self {
            AttributeArg::Path { segments, span } => {
                segments.lemma_bare();
            },
            AttributeArg::FinitePosition { position, span } => {
                position.lemma_bare();
            },
            AttributeArg::Group { elements, span } => {
                AttributeArg::lemma_bare_list(elements);
            },
        }
    }

    proof fn lemma_bare_list(v: Vec<AttributeArg>)
        ensures
            Term::List(AttributeArg::terms(v, Spans::Dropped)) == bare(
                Term::List(AttributeArg::terms(v, Spans::Kept))
            ),
        decreases v,
    {
        assert forall|i: int| 0 <= i < v.len() implies (#[trigger] v[i]).to_term(Spans::Dropped) == bare(
            v[i].to_term(Spans::Kept),
        ) by {
            v[i].lemma_bare_tree();
        }
        assert(AttributeArg::terms(v, Spans::Dropped) =~= bare_all(AttributeArg::terms(v, Spans::Kept)));
    }
}

impl SpanFree for AttributeArg {
    proof fn lemma_bare(&self) {
        self.lemma_bare_tree();
    }
}

impl SpanFree for ImportKind {
    proof fn lemma_bare(&self) {
        broadcast use bare_nodes;

        match self {
            ImportKind::Selective(value) => {
                value.lemma_bare();
            },
            ImportKind::Module { alias } => {
                alias.lemma_bare();
            },
        }
    }
}

impl SpanFree for ModulePath {
    proof fn lemma_bare(&self) {
        broadcast use bare_nodes;

        self.segments.lemma_bare();
    }
}

impl SpanFree for ImportItem {
    proof fn lemma_bare(&self) {
        broadcast use bare_nodes;

        self.attributes.lemma_bare();
        self.is_pub.lemma_bare();
        self.namespace.lemma_bare();
        self.name.lemma_bare();
        self.alias.lemma_bare();
    }
}

impl SpanFree for ImportDecl {
    proof fn lemma_bare(&self) {
        broadcast use bare_nodes;

        self.path.lemma_bare();
        self.kind.lemma_bare();
    }
}

impl SpanFree for BaseDimDecl {
    proof fn lemma_bare(&self) {
        broadcast use bare_nodes;

        self.visibility.lemma_bare();
        self.name.lemma_bare();
    }
}

impl SpanFree for DimDecl {
    proof fn lemma_bare(&self) {
        broadcast use bare_nodes;

        self.visibility.lemma_bare();
        self.name.lemma_bare();
        self.definition.lemma_bare();
    }
}

impl SpanFree for DimExpr {
    proof fn lemma_bare(&self) {
        broadcast use bare_nodes;

        self.terms.lemma_bare();
    }
}

impl SpanFree for DimExprItem {
    proof fn lemma_bare(&self) {
        broadcast use bare_nodes;

        self.op.lemma_bare();
        self.term.lemma_bare();
    }
}

impl SpanFree for DimTerm {
    proof fn lemma_bare(&self) {
        broadcast use bare_nodes;

        self.name.lemma_bare();
        self.power.lemma_bare();
    }
}

impl SpanFree for UnitExpr {
    proof fn lemma_bare(&self) {
        broadcast use bare_nodes;

        self.terms.lemma_bare();
    }
}

impl SpanFree for UnitExprItem {
    proof fn lemma_bare(&self) {
        broadcast use bare_nodes;

        self.op.lemma_bare();
        self.name.lemma_bare();
        self.power.lemma_bare();
    }
}

impl SpanFree for UnresolvedRef {
    proof fn lemma_bare(&self) {
        broadcast use bare_nodes;

        match self {
            UnresolvedRef::Path(value) => {
                value.lemma_bare();
            },
        }
    }
}

impl SpanFree for TableIndexSpec {
    proof fn lemma_bare(&self) {
        broadcast use bare_nodes;

        match self {
            TableIndexSpec::Named(value) => {
                value.lemma_bare();
            },
            TableIndexSpec::Finite { cardinality, span } => {
                cardinality.lemma_bare();
            },
        }
    }
}

impl NatExpr {
    proof fn lemma_bare_tree(self)
        ensures
            self.to_term(Spans::Dropped) == bare(self.to_term(Spans::Kept)),
        decreases self,
    {
        broadcast use bare_nodes;

        match self {
            NatExpr::Literal(value, span) => {
                value.lemma_bare();
            },
            NatExpr::Var(value) => {
                value.lemma_bare();
            },
            NatExpr::Add(value, span) => {
                NatExpr::lemma_bare_list(value);
            },
            NatExpr::Mul(value, span) => {
                NatExpr::lemma_bare_list(value);
            },
        }
    }

    proof fn lemma_bare_list(v: Vec<NatExpr>)
        ensures
            Term::List(NatExpr::terms(v, Spans::Dropped)) == bare(Term::List(NatExpr::terms(v, Spans::Kept))),
        decreases v,
    {
        assert forall|i: int| 0 <= i < v.len() implies (#[trigger] v[i]).to_term(Spans::Dropped) == bare(
            v[i].to_term(Spans::Kept),
        ) by {
            v[i].lemma_bare_tree();
        }
        assert(NatExpr::terms(v, Spans::Dropped) =~= bare_all(NatExpr::terms(v, Spans::Kept)));
    }
}

impl SpanFree for NatExpr {
    proof fn lemma_bare(&self) {
        self.lemma_bare_tree();
    }
}

impl AmbiguousGenericArg {
    proof fn lemma_bare_tree(self)
        ensures
            self.to_term(Spans::Dropped) == bare(self.to_term(Spans::Kept)),
        decreases self,
    {
        broadcast use bare_nodes;

        match self {
            AmbiguousGenericArg::Name(value) => {
                value.lemma_bare();
            },
            AmbiguousGenericArg::Mul(value, span) => {
                AmbiguousGenericArg::lemma_bare_list(value);
            },
        }
    }

    proof fn lemma_bare_list(v: Vec<AmbiguousGenericArg>)
        ensures
            Term::List(AmbiguousGenericArg::terms(v, Spans::Dropped)) == bare(
                Term::List(AmbiguousGenericArg::terms(v, Spans::Kept))
            ),
        decreases v,
    {
        assert forall|i: int| 0 <= i < v.len() implies (#[trigger] v[i]).to_term(Spans::Dropped) == bare(
            v[i].to_term(Spans::Kept),
        ) by {
            v[i].lemma_bare_tree();
        }
        assert(
            AmbiguousGenericArg::terms(v, Spans::Dropped) =~= bare_all(AmbiguousGenericArg::terms(v, Spans::Kept))
        );
    }
}

impl SpanFree for AmbiguousGenericArg {
    proof fn lemma_bare(&self) {
        self.lemma_bare_tree();
    }
}

impl SpanFree for IndexExpr {
    proof fn lemma_bare(&self) {
        broadcast use bare_nodes;

        match self {
            IndexExpr::Name(value) => {
                value.lemma_bare();
            },
            IndexExpr::Finite { cardinality, span } => {
                cardinality.lemma_bare();
            },
            IndexExpr::BareNat(value) => {
                value.lemma_bare();
            },
        }
    }
}

impl SpanFree for ForBindingIndex {
    proof fn lemma_bare(&self) {
        broadcast use bare_nodes;

        match self {
            ForBindingIndex::Named(value) => {
                value.lemma_bare();
            },
            ForBindingIndex::Finite { cardinality, span } => {
                cardinality.lemma_bare();
            },
        }
    }
}

impl SpanFree for ForBinding {
    proof fn lemma_bare(&self) {
        broadcast use bare_nodes;

        self.var.lemma_bare();
        self.index.lemma_bare();
    }
}

impl SpanFree for PatternBinding {
    proof fn lemma_bare(&self) {
        broadcast use bare_nodes;

        match self {
            PatternBinding::Bind { field, var } => {
                field.lemma_bare();
                var.lemma_bare();
            },
            PatternBinding::Wildcard { field, span } => {
                field.lemma_bare();
            },
        }
    }
}

impl SpanFree for MatchPattern {
    proof fn lemma_bare(&self) {
        broadcast use bare_nodes;

        match self {
            MatchPattern::Path { path, bindings, span } => {
                path.lemma_bare();
                bindings.lemma_bare();
            },
            MatchPattern::Constructor { name, bindings, span } => {
                name.lemma_bare();
                bindings.lemma_bare();
            },
            MatchPattern::IndexLabel { index, variant, span } => {
                index.lemma_bare();
                variant.lemma_bare();
            },
        }
    }
}

impl SpanFree for MapKeyAxisSyntax {
    proof fn lemma_bare(&self) {
        broadcast use bare_nodes;

        match self {
            MapKeyAxisSyntax::Explicit(value) => {
                value.lemma_bare();
            },
            MapKeyAxisSyntax::Contextual => {},
        }
    }
}

impl SpanFree for MultiDeclSharedAxes {
    proof fn lemma_bare(&self) {
        broadcast use bare_nodes;

        self.slice_axes.lemma_bare();
        self.row_axis.lemma_bare();
    }
}

impl SpanFree for MultiSlotAxis {
    proof fn lemma_bare(&self) {
        broadcast use bare_nodes;

        match self {
            MultiSlotAxis::Underscore => {},
            MultiSlotAxis::Axis(value) => {
                value.lemma_bare();
            },
        }
    }
}

impl SpanFree for MultiSlotColumnSpan {
    proof fn lemma_bare(&self) {
        broadcast use bare_nodes;

        match self {
            MultiSlotColumnSpan::Single(value) => {
                value.lemma_bare();
            },
            MultiSlotColumnSpan::Range { start, end, extra_axis } => {
                start.lemma_bare();
                end.lemma_bare();
                extra_axis.lemma_bare();
            },
        }
    }
}

impl SpanFree for MultiHeaderCell {
    proof fn lemma_bare(&self) {
        broadcast use bare_nodes;

        match self {
            MultiHeaderCell::Underscore { span } => {},
            MultiHeaderCell::Variant { axis, variant, span } => {
                axis.lemma_bare();
                variant.lemma_bare();
            },
        }
    }
}

impl SpanFree for ExternGenericBinder {
    proof fn lemma_bare(&self) {
        broadcast use bare_nodes;

        match self {
            ExternGenericBinder::Dim(value) => {
                value.lemma_bare();
            },
            ExternGenericBinder::Index(value) => {
                value.lemma_bare();
            },
        }
    }
}

impl Expr {
    proof fn lemma_bare_tree(self)
        ensures
            self.to_term(Reading::SpanFree) == bare(self.to_term(Reading::Exact)),
        decreases self,
    {
        broadcast use bare_nodes;

        reveal(ExprKind::to_term);
        self.kind.lemma_bare_tree();
    }

    proof fn lemma_bare_list(v: Vec<Expr>)
        ensures
            Term::List(Expr::terms(v, Reading::SpanFree)) == bare(Term::List(Expr::terms(v, Reading::Exact))),
            Expr::terms(v, Reading::SpanFree) == bare_all(Expr::terms(v, Reading::Exact)),
        decreases v,
    {
        assert forall|i: int| 0 <= i < v.len() implies (#[trigger] v[i]).to_term(Reading::SpanFree) == bare(
            v[i].to_term(Reading::Exact),
        ) by {
            v[i].lemma_bare_tree();
        }
        assert(Expr::terms(v, Reading::SpanFree) =~= bare_all(Expr::terms(v, Reading::Exact)));
    }
}

impl ExprKind {
    proof fn lemma_bare_tree(self)
        ensures
            self.to_term(Reading::SpanFree) == bare(self.to_term(Reading::Exact)),
        decreases self,
    {
        broadcast use bare_nodes;

        reveal(ExprKind::to_term);
        match self {
            ExprKind::Number(value) => {
                value.lemma_bare();
            },
            ExprKind::Integer(value) => {
                value.lemma_bare();
            },
            ExprKind::Bool(value) => {
                value.lemma_bare();
            },
            ExprKind::StringLiteral(value) => {
                value.lemma_bare();
            },
            ExprKind::GraphRef(value) => {
                value.lemma_bare();
            },
            ExprKind::BinOp { op, lhs, rhs } => {
                op.lemma_bare();
                lhs.lemma_bare_tree();
                rhs.lemma_bare_tree();
            },
            ExprKind::UnaryOp { op, operand } => {
                op.lemma_bare();
                operand.lemma_bare_tree();
            },
            ExprKind::FnCall { callee, generic_args, args } => {
                callee.lemma_bare();
                GenericArg::lemma_bare_list(generic_args);
                Expr::lemma_bare_list(args);
            },
            ExprKind::If { condition, then_branch, else_branch } => {
                condition.lemma_bare_tree();
                then_branch.lemma_bare_tree();
                else_branch.lemma_bare_tree();
            },
            ExprKind::QuantityLiteral { value, unit } => {
                value.lemma_bare();
                unit.lemma_bare();
            },
            ExprKind::Convert { expr, target } => {
                expr.lemma_bare_tree();
                target.lemma_bare();
            },
            ExprKind::DisplayTimezone { expr, timezone } => {
                expr.lemma_bare_tree();
                timezone.lemma_bare();
            },
            ExprKind::FieldAccess { expr, field } => {
                expr.lemma_bare_tree();
                field.lemma_bare();
            },
            ExprKind::ConstructorCall { callee, generic_args, fields } => {
                callee.lemma_bare();
                GenericArg::lemma_bare_list(generic_args);
                FieldInit::lemma_bare_list(fields);
            },
            ExprKind::MapLiteral { entries } => {
                MapEntry::lemma_bare_list(entries);
            },
            ExprKind::ForComp { bindings, body } => {
                bindings.lemma_bare();
                body.lemma_bare_tree();
            },
            ExprKind::IndexAccess { expr, args } => {
                expr.lemma_bare_tree();
                args.first.lemma_bare_tree();
                IndexArg::lemma_bare_list(args.rest);
                lemma_bare_prepend(args.first.to_term(Reading::Exact), IndexArg::terms(args.rest, Reading::Exact));
            },
            ExprKind::Scan { source, init, acc_name, val_name, body } => {
                source.lemma_bare_tree();
                init.lemma_bare_tree();
                acc_name.lemma_bare();
                val_name.lemma_bare();
                body.lemma_bare_tree();
            },
            ExprKind::Unfold { axis, init, prev_state_name, prev_index_name, index_name, body } => {
                axis.lemma_bare();
                init.lemma_bare_tree();
                prev_state_name.lemma_bare();
                prev_index_name.lemma_bare();
                index_name.lemma_bare();
                body.lemma_bare_tree();
            },
            ExprKind::KeyForm { kind, axis, arg } => {
                kind.lemma_bare();
                axis.lemma_bare();
                arg.lemma_bare_tree();
            },
            ExprKind::Match { scrutinee, arms } => {
                scrutinee.lemma_bare_tree();
                MatchArm::lemma_bare_list(arms);
            },
            ExprKind::InlineDagRef { path, args, output } => {
                path.lemma_bare();
                ParamBinding::lemma_bare_list(args);
                output.lemma_bare();
            },
            ExprKind::UnresolvedRef(value) => {
                value.lemma_bare();
            },
            ExprKind::Sugar(value) => {
                value.lemma_bare_tree();
            },
        }
    }
}

impl RawExprSugar {
    proof fn lemma_bare_tree(self)
        ensures
            self.to_term(Reading::SpanFree) == bare(self.to_term(Reading::Exact)),
        decreases self,
    {
        broadcast use bare_nodes;

        match self {
            RawExprSugar::TableLiteral { indexes, entries } => {
                indexes.lemma_bare();
                MapEntry::lemma_bare_list(entries);
                let parts = pair(
                    indexes.term(Spans::Kept),
                    Term::List(MapEntry::terms(entries, Reading::Exact)),
                );
                assert(bare_parts(Tag::TableLiteral, parts) == pair(
                    bare(indexes.term(Spans::Kept)),
                    Term::List(canonical(bare_all(MapEntry::terms(entries, Reading::Exact)))),
                ));
            },
        }
    }
}

impl MapEntry {
    proof fn lemma_bare_tree(self)
        ensures
            self.to_term(Reading::SpanFree) == bare(self.to_term(Reading::Exact)),
        decreases self,
    {
        broadcast use bare_nodes;

        self.keys.first.lemma_bare_tree();
        MapEntryKey::lemma_bare_list(self.keys.rest);
        lemma_bare_prepend(
            self.keys.first.to_term(Reading::Exact),
            MapEntryKey::terms(self.keys.rest, Reading::Exact),
        );
        self.value.lemma_bare_tree();
    }

    proof fn lemma_bare_list(v: Vec<MapEntry>)
        ensures
            Term::List(MapEntry::terms(v, Reading::SpanFree)) == bare(Term::List(MapEntry::terms(v, Reading::Exact))),
            MapEntry::terms(v, Reading::SpanFree) == bare_all(MapEntry::terms(v, Reading::Exact)),
        decreases v,
    {
        assert forall|i: int| 0 <= i < v.len() implies (#[trigger] v[i]).to_term(Reading::SpanFree) == bare(
            v[i].to_term(Reading::Exact),
        ) by {
            v[i].lemma_bare_tree();
        }
        assert(MapEntry::terms(v, Reading::SpanFree) =~= bare_all(MapEntry::terms(v, Reading::Exact)));
    }
}

impl MapEntryKey {
    proof fn lemma_bare_tree(self)
        ensures
            self.to_term(Reading::SpanFree) == bare(self.to_term(Reading::Exact)),
        decreases self,
    {
        broadcast use bare_nodes;

        match self {
            MapEntryKey::Discrete { index, additional_index_spans, entry } => {
                index.lemma_bare();
                entry.lemma_bare();
                let parts = pair(
                    index.term(Spans::Kept),
                    pair(marks(Spans::Kept, additional_index_spans@), entry.term(Spans::Kept)),
                );
                assert(bare_parts(Tag::MapEntryKeyDiscrete, parts) == pair(
                    bare(index.term(Spans::Kept)),
                    pair(Term::Absent, bare(entry.term(Spans::Kept))),
                ));
            },
            MapEntryKey::Expression { axis, expr } => {
                axis.lemma_bare();
                expr.lemma_bare_tree();
            },
        }
    }

    proof fn lemma_bare_list(v: Vec<MapEntryKey>)
        ensures
            Term::List(MapEntryKey::terms(v, Reading::SpanFree)) == bare(
                Term::List(MapEntryKey::terms(v, Reading::Exact))
            ),
            MapEntryKey::terms(v, Reading::SpanFree) == bare_all(MapEntryKey::terms(v, Reading::Exact)),
        decreases v,
    {
        assert forall|i: int| 0 <= i < v.len() implies (#[trigger] v[i]).to_term(Reading::SpanFree) == bare(
            v[i].to_term(Reading::Exact),
        ) by {
            v[i].lemma_bare_tree();
        }
        assert(MapEntryKey::terms(v, Reading::SpanFree) =~= bare_all(MapEntryKey::terms(v, Reading::Exact)));
    }
}

impl IndexArg {
    proof fn lemma_bare_tree(self)
        ensures
            self.to_term(Reading::SpanFree) == bare(self.to_term(Reading::Exact)),
        decreases self,
    {
        broadcast use bare_nodes;

        match self {
            IndexArg::Variant { index, variant } => {
                index.lemma_bare();
                variant.lemma_bare();
            },
            IndexArg::Var(value) => {
                value.lemma_bare();
            },
            IndexArg::Expr(value) => {
                value.lemma_bare_tree();
            },
        }
    }

    proof fn lemma_bare_list(v: Vec<IndexArg>)
        ensures
            Term::List(IndexArg::terms(v, Reading::SpanFree)) == bare(Term::List(IndexArg::terms(v, Reading::Exact))),
            IndexArg::terms(v, Reading::SpanFree) == bare_all(IndexArg::terms(v, Reading::Exact)),
        decreases v,
    {
        assert forall|i: int| 0 <= i < v.len() implies (#[trigger] v[i]).to_term(Reading::SpanFree) == bare(
            v[i].to_term(Reading::Exact),
        ) by {
            v[i].lemma_bare_tree();
        }
        assert(IndexArg::terms(v, Reading::SpanFree) =~= bare_all(IndexArg::terms(v, Reading::Exact)));
    }
}

impl FieldInit {
    proof fn lemma_bare_tree(self)
        ensures
            self.to_term(Reading::SpanFree) == bare(self.to_term(Reading::Exact)),
        decreases self,
    {
        broadcast use bare_nodes;

        self.name.lemma_bare();
        self.value.lemma_bare_tree();
    }

    proof fn lemma_bare_list(v: Vec<FieldInit>)
        ensures
            Term::List(FieldInit::terms(v, Reading::SpanFree)) == bare(
                Term::List(FieldInit::terms(v, Reading::Exact))
            ),
            FieldInit::terms(v, Reading::SpanFree) == bare_all(FieldInit::terms(v, Reading::Exact)),
        decreases v,
    {
        assert forall|i: int| 0 <= i < v.len() implies (#[trigger] v[i]).to_term(Reading::SpanFree) == bare(
            v[i].to_term(Reading::Exact),
        ) by {
            v[i].lemma_bare_tree();
        }
        assert(FieldInit::terms(v, Reading::SpanFree) =~= bare_all(FieldInit::terms(v, Reading::Exact)));
    }
}

impl MatchArm {
    proof fn lemma_bare_tree(self)
        ensures
            self.to_term(Reading::SpanFree) == bare(self.to_term(Reading::Exact)),
        decreases self,
    {
        broadcast use bare_nodes;

        self.pattern.lemma_bare();
        self.body.lemma_bare_tree();
    }

    proof fn lemma_bare_list(v: Vec<MatchArm>)
        ensures
            Term::List(MatchArm::terms(v, Reading::SpanFree)) == bare(Term::List(MatchArm::terms(v, Reading::Exact))),
            MatchArm::terms(v, Reading::SpanFree) == bare_all(MatchArm::terms(v, Reading::Exact)),
        decreases v,
    {
        assert forall|i: int| 0 <= i < v.len() implies (#[trigger] v[i]).to_term(Reading::SpanFree) == bare(
            v[i].to_term(Reading::Exact),
        ) by {
            v[i].lemma_bare_tree();
        }
        assert(MatchArm::terms(v, Reading::SpanFree) =~= bare_all(MatchArm::terms(v, Reading::Exact)));
    }
}

impl ParamBinding {
    proof fn lemma_bare_tree(self)
        ensures
            self.to_term(Reading::SpanFree) == bare(self.to_term(Reading::Exact)),
        decreases self,
    {
        broadcast use bare_nodes;

        self.name.lemma_bare();
        self.value.lemma_bare_tree();
    }

    proof fn lemma_bare_list(v: Vec<ParamBinding>)
        ensures
            Term::List(ParamBinding::terms(v, Reading::SpanFree)) == bare(
                Term::List(ParamBinding::terms(v, Reading::Exact))
            ),
            ParamBinding::terms(v, Reading::SpanFree) == bare_all(ParamBinding::terms(v, Reading::Exact)),
        decreases v,
    {
        assert forall|i: int| 0 <= i < v.len() implies (#[trigger] v[i]).to_term(Reading::SpanFree) == bare(
            v[i].to_term(Reading::Exact),
        ) by {
            v[i].lemma_bare_tree();
        }
        assert(ParamBinding::terms(v, Reading::SpanFree) =~= bare_all(ParamBinding::terms(v, Reading::Exact)));
    }
}

impl TypeExpr {
    proof fn lemma_bare_tree(self)
        ensures
            self.to_term(Reading::SpanFree) == bare(self.to_term(Reading::Exact)),
        decreases self,
    {
        broadcast use bare_nodes;

        self.kind.lemma_bare_tree();
        DomainBound::lemma_bare_list(self.constraints);
    }

    proof fn lemma_bare_list(v: Vec<TypeExpr>)
        ensures
            Term::List(TypeExpr::terms(v, Reading::SpanFree)) == bare(Term::List(TypeExpr::terms(v, Reading::Exact))),
            TypeExpr::terms(v, Reading::SpanFree) == bare_all(TypeExpr::terms(v, Reading::Exact)),
        decreases v,
    {
        assert forall|i: int| 0 <= i < v.len() implies (#[trigger] v[i]).to_term(Reading::SpanFree) == bare(
            v[i].to_term(Reading::Exact),
        ) by {
            v[i].lemma_bare_tree();
        }
        assert(TypeExpr::terms(v, Reading::SpanFree) =~= bare_all(TypeExpr::terms(v, Reading::Exact)));
    }
}

impl TypeExprKind {
    proof fn lemma_bare_tree(self)
        ensures
            self.to_term(Reading::SpanFree) == bare(self.to_term(Reading::Exact)),
        decreases self,
    {
        broadcast use bare_nodes;

        match self {
            TypeExprKind::Dimensionless => {},
            TypeExprKind::Bool => {},
            TypeExprKind::Int => {},
            TypeExprKind::Datetime => {},
            TypeExprKind::DatetimeApplication { type_args } => {
                type_args.first.lemma_bare_tree();
                TypeExpr::lemma_bare_list(type_args.rest);
                lemma_bare_prepend(
                    type_args.first.to_term(Reading::Exact),
                    TypeExpr::terms(type_args.rest, Reading::Exact),
                );
            },
            TypeExprKind::ComplexApplication { generic_args } => {
                GenericArg::lemma_bare_list(generic_args);
            },
            TypeExprKind::KeyApplication { generic_args } => {
                GenericArg::lemma_bare_list(generic_args);
            },
            TypeExprKind::DimExpr(value) => {
                value.lemma_bare();
            },
            TypeExprKind::Indexed { base, indexes } => {
                base.lemma_bare_tree();
                indexes.lemma_bare();
            },
            TypeExprKind::TypeApplication { name, generic_args } => {
                name.lemma_bare();
                generic_args.first.lemma_bare_tree();
                GenericArg::lemma_bare_list(generic_args.rest);
                lemma_bare_prepend(
                    generic_args.first.to_term(Reading::Exact),
                    GenericArg::terms(generic_args.rest, Reading::Exact),
                );
            },
        }
    }
}

impl DomainBound {
    proof fn lemma_bare_tree(self)
        ensures
            self.to_term(Reading::SpanFree) == bare(self.to_term(Reading::Exact)),
        decreases self,
    {
        broadcast use bare_nodes;

        self.kind.lemma_bare();
        self.value.lemma_bare_tree();
    }

    proof fn lemma_bare_list(v: Vec<DomainBound>)
        ensures
            Term::List(DomainBound::terms(v, Reading::SpanFree)) == bare(
                Term::List(DomainBound::terms(v, Reading::Exact))
            ),
            DomainBound::terms(v, Reading::SpanFree) == bare_all(DomainBound::terms(v, Reading::Exact)),
        decreases v,
    {
        assert forall|i: int| 0 <= i < v.len() implies (#[trigger] v[i]).to_term(Reading::SpanFree) == bare(
            v[i].to_term(Reading::Exact),
        ) by {
            v[i].lemma_bare_tree();
        }
        assert(DomainBound::terms(v, Reading::SpanFree) =~= bare_all(DomainBound::terms(v, Reading::Exact)));
    }
}

impl GenericArg {
    proof fn lemma_bare_tree(self)
        ensures
            self.to_term(Reading::SpanFree) == bare(self.to_term(Reading::Exact)),
        decreases self,
    {
        broadcast use bare_nodes;

        match self {
            GenericArg::Type(value) => {
                value.lemma_bare_tree();
            },
            GenericArg::Index(value) => {
                value.lemma_bare();
            },
            GenericArg::Nat(value) => {
                value.lemma_bare();
            },
            GenericArg::Ambiguous(value) => {
                value.lemma_bare();
            },
        }
    }

    proof fn lemma_bare_list(v: Vec<GenericArg>)
        ensures
            Term::List(GenericArg::terms(v, Reading::SpanFree)) == bare(
                Term::List(GenericArg::terms(v, Reading::Exact))
            ),
            GenericArg::terms(v, Reading::SpanFree) == bare_all(GenericArg::terms(v, Reading::Exact)),
        decreases v,
    {
        assert forall|i: int| 0 <= i < v.len() implies (#[trigger] v[i]).to_term(Reading::SpanFree) == bare(
            v[i].to_term(Reading::Exact),
        ) by {
            v[i].lemma_bare_tree();
        }
        assert(GenericArg::terms(v, Reading::SpanFree) =~= bare_all(GenericArg::terms(v, Reading::Exact)));
    }
}

impl ParamDecl {
    proof fn lemma_bare_tree(self)
        ensures
            self.to_term(Reading::SpanFree) == bare(self.to_term(Reading::Exact)),
    {
        broadcast use bare_nodes;

        self.name.lemma_bare();
        self.type_ann.lemma_bare_tree();
        match self.value {
            Some(some) => {
                some.lemma_bare_tree();
            },
            None => {},
        }
    }
}

impl ValueDecl {
    proof fn lemma_bare_tree(self)
        ensures
            self.to_term(Reading::SpanFree) == bare(self.to_term(Reading::Exact)),
    {
        broadcast use bare_nodes;

        self.visibility.lemma_bare();
        self.name.lemma_bare();
        self.type_ann.lemma_bare_tree();
        self.value.lemma_bare_tree();
    }
}

impl UnitDef {
    proof fn lemma_bare_tree(self)
        ensures
            self.to_term(Reading::SpanFree) == bare(self.to_term(Reading::Exact)),
    {
        broadcast use bare_nodes;

        self.scale_expr.lemma_bare_tree();
        self.unit_expr.lemma_bare();
    }
}

impl UnitDecl {
    proof fn lemma_bare_tree(self)
        ensures
            self.to_term(Reading::SpanFree) == bare(self.to_term(Reading::Exact)),
    {
        broadcast use bare_nodes;

        self.visibility.lemma_bare();
        self.constness.lemma_bare();
        self.name.lemma_bare();
        self.dim_type.lemma_bare();
        match self.definition {
            Some(some) => {
                some.lemma_bare_tree();
            },
            None => {},
        }
    }
}

impl FieldDecl {
    proof fn lemma_bare_tree(self)
        ensures
            self.to_term(Reading::SpanFree) == bare(self.to_term(Reading::Exact)),
    {
        broadcast use bare_nodes;

        self.name.lemma_bare();
        self.type_ann.lemma_bare_tree();
    }

    proof fn lemma_bare_list(v: Vec<FieldDecl>)
        ensures
            Term::List(FieldDecl::terms(v, Reading::SpanFree)) == bare(
                Term::List(FieldDecl::terms(v, Reading::Exact))
            ),
            FieldDecl::terms(v, Reading::SpanFree) == bare_all(FieldDecl::terms(v, Reading::Exact)),
    {
        assert forall|i: int| 0 <= i < v.len() implies (#[trigger] v[i]).to_term(Reading::SpanFree) == bare(
            v[i].to_term(Reading::Exact),
        ) by {
            v[i].lemma_bare_tree();
        }
        assert(FieldDecl::terms(v, Reading::SpanFree) =~= bare_all(FieldDecl::terms(v, Reading::Exact)));
    }
}

impl UnionMember {
    proof fn lemma_bare_tree(self)
        ensures
            self.to_term(Reading::SpanFree) == bare(self.to_term(Reading::Exact)),
    {
        broadcast use bare_nodes;

        self.name.lemma_bare();
        match self.payload {
            Some(some) => {
                FieldDecl::lemma_bare_list(some);
            },
            None => {},
        }
    }

    proof fn lemma_bare_list(v: Vec<UnionMember>)
        ensures
            Term::List(UnionMember::terms(v, Reading::SpanFree)) == bare(
                Term::List(UnionMember::terms(v, Reading::Exact))
            ),
            UnionMember::terms(v, Reading::SpanFree) == bare_all(UnionMember::terms(v, Reading::Exact)),
    {
        assert forall|i: int| 0 <= i < v.len() implies (#[trigger] v[i]).to_term(Reading::SpanFree) == bare(
            v[i].to_term(Reading::Exact),
        ) by {
            v[i].lemma_bare_tree();
        }
        assert(UnionMember::terms(v, Reading::SpanFree) =~= bare_all(UnionMember::terms(v, Reading::Exact)));
    }
}

impl TypeDeclBody {
    proof fn lemma_bare_tree(self)
        ensures
            self.to_term(Reading::SpanFree) == bare(self.to_term(Reading::Exact)),
    {
        broadcast use bare_nodes;

        match self {
            TypeDeclBody::Required => {},
            TypeDeclBody::Constructors(value) => {
                UnionMember::lemma_bare_list(value);
            },
        }
    }
}

impl GenericParam {
    proof fn lemma_bare_tree(self)
        ensures
            self.to_term(Reading::SpanFree) == bare(self.to_term(Reading::Exact)),
    {
        broadcast use bare_nodes;

        self.name.lemma_bare();
        self.constraint.lemma_bare();
        match self.default {
            Some(some) => {
                some.lemma_bare_tree();
            },
            None => {},
        }
    }

    proof fn lemma_bare_list(v: Vec<GenericParam>)
        ensures
            Term::List(GenericParam::terms(v, Reading::SpanFree)) == bare(
                Term::List(GenericParam::terms(v, Reading::Exact))
            ),
            GenericParam::terms(v, Reading::SpanFree) == bare_all(GenericParam::terms(v, Reading::Exact)),
    {
        assert forall|i: int| 0 <= i < v.len() implies (#[trigger] v[i]).to_term(Reading::SpanFree) == bare(
            v[i].to_term(Reading::Exact),
        ) by {
            v[i].lemma_bare_tree();
        }
        assert(GenericParam::terms(v, Reading::SpanFree) =~= bare_all(GenericParam::terms(v, Reading::Exact)));
    }
}

impl TypeDecl {
    proof fn lemma_bare_tree(self)
        ensures
            self.to_term(Reading::SpanFree) == bare(self.to_term(Reading::Exact)),
    {
        broadcast use bare_nodes;

        self.visibility.lemma_bare();
        self.name.lemma_bare();
        GenericParam::lemma_bare_list(self.generic_params);
        self.body.lemma_bare_tree();
    }
}

impl IndexDeclKind {
    proof fn lemma_bare_tree(self)
        ensures
            self.to_term(Reading::SpanFree) == bare(self.to_term(Reading::Exact)),
    {
        broadcast use bare_nodes;

        match self {
            IndexDeclKind::Named { variants } => {
                variants.lemma_bare();
            },
            IndexDeclKind::Range { start, end, step } => {
                start.lemma_bare_tree();
                end.lemma_bare_tree();
                step.lemma_bare_tree();
            },
            IndexDeclKind::Linspace { start, end, points } => {
                start.lemma_bare_tree();
                end.lemma_bare_tree();
                points.lemma_bare();
            },
            IndexDeclKind::RequiredNamed => {},
            IndexDeclKind::RequiredCoordinate { dimension } => {
                dimension.lemma_bare();
            },
        }
    }
}

impl IndexDecl {
    proof fn lemma_bare_tree(self)
        ensures
            self.to_term(Reading::SpanFree) == bare(self.to_term(Reading::Exact)),
    {
        broadcast use bare_nodes;

        self.visibility.lemma_bare();
        self.name.lemma_bare();
        self.kind.lemma_bare_tree();
    }
}

impl IncludeDecl {
    proof fn lemma_bare_tree(self)
        ensures
            self.to_term(Reading::SpanFree) == bare(self.to_term(Reading::Exact)),
    {
        broadcast use bare_nodes;

        self.path.lemma_bare();
        ParamBinding::lemma_bare_list(self.param_bindings);
        self.kind.lemma_bare();
    }
}

impl AssertBody {
    proof fn lemma_bare_tree(self)
        ensures
            self.to_term(Reading::SpanFree) == bare(self.to_term(Reading::Exact)),
    {
        broadcast use bare_nodes;

        match self {
            AssertBody::Expr(value) => {
                value.lemma_bare_tree();
            },
            AssertBody::Tolerance { actual, expected, tolerance } => {
                actual.lemma_bare_tree();
                expected.lemma_bare_tree();
                tolerance.lemma_bare_tree();
            },
        }
    }
}

impl AssertDecl {
    proof fn lemma_bare_tree(self)
        ensures
            self.to_term(Reading::SpanFree) == bare(self.to_term(Reading::Exact)),
    {
        broadcast use bare_nodes;

        self.visibility.lemma_bare();
        self.name.lemma_bare();
        self.body.lemma_bare_tree();
    }
}

impl PlotField {
    proof fn lemma_bare_tree(self)
        ensures
            self.to_term(Reading::SpanFree) == bare(self.to_term(Reading::Exact)),
    {
        broadcast use bare_nodes;

        self.name.lemma_bare();
        self.value.lemma_bare_tree();
    }

    proof fn lemma_bare_list(v: Vec<PlotField>)
        ensures
            Term::List(PlotField::terms(v, Reading::SpanFree)) == bare(
                Term::List(PlotField::terms(v, Reading::Exact))
            ),
            PlotField::terms(v, Reading::SpanFree) == bare_all(PlotField::terms(v, Reading::Exact)),
    {
        assert forall|i: int| 0 <= i < v.len() implies (#[trigger] v[i]).to_term(Reading::SpanFree) == bare(
            v[i].to_term(Reading::Exact),
        ) by {
            v[i].lemma_bare_tree();
        }
        assert(PlotField::terms(v, Reading::SpanFree) =~= bare_all(PlotField::terms(v, Reading::Exact)));
    }
}

impl Encoding {
    proof fn lemma_bare_tree(self)
        ensures
            self.to_term(Reading::SpanFree) == bare(self.to_term(Reading::Exact)),
    {
        broadcast use bare_nodes;

        self.channel.lemma_bare();
        self.value.lemma_bare_tree();
    }

    proof fn lemma_bare_list(v: Vec<Encoding>)
        ensures
            Term::List(Encoding::terms(v, Reading::SpanFree)) == bare(Term::List(Encoding::terms(v, Reading::Exact))),
            Encoding::terms(v, Reading::SpanFree) == bare_all(Encoding::terms(v, Reading::Exact)),
    {
        assert forall|i: int| 0 <= i < v.len() implies (#[trigger] v[i]).to_term(Reading::SpanFree) == bare(
            v[i].to_term(Reading::Exact),
        ) by {
            v[i].lemma_bare_tree();
        }
        assert(Encoding::terms(v, Reading::SpanFree) =~= bare_all(Encoding::terms(v, Reading::Exact)));
    }
}

impl MarkSpec {
    proof fn lemma_bare_tree(self)
        ensures
            self.to_term(Reading::SpanFree) == bare(self.to_term(Reading::Exact)),
    {
        broadcast use bare_nodes;

        self.mark_type.lemma_bare();
        PlotField::lemma_bare_list(self.properties);
    }
}

impl PlotDecl {
    proof fn lemma_bare_tree(self)
        ensures
            self.to_term(Reading::SpanFree) == bare(self.to_term(Reading::Exact)),
    {
        broadcast use bare_nodes;

        self.visibility.lemma_bare();
        self.name.lemma_bare();
        self.mark.lemma_bare_tree();
        Encoding::lemma_bare_list(self.encodings);
        PlotField::lemma_bare_list(self.properties);
    }
}

impl FigureDecl {
    proof fn lemma_bare_tree(self)
        ensures
            self.to_term(Reading::SpanFree) == bare(self.to_term(Reading::Exact)),
    {
        broadcast use bare_nodes;

        self.visibility.lemma_bare();
        self.name.lemma_bare();
        self.plot_names.lemma_bare();
        PlotField::lemma_bare_list(self.fields);
    }
}

impl LayerDecl {
    proof fn lemma_bare_tree(self)
        ensures
            self.to_term(Reading::SpanFree) == bare(self.to_term(Reading::Exact)),
    {
        broadcast use bare_nodes;

        self.visibility.lemma_bare();
        self.name.lemma_bare();
        self.plot_names.lemma_bare();
        PlotField::lemma_bare_list(self.fields);
    }
}

impl ExternFnParam {
    proof fn lemma_bare_tree(self)
        ensures
            self.to_term(Reading::SpanFree) == bare(self.to_term(Reading::Exact)),
    {
        broadcast use bare_nodes;

        self.name.lemma_bare();
        self.type_ann.lemma_bare_tree();
    }

    proof fn lemma_bare_list(v: Vec<ExternFnParam>)
        ensures
            Term::List(ExternFnParam::terms(v, Reading::SpanFree)) == bare(
                Term::List(ExternFnParam::terms(v, Reading::Exact))
            ),
            ExternFnParam::terms(v, Reading::SpanFree) == bare_all(ExternFnParam::terms(v, Reading::Exact)),
    {
        assert forall|i: int| 0 <= i < v.len() implies (#[trigger] v[i]).to_term(Reading::SpanFree) == bare(
            v[i].to_term(Reading::Exact),
        ) by {
            v[i].lemma_bare_tree();
        }
        assert(ExternFnParam::terms(v, Reading::SpanFree) =~= bare_all(ExternFnParam::terms(v, Reading::Exact)));
    }
}

impl ExternFnDecl {
    proof fn lemma_bare_tree(self)
        ensures
            self.to_term(Reading::SpanFree) == bare(self.to_term(Reading::Exact)),
    {
        broadcast use bare_nodes;

        self.name.lemma_bare();
        self.generics.lemma_bare();
        ExternFnParam::lemma_bare_list(self.params);
        self.result.lemma_bare_tree();
    }

    proof fn lemma_bare_list(v: Vec<ExternFnDecl>)
        ensures
            Term::List(ExternFnDecl::terms(v, Reading::SpanFree)) == bare(
                Term::List(ExternFnDecl::terms(v, Reading::Exact))
            ),
            ExternFnDecl::terms(v, Reading::SpanFree) == bare_all(ExternFnDecl::terms(v, Reading::Exact)),
    {
        assert forall|i: int| 0 <= i < v.len() implies (#[trigger] v[i]).to_term(Reading::SpanFree) == bare(
            v[i].to_term(Reading::Exact),
        ) by {
            v[i].lemma_bare_tree();
        }
        assert(ExternFnDecl::terms(v, Reading::SpanFree) =~= bare_all(ExternFnDecl::terms(v, Reading::Exact)));
    }
}

impl PluginImportDecl {
    proof fn lemma_bare_tree(self)
        ensures
            self.to_term(Reading::SpanFree) == bare(self.to_term(Reading::Exact)),
    {
        broadcast use bare_nodes;

        self.path.lemma_bare();
        self.alias.lemma_bare();
        ExternFnDecl::lemma_bare_list(self.functions);
    }
}

impl MultiDeclSlot {
    proof fn lemma_bare_tree(self)
        ensures
            self.to_term(Reading::SpanFree) == bare(self.to_term(Reading::Exact)),
    {
        broadcast use bare_nodes;

        self.visibility.lemma_bare();
        self.kind.lemma_bare();
        self.name.lemma_bare();
        self.type_ann.lemma_bare_tree();
    }

    proof fn lemma_bare_list(v: Vec<MultiDeclSlot>)
        ensures
            Term::List(MultiDeclSlot::terms(v, Reading::SpanFree)) == bare(
                Term::List(MultiDeclSlot::terms(v, Reading::Exact))
            ),
            MultiDeclSlot::terms(v, Reading::SpanFree) == bare_all(MultiDeclSlot::terms(v, Reading::Exact)),
    {
        assert forall|i: int| 0 <= i < v.len() implies (#[trigger] v[i]).to_term(Reading::SpanFree) == bare(
            v[i].to_term(Reading::Exact),
        ) by {
            v[i].lemma_bare_tree();
        }
        assert(MultiDeclSlot::terms(v, Reading::SpanFree) =~= bare_all(MultiDeclSlot::terms(v, Reading::Exact)));
    }
}

impl MultiDataRow {
    proof fn lemma_bare_tree(self)
        ensures
            self.to_term(Reading::SpanFree) == bare(self.to_term(Reading::Exact)),
    {
        broadcast use bare_nodes;

        self.label.lemma_bare();
        Expr::lemma_bare_list(self.values);
    }

    proof fn lemma_bare_list(v: Vec<MultiDataRow>)
        ensures
            Term::List(MultiDataRow::terms(v, Reading::SpanFree)) == bare(
                Term::List(MultiDataRow::terms(v, Reading::Exact))
            ),
            MultiDataRow::terms(v, Reading::SpanFree) == bare_all(MultiDataRow::terms(v, Reading::Exact)),
    {
        assert forall|i: int| 0 <= i < v.len() implies (#[trigger] v[i]).to_term(Reading::SpanFree) == bare(
            v[i].to_term(Reading::Exact),
        ) by {
            v[i].lemma_bare_tree();
        }
        assert(MultiDataRow::terms(v, Reading::SpanFree) =~= bare_all(MultiDataRow::terms(v, Reading::Exact)));
    }
}

impl MultiDeclSlice {
    proof fn lemma_bare_tree(self)
        ensures
            self.to_term(Reading::SpanFree) == bare(self.to_term(Reading::Exact)),
    {
        broadcast use bare_nodes;

        MapEntryKey::lemma_bare_list(self.prefix_keys);
        self.header_cells.lemma_bare();
        self.column_layout.lemma_bare();
        MultiDataRow::lemma_bare_list(self.rows);
    }

    proof fn lemma_bare_list(v: Vec<MultiDeclSlice>)
        ensures
            Term::List(MultiDeclSlice::terms(v, Reading::SpanFree)) == bare(
                Term::List(MultiDeclSlice::terms(v, Reading::Exact))
            ),
            MultiDeclSlice::terms(v, Reading::SpanFree) == bare_all(MultiDeclSlice::terms(v, Reading::Exact)),
    {
        assert forall|i: int| 0 <= i < v.len() implies (#[trigger] v[i]).to_term(Reading::SpanFree) == bare(
            v[i].to_term(Reading::Exact),
        ) by {
            v[i].lemma_bare_tree();
        }
        assert(MultiDeclSlice::terms(v, Reading::SpanFree) =~= bare_all(MultiDeclSlice::terms(v, Reading::Exact)));
    }
}

impl MultiDecl {
    proof fn lemma_bare_tree(self)
        ensures
            self.to_term(Reading::SpanFree) == bare(self.to_term(Reading::Exact)),
    {
        broadcast use bare_nodes;

        MultiDeclSlot::lemma_bare_list(self.slots);
        self.shared_axes.lemma_bare();
        self.slot_axes.lemma_bare();
        MultiDeclSlice::lemma_bare_list(self.slices);
    }
}

impl RawDeclSugar {
    proof fn lemma_bare_tree(self)
        ensures
            self.to_term(Reading::SpanFree) == bare(self.to_term(Reading::Exact)),
    {
        broadcast use bare_nodes;

        match self {
            RawDeclSugar::Multi(value) => {
                value.lemma_bare_tree();
            },
        }
    }
}

impl DagDecl {
    proof fn lemma_bare_tree(self)
        ensures
            self.to_term(Reading::SpanFree) == bare(self.to_term(Reading::Exact)),
        decreases self,
    {
        broadcast use bare_nodes;

        self.visibility.lemma_bare();
        self.name.lemma_bare();
        Declaration::lemma_bare_list(self.body);
    }
}

impl DeclKind {
    proof fn lemma_bare_tree(self)
        ensures
            self.to_term(Reading::SpanFree) == bare(self.to_term(Reading::Exact)),
        decreases self,
    {
        broadcast use bare_nodes;

        match self {
            DeclKind::Param(value) => {
                value.lemma_bare_tree();
            },
            DeclKind::Node(value) => {
                value.lemma_bare_tree();
            },
            DeclKind::ConstNode(value) => {
                value.lemma_bare_tree();
            },
            DeclKind::BaseDimension(value) => {
                value.lemma_bare();
            },
            DeclKind::Dimension(value) => {
                value.lemma_bare();
            },
            DeclKind::Unit(value) => {
                value.lemma_bare_tree();
            },
            DeclKind::Type(value) => {
                value.lemma_bare_tree();
            },
            DeclKind::Index(value) => {
                value.lemma_bare_tree();
            },
            DeclKind::Import(value) => {
                value.lemma_bare();
            },
            DeclKind::PluginImport(value) => {
                value.lemma_bare_tree();
            },
            DeclKind::Include(value) => {
                value.lemma_bare_tree();
            },
            DeclKind::Dag(value) => {
                value.lemma_bare_tree();
            },
            DeclKind::Assert(value) => {
                value.lemma_bare_tree();
            },
            DeclKind::Plot(value) => {
                value.lemma_bare_tree();
            },
            DeclKind::Figure(value) => {
                value.lemma_bare_tree();
            },
            DeclKind::Layer(value) => {
                value.lemma_bare_tree();
            },
            DeclKind::Sugar(value) => {
                value.lemma_bare_tree();
            },
        }
    }
}

impl Declaration {
    proof fn lemma_bare_tree(self)
        ensures
            self.to_term(Reading::SpanFree) == bare(self.to_term(Reading::Exact)),
        decreases self,
    {
        broadcast use bare_nodes;

        self.attributes.lemma_bare();
        self.kind.lemma_bare_tree();
    }

    proof fn lemma_bare_list(v: Vec<Declaration>)
        ensures
            Term::List(Declaration::terms(v, Reading::SpanFree)) == bare(
                Term::List(Declaration::terms(v, Reading::Exact))
            ),
            Declaration::terms(v, Reading::SpanFree) == bare_all(Declaration::terms(v, Reading::Exact)),
        decreases v,
    {
        assert forall|i: int| 0 <= i < v.len() implies (#[trigger] v[i]).to_term(Reading::SpanFree) == bare(
            v[i].to_term(Reading::Exact),
        ) by {
            v[i].lemma_bare_tree();
        }
        assert(Declaration::terms(v, Reading::SpanFree) =~= bare_all(Declaration::terms(v, Reading::Exact)));
    }
}

impl File {
    pub proof fn lemma_bare_tree(self)
        ensures
            self.to_term(Reading::SpanFree) == bare(self.to_term(Reading::Exact)),
    {
        broadcast use bare_nodes;

        Declaration::lemma_bare_list(self.declarations);
    }
}

/// Two files are equivalent exactly where they are the same but for positions
/// and the order of table entries.
pub proof fn law_equivalence_ignores_only_positions(a: File, b: File)
    ensures
        (a.to_term(Reading::SpanFree) == b.to_term(Reading::SpanFree)) == (bare(a.to_term(Reading::Exact)) == bare(
            b.to_term(Reading::Exact),
        )),
{
    a.lemma_bare_tree();
    b.lemma_bare_tree();
}

/// As `law_equivalence_ignores_only_positions`, for expressions.
pub proof fn law_expression_equivalence_ignores_only_positions(a: Expr, b: Expr)
    ensures
        (a.to_term(Reading::SpanFree) == b.to_term(Reading::SpanFree)) == (bare(a.to_term(Reading::Exact)) == bare(
            b.to_term(Reading::Exact),
        )),
{
    a.lemma_bare_tree();
    b.lemma_bare_tree();
}

} // verus!
