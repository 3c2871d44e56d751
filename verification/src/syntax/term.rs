//! A uniform mathematical model of syntax trees.
//!
//! Every syntax node has a *term*: a tag over the terms of its parts. Contracts
//! about trees compare terms, so they speak of the whole tree at once and do
//! not depend on how its vectors are allocated.

use crate::hir::tree::{BuiltinConst, BuiltinFnName, TimeScale};
use crate::syntax::ast::{
    BinOp, BindableVisibility, DomainBoundKind, EncodingChannel, GenericConstraint, ImportItemNamespace, KeyFormKind,
    MarkType, MulDivOp, MultiSlotKind, UnaryOp, UnitConstness, Visibility,
};
use crate::syntax::non_empty::NonEmpty;
use crate::syntax::span::{Span, Spanned};
use vstd::multiset::Multiset;
use vstd::prelude::*;

verus! {

/// The kind of a syntax node.
#[derive(Clone, Copy, Debug, PartialEq, Eq, Structural)]
pub enum Tag {
    Ident,
    IdentPath,
    Attribute,
    AttributeArgPath,
    AttributeArgFinitePosition,
    AttributeArgGroup,
    ImportSelective,
    ImportModule,
    ModulePath,
    ImportItem,
    ImportDecl,
    BaseDimDecl,
    DimDecl,
    DimExpr,
    DimExprItem,
    DimTerm,
    UnitExpr,
    UnitExprItem,
    TableIndexSpecNamed,
    TableIndexSpecFinite,
    NatExprLiteral,
    NatExprVar,
    NatExprAdd,
    NatExprMul,
    AmbiguousGenericArgName,
    AmbiguousGenericArgMul,
    IndexExprName,
    IndexExprFinite,
    IndexExprBareNat,
    ForBindingIndexNamed,
    ForBindingIndexFinite,
    ForBinding,
    PatternBindingBind,
    PatternBindingWildcard,
    MatchPatternPath,
    MatchPatternConstructor,
    MatchPatternIndexLabel,
    MapKeyAxisSyntaxExplicit,
    MapKeyAxisSyntaxContextual,
    MultiDeclSharedAxes,
    MultiSlotAxisUnderscore,
    MultiSlotAxisAxis,
    MultiSlotColumnSpanSingle,
    MultiSlotColumnSpanRange,
    MultiHeaderCellUnderscore,
    MultiHeaderCellVariant,
    ExternGenericBinderDim,
    ExternGenericBinderIndex,
    Expr,
    ExprNumber,
    ExprInteger,
    ExprBool,
    ExprStringLiteral,
    ExprGraphRef,
    ExprBinOp,
    ExprUnaryOp,
    ExprFnCall,
    ExprIf,
    ExprQuantityLiteral,
    ExprConvert,
    ExprDisplayTimezone,
    ExprFieldAccess,
    ExprConstructorCall,
    ExprMapLiteral,
    ExprForComp,
    ExprIndexAccess,
    ExprScan,
    ExprUnfold,
    ExprKeyForm,
    ExprMatch,
    ExprInlineDagRef,
    ExprUnresolvedRef,
    TableLiteral,
    MapEntry,
    MapEntryKeyDiscrete,
    MapEntryKeyExpression,
    IndexArgVariant,
    IndexArgVar,
    IndexArgExpr,
    FieldInit,
    MatchArm,
    ParamBinding,
    TypeExpr,
    TypeExprDimensionless,
    TypeExprBool,
    TypeExprInt,
    TypeExprDatetime,
    TypeExprDatetimeApplication,
    TypeExprComplexApplication,
    TypeExprKeyApplication,
    TypeExprDimExpr,
    TypeExprIndexed,
    TypeExprTypeApplication,
    DomainBound,
    GenericArgType,
    GenericArgIndex,
    GenericArgNat,
    GenericArgAmbiguous,
    ParamDecl,
    ValueDecl,
    UnitDef,
    UnitDecl,
    FieldDecl,
    UnionMember,
    TypeDeclBodyRequired,
    TypeDeclBodyConstructors,
    GenericParam,
    TypeDecl,
    IndexDeclNamed,
    IndexDeclRange,
    IndexDeclLinspace,
    IndexDeclRequiredNamed,
    IndexDeclRequiredCoordinate,
    IndexDecl,
    IncludeDecl,
    AssertBodyExpr,
    AssertBodyTolerance,
    AssertDecl,
    PlotField,
    Encoding,
    MarkSpec,
    PlotDecl,
    FigureDecl,
    LayerDecl,
    ExternFnParam,
    ExternFnDecl,
    PluginImportDecl,
    MultiDeclSlot,
    MultiDataRow,
    MultiDeclSlice,
    MultiDecl,
    RawDeclSugarMulti,
    DagDecl,
    DeclParam,
    DeclNode,
    DeclConstNode,
    DeclBaseDimension,
    DeclDimension,
    DeclUnit,
    DeclType,
    DeclIndex,
    DeclImport,
    DeclPluginImport,
    DeclInclude,
    DeclDag,
    DeclAssert,
    DeclPlot,
    DeclFigure,
    DeclLayer,
    Declaration,
    File,
    HirDagId,
    HirResolvedDeclName,
    HirResolvedIndexName,
    HirResolvedConstructorName,
    HirResolvedStructTypeName,
    HirResolvedDimName,
    HirResolvedUnitName,
    HirResolvedIndexVariant,
    HirGenericParamId,
    HirLocalId,
    HirLocalDef,
    HirIndexVariantRef,
    HirResolvedUnitRef,
    HirResolvedUnitExprItem,
    HirResolvedUnitExpr,
    HirTypeSystemRefType,
    HirTypeSystemRefDimension,
    HirTypeSystemRefIndex,
    HirTypeSystemRefIndexVariant,
    HirConstRefDecl,
    HirConstRefConstructor,
    HirConstRefBuiltin,
    HirConstRefTimeScale,
    HirConstRefGenericNatParam,
    HirExternFnRef,
    HirFunctionRefBuiltin,
    HirFunctionRefEpoch,
    HirFunctionRefExternal,
    HirMapKeyAxisExplicit,
    HirMapKeyAxisContextual,
    HirNatExprLiteral,
    HirNatExprParam,
    HirNatExprAdd,
    HirNatExprMul,
    HirGenericArgNat,
    HirGenericArgIndex,
    HirGenericArgDimension,
    HirGenericArgType,
    HirDimRefNamed,
    HirDimRefParam,
    HirDimExprItem,
    HirDimExpr,
    HirIndexRefParam,
    HirTypeExpr,
    HirTypeDimensionless,
    HirTypeBool,
    HirTypeInt,
    HirTypeDatetime,
    HirTypeDatetimeApplication,
    HirTypeTimeScale,
    HirTypeComplexApplication,
    HirTypeKeyApplication,
    HirTypeQuantity,
    HirTypeStruct,
    HirTypeParam,
    HirTypeIndexed,
    HirForBindingIndexNamed,
    HirForBindingIndexFinite,
    HirForBinding,
    HirPatternBindingBind,
    HirPatternBindingWildcard,
    HirMatchPatternConstructor,
    HirMatchPatternIndexLabel,
    HirUnfoldRecurrence,
    HirCivilDateTimeLiteral,
    HirOffsetDateTimeLiteral,
    HirIanaTimeZoneId,
    HirZonedDateTimeLiteral,
    HirExpr,
    HirExprError,
    HirExprNumber,
    HirExprInteger,
    HirExprBool,
    HirExprStringLiteral,
    HirExprOffsetDateTimeLiteral,
    HirExprCivilDateTimeLiteral,
    HirExprZonedDateTimeLiteral,
    HirExprIanaTimeZoneLiteral,
    HirExprTypeSystemRef,
    HirExprGraphRef,
    HirExprConstRef,
    HirExprLocalRef,
    HirExprBinOp,
    HirExprUnaryOp,
    HirExprFnCall,
    HirExprIf,
    HirExprQuantityLiteral,
    HirExprConvert,
    HirExprDisplayTimezone,
    HirExprFieldAccess,
    HirExprConstructorCall,
    HirExprMapLiteral,
    HirExprForComp,
    HirExprIndexAccess,
    HirExprScan,
    HirExprUnfold,
    HirExprKeyForm,
    HirExprMatch,
    HirExprVariantLiteral,
    HirExprDagCall,
    HirFieldInit,
    HirParamBinding,
    HirMapEntry,
    HirMapEntryKeyIndexVariant,
    HirMapEntryKeyFinitePosition,
    HirMapEntryKeyExpression,
    HirIndexArgVariant,
    HirIndexArgVar,
    HirIndexArgExpr,
    HirMatchArm,
    HirAssertBodyExpr,
    HirAssertBodyTolerance,
    ScopedName,
    UnitRef,
    MapEntryIndexNamed,
    MapEntryIndexFinite,
    IndexEntryKeyNamed,
    IndexEntryKeyPosition,
    UnexpectedToken,
    UnexpectedEof,
    UnknownToken,
    TooDeeplyNested,
    InvalidNumber,
    UnitReferenceTooDeep,
    DuplicateDagBinding,
    InlineDagCallMissingProjection,
    ExpectedIndexFoundNat,
    TableRowLengthMismatch,
    MultiDeclTupleArity,
    MultiDeclSingleSlot,
    MultiDeclNoSharedAxis,
    MultiDeclUnsupportedShape,
    MultiDeclHeaderArity,
    MultiDeclRowArity,
    VariantPath,
    UnknownModule,
    UnknownModuleAlias,
    UnknownName,
    PrivateName,
    UnknownIndexVariant,
    AmbiguousIndexVariant,
    NotConst,
    DuplicateModule,
    ExpectOffsetDateTime,
    ExpectZonedCivilDateTime,
    ExpectEpoch,
    LowerModuleResolve,
    LowerUnknownNatParam,
    LowerExpectedIndexFoundNat,
    LowerGenericArgCount,
    LowerGenericArgMismatch,
    LowerUnknownLocalRef,
    LowerUnknownGraphRef,
    LowerTooManyLocals,
    LowerInvalidMapEntryKey,
    LowerExtraMapVariant,
    LowerDuplicateLocalBinding,
    LowerUnknownFunction,
    LowerUnknownExternFunction,
    LowerNamedArgumentsOnFunction,
    LowerUnsupportedFunctionGenericArgs,
    LowerWrongArity,
    LowerInvalidTimezone,
    LowerEpochTimeScaleArgumentCount,
    LowerInvalidEpochTimeScaleArgument,
    LowerUnsupportedEpochTimeScale,
    LowerInvalidDatetimeLiteral,
    LowerNonexistentCivilDateTime,
    LowerRepeatedCivilDateTime,
    LowerTimeZoneRegistryInvariant,
    LowerUnknownUnit,
    LowerUnknownPattern,
}

/// A value of one of the plain enumerations.
pub enum Symbol {
    UnaryOp(UnaryOp),
    MulDivOp(MulDivOp),
    Visibility(Visibility),
    BindableVisibility(BindableVisibility),
    UnitConstness(UnitConstness),
    MarkType(MarkType),
    EncodingChannel(EncodingChannel),
    MultiSlotKind(MultiSlotKind),
    GenericConstraint(GenericConstraint),
    DomainBoundKind(DomainBoundKind),
    ImportItemNamespace(ImportItemNamespace),
    KeyFormKind(KeyFormKind),
    BinOp(BinOp),
    BuiltinConst(BuiltinConst),
    TimeScale(TimeScale),
    BuiltinFnName(BuiltinFnName),
}

/// The mathematical value of a syntax tree.
pub enum Term {
    Absent,
    Flag(bool),
    Int(int),
    Text(Seq<char>),
    At(Span),
    Symbol(Symbol),
    Present(Box<Term>),
    List(Seq<Term>),
    Pair(Box<Term>, Box<Term>),
    Node(Tag, Box<Term>),
}

/// Whether source positions are part of a term.
pub enum Spans {
    Kept,
    Dropped,
}

/// How a raw tree is read.
pub enum Reading {
    /// Everything counts.
    Exact,
    /// Positions do not count, nor does the order of a table's entries.
    SpanFree,
    /// A table literal stands for the map literal with the same entries.
    Desugared,
}

impl Reading {
    pub open spec fn of(s: Spans) -> Reading {
        match s {
            Spans::Kept => Reading::Exact,
            Spans::Dropped => Reading::SpanFree,
        }
    }

    pub open spec fn spans(self) -> Spans {
        match self {
            Reading::SpanFree => Spans::Dropped,
            _ => Spans::Kept,
        }
    }
}

/// Types whose values have a term.
pub trait Syntax {
    spec fn term(&self, s: Spans) -> Term;
}

/// Types whose values can be copied without changing their term.
pub trait DeepClone: Syntax + Sized {
    fn deep_clone(&self) -> (r: Self)
        ensures
            r.term(Spans::Kept) == self.term(Spans::Kept),
    ;
}

pub open spec fn pair(a: Term, b: Term) -> Term {
    Term::Pair(Box::new(a), Box::new(b))
}

pub open spec fn present(a: Term) -> Term {
    Term::Present(Box::new(a))
}

pub open spec fn node0(tag: Tag) -> Term {
    Term::Node(tag, Box::new(Term::Absent))
}

pub open spec fn node1(tag: Tag, a: Term) -> Term {
    Term::Node(tag, Box::new(a))
}

pub open spec fn node2(tag: Tag, a: Term, b: Term) -> Term {
    Term::Node(tag, Box::new(pair(a, b)))
}

pub open spec fn node3(tag: Tag, a: Term, b: Term, c: Term) -> Term {
    Term::Node(tag, Box::new(pair(a, pair(b, c))))
}

pub open spec fn node4(tag: Tag, a: Term, b: Term, c: Term, d: Term) -> Term {
    Term::Node(tag, Box::new(pair(a, pair(b, pair(c, d)))))
}

pub open spec fn node5(tag: Tag, a: Term, b: Term, c: Term, d: Term, e: Term) -> Term {
    Term::Node(tag, Box::new(pair(a, pair(b, pair(c, pair(d, e))))))
}

pub open spec fn node6(tag: Tag, a: Term, b: Term, c: Term, d: Term, e: Term, f: Term) -> Term {
    Term::Node(tag, Box::new(pair(a, pair(b, pair(c, pair(d, pair(e, f)))))))
}

pub open spec fn node7(tag: Tag, a: Term, b: Term, c: Term, d: Term, e: Term, f: Term, g: Term) -> Term {
    Term::Node(tag, Box::new(pair(a, pair(b, pair(c, pair(d, pair(e, pair(f, g))))))))
}

/// A position, where positions count.
pub open spec fn at(s: Spans, span: Span) -> Term {
    match s {
        Spans::Kept => Term::At(span),
        Spans::Dropped => Term::Absent,
    }
}

/// A list of positions, where positions count.
pub open spec fn marks(s: Spans, spans: Seq<Span>) -> Term {
    match s {
        Spans::Kept => Term::List(spans.map_values(|span: Span| Term::At(span))),
        Spans::Dropped => Term::Absent,
    }
}

/// The sequence that starts with `first` and goes on with `rest`.
pub open spec fn prepend(first: Term, rest: Seq<Term>) -> Seq<Term> {
    seq![first] + rest
}

pub proof fn lemma_prepend(a: Term, s: Seq<Term>, b: Term, t: Seq<Term>)
    ensures
        (prepend(a, s) == prepend(b, t)) == (a == b && s == t),
{
    if prepend(a, s) == prepend(b, t) {
        assert(prepend(a, s)[0] == a);
        assert(prepend(b, t)[0] == b);
        assert(s =~= prepend(a, s).subrange(1, prepend(a, s).len() as int));
        assert(t =~= prepend(b, t).subrange(1, prepend(b, t).len() as int));
    }
}

/// One sequence per multiset of terms: the same for every arrangement.
pub open spec fn arrangement(m: Multiset<Term>) -> Seq<Term> {
    choose|t: Seq<Term>| #[trigger] t.to_multiset() == m
}

/// The sequence that stands for `s` and for all its rearrangements.
pub open spec fn canonical(s: Seq<Term>) -> Seq<Term> {
    arrangement(s.to_multiset())
}

/// Two sequences have the same canonical form exactly when each is a
/// rearrangement of the other.
pub proof fn lemma_canonical(s: Seq<Term>, t: Seq<Term>)
    ensures
        (canonical(s) == canonical(t)) == (s.to_multiset() == t.to_multiset()),
{
    assert(canonical(s).to_multiset() == s.to_multiset());
    assert(canonical(t).to_multiset() == t.to_multiset());
}

impl Syntax for bool {
    open spec fn term(&self, s: Spans) -> Term {
        Term::Flag(*self)
    }
}

impl Syntax for i8 {
    open spec fn term(&self, s: Spans) -> Term {
        Term::Int(*self as int)
    }
}

impl Syntax for i16 {
    open spec fn term(&self, s: Spans) -> Term {
        Term::Int(*self as int)
    }
}

impl Syntax for i32 {
    open spec fn term(&self, s: Spans) -> Term {
        Term::Int(*self as int)
    }
}

impl Syntax for i64 {
    open spec fn term(&self, s: Spans) -> Term {
        Term::Int(*self as int)
    }
}

impl Syntax for u64 {
    open spec fn term(&self, s: Spans) -> Term {
        Term::Int(*self as int)
    }
}

impl Syntax for usize {
    open spec fn term(&self, s: Spans) -> Term {
        Term::Int(*self as int)
    }
}

impl Syntax for Span {
    open spec fn term(&self, s: Spans) -> Term {
        at(s, *self)
    }
}

impl Syntax for String {
    open spec fn term(&self, s: Spans) -> Term {
        Term::Text(self@)
    }
}

impl<T: Syntax> Syntax for Box<T> {
    open spec fn term(&self, s: Spans) -> Term {
        (**self).term(s)
    }
}

impl<T: Syntax> Syntax for Option<T> {
    open spec fn term(&self, s: Spans) -> Term {
        match *self {
            Some(x) => present(x.term(s)),
            None => Term::Absent,
        }
    }
}

/// The terms of the items of a sequence.
pub open spec fn seq_terms<T: Syntax>(items: Seq<T>, s: Spans) -> Seq<Term> {
    Seq::new(items.len(), |i: int| items[i].term(s))
}

impl<T: Syntax> Syntax for Vec<T> {
    open spec fn term(&self, s: Spans) -> Term {
        Term::List(seq_terms(self@, s))
    }
}

impl<T: Syntax> Syntax for NonEmpty<T> {
    open spec fn term(&self, s: Spans) -> Term {
        Term::List(prepend(self.first.term(s), seq_terms(self.rest@, s)))
    }
}

impl<T: Syntax> Syntax for Spanned<T> {
    open spec fn term(&self, s: Spans) -> Term {
        pair(self.value.term(s), at(s, self.span))
    }
}

} // verus!
