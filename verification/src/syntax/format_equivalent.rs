//! Equality of syntax trees up to formatting.
//!
//! Two trees are equivalent when they are equal once every source position is
//! left out. Inside a table literal the order of the entries does not count
//! either: the entries are compared as a multiset.

use crate::exact_rational::ExactRational;
use crate::syntax::ast::{
    AmbiguousGenericArg, AssertBody, AssertDecl, Attribute, AttributeArg, BaseDimDecl, BinOp, BindableVisibility,
    DagDecl, DeclKind, Declaration, DimDecl, DimExpr, DimExprItem, DimTerm, DomainBound, DomainBoundKind, Encoding,
    EncodingChannel, Expr, ExprKind, ExternFnDecl, ExternFnParam, ExternGenericBinder, FieldDecl, FieldInit,
    FigureDecl, File, FloatBits, ForBinding, ForBindingIndex, GenericArg, GenericConstraint, GenericParam, Ident,
    IdentPath, ImportDecl, ImportItem, ImportItemNamespace, ImportKind, IncludeDecl, IndexArg, IndexDecl,
    IndexDeclKind, IndexEntryKey, IndexExpr, KeyFormKind, LayerDecl, MapEntry, MapEntryIndex, MapEntryKey,
    MapKeyAxisSyntax, MarkSpec, MarkType, MatchArm, MatchPattern, ModulePath, MulDivOp, MultiDataRow, MultiDecl,
    MultiDeclSharedAxes, MultiDeclSlice, MultiDeclSlot, MultiHeaderCell, MultiSlotAxis, MultiSlotColumnSpan,
    MultiSlotKind, NamePath, NatExpr, ParamBinding, ParamDecl, PatternBinding, PlotDecl, PlotField, PluginImportDecl,
    PluginPath, RawDeclSugar, RawExprSugar, ScopedName, TableIndexSpec, TypeDecl, TypeDeclBody, TypeExpr,
    TypeExprKind, UnaryOp, UnionMember, UnitConstness, UnitDecl, UnitDef, UnitExpr, UnitExprItem, UnitRef,
    UnresolvedRef, ValueDecl, Visibility,
};
use crate::syntax::key_index::{
    before, distinct_keys, entry_hash, hash_of_entry, key_terms, leads, lemma_entry_hash, KeyIndex,
};
use crate::syntax::non_empty::NonEmpty;
use crate::syntax::span::Spanned;
use crate::syntax::term::{
    Reading, Spans, Syntax, Term, canonical, lemma_canonical, lemma_prepend, pair, prepend, seq_terms,
};
use vstd::multiset::Multiset;
use vstd::prelude::*;

verus! {

/// Equality up to formatting.
pub trait FormatEquivalent: Syntax {
    fn format_equivalent(&self, other: &Self) -> (r: bool)
        ensures
            r == (self.term(Spans::Dropped) == other.term(Spans::Dropped)),
    ;
}

impl FormatEquivalent for bool {
    fn format_equivalent(&self, other: &Self) -> (r: bool) {
        *self == *other
    }
}

impl FormatEquivalent for i64 {
    fn format_equivalent(&self, other: &Self) -> (r: bool) {
        *self == *other
    }
}

impl FormatEquivalent for u64 {
    fn format_equivalent(&self, other: &Self) -> (r: bool) {
        *self == *other
    }
}

impl FormatEquivalent for usize {
    fn format_equivalent(&self, other: &Self) -> (r: bool) {
        *self == *other
    }
}

impl FormatEquivalent for String {
    fn format_equivalent(&self, other: &Self) -> (r: bool) {
        *self == *other
    }
}

impl<T: FormatEquivalent> FormatEquivalent for Box<T> {
    fn format_equivalent(&self, other: &Self) -> (r: bool) {
        (**self).format_equivalent(&**other)
    }
}

impl<T: FormatEquivalent> FormatEquivalent for Option<T> {
    fn format_equivalent(&self, other: &Self) -> (r: bool) {
        match (self, other) {
            (Some(a), Some(b)) => a.format_equivalent(b),
            (None, None) => true,
            _ => false,
        }
    }
}

impl<T: FormatEquivalent> FormatEquivalent for Vec<T> {
    fn format_equivalent(&self, other: &Self) -> (r: bool) {
        let ghost mine = seq_terms(self@, Spans::Dropped);
        let ghost theirs = seq_terms(other@, Spans::Dropped);
        if self.len() != other.len() {
            assert(mine.len() != theirs.len());
            return false;
        }
        for i in 0..self.len()
            invariant
                self.len() == other.len(),
                mine == seq_terms(self@, Spans::Dropped),
                theirs == seq_terms(other@, Spans::Dropped),
                forall|j: int| 0 <= j < i ==> mine[j] == theirs[j],
        {
            if !self[i].format_equivalent(&other[i]) {
                assert(mine[i as int] != theirs[i as int]);
                return false;
            }
        }
        assert(mine =~= theirs);
        true
    }
}

impl<T: FormatEquivalent> FormatEquivalent for NonEmpty<T> {
    fn format_equivalent(&self, other: &Self) -> (r: bool) {
        proof {
            lemma_prepend(
                self.first.term(Spans::Dropped),
                seq_terms(self.rest@, Spans::Dropped),
                other.first.term(Spans::Dropped),
                seq_terms(other.rest@, Spans::Dropped),
            );
        }
        self.first.format_equivalent(&other.first) && self.rest.format_equivalent(&other.rest)
    }
}

impl<T: FormatEquivalent> FormatEquivalent for Spanned<T> {
    fn format_equivalent(&self, other: &Self) -> (r: bool) {
        self.value.format_equivalent(&other.value)
    }
}

impl FormatEquivalent for FloatBits {
    fn format_equivalent(&self, other: &Self) -> (r: bool) {
        self.bits == other.bits
    }
}

impl FormatEquivalent for NamePath {
    fn format_equivalent(&self, other: &Self) -> (r: bool) {
        self.segments.format_equivalent(&other.segments)
    }
}

impl FormatEquivalent for ScopedName {
    fn format_equivalent(&self, other: &Self) -> (r: bool) {
        self.qualifier.format_equivalent(&other.qualifier) && self.member.format_equivalent(&other.member)
    }
}

impl FormatEquivalent for UnitRef {
    fn format_equivalent(&self, other: &Self) -> (r: bool) {
        self.qualifier.format_equivalent(&other.qualifier) && self.name.format_equivalent(&other.name)
    }
}

impl FormatEquivalent for PluginPath {
    fn format_equivalent(&self, other: &Self) -> (r: bool) {
        self.text == other.text
    }
}

impl FormatEquivalent for MapEntryIndex {
    fn format_equivalent(&self, other: &Self) -> (r: bool) {
        match (self, other) {
            (MapEntryIndex::Named(a), MapEntryIndex::Named(b)) => a.format_equivalent(b),
            (MapEntryIndex::Finite(a), MapEntryIndex::Finite(b)) => *a == *b,
            _ => false,
        }
    }
}

impl FormatEquivalent for IndexEntryKey {
    fn format_equivalent(&self, other: &Self) -> (r: bool) {
        match (self, other) {
            (IndexEntryKey::Named(a), IndexEntryKey::Named(b)) => a.format_equivalent(b),
            (IndexEntryKey::Position(a), IndexEntryKey::Position(b)) => *a == *b,
            _ => false,
        }
    }
}

impl Syntax for ExactRational {
    open spec fn term(&self, s: Spans) -> Term {
        pair(Term::Int(self.numerator as int), Term::Int(self.denominator as int))
    }
}

impl FormatEquivalent for ExactRational {
    fn format_equivalent(&self, other: &Self) -> (r: bool) {
        self.numerator == other.numerator && self.denominator == other.denominator
    }
}

/// The terms in `b` whose flag in `flags` is set.
pub open spec fn taken(b: Seq<Term>, flags: Seq<bool>) -> Multiset<Term>
    decreases b.len(),
{
    if b.len() == 0 || flags.len() != b.len() {
        Multiset::empty()
    } else {
        let before = taken(b.drop_last(), flags.drop_last());
        if flags.last() { before.insert(b.last()) } else { before }
    }
}

proof fn lemma_taken_none(b: Seq<Term>, flags: Seq<bool>)
    requires
        b.len() == flags.len(),
        forall|j: int| 0 <= j < flags.len() ==> !flags[j],
    ensures
        taken(b, flags) == Multiset::<Term>::empty(),
    decreases b.len(),
{
    if b.len() > 0 {
        lemma_taken_none(b.drop_last(), flags.drop_last());
    }
}

proof fn lemma_taken_set(b: Seq<Term>, flags: Seq<bool>, j: int)
    requires
        b.len() == flags.len(),
        0 <= j < b.len(),
        !flags[j],
    ensures
        taken(b, flags.update(j, true)) == taken(b, flags).insert(b[j]),
    decreases b.len(),
{
    let set = flags.update(j, true);
    if j == b.len() - 1 {
        assert(set.drop_last() =~= flags.drop_last());
    } else {
        assert(set.drop_last() =~= flags.drop_last().update(j, true));
        lemma_taken_set(b.drop_last(), flags.drop_last(), j);
        let before = taken(b.drop_last(), flags.drop_last());
        if flags.last() {
            assert(before.insert(b[j]).insert(b.last()) =~= before.insert(b.last()).insert(b[j]));
        }
    }
}

proof fn lemma_taken_all(b: Seq<Term>, flags: Seq<bool>)
    requires
        b.len() == flags.len(),
    ensures
        taken(b, flags).len() <= b.len(),
        taken(b, flags).len() == b.len() ==> taken(b, flags) == b.to_multiset(),
    decreases b.len(),
{
    broadcast use vstd::multiset::group_multiset_axioms;
    broadcast use vstd::seq_lib::group_to_multiset_ensures;
    if b.len() > 0 {
        lemma_taken_all(b.drop_last(), flags.drop_last());
        assert(b =~= b.drop_last().push(b.last()));
        assert(b.to_multiset() =~= b.drop_last().to_multiset().insert(b.last()));
    } else {
        assert(b.to_multiset() =~= Multiset::<Term>::empty());
    }
}

proof fn lemma_taken_exhausts(b: Seq<Term>, flags: Seq<bool>, x: Term)
    requires
        b.len() == flags.len(),
        forall|j: int| 0 <= j < b.len() && !flags[j] ==> b[j] != x,
    ensures
        taken(b, flags).count(x) == b.to_multiset().count(x),
    decreases b.len(),
{
    broadcast use vstd::multiset::group_multiset_axioms;
    broadcast use vstd::seq_lib::group_to_multiset_ensures;
    if b.len() > 0 {
        lemma_taken_exhausts(b.drop_last(), flags.drop_last(), x);
        assert(b =~= b.drop_last().push(b.last()));
        assert(b.to_multiset() =~= b.drop_last().to_multiset().insert(b.last()));
    }
}

/// A prefix of a sequence holds no item more often than the sequence.
proof fn lemma_prefix_count(a: Seq<Term>, n: int, x: Term)
    requires
        0 <= n <= a.len(),
    ensures
        a.subrange(0, n).to_multiset().count(x) <= a.to_multiset().count(x),
    decreases a.len() - n,
{
    broadcast use vstd::multiset::group_multiset_axioms;
    broadcast use vstd::seq_lib::group_to_multiset_ensures;
    if n == a.len() {
        assert(a.subrange(0, n) =~= a);
    } else {
        lemma_prefix_count(a, n + 1, x);
        assert(a.subrange(0, n + 1) =~= a.subrange(0, n).push(a[n]));
    }
}

/// Whether every key of the entry is discrete.
fn has_discrete_keys(entry: &MapEntry) -> (r: bool)
    ensures
        r == forall|k: int| 0 <= k < entry.keys@.len() ==> entry.keys@[k] is Discrete,
{
    match &*entry.keys.first {
        MapEntryKey::Discrete { .. } => {},
        _ => {
            assert(!(entry.keys@[0] is Discrete));
            return false;
        },
    }
    for i in 0..entry.keys.rest.len()
        invariant
            *entry.keys.first is Discrete,
            forall|k: int| 0 <= k < i ==> entry.keys.rest[k] is Discrete,
    {
        match &entry.keys.rest[i] {
            MapEntryKey::Discrete { .. } => {},
            _ => {
                assert(entry.keys@[i as int + 1] == entry.keys.rest[i as int]);
                return false;
            },
        }
    }
    true
}

/// Whether every key of every entry is discrete.
pub open spec fn discrete_keys(entries: Vec<MapEntry>) -> bool {
    forall|i: int, k: int|
        0 <= i < entries.len() && 0 <= k < entries[i].keys@.len() ==> #[trigger] entries[i].keys@[k] is Discrete
}

fn all_discrete(entries: &Vec<MapEntry>) -> (r: bool)
    ensures
        r == discrete_keys(*entries),
{
    for i in 0..entries.len()
        invariant
            forall|j: int, k: int| 0 <= j < i && 0 <= k < entries[j].keys@.len()
                ==> #[trigger] entries[j].keys@[k] is Discrete,
    {
        if !has_discrete_keys(&entries[i]) {
            return false;
        }
    }
    true
}

/// Whether two tables hold equivalent entries, each as often in one as in the
/// other.
pub fn table_entries_format_equivalent(lhs: &Vec<MapEntry>, rhs: &Vec<MapEntry>) -> (r: bool)
    ensures
        r == (canonical(MapEntry::terms(*lhs, Reading::SpanFree)) == canonical(
            MapEntry::terms(*rhs, Reading::SpanFree),
        )),
    decreases lhs,
{
    table_entries_format_equivalent_counted(lhs, rhs).0
}

/// As `table_entries_format_equivalent`, with the number of entry comparisons
/// that it took: one per entry where both tables list the same entries in the
/// same order, and at most one more than there are entries where the keys are
/// discrete and distinct, in whatever order. Entries with discrete keys are
/// found by their keys.
pub fn table_entries_format_equivalent_counted(lhs: &Vec<MapEntry>, rhs: &Vec<MapEntry>) -> (r: (bool, usize))
    ensures
        r.0 == (canonical(MapEntry::terms(*lhs, Reading::SpanFree)) == canonical(
            MapEntry::terms(*rhs, Reading::SpanFree),
        )),
        MapEntry::terms(*lhs, Reading::SpanFree) == MapEntry::terms(*rhs, Reading::SpanFree) ==> r.1 == lhs.len(),
        discrete_keys(*lhs) && discrete_keys(*rhs) && distinct_keys(*rhs) ==> r.1 <= lhs.len() + 1,
    decreases lhs, 0int,
{
    let ghost a = MapEntry::terms(*lhs, Reading::SpanFree);
    let ghost b = MapEntry::terms(*rhs, Reading::SpanFree);
    proof {
        broadcast use vstd::seq_lib::group_to_multiset_ensures;
        lemma_canonical(a, b);
    }
    if lhs.len() != rhs.len() {
        assert(a.to_multiset().len() != b.to_multiset().len());
        return (false, 0);
    }
    let mut compared: usize = 0;
    let mut ordered: bool = true;
    while ordered && compared < lhs.len()
        invariant
            lhs.len() == rhs.len(),
            a == MapEntry::terms(*lhs, Reading::SpanFree),
            b == MapEntry::terms(*rhs, Reading::SpanFree),
            compared <= lhs.len(),
            ordered ==> forall|j: int| 0 <= j < compared ==> a[j] == b[j],
            !ordered ==> a != b && compared > 0 && forall|j: int| 0 <= j < compared - 1 ==> a[j] == b[j],
        decreases lhs.len() - compared,
    {
        let i: usize = compared;
        compared = compared + 1;
        if !lhs[i].equivalent(&rhs[i]) {
            assert(a[i as int] != b[i as int]);
            ordered = false;
        }
    }
    if ordered {
        assert(a =~= b);
        return (true, compared);
    }
    // The entries before the first that differ are matched already.
    let start: usize = compared - 1;
    let mut consumed: Vec<bool> = Vec::new();
    for i in 0..rhs.len()
        invariant
            consumed.len() == i,
            forall|j: int| 0 <= j < i ==> !consumed[j],
    {
        consumed.push(false);
    }
    proof {
        broadcast use vstd::seq_lib::group_to_multiset_ensures;
        lemma_taken_none(b, consumed@);
        assert(a.subrange(0, 0).to_multiset() =~= Multiset::<Term>::empty());
    }
    for i in 0..start
        invariant
            start < lhs.len(),
            lhs.len() == rhs.len(),
            a == MapEntry::terms(*lhs, Reading::SpanFree),
            b == MapEntry::terms(*rhs, Reading::SpanFree),
            forall|j: int| 0 <= j < start ==> a[j] == b[j],
            consumed.len() == rhs.len(),
            forall|j: int| i <= j < consumed.len() ==> !consumed[j],
            taken(b, consumed@) == a.subrange(0, i as int).to_multiset(),
    {
        proof {
            broadcast use vstd::seq_lib::group_to_multiset_ensures;
            lemma_taken_set(b, consumed@, i as int);
            assert(a.subrange(0, i as int + 1) =~= a.subrange(0, i as int).push(a[i as int]));
        }
        consumed.set(i, true);
    }
    let keyed = all_discrete(lhs) && all_discrete(rhs);
    let index = KeyIndex::new(rhs);
    let ghost counts = keyed && distinct_keys(*rhs);
    for i in start..lhs.len()
        invariant
            start < lhs.len(),
            lhs.len() == rhs.len(),
            a == MapEntry::terms(*lhs, Reading::SpanFree),
            b == MapEntry::terms(*rhs, Reading::SpanFree),
            a != b,
            (canonical(a) == canonical(b)) == (a.to_multiset() == b.to_multiset()),
            consumed.len() == rhs.len(),
            taken(b, consumed@) == a.subrange(0, i as int).to_multiset(),
            keyed == (discrete_keys(*lhs) && discrete_keys(*rhs)),
            counts == (keyed && distinct_keys(*rhs)),
            counts ==> compared <= i + 1,
            index.holds(*rhs, rhs.len() as int),
    {
        let ghost already = compared;
        let h: u64 = if keyed { hash_of_entry(&lhs[i]) } else { 0 };
        let last: Option<usize> = Some(rhs.len() - 1);
        let mut next: Option<usize> = if keyed { index.first(h) } else { last };
        let mut found: Option<usize> = None;
        // The entry that was compared, where only one can be.
        let ghost mut tried: Option<int> = None;
        proof {
            if keyed {
                assert(before(index.head(h), rhs.len() as int));
                assert forall|k: int| 0 <= k < b.len() && b[k] == a[i as int] implies leads(index.links@, next, k) by {
                    lemma_entry_hash(lhs[i as int], rhs[k]);
                    assert(entry_hash(rhs[k]) == h);
                }
            }
        }
        while found.is_none() && next.is_some()
            invariant
                i < lhs.len(),
                lhs.len() == rhs.len(),
                a == MapEntry::terms(*lhs, Reading::SpanFree),
                b == MapEntry::terms(*rhs, Reading::SpanFree),
                consumed.len() == rhs.len(),
                index.holds(*rhs, rhs.len() as int),
                before(next, rhs.len() as int),
                found is Some ==> found->0 < rhs.len() && !consumed[found->0 as int] && a[i as int]
                    == b[found->0 as int],
                found is None && keyed ==> forall|k: int|
                    0 <= k < b.len() && !consumed[k] && b[k] == a[i as int] ==> leads(index.links@, next, k),
                found is None && !keyed ==> forall|k: int|
                    0 <= k < b.len() && !consumed[k] && b[k] == a[i as int] ==> next is Some && k <= next->0,
                counts ==> keyed && distinct_keys(*rhs),
                counts && tried is None ==> compared == already,
                counts && tried is Some ==> compared <= already + 1 && tried->0 < rhs.len() && before(
                    next,
                    tried->0,
                ) && key_terms(rhs[tried->0]) == key_terms(lhs[i as int]),
                counts && tried is Some ==> found is None || found->0 == tried->0,
            decreases
                (match next {
                    Some(k) => k + 1,
                    None => 0int,
                }),
                if found is None { 1int } else { 0int },
        {
            let k: usize = match next {
                Some(k) => k,
                None => 0,
            };
            let mut candidate: bool = !consumed[k];
            if candidate && keyed {
                candidate = MapEntryKey::equivalent_non_empty(&lhs[i].keys, &rhs[k].keys);
                assert(candidate == (key_terms(lhs[i as int]) == key_terms(rhs[k as int])));
                assert(!candidate ==> a[i as int] != b[k as int]);
            }
            if candidate {
                proof {
                    if counts && tried is Some {
                        assert(key_terms(rhs[k as int]) != key_terms(rhs[tried->0]));
                    }
                    tried = Some(k as int);
                }
                compared = compared.saturating_add(1);
                candidate = lhs[i].equivalent(&rhs[k]);
            }
            if candidate {
                found = Some(k);
            }
            next = if keyed {
                index.links[k]
            } else if k == 0 {
                None
            } else {
                Some(k - 1)
            };
        }
        let j: usize = match found {
            Some(j) => j,
            None => {
                proof {
                    broadcast use vstd::multiset::group_multiset_axioms;
                    broadcast use vstd::seq_lib::group_to_multiset_ensures;
                    let x = a[i as int];
                    lemma_taken_exhausts(b, consumed@, x);
                    lemma_prefix_count(a, i as int + 1, x);
                    assert(a.subrange(0, i as int + 1) =~= a.subrange(0, i as int).push(x));
                    assert(a.to_multiset().count(x) > b.to_multiset().count(x));
                }
                return (false, compared);
            },
        };
        proof {
            broadcast use vstd::seq_lib::group_to_multiset_ensures;
            lemma_taken_set(b, consumed@, j as int);
            assert(a.subrange(0, i as int + 1) =~= a.subrange(0, i as int).push(a[i as int]));
        }
        consumed.set(j, true);
    }
    proof {
        broadcast use vstd::seq_lib::group_to_multiset_ensures;
        assert(a.subrange(0, a.len() as int) =~= a);
        lemma_taken_all(b, consumed@);
    }
    (true, compared)
}

impl FormatEquivalent for UnaryOp {
    fn format_equivalent(&self, other: &Self) -> (r: bool) {
        *self == *other
    }
}

impl FormatEquivalent for MulDivOp {
    fn format_equivalent(&self, other: &Self) -> (r: bool) {
        *self == *other
    }
}

impl FormatEquivalent for Visibility {
    fn format_equivalent(&self, other: &Self) -> (r: bool) {
        *self == *other
    }
}

impl FormatEquivalent for BindableVisibility {
    fn format_equivalent(&self, other: &Self) -> (r: bool) {
        *self == *other
    }
}

impl FormatEquivalent for UnitConstness {
    fn format_equivalent(&self, other: &Self) -> (r: bool) {
        *self == *other
    }
}

impl FormatEquivalent for MarkType {
    fn format_equivalent(&self, other: &Self) -> (r: bool) {
        *self == *other
    }
}

impl FormatEquivalent for EncodingChannel {
    fn format_equivalent(&self, other: &Self) -> (r: bool) {
        *self == *other
    }
}

impl FormatEquivalent for MultiSlotKind {
    fn format_equivalent(&self, other: &Self) -> (r: bool) {
        *self == *other
    }
}

impl FormatEquivalent for GenericConstraint {
    fn format_equivalent(&self, other: &Self) -> (r: bool) {
        *self == *other
    }
}

impl FormatEquivalent for DomainBoundKind {
    fn format_equivalent(&self, other: &Self) -> (r: bool) {
        *self == *other
    }
}

impl FormatEquivalent for ImportItemNamespace {
    fn format_equivalent(&self, other: &Self) -> (r: bool) {
        *self == *other
    }
}

impl FormatEquivalent for KeyFormKind {
    fn format_equivalent(&self, other: &Self) -> (r: bool) {
        *self == *other
    }
}

impl FormatEquivalent for BinOp {
    fn format_equivalent(&self, other: &Self) -> (r: bool) {
        *self == *other
    }
}

impl FormatEquivalent for Ident {
    fn format_equivalent(&self, other: &Self) -> (r: bool) {
        self.name.format_equivalent(&other.name)
    }
}

impl FormatEquivalent for IdentPath {
    fn format_equivalent(&self, other: &Self) -> (r: bool) {
        self.segments.format_equivalent(&other.segments)
    }
}

impl FormatEquivalent for Attribute {
    fn format_equivalent(&self, other: &Self) -> (r: bool) {
        self.name.format_equivalent(&other.name)
            && self.args.format_equivalent(&other.args)
    }
}

impl AttributeArg {
    fn equivalent(&self, other: &Self) -> (r: bool)
        ensures
            r == (self.to_term(Spans::Dropped) == other.to_term(Spans::Dropped)),
        decreases self,
    {
        match self {
            AttributeArg::Path { segments, span: _ } => match other {
                AttributeArg::Path { segments: other_segments, span: _ } => segments.format_equivalent(other_segments),
                _ => false,
            },
            AttributeArg::FinitePosition { position, span: _ } => match other {
                AttributeArg::FinitePosition {
                    position: other_position,
                    span: _,
                } => position.format_equivalent(other_position),
                _ => false,
            },
            AttributeArg::Group { elements, span: _ } => match other {
                AttributeArg::Group { elements: other_elements, span: _ } => AttributeArg::equivalent_lists(
                    elements,
                    other_elements,
                ),
                _ => false,
            },
        }
    }

    fn equivalent_lists(a: &Vec<AttributeArg>, b: &Vec<AttributeArg>) -> (r: bool)
        ensures
            r == (AttributeArg::terms(*a, Spans::Dropped) == AttributeArg::terms(*b, Spans::Dropped)),
        decreases a,
    {
        if a.len() != b.len() {
            assert(AttributeArg::terms(*a, Spans::Dropped).len() != AttributeArg::terms(*b, Spans::Dropped).len());
            return false;
        }
        for i in 0..a.len()
            invariant
                a.len() == b.len(),
                forall|j: int| 0 <= j < i ==> a[j].to_term(Spans::Dropped) == b[j].to_term(Spans::Dropped),
        {
            if !a[i].equivalent(&b[i]) {
                assert(
                    AttributeArg::terms(
                        *a,
                        Spans::Dropped,
                    )[i as int] != AttributeArg::terms(*b, Spans::Dropped)[i as int]
                );
                return false;
            }
        }
        assert(AttributeArg::terms(*a, Spans::Dropped) =~= AttributeArg::terms(*b, Spans::Dropped));
        true
    }
}

impl FormatEquivalent for AttributeArg {
    fn format_equivalent(&self, other: &Self) -> (r: bool) {
        self.equivalent(other)
    }
}

impl FormatEquivalent for ImportKind {
    fn format_equivalent(&self, other: &Self) -> (r: bool) {
        match self {
            ImportKind::Selective(value) => match other {
                ImportKind::Selective(other_value) => value.format_equivalent(other_value),
                _ => false,
            },
            ImportKind::Module { alias } => match other {
                ImportKind::Module { alias: other_alias } => alias.format_equivalent(other_alias),
                _ => false,
            },
        }
    }
}

impl FormatEquivalent for ModulePath {
    fn format_equivalent(&self, other: &Self) -> (r: bool) {
        self.segments.format_equivalent(&other.segments)
    }
}

impl FormatEquivalent for ImportItem {
    fn format_equivalent(&self, other: &Self) -> (r: bool) {
        self.attributes.format_equivalent(&other.attributes)
            && self.is_pub.format_equivalent(&other.is_pub)
            && self.namespace.format_equivalent(&other.namespace)
            && self.name.format_equivalent(&other.name)
            && self.alias.format_equivalent(&other.alias)
    }
}

impl FormatEquivalent for ImportDecl {
    fn format_equivalent(&self, other: &Self) -> (r: bool) {
        self.path.format_equivalent(&other.path)
            && self.kind.format_equivalent(&other.kind)
    }
}

impl FormatEquivalent for BaseDimDecl {
    fn format_equivalent(&self, other: &Self) -> (r: bool) {
        self.visibility.format_equivalent(&other.visibility)
            && self.name.format_equivalent(&other.name)
    }
}

impl FormatEquivalent for DimDecl {
    fn format_equivalent(&self, other: &Self) -> (r: bool) {
        self.visibility.format_equivalent(&other.visibility)
            && self.name.format_equivalent(&other.name)
            && self.definition.format_equivalent(&other.definition)
    }
}

impl FormatEquivalent for DimExpr {
    fn format_equivalent(&self, other: &Self) -> (r: bool) {
        self.terms.format_equivalent(&other.terms)
    }
}

impl FormatEquivalent for DimExprItem {
    fn format_equivalent(&self, other: &Self) -> (r: bool) {
        self.op.format_equivalent(&other.op)
            && self.term.format_equivalent(&other.term)
    }
}

impl FormatEquivalent for DimTerm {
    fn format_equivalent(&self, other: &Self) -> (r: bool) {
        self.name.format_equivalent(&other.name)
            && self.power.format_equivalent(&other.power)
    }
}

impl FormatEquivalent for UnitExpr {
    fn format_equivalent(&self, other: &Self) -> (r: bool) {
        self.terms.format_equivalent(&other.terms)
    }
}

impl FormatEquivalent for UnitExprItem {
    fn format_equivalent(&self, other: &Self) -> (r: bool) {
        self.op.format_equivalent(&other.op)
            && self.name.format_equivalent(&other.name)
            && self.power.format_equivalent(&other.power)
    }
}

impl FormatEquivalent for UnresolvedRef {
    fn format_equivalent(&self, other: &Self) -> (r: bool) {
        match self {
            UnresolvedRef::Path(value) => match other {
                UnresolvedRef::Path(other_value) => value.format_equivalent(other_value),
            },
        }
    }
}

impl FormatEquivalent for TableIndexSpec {
    fn format_equivalent(&self, other: &Self) -> (r: bool) {
        match self {
            TableIndexSpec::Named(value) => match other {
                TableIndexSpec::Named(other_value) => value.format_equivalent(other_value),
                _ => false,
            },
            TableIndexSpec::Finite { cardinality, span: _ } => match other {
                TableIndexSpec::Finite {
                    cardinality: other_cardinality,
                    span: _,
                } => cardinality.format_equivalent(other_cardinality),
                _ => false,
            },
        }
    }
}

impl NatExpr {
    fn equivalent(&self, other: &Self) -> (r: bool)
        ensures
            r == (self.to_term(Spans::Dropped) == other.to_term(Spans::Dropped)),
        decreases self,
    {
        match self {
            NatExpr::Literal(value, _) => match other {
                NatExpr::Literal(other_value, _) => value.format_equivalent(other_value),
                _ => false,
            },
            NatExpr::Var(value) => match other {
                NatExpr::Var(other_value) => value.format_equivalent(other_value),
                _ => false,
            },
            NatExpr::Add(value, _) => match other {
                NatExpr::Add(other_value, _) => NatExpr::equivalent_lists(value, other_value),
                _ => false,
            },
            NatExpr::Mul(value, _) => match other {
                NatExpr::Mul(other_value, _) => NatExpr::equivalent_lists(value, other_value),
                _ => false,
            },
        }
    }

    fn equivalent_lists(a: &Vec<NatExpr>, b: &Vec<NatExpr>) -> (r: bool)
        ensures
            r == (NatExpr::terms(*a, Spans::Dropped) == NatExpr::terms(*b, Spans::Dropped)),
        decreases a,
    {
        if a.len() != b.len() {
            assert(NatExpr::terms(*a, Spans::Dropped).len() != NatExpr::terms(*b, Spans::Dropped).len());
            return false;
        }
        for i in 0..a.len()
            invariant
                a.len() == b.len(),
                forall|j: int| 0 <= j < i ==> a[j].to_term(Spans::Dropped) == b[j].to_term(Spans::Dropped),
        {
            if !a[i].equivalent(&b[i]) {
                assert(NatExpr::terms(*a, Spans::Dropped)[i as int] != NatExpr::terms(*b, Spans::Dropped)[i as int]);
                return false;
            }
        }
        assert(NatExpr::terms(*a, Spans::Dropped) =~= NatExpr::terms(*b, Spans::Dropped));
        true
    }
}

impl FormatEquivalent for NatExpr {
    fn format_equivalent(&self, other: &Self) -> (r: bool) {
        self.equivalent(other)
    }
}

impl AmbiguousGenericArg {
    fn equivalent(&self, other: &Self) -> (r: bool)
        ensures
            r == (self.to_term(Spans::Dropped) == other.to_term(Spans::Dropped)),
        decreases self,
    {
        match self {
            AmbiguousGenericArg::Name(value) => match other {
                AmbiguousGenericArg::Name(other_value) => value.format_equivalent(other_value),
                _ => false,
            },
            AmbiguousGenericArg::Mul(value, _) => match other {
                AmbiguousGenericArg::Mul(other_value, _) => AmbiguousGenericArg::equivalent_lists(value, other_value),
                _ => false,
            },
        }
    }

    fn equivalent_lists(a: &Vec<AmbiguousGenericArg>, b: &Vec<AmbiguousGenericArg>) -> (r: bool)
        ensures
            r == (AmbiguousGenericArg::terms(*a, Spans::Dropped) == AmbiguousGenericArg::terms(*b, Spans::Dropped)),
        decreases a,
    {
        if a.len() != b.len() {
            assert(
                AmbiguousGenericArg::terms(
                    *a,
                    Spans::Dropped,
                ).len() != AmbiguousGenericArg::terms(*b, Spans::Dropped).len()
            );
            return false;
        }
        for i in 0..a.len()
            invariant
                a.len() == b.len(),
                forall|j: int| 0 <= j < i ==> a[j].to_term(Spans::Dropped) == b[j].to_term(Spans::Dropped),
        {
            if !a[i].equivalent(&b[i]) {
                assert(
                    AmbiguousGenericArg::terms(
                        *a,
                        Spans::Dropped,
                    )[i as int] != AmbiguousGenericArg::terms(*b, Spans::Dropped)[i as int]
                );
                return false;
            }
        }
        assert(AmbiguousGenericArg::terms(*a, Spans::Dropped) =~= AmbiguousGenericArg::terms(*b, Spans::Dropped));
        true
    }
}

impl FormatEquivalent for AmbiguousGenericArg {
    fn format_equivalent(&self, other: &Self) -> (r: bool) {
        self.equivalent(other)
    }
}

impl FormatEquivalent for IndexExpr {
    fn format_equivalent(&self, other: &Self) -> (r: bool) {
        match self {
            IndexExpr::Name(value) => match other {
                IndexExpr::Name(other_value) => value.format_equivalent(other_value),
                _ => false,
            },
            IndexExpr::Finite { cardinality, span: _ } => match other {
                IndexExpr::Finite { cardinality: other_cardinality, span: _ } => cardinality.format_equivalent(
                    other_cardinality
                ),
                _ => false,
            },
            IndexExpr::BareNat(value) => match other {
                IndexExpr::BareNat(other_value) => value.format_equivalent(other_value),
                _ => false,
            },
        }
    }
}

impl FormatEquivalent for ForBindingIndex {
    fn format_equivalent(&self, other: &Self) -> (r: bool) {
        match self {
            ForBindingIndex::Named(value) => match other {
                ForBindingIndex::Named(other_value) => value.format_equivalent(other_value),
                _ => false,
            },
            ForBindingIndex::Finite { cardinality, span: _ } => match other {
                ForBindingIndex::Finite {
                    cardinality: other_cardinality,
                    span: _,
                } => cardinality.format_equivalent(other_cardinality),
                _ => false,
            },
        }
    }
}

impl FormatEquivalent for ForBinding {
    fn format_equivalent(&self, other: &Self) -> (r: bool) {
        self.var.format_equivalent(&other.var)
            && self.index.format_equivalent(&other.index)
    }
}

impl FormatEquivalent for PatternBinding {
    fn format_equivalent(&self, other: &Self) -> (r: bool) {
        match self {
            PatternBinding::Bind { field, var } => match other {
                PatternBinding::Bind {
                    field: other_field,
                    var: other_var,
                } => field.format_equivalent(other_field) && var.format_equivalent(other_var),
                _ => false,
            },
            PatternBinding::Wildcard { field, span: _ } => match other {
                PatternBinding::Wildcard { field: other_field, span: _ } => field.format_equivalent(other_field),
                _ => false,
            },
        }
    }
}

impl FormatEquivalent for MatchPattern {
    fn format_equivalent(&self, other: &Self) -> (r: bool) {
        match self {
            MatchPattern::Path { path, bindings, span: _ } => match other {
                MatchPattern::Path { path: other_path, bindings: other_bindings, span: _ } => path.format_equivalent(other_path)
                    && bindings.format_equivalent(other_bindings),
                _ => false,
            },
            MatchPattern::Constructor { name, bindings, span: _ } => match other {
                MatchPattern::Constructor {
                    name: other_name,
                    bindings: other_bindings,
                    span: _,
                } => name.format_equivalent(other_name) && bindings.format_equivalent(other_bindings),
                _ => false,
            },
            MatchPattern::IndexLabel { index, variant, span: _ } => match other {
                MatchPattern::IndexLabel {
                    index: other_index,
                    variant: other_variant,
                    span: _,
                } => index.format_equivalent(other_index) && variant.format_equivalent(other_variant),
                _ => false,
            },
        }
    }
}

impl FormatEquivalent for MapKeyAxisSyntax {
    fn format_equivalent(&self, other: &Self) -> (r: bool) {
        match self {
            MapKeyAxisSyntax::Explicit(value) => match other {
                MapKeyAxisSyntax::Explicit(other_value) => value.format_equivalent(other_value),
                _ => false,
            },
            MapKeyAxisSyntax::Contextual => match other {
                MapKeyAxisSyntax::Contextual => true,
                _ => false,
            },
        }
    }
}

impl FormatEquivalent for MultiDeclSharedAxes {
    fn format_equivalent(&self, other: &Self) -> (r: bool) {
        self.slice_axes.format_equivalent(&other.slice_axes)
            && self.row_axis.format_equivalent(&other.row_axis)
    }
}

impl FormatEquivalent for MultiSlotAxis {
    fn format_equivalent(&self, other: &Self) -> (r: bool) {
        match self {
            MultiSlotAxis::Underscore => match other {
                MultiSlotAxis::Underscore => true,
                _ => false,
            },
            MultiSlotAxis::Axis(value) => match other {
                MultiSlotAxis::Axis(other_value) => value.format_equivalent(other_value),
                _ => false,
            },
        }
    }
}

impl FormatEquivalent for MultiSlotColumnSpan {
    fn format_equivalent(&self, other: &Self) -> (r: bool) {
        match self {
            MultiSlotColumnSpan::Single(value) => match other {
                MultiSlotColumnSpan::Single(other_value) => value.format_equivalent(other_value),
                _ => false,
            },
            MultiSlotColumnSpan::Range { start, end, extra_axis } => match other {
                MultiSlotColumnSpan::Range {
                    start: other_start,
                    end: other_end,
                    extra_axis: other_extra_axis,
                } => start.format_equivalent(other_start) && end.format_equivalent(other_end) && extra_axis.format_equivalent(other_extra_axis),
                _ => false,
            },
        }
    }
}

impl FormatEquivalent for MultiHeaderCell {
    fn format_equivalent(&self, other: &Self) -> (r: bool) {
        match self {
            MultiHeaderCell::Underscore { span: _ } => match other {
                MultiHeaderCell::Underscore { span: _ } => true,
                _ => false,
            },
            MultiHeaderCell::Variant { axis, variant, span: _ } => match other {
                MultiHeaderCell::Variant {
                    axis: other_axis,
                    variant: other_variant,
                    span: _,
                } => axis.format_equivalent(other_axis) && variant.format_equivalent(other_variant),
                _ => false,
            },
        }
    }
}

impl FormatEquivalent for ExternGenericBinder {
    fn format_equivalent(&self, other: &Self) -> (r: bool) {
        match self {
            ExternGenericBinder::Dim(value) => match other {
                ExternGenericBinder::Dim(other_value) => value.format_equivalent(other_value),
                _ => false,
            },
            ExternGenericBinder::Index(value) => match other {
                ExternGenericBinder::Index(other_value) => value.format_equivalent(other_value),
                _ => false,
            },
        }
    }
}

impl Expr {
    fn equivalent(&self, other: &Self) -> (r: bool)
        ensures
            r == (self.to_term(Reading::SpanFree) == other.to_term(Reading::SpanFree)),
        decreases self,
    {
        proof {
            reveal(ExprKind::to_term);
        }
        self.kind.equivalent(&other.kind)
    }

    fn equivalent_lists(a: &Vec<Expr>, b: &Vec<Expr>) -> (r: bool)
        ensures
            r == (Expr::terms(*a, Reading::SpanFree) == Expr::terms(*b, Reading::SpanFree)),
        decreases a,
    {
        if a.len() != b.len() {
            assert(Expr::terms(*a, Reading::SpanFree).len() != Expr::terms(*b, Reading::SpanFree).len());
            return false;
        }
        for i in 0..a.len()
            invariant
                a.len() == b.len(),
                forall|j: int| 0 <= j < i ==> a[j].to_term(Reading::SpanFree) == b[j].to_term(Reading::SpanFree),
        {
            if !a[i].equivalent(&b[i]) {
                assert(Expr::terms(*a, Reading::SpanFree)[i as int] != Expr::terms(*b, Reading::SpanFree)[i as int]);
                return false;
            }
        }
        assert(Expr::terms(*a, Reading::SpanFree) =~= Expr::terms(*b, Reading::SpanFree));
        true
    }
}

impl FormatEquivalent for Expr {
    fn format_equivalent(&self, other: &Self) -> (r: bool) {
        self.equivalent(other)
    }
}

impl ExprKind {
    fn equivalent(&self, other: &Self) -> (r: bool)
        ensures
            r == (self.to_term(Reading::SpanFree) == other.to_term(Reading::SpanFree)),
        decreases self,
    {
        proof {
            reveal(ExprKind::to_term);
        }
        match self {
            ExprKind::Number(value) => match other {
                ExprKind::Number(other_value) => value.format_equivalent(other_value),
                _ => false,
            },
            ExprKind::Integer(value) => match other {
                ExprKind::Integer(other_value) => value.format_equivalent(other_value),
                _ => false,
            },
            ExprKind::Bool(value) => match other {
                ExprKind::Bool(other_value) => value.format_equivalent(other_value),
                _ => false,
            },
            ExprKind::StringLiteral(value) => match other {
                ExprKind::StringLiteral(other_value) => value.format_equivalent(other_value),
                _ => false,
            },
            ExprKind::GraphRef(value) => match other {
                ExprKind::GraphRef(other_value) => value.format_equivalent(other_value),
                _ => false,
            },
            ExprKind::BinOp { op, lhs, rhs } => match other {
                ExprKind::BinOp { op: other_op, lhs: other_lhs, rhs: other_rhs } => op.format_equivalent(other_op)
                    && lhs.equivalent(other_lhs) && rhs.equivalent(other_rhs),
                _ => false,
            },
            ExprKind::UnaryOp { op, operand } => match other {
                ExprKind::UnaryOp { op: other_op, operand: other_operand } => op.format_equivalent(other_op)
                    && operand.equivalent(other_operand),
                _ => false,
            },
            ExprKind::FnCall { callee, generic_args, args } => match other {
                ExprKind::FnCall { callee: other_callee, generic_args: other_generic_args, args: other_args } => callee.format_equivalent(other_callee)
                    && GenericArg::equivalent_lists(
                        generic_args,
                        other_generic_args,
                    ) && Expr::equivalent_lists(args, other_args),
                _ => false,
            },
            ExprKind::If { condition, then_branch, else_branch } => match other {
                ExprKind::If { condition: other_condition, then_branch: other_then_branch, else_branch: other_else_branch } => condition.equivalent(other_condition)
                    && then_branch.equivalent(other_then_branch) && else_branch.equivalent(other_else_branch),
                _ => false,
            },
            ExprKind::QuantityLiteral { value, unit } => match other {
                ExprKind::QuantityLiteral {
                    value: other_value,
                    unit: other_unit,
                } => value.format_equivalent(other_value) && unit.format_equivalent(other_unit),
                _ => false,
            },
            ExprKind::Convert { expr, target } => match other {
                ExprKind::Convert { expr: other_expr, target: other_target } => expr.equivalent(other_expr)
                    && target.format_equivalent(other_target),
                _ => false,
            },
            ExprKind::DisplayTimezone { expr, timezone } => match other {
                ExprKind::DisplayTimezone {
                    expr: other_expr,
                    timezone: other_timezone,
                } => expr.equivalent(other_expr) && timezone.format_equivalent(other_timezone),
                _ => false,
            },
            ExprKind::FieldAccess { expr, field } => match other {
                ExprKind::FieldAccess {
                    expr: other_expr,
                    field: other_field,
                } => expr.equivalent(other_expr) && field.format_equivalent(other_field),
                _ => false,
            },
            ExprKind::ConstructorCall { callee, generic_args, fields } => match other {
                ExprKind::ConstructorCall {
                    callee: other_callee,
                    generic_args: other_generic_args,
                    fields: other_fields,
                } => callee.format_equivalent(other_callee) && GenericArg::equivalent_lists(generic_args, other_generic_args) && FieldInit::equivalent_lists(fields, other_fields),
                _ => false,
            },
            ExprKind::MapLiteral { entries } => match other {
                ExprKind::MapLiteral { entries: other_entries } => MapEntry::equivalent_lists(entries, other_entries),
                _ => false,
            },
            ExprKind::ForComp { bindings, body } => match other {
                ExprKind::ForComp { bindings: other_bindings, body: other_body } => bindings.format_equivalent(other_bindings)
                    && body.equivalent(other_body),
                _ => false,
            },
            ExprKind::IndexAccess { expr, args } => match other {
                ExprKind::IndexAccess {
                    expr: other_expr,
                    args: other_args,
                } => expr.equivalent(other_expr) && IndexArg::equivalent_non_empty(args, other_args),
                _ => false,
            },
            ExprKind::Scan { source, init, acc_name, val_name, body } => match other {
                ExprKind::Scan { source: other_source, init: other_init, acc_name: other_acc_name, val_name: other_val_name, body: other_body } => source.equivalent(other_source)
                    && init.equivalent(other_init) && acc_name.format_equivalent(other_acc_name)
                        && val_name.format_equivalent(other_val_name) && body.equivalent(other_body),
                _ => false,
            },
            ExprKind::Unfold { axis, init, prev_state_name, prev_index_name, index_name, body } => match other {
                ExprKind::Unfold { axis: other_axis, init: other_init, prev_state_name: other_prev_state_name, prev_index_name: other_prev_index_name, index_name: other_index_name, body: other_body } => axis.format_equivalent(other_axis)
                    && init.equivalent(other_init) && prev_state_name.format_equivalent(
                        other_prev_state_name
                    ) && prev_index_name.format_equivalent(other_prev_index_name)
                        && index_name.format_equivalent(other_index_name) && body.equivalent(other_body),
                _ => false,
            },
            ExprKind::KeyForm { kind, axis, arg } => match other {
                ExprKind::KeyForm { kind: other_kind, axis: other_axis, arg: other_arg } => kind.format_equivalent(other_kind)
                    && axis.format_equivalent(other_axis) && arg.equivalent(other_arg),
                _ => false,
            },
            ExprKind::Match { scrutinee, arms } => match other {
                ExprKind::Match { scrutinee: other_scrutinee, arms: other_arms } => scrutinee.equivalent(
                    other_scrutinee
                ) && MatchArm::equivalent_lists(arms, other_arms),
                _ => false,
            },
            ExprKind::InlineDagRef { path, args, output } => match other {
                ExprKind::InlineDagRef {
                    path: other_path,
                    args: other_args,
                    output: other_output,
                } => path.format_equivalent(other_path) && ParamBinding::equivalent_lists(args, other_args) && output.format_equivalent(other_output),
                _ => false,
            },
            ExprKind::UnresolvedRef(value) => match other {
                ExprKind::UnresolvedRef(other_value) => value.format_equivalent(other_value),
                _ => false,
            },
            ExprKind::Sugar(value) => match other {
                ExprKind::Sugar(other_value) => value.equivalent(other_value),
                _ => false,
            },
        }
    }
}

impl FormatEquivalent for ExprKind {
    fn format_equivalent(&self, other: &Self) -> (r: bool) {
        self.equivalent(other)
    }
}

impl RawExprSugar {
    fn equivalent(&self, other: &Self) -> (r: bool)
        ensures
            r == (self.to_term(Reading::SpanFree) == other.to_term(Reading::SpanFree)),
        decreases self,
    {
        match self {
            RawExprSugar::TableLiteral { indexes, entries } => match other {
                RawExprSugar::TableLiteral {
                    indexes: other_indexes,
                    entries: other_entries,
                } => indexes.format_equivalent(other_indexes) && table_entries_format_equivalent(entries, other_entries),
            },
        }
    }
}

impl FormatEquivalent for RawExprSugar {
    fn format_equivalent(&self, other: &Self) -> (r: bool) {
        self.equivalent(other)
    }
}

impl MapEntry {
    fn equivalent(&self, other: &Self) -> (r: bool)
        ensures
            r == (self.to_term(Reading::SpanFree) == other.to_term(Reading::SpanFree)),
        decreases self,
    {
        MapEntryKey::equivalent_non_empty(&self.keys, &other.keys)
            && self.value.equivalent(&other.value)
    }

    fn equivalent_lists(a: &Vec<MapEntry>, b: &Vec<MapEntry>) -> (r: bool)
        ensures
            r == (MapEntry::terms(*a, Reading::SpanFree) == MapEntry::terms(*b, Reading::SpanFree)),
        decreases a,
    {
        if a.len() != b.len() {
            assert(MapEntry::terms(*a, Reading::SpanFree).len() != MapEntry::terms(*b, Reading::SpanFree).len());
            return false;
        }
        for i in 0..a.len()
            invariant
                a.len() == b.len(),
                forall|j: int| 0 <= j < i ==> a[j].to_term(Reading::SpanFree) == b[j].to_term(Reading::SpanFree),
        {
            if !a[i].equivalent(&b[i]) {
                assert(
                    MapEntry::terms(
                        *a,
                        Reading::SpanFree,
                    )[i as int] != MapEntry::terms(*b, Reading::SpanFree)[i as int]
                );
                return false;
            }
        }
        assert(MapEntry::terms(*a, Reading::SpanFree) =~= MapEntry::terms(*b, Reading::SpanFree));
        true
    }
}

impl FormatEquivalent for MapEntry {
    fn format_equivalent(&self, other: &Self) -> (r: bool) {
        self.equivalent(other)
    }
}

impl MapEntryKey {
    fn equivalent(&self, other: &Self) -> (r: bool)
        ensures
            r == (self.to_term(Reading::SpanFree) == other.to_term(Reading::SpanFree)),
        decreases self,
    {
        match self {
            MapEntryKey::Discrete { index, additional_index_spans: _, entry } => match other {
                MapEntryKey::Discrete {
                    index: other_index,
                    additional_index_spans: _,
                    entry: other_entry,
                } => index.format_equivalent(other_index) && entry.format_equivalent(other_entry),
                _ => false,
            },
            MapEntryKey::Expression { axis, expr } => match other {
                MapEntryKey::Expression {
                    axis: other_axis,
                    expr: other_expr,
                } => axis.format_equivalent(other_axis) && expr.equivalent(other_expr),
                _ => false,
            },
        }
    }

    fn equivalent_lists(a: &Vec<MapEntryKey>, b: &Vec<MapEntryKey>) -> (r: bool)
        ensures
            r == (MapEntryKey::terms(*a, Reading::SpanFree) == MapEntryKey::terms(*b, Reading::SpanFree)),
        decreases a,
    {
        if a.len() != b.len() {
            assert(
                MapEntryKey::terms(*a, Reading::SpanFree).len() != MapEntryKey::terms(*b, Reading::SpanFree).len()
            );
            return false;
        }
        for i in 0..a.len()
            invariant
                a.len() == b.len(),
                forall|j: int| 0 <= j < i ==> a[j].to_term(Reading::SpanFree) == b[j].to_term(Reading::SpanFree),
        {
            if !a[i].equivalent(&b[i]) {
                assert(
                    MapEntryKey::terms(
                        *a,
                        Reading::SpanFree,
                    )[i as int] != MapEntryKey::terms(*b, Reading::SpanFree)[i as int]
                );
                return false;
            }
        }
        assert(MapEntryKey::terms(*a, Reading::SpanFree) =~= MapEntryKey::terms(*b, Reading::SpanFree));
        true
    }

    fn equivalent_non_empty(a: &NonEmpty<MapEntryKey>, b: &NonEmpty<MapEntryKey>) -> (r: bool)
        ensures
            r == (
                prepend(
                    a.first.to_term(Reading::SpanFree),
                    MapEntryKey::terms(a.rest, Reading::SpanFree),
                ) == prepend(b.first.to_term(Reading::SpanFree), MapEntryKey::terms(b.rest, Reading::SpanFree))
            ),
        decreases a,
    {
        proof {
            lemma_prepend(
                a.first.to_term(Reading::SpanFree),
                MapEntryKey::terms(a.rest, Reading::SpanFree),
                b.first.to_term(Reading::SpanFree),
                MapEntryKey::terms(b.rest, Reading::SpanFree),
            );
        }
        a.first.equivalent(&b.first) && MapEntryKey::equivalent_lists(&a.rest, &b.rest)
    }
}

impl FormatEquivalent for MapEntryKey {
    fn format_equivalent(&self, other: &Self) -> (r: bool) {
        self.equivalent(other)
    }
}

impl IndexArg {
    fn equivalent(&self, other: &Self) -> (r: bool)
        ensures
            r == (self.to_term(Reading::SpanFree) == other.to_term(Reading::SpanFree)),
        decreases self,
    {
        match self {
            IndexArg::Variant { index, variant } => match other {
                IndexArg::Variant { index: other_index, variant: other_variant } => index.format_equivalent(other_index)
                    && variant.format_equivalent(other_variant),
                _ => false,
            },
            IndexArg::Var(value) => match other {
                IndexArg::Var(other_value) => value.format_equivalent(other_value),
                _ => false,
            },
            IndexArg::Expr(value) => match other {
                IndexArg::Expr(other_value) => value.equivalent(other_value),
                _ => false,
            },
        }
    }

    fn equivalent_lists(a: &Vec<IndexArg>, b: &Vec<IndexArg>) -> (r: bool)
        ensures
            r == (IndexArg::terms(*a, Reading::SpanFree) == IndexArg::terms(*b, Reading::SpanFree)),
        decreases a,
    {
        if a.len() != b.len() {
            assert(IndexArg::terms(*a, Reading::SpanFree).len() != IndexArg::terms(*b, Reading::SpanFree).len());
            return false;
        }
        for i in 0..a.len()
            invariant
                a.len() == b.len(),
                forall|j: int| 0 <= j < i ==> a[j].to_term(Reading::SpanFree) == b[j].to_term(Reading::SpanFree),
        {
            if !a[i].equivalent(&b[i]) {
                assert(
                    IndexArg::terms(
                        *a,
                        Reading::SpanFree,
                    )[i as int] != IndexArg::terms(*b, Reading::SpanFree)[i as int]
                );
                return false;
            }
        }
        assert(IndexArg::terms(*a, Reading::SpanFree) =~= IndexArg::terms(*b, Reading::SpanFree));
        true
    }

    fn equivalent_non_empty(a: &NonEmpty<IndexArg>, b: &NonEmpty<IndexArg>) -> (r: bool)
        ensures
            r == (
                prepend(
                    a.first.to_term(Reading::SpanFree),
                    IndexArg::terms(a.rest, Reading::SpanFree),
                ) == prepend(b.first.to_term(Reading::SpanFree), IndexArg::terms(b.rest, Reading::SpanFree))
            ),
        decreases a,
    {
        proof {
            lemma_prepend(
                a.first.to_term(Reading::SpanFree),
                IndexArg::terms(a.rest, Reading::SpanFree),
                b.first.to_term(Reading::SpanFree),
                IndexArg::terms(b.rest, Reading::SpanFree),
            );
        }
        a.first.equivalent(&b.first) && IndexArg::equivalent_lists(&a.rest, &b.rest)
    }
}

impl FormatEquivalent for IndexArg {
    fn format_equivalent(&self, other: &Self) -> (r: bool) {
        self.equivalent(other)
    }
}

impl FieldInit {
    fn equivalent(&self, other: &Self) -> (r: bool)
        ensures
            r == (self.to_term(Reading::SpanFree) == other.to_term(Reading::SpanFree)),
        decreases self,
    {
        self.name.format_equivalent(&other.name)
            && self.value.equivalent(&other.value)
    }

    fn equivalent_lists(a: &Vec<FieldInit>, b: &Vec<FieldInit>) -> (r: bool)
        ensures
            r == (FieldInit::terms(*a, Reading::SpanFree) == FieldInit::terms(*b, Reading::SpanFree)),
        decreases a,
    {
        if a.len() != b.len() {
            assert(FieldInit::terms(*a, Reading::SpanFree).len() != FieldInit::terms(*b, Reading::SpanFree).len());
            return false;
        }
        for i in 0..a.len()
            invariant
                a.len() == b.len(),
                forall|j: int| 0 <= j < i ==> a[j].to_term(Reading::SpanFree) == b[j].to_term(Reading::SpanFree),
        {
            if !a[i].equivalent(&b[i]) {
                assert(
                    FieldInit::terms(
                        *a,
                        Reading::SpanFree,
                    )[i as int] != FieldInit::terms(*b, Reading::SpanFree)[i as int]
                );
                return false;
            }
        }
        assert(FieldInit::terms(*a, Reading::SpanFree) =~= FieldInit::terms(*b, Reading::SpanFree));
        true
    }
}

impl FormatEquivalent for FieldInit {
    fn format_equivalent(&self, other: &Self) -> (r: bool) {
        self.equivalent(other)
    }
}

impl MatchArm {
    fn equivalent(&self, other: &Self) -> (r: bool)
        ensures
            r == (self.to_term(Reading::SpanFree) == other.to_term(Reading::SpanFree)),
        decreases self,
    {
        self.pattern.format_equivalent(&other.pattern)
            && self.body.equivalent(&other.body)
    }

    fn equivalent_lists(a: &Vec<MatchArm>, b: &Vec<MatchArm>) -> (r: bool)
        ensures
            r == (MatchArm::terms(*a, Reading::SpanFree) == MatchArm::terms(*b, Reading::SpanFree)),
        decreases a,
    {
        if a.len() != b.len() {
            assert(MatchArm::terms(*a, Reading::SpanFree).len() != MatchArm::terms(*b, Reading::SpanFree).len());
            return false;
        }
        for i in 0..a.len()
            invariant
                a.len() == b.len(),
                forall|j: int| 0 <= j < i ==> a[j].to_term(Reading::SpanFree) == b[j].to_term(Reading::SpanFree),
        {
            if !a[i].equivalent(&b[i]) {
                assert(
                    MatchArm::terms(
                        *a,
                        Reading::SpanFree,
                    )[i as int] != MatchArm::terms(*b, Reading::SpanFree)[i as int]
                );
                return false;
            }
        }
        assert(MatchArm::terms(*a, Reading::SpanFree) =~= MatchArm::terms(*b, Reading::SpanFree));
        true
    }
}

impl FormatEquivalent for MatchArm {
    fn format_equivalent(&self, other: &Self) -> (r: bool) {
        self.equivalent(other)
    }
}

impl ParamBinding {
    fn equivalent(&self, other: &Self) -> (r: bool)
        ensures
            r == (self.to_term(Reading::SpanFree) == other.to_term(Reading::SpanFree)),
        decreases self,
    {
        self.name.format_equivalent(&other.name)
            && self.value.equivalent(&other.value)
    }

    fn equivalent_lists(a: &Vec<ParamBinding>, b: &Vec<ParamBinding>) -> (r: bool)
        ensures
            r == (ParamBinding::terms(*a, Reading::SpanFree) == ParamBinding::terms(*b, Reading::SpanFree)),
        decreases a,
    {
        if a.len() != b.len() {
            assert(
                ParamBinding::terms(*a, Reading::SpanFree).len() != ParamBinding::terms(*b, Reading::SpanFree).len()
            );
            return false;
        }
        for i in 0..a.len()
            invariant
                a.len() == b.len(),
                forall|j: int| 0 <= j < i ==> a[j].to_term(Reading::SpanFree) == b[j].to_term(Reading::SpanFree),
        {
            if !a[i].equivalent(&b[i]) {
                assert(
                    ParamBinding::terms(
                        *a,
                        Reading::SpanFree,
                    )[i as int] != ParamBinding::terms(*b, Reading::SpanFree)[i as int]
                );
                return false;
            }
        }
        assert(ParamBinding::terms(*a, Reading::SpanFree) =~= ParamBinding::terms(*b, Reading::SpanFree));
        true
    }
}

impl FormatEquivalent for ParamBinding {
    fn format_equivalent(&self, other: &Self) -> (r: bool) {
        self.equivalent(other)
    }
}

impl TypeExpr {
    fn equivalent(&self, other: &Self) -> (r: bool)
        ensures
            r == (self.to_term(Reading::SpanFree) == other.to_term(Reading::SpanFree)),
        decreases self,
    {
        self.kind.equivalent(&other.kind)
            && DomainBound::equivalent_lists(&self.constraints, &other.constraints)
    }

    fn equivalent_lists(a: &Vec<TypeExpr>, b: &Vec<TypeExpr>) -> (r: bool)
        ensures
            r == (TypeExpr::terms(*a, Reading::SpanFree) == TypeExpr::terms(*b, Reading::SpanFree)),
        decreases a,
    {
        if a.len() != b.len() {
            assert(TypeExpr::terms(*a, Reading::SpanFree).len() != TypeExpr::terms(*b, Reading::SpanFree).len());
            return false;
        }
        for i in 0..a.len()
            invariant
                a.len() == b.len(),
                forall|j: int| 0 <= j < i ==> a[j].to_term(Reading::SpanFree) == b[j].to_term(Reading::SpanFree),
        {
            if !a[i].equivalent(&b[i]) {
                assert(
                    TypeExpr::terms(
                        *a,
                        Reading::SpanFree,
                    )[i as int] != TypeExpr::terms(*b, Reading::SpanFree)[i as int]
                );
                return false;
            }
        }
        assert(TypeExpr::terms(*a, Reading::SpanFree) =~= TypeExpr::terms(*b, Reading::SpanFree));
        true
    }

    fn equivalent_non_empty(a: &NonEmpty<TypeExpr>, b: &NonEmpty<TypeExpr>) -> (r: bool)
        ensures
            r == (
                prepend(
                    a.first.to_term(Reading::SpanFree),
                    TypeExpr::terms(a.rest, Reading::SpanFree),
                ) == prepend(b.first.to_term(Reading::SpanFree), TypeExpr::terms(b.rest, Reading::SpanFree))
            ),
        decreases a,
    {
        proof {
            lemma_prepend(
                a.first.to_term(Reading::SpanFree),
                TypeExpr::terms(a.rest, Reading::SpanFree),
                b.first.to_term(Reading::SpanFree),
                TypeExpr::terms(b.rest, Reading::SpanFree),
            );
        }
        a.first.equivalent(&b.first) && TypeExpr::equivalent_lists(&a.rest, &b.rest)
    }
}

impl FormatEquivalent for TypeExpr {
    fn format_equivalent(&self, other: &Self) -> (r: bool) {
        self.equivalent(other)
    }
}

impl TypeExprKind {
    fn equivalent(&self, other: &Self) -> (r: bool)
        ensures
            r == (self.to_term(Reading::SpanFree) == other.to_term(Reading::SpanFree)),
        decreases self,
    {
        match self {
            TypeExprKind::Dimensionless => match other {
                TypeExprKind::Dimensionless => true,
                _ => false,
            },
            TypeExprKind::Bool => match other {
                TypeExprKind::Bool => true,
                _ => false,
            },
            TypeExprKind::Int => match other {
                TypeExprKind::Int => true,
                _ => false,
            },
            TypeExprKind::Datetime => match other {
                TypeExprKind::Datetime => true,
                _ => false,
            },
            TypeExprKind::DatetimeApplication { type_args } => match other {
                TypeExprKind::DatetimeApplication {
                    type_args: other_type_args
                } => TypeExpr::equivalent_non_empty(type_args, other_type_args),
                _ => false,
            },
            TypeExprKind::ComplexApplication { generic_args } => match other {
                TypeExprKind::ComplexApplication {
                    generic_args: other_generic_args
                } => GenericArg::equivalent_lists(generic_args, other_generic_args),
                _ => false,
            },
            TypeExprKind::KeyApplication { generic_args } => match other {
                TypeExprKind::KeyApplication {
                    generic_args: other_generic_args
                } => GenericArg::equivalent_lists(generic_args, other_generic_args),
                _ => false,
            },
            TypeExprKind::DimExpr(value) => match other {
                TypeExprKind::DimExpr(other_value) => value.format_equivalent(other_value),
                _ => false,
            },
            TypeExprKind::Indexed { base, indexes } => match other {
                TypeExprKind::Indexed {
                    base: other_base,
                    indexes: other_indexes,
                } => base.equivalent(other_base) && indexes.format_equivalent(other_indexes),
                _ => false,
            },
            TypeExprKind::TypeApplication { name, generic_args } => match other {
                TypeExprKind::TypeApplication {
                    name: other_name,
                    generic_args: other_generic_args,
                } => name.format_equivalent(other_name) && GenericArg::equivalent_non_empty(generic_args, other_generic_args),
                _ => false,
            },
        }
    }
}

impl FormatEquivalent for TypeExprKind {
    fn format_equivalent(&self, other: &Self) -> (r: bool) {
        self.equivalent(other)
    }
}

impl DomainBound {
    fn equivalent(&self, other: &Self) -> (r: bool)
        ensures
            r == (self.to_term(Reading::SpanFree) == other.to_term(Reading::SpanFree)),
        decreases self,
    {
        self.kind.format_equivalent(&other.kind)
            && self.value.equivalent(&other.value)
    }

    fn equivalent_lists(a: &Vec<DomainBound>, b: &Vec<DomainBound>) -> (r: bool)
        ensures
            r == (DomainBound::terms(*a, Reading::SpanFree) == DomainBound::terms(*b, Reading::SpanFree)),
        decreases a,
    {
        if a.len() != b.len() {
            assert(
                DomainBound::terms(*a, Reading::SpanFree).len() != DomainBound::terms(*b, Reading::SpanFree).len()
            );
            return false;
        }
        for i in 0..a.len()
            invariant
                a.len() == b.len(),
                forall|j: int| 0 <= j < i ==> a[j].to_term(Reading::SpanFree) == b[j].to_term(Reading::SpanFree),
        {
            if !a[i].equivalent(&b[i]) {
                assert(
                    DomainBound::terms(
                        *a,
                        Reading::SpanFree,
                    )[i as int] != DomainBound::terms(*b, Reading::SpanFree)[i as int]
                );
                return false;
            }
        }
        assert(DomainBound::terms(*a, Reading::SpanFree) =~= DomainBound::terms(*b, Reading::SpanFree));
        true
    }
}

impl FormatEquivalent for DomainBound {
    fn format_equivalent(&self, other: &Self) -> (r: bool) {
        self.equivalent(other)
    }
}

impl GenericArg {
    fn equivalent(&self, other: &Self) -> (r: bool)
        ensures
            r == (self.to_term(Reading::SpanFree) == other.to_term(Reading::SpanFree)),
        decreases self,
    {
        match self {
            GenericArg::Type(value) => match other {
                GenericArg::Type(other_value) => value.equivalent(other_value),
                _ => false,
            },
            GenericArg::Index(value) => match other {
                GenericArg::Index(other_value) => value.format_equivalent(other_value),
                _ => false,
            },
            GenericArg::Nat(value) => match other {
                GenericArg::Nat(other_value) => value.format_equivalent(other_value),
                _ => false,
            },
            GenericArg::Ambiguous(value) => match other {
                GenericArg::Ambiguous(other_value) => value.format_equivalent(other_value),
                _ => false,
            },
        }
    }

    fn equivalent_lists(a: &Vec<GenericArg>, b: &Vec<GenericArg>) -> (r: bool)
        ensures
            r == (GenericArg::terms(*a, Reading::SpanFree) == GenericArg::terms(*b, Reading::SpanFree)),
        decreases a,
    {
        if a.len() != b.len() {
            assert(GenericArg::terms(*a, Reading::SpanFree).len() != GenericArg::terms(*b, Reading::SpanFree).len());
            return false;
        }
        for i in 0..a.len()
            invariant
                a.len() == b.len(),
                forall|j: int| 0 <= j < i ==> a[j].to_term(Reading::SpanFree) == b[j].to_term(Reading::SpanFree),
        {
            if !a[i].equivalent(&b[i]) {
                assert(
                    GenericArg::terms(
                        *a,
                        Reading::SpanFree,
                    )[i as int] != GenericArg::terms(*b, Reading::SpanFree)[i as int]
                );
                return false;
            }
        }
        assert(GenericArg::terms(*a, Reading::SpanFree) =~= GenericArg::terms(*b, Reading::SpanFree));
        true
    }

    fn equivalent_non_empty(a: &NonEmpty<GenericArg>, b: &NonEmpty<GenericArg>) -> (r: bool)
        ensures
            r == (
                prepend(
                    a.first.to_term(Reading::SpanFree),
                    GenericArg::terms(a.rest, Reading::SpanFree),
                ) == prepend(b.first.to_term(Reading::SpanFree), GenericArg::terms(b.rest, Reading::SpanFree))
            ),
        decreases a,
    {
        proof {
            lemma_prepend(
                a.first.to_term(Reading::SpanFree),
                GenericArg::terms(a.rest, Reading::SpanFree),
                b.first.to_term(Reading::SpanFree),
                GenericArg::terms(b.rest, Reading::SpanFree),
            );
        }
        a.first.equivalent(&b.first) && GenericArg::equivalent_lists(&a.rest, &b.rest)
    }
}

impl FormatEquivalent for GenericArg {
    fn format_equivalent(&self, other: &Self) -> (r: bool) {
        self.equivalent(other)
    }
}

impl ParamDecl {
    fn equivalent(&self, other: &Self) -> (r: bool)
        ensures
            r == (self.to_term(Reading::SpanFree) == other.to_term(Reading::SpanFree)),
    {
        self.name.format_equivalent(&other.name)
            && self.type_ann.equivalent(&other.type_ann)
            && match (&self.value, &other.value) { (Some(some), Some(other_some)) => some.equivalent(other_some), (None, None) => true, _ => false }
    }
}

impl FormatEquivalent for ParamDecl {
    fn format_equivalent(&self, other: &Self) -> (r: bool) {
        self.equivalent(other)
    }
}

impl ValueDecl {
    fn equivalent(&self, other: &Self) -> (r: bool)
        ensures
            r == (self.to_term(Reading::SpanFree) == other.to_term(Reading::SpanFree)),
    {
        self.visibility.format_equivalent(&other.visibility)
            && self.name.format_equivalent(&other.name)
            && self.type_ann.equivalent(&other.type_ann)
            && self.value.equivalent(&other.value)
    }
}

impl FormatEquivalent for ValueDecl {
    fn format_equivalent(&self, other: &Self) -> (r: bool) {
        self.equivalent(other)
    }
}

impl UnitDef {
    fn equivalent(&self, other: &Self) -> (r: bool)
        ensures
            r == (self.to_term(Reading::SpanFree) == other.to_term(Reading::SpanFree)),
    {
        self.scale_expr.equivalent(&other.scale_expr)
            && self.unit_expr.format_equivalent(&other.unit_expr)
    }
}

impl FormatEquivalent for UnitDef {
    fn format_equivalent(&self, other: &Self) -> (r: bool) {
        self.equivalent(other)
    }
}

impl UnitDecl {
    fn equivalent(&self, other: &Self) -> (r: bool)
        ensures
            r == (self.to_term(Reading::SpanFree) == other.to_term(Reading::SpanFree)),
    {
        self.visibility.format_equivalent(&other.visibility)
            && self.constness.format_equivalent(&other.constness)
            && self.name.format_equivalent(&other.name)
            && self.dim_type.format_equivalent(&other.dim_type)
            && match (&self.definition, &other.definition) { (Some(some), Some(other_some)) => some.equivalent(other_some), (None, None) => true, _ => false }
    }
}

impl FormatEquivalent for UnitDecl {
    fn format_equivalent(&self, other: &Self) -> (r: bool) {
        self.equivalent(other)
    }
}

impl FieldDecl {
    fn equivalent(&self, other: &Self) -> (r: bool)
        ensures
            r == (self.to_term(Reading::SpanFree) == other.to_term(Reading::SpanFree)),
    {
        self.name.format_equivalent(&other.name)
            && self.type_ann.equivalent(&other.type_ann)
    }

    fn equivalent_lists(a: &Vec<FieldDecl>, b: &Vec<FieldDecl>) -> (r: bool)
        ensures
            r == (FieldDecl::terms(*a, Reading::SpanFree) == FieldDecl::terms(*b, Reading::SpanFree)),
    {
        if a.len() != b.len() {
            assert(FieldDecl::terms(*a, Reading::SpanFree).len() != FieldDecl::terms(*b, Reading::SpanFree).len());
            return false;
        }
        for i in 0..a.len()
            invariant
                a.len() == b.len(),
                forall|j: int| 0 <= j < i ==> a[j].to_term(Reading::SpanFree) == b[j].to_term(Reading::SpanFree),
        {
            if !a[i].equivalent(&b[i]) {
                assert(
                    FieldDecl::terms(
                        *a,
                        Reading::SpanFree,
                    )[i as int] != FieldDecl::terms(*b, Reading::SpanFree)[i as int]
                );
                return false;
            }
        }
        assert(FieldDecl::terms(*a, Reading::SpanFree) =~= FieldDecl::terms(*b, Reading::SpanFree));
        true
    }
}

impl FormatEquivalent for FieldDecl {
    fn format_equivalent(&self, other: &Self) -> (r: bool) {
        self.equivalent(other)
    }
}

impl UnionMember {
    fn equivalent(&self, other: &Self) -> (r: bool)
        ensures
            r == (self.to_term(Reading::SpanFree) == other.to_term(Reading::SpanFree)),
    {
        self.name.format_equivalent(&other.name)
            && match (&self.payload, &other.payload) { (Some(some), Some(other_some)) => FieldDecl::equivalent_lists(some, other_some), (None, None) => true, _ => false }
    }

    fn equivalent_lists(a: &Vec<UnionMember>, b: &Vec<UnionMember>) -> (r: bool)
        ensures
            r == (UnionMember::terms(*a, Reading::SpanFree) == UnionMember::terms(*b, Reading::SpanFree)),
    {
        if a.len() != b.len() {
            assert(
                UnionMember::terms(*a, Reading::SpanFree).len() != UnionMember::terms(*b, Reading::SpanFree).len()
            );
            return false;
        }
        for i in 0..a.len()
            invariant
                a.len() == b.len(),
                forall|j: int| 0 <= j < i ==> a[j].to_term(Reading::SpanFree) == b[j].to_term(Reading::SpanFree),
        {
            if !a[i].equivalent(&b[i]) {
                assert(
                    UnionMember::terms(
                        *a,
                        Reading::SpanFree,
                    )[i as int] != UnionMember::terms(*b, Reading::SpanFree)[i as int]
                );
                return false;
            }
        }
        assert(UnionMember::terms(*a, Reading::SpanFree) =~= UnionMember::terms(*b, Reading::SpanFree));
        true
    }
}

impl FormatEquivalent for UnionMember {
    fn format_equivalent(&self, other: &Self) -> (r: bool) {
        self.equivalent(other)
    }
}

impl TypeDeclBody {
    fn equivalent(&self, other: &Self) -> (r: bool)
        ensures
            r == (self.to_term(Reading::SpanFree) == other.to_term(Reading::SpanFree)),
    {
        match self {
            TypeDeclBody::Required => match other {
                TypeDeclBody::Required => true,
                _ => false,
            },
            TypeDeclBody::Constructors(value) => match other {
                TypeDeclBody::Constructors(other_value) => UnionMember::equivalent_lists(value, other_value),
                _ => false,
            },
        }
    }
}

impl FormatEquivalent for TypeDeclBody {
    fn format_equivalent(&self, other: &Self) -> (r: bool) {
        self.equivalent(other)
    }
}

impl GenericParam {
    fn equivalent(&self, other: &Self) -> (r: bool)
        ensures
            r == (self.to_term(Reading::SpanFree) == other.to_term(Reading::SpanFree)),
    {
        self.name.format_equivalent(&other.name)
            && self.constraint.format_equivalent(&other.constraint)
            && match (&self.default, &other.default) { (Some(some), Some(other_some)) => some.equivalent(other_some), (None, None) => true, _ => false }
    }

    fn equivalent_lists(a: &Vec<GenericParam>, b: &Vec<GenericParam>) -> (r: bool)
        ensures
            r == (GenericParam::terms(*a, Reading::SpanFree) == GenericParam::terms(*b, Reading::SpanFree)),
    {
        if a.len() != b.len() {
            assert(
                GenericParam::terms(*a, Reading::SpanFree).len() != GenericParam::terms(*b, Reading::SpanFree).len()
            );
            return false;
        }
        for i in 0..a.len()
            invariant
                a.len() == b.len(),
                forall|j: int| 0 <= j < i ==> a[j].to_term(Reading::SpanFree) == b[j].to_term(Reading::SpanFree),
        {
            if !a[i].equivalent(&b[i]) {
                assert(
                    GenericParam::terms(
                        *a,
                        Reading::SpanFree,
                    )[i as int] != GenericParam::terms(*b, Reading::SpanFree)[i as int]
                );
                return false;
            }
        }
        assert(GenericParam::terms(*a, Reading::SpanFree) =~= GenericParam::terms(*b, Reading::SpanFree));
        true
    }
}

impl FormatEquivalent for GenericParam {
    fn format_equivalent(&self, other: &Self) -> (r: bool) {
        self.equivalent(other)
    }
}

impl TypeDecl {
    fn equivalent(&self, other: &Self) -> (r: bool)
        ensures
            r == (self.to_term(Reading::SpanFree) == other.to_term(Reading::SpanFree)),
    {
        self.visibility.format_equivalent(&other.visibility)
            && self.name.format_equivalent(&other.name)
            && GenericParam::equivalent_lists(&self.generic_params, &other.generic_params)
            && self.body.equivalent(&other.body)
    }
}

impl FormatEquivalent for TypeDecl {
    fn format_equivalent(&self, other: &Self) -> (r: bool) {
        self.equivalent(other)
    }
}

impl IndexDeclKind {
    fn equivalent(&self, other: &Self) -> (r: bool)
        ensures
            r == (self.to_term(Reading::SpanFree) == other.to_term(Reading::SpanFree)),
    {
        match self {
            IndexDeclKind::Named { variants } => match other {
                IndexDeclKind::Named { variants: other_variants } => variants.format_equivalent(other_variants),
                _ => false,
            },
            IndexDeclKind::Range { start, end, step } => match other {
                IndexDeclKind::Range {
                    start: other_start,
                    end: other_end,
                    step: other_step,
                } => start.equivalent(other_start) && end.equivalent(other_end) && step.equivalent(other_step),
                _ => false,
            },
            IndexDeclKind::Linspace { start, end, points } => match other {
                IndexDeclKind::Linspace {
                    start: other_start,
                    end: other_end,
                    points: other_points,
                } => start.equivalent(other_start) && end.equivalent(other_end) && points.format_equivalent(other_points),
                _ => false,
            },
            IndexDeclKind::RequiredNamed => match other {
                IndexDeclKind::RequiredNamed => true,
                _ => false,
            },
            IndexDeclKind::RequiredCoordinate { dimension } => match other {
                IndexDeclKind::RequiredCoordinate {
                    dimension: other_dimension
                } => dimension.format_equivalent(other_dimension),
                _ => false,
            },
        }
    }
}

impl FormatEquivalent for IndexDeclKind {
    fn format_equivalent(&self, other: &Self) -> (r: bool) {
        self.equivalent(other)
    }
}

impl IndexDecl {
    fn equivalent(&self, other: &Self) -> (r: bool)
        ensures
            r == (self.to_term(Reading::SpanFree) == other.to_term(Reading::SpanFree)),
    {
        self.visibility.format_equivalent(&other.visibility)
            && self.name.format_equivalent(&other.name)
            && self.kind.equivalent(&other.kind)
    }
}

impl FormatEquivalent for IndexDecl {
    fn format_equivalent(&self, other: &Self) -> (r: bool) {
        self.equivalent(other)
    }
}

impl IncludeDecl {
    fn equivalent(&self, other: &Self) -> (r: bool)
        ensures
            r == (self.to_term(Reading::SpanFree) == other.to_term(Reading::SpanFree)),
    {
        self.path.format_equivalent(&other.path)
            && ParamBinding::equivalent_lists(&self.param_bindings, &other.param_bindings)
            && self.kind.format_equivalent(&other.kind)
    }
}

impl FormatEquivalent for IncludeDecl {
    fn format_equivalent(&self, other: &Self) -> (r: bool) {
        self.equivalent(other)
    }
}

impl AssertBody {
    fn equivalent(&self, other: &Self) -> (r: bool)
        ensures
            r == (self.to_term(Reading::SpanFree) == other.to_term(Reading::SpanFree)),
    {
        match self {
            AssertBody::Expr(value) => match other {
                AssertBody::Expr(other_value) => value.equivalent(other_value),
                _ => false,
            },
            AssertBody::Tolerance { actual, expected, tolerance } => match other {
                AssertBody::Tolerance {
                    actual: other_actual,
                    expected: other_expected,
                    tolerance: other_tolerance,
                } => actual.equivalent(other_actual) && expected.equivalent(other_expected) && tolerance.equivalent(other_tolerance),
                _ => false,
            },
        }
    }
}

impl FormatEquivalent for AssertBody {
    fn format_equivalent(&self, other: &Self) -> (r: bool) {
        self.equivalent(other)
    }
}

impl AssertDecl {
    fn equivalent(&self, other: &Self) -> (r: bool)
        ensures
            r == (self.to_term(Reading::SpanFree) == other.to_term(Reading::SpanFree)),
    {
        self.visibility.format_equivalent(&other.visibility)
            && self.name.format_equivalent(&other.name)
            && self.body.equivalent(&other.body)
    }
}

impl FormatEquivalent for AssertDecl {
    fn format_equivalent(&self, other: &Self) -> (r: bool) {
        self.equivalent(other)
    }
}

impl PlotField {
    fn equivalent(&self, other: &Self) -> (r: bool)
        ensures
            r == (self.to_term(Reading::SpanFree) == other.to_term(Reading::SpanFree)),
    {
        self.name.format_equivalent(&other.name)
            && self.value.equivalent(&other.value)
    }

    fn equivalent_lists(a: &Vec<PlotField>, b: &Vec<PlotField>) -> (r: bool)
        ensures
            r == (PlotField::terms(*a, Reading::SpanFree) == PlotField::terms(*b, Reading::SpanFree)),
    {
        if a.len() != b.len() {
            assert(PlotField::terms(*a, Reading::SpanFree).len() != PlotField::terms(*b, Reading::SpanFree).len());
            return false;
        }
        for i in 0..a.len()
            invariant
                a.len() == b.len(),
                forall|j: int| 0 <= j < i ==> a[j].to_term(Reading::SpanFree) == b[j].to_term(Reading::SpanFree),
        {
            if !a[i].equivalent(&b[i]) {
                assert(
                    PlotField::terms(
                        *a,
                        Reading::SpanFree,
                    )[i as int] != PlotField::terms(*b, Reading::SpanFree)[i as int]
                );
                return false;
            }
        }
        assert(PlotField::terms(*a, Reading::SpanFree) =~= PlotField::terms(*b, Reading::SpanFree));
        true
    }
}

impl FormatEquivalent for PlotField {
    fn format_equivalent(&self, other: &Self) -> (r: bool) {
        self.equivalent(other)
    }
}

impl Encoding {
    fn equivalent(&self, other: &Self) -> (r: bool)
        ensures
            r == (self.to_term(Reading::SpanFree) == other.to_term(Reading::SpanFree)),
    {
        self.channel.format_equivalent(&other.channel)
            && self.value.equivalent(&other.value)
    }

    fn equivalent_lists(a: &Vec<Encoding>, b: &Vec<Encoding>) -> (r: bool)
        ensures
            r == (Encoding::terms(*a, Reading::SpanFree) == Encoding::terms(*b, Reading::SpanFree)),
    {
        if a.len() != b.len() {
            assert(Encoding::terms(*a, Reading::SpanFree).len() != Encoding::terms(*b, Reading::SpanFree).len());
            return false;
        }
        for i in 0..a.len()
            invariant
                a.len() == b.len(),
                forall|j: int| 0 <= j < i ==> a[j].to_term(Reading::SpanFree) == b[j].to_term(Reading::SpanFree),
        {
            if !a[i].equivalent(&b[i]) {
                assert(
                    Encoding::terms(
                        *a,
                        Reading::SpanFree,
                    )[i as int] != Encoding::terms(*b, Reading::SpanFree)[i as int]
                );
                return false;
            }
        }
        assert(Encoding::terms(*a, Reading::SpanFree) =~= Encoding::terms(*b, Reading::SpanFree));
        true
    }
}

impl FormatEquivalent for Encoding {
    fn format_equivalent(&self, other: &Self) -> (r: bool) {
        self.equivalent(other)
    }
}

impl MarkSpec {
    fn equivalent(&self, other: &Self) -> (r: bool)
        ensures
            r == (self.to_term(Reading::SpanFree) == other.to_term(Reading::SpanFree)),
    {
        self.mark_type.format_equivalent(&other.mark_type)
            && PlotField::equivalent_lists(&self.properties, &other.properties)
    }
}

impl FormatEquivalent for MarkSpec {
    fn format_equivalent(&self, other: &Self) -> (r: bool) {
        self.equivalent(other)
    }
}

impl PlotDecl {
    fn equivalent(&self, other: &Self) -> (r: bool)
        ensures
            r == (self.to_term(Reading::SpanFree) == other.to_term(Reading::SpanFree)),
    {
        self.visibility.format_equivalent(&other.visibility)
            && self.name.format_equivalent(&other.name)
            && self.mark.equivalent(&other.mark)
            && Encoding::equivalent_lists(&self.encodings, &other.encodings)
            && PlotField::equivalent_lists(&self.properties, &other.properties)
    }
}

impl FormatEquivalent for PlotDecl {
    fn format_equivalent(&self, other: &Self) -> (r: bool) {
        self.equivalent(other)
    }
}

impl FigureDecl {
    fn equivalent(&self, other: &Self) -> (r: bool)
        ensures
            r == (self.to_term(Reading::SpanFree) == other.to_term(Reading::SpanFree)),
    {
        self.visibility.format_equivalent(&other.visibility)
            && self.name.format_equivalent(&other.name)
            && self.plot_names.format_equivalent(&other.plot_names)
            && PlotField::equivalent_lists(&self.fields, &other.fields)
    }
}

impl FormatEquivalent for FigureDecl {
    fn format_equivalent(&self, other: &Self) -> (r: bool) {
        self.equivalent(other)
    }
}

impl LayerDecl {
    fn equivalent(&self, other: &Self) -> (r: bool)
        ensures
            r == (self.to_term(Reading::SpanFree) == other.to_term(Reading::SpanFree)),
    {
        self.visibility.format_equivalent(&other.visibility)
            && self.name.format_equivalent(&other.name)
            && self.plot_names.format_equivalent(&other.plot_names)
            && PlotField::equivalent_lists(&self.fields, &other.fields)
    }
}

impl FormatEquivalent for LayerDecl {
    fn format_equivalent(&self, other: &Self) -> (r: bool) {
        self.equivalent(other)
    }
}

impl ExternFnParam {
    fn equivalent(&self, other: &Self) -> (r: bool)
        ensures
            r == (self.to_term(Reading::SpanFree) == other.to_term(Reading::SpanFree)),
    {
        self.name.format_equivalent(&other.name)
            && self.type_ann.equivalent(&other.type_ann)
    }

    fn equivalent_lists(a: &Vec<ExternFnParam>, b: &Vec<ExternFnParam>) -> (r: bool)
        ensures
            r == (ExternFnParam::terms(*a, Reading::SpanFree) == ExternFnParam::terms(*b, Reading::SpanFree)),
    {
        if a.len() != b.len() {
            assert(
                ExternFnParam::terms(*a, Reading::SpanFree).len() != ExternFnParam::terms(*b, Reading::SpanFree).len()
            );
            return false;
        }
        for i in 0..a.len()
            invariant
                a.len() == b.len(),
                forall|j: int| 0 <= j < i ==> a[j].to_term(Reading::SpanFree) == b[j].to_term(Reading::SpanFree),
        {
            if !a[i].equivalent(&b[i]) {
                assert(
                    ExternFnParam::terms(
                        *a,
                        Reading::SpanFree,
                    )[i as int] != ExternFnParam::terms(*b, Reading::SpanFree)[i as int]
                );
                return false;
            }
        }
        assert(ExternFnParam::terms(*a, Reading::SpanFree) =~= ExternFnParam::terms(*b, Reading::SpanFree));
        true
    }
}

impl FormatEquivalent for ExternFnParam {
    fn format_equivalent(&self, other: &Self) -> (r: bool) {
        self.equivalent(other)
    }
}

impl ExternFnDecl {
    fn equivalent(&self, other: &Self) -> (r: bool)
        ensures
            r == (self.to_term(Reading::SpanFree) == other.to_term(Reading::SpanFree)),
    {
        self.name.format_equivalent(&other.name)
            && self.generics.format_equivalent(&other.generics)
            && ExternFnParam::equivalent_lists(&self.params, &other.params)
            && self.result.equivalent(&other.result)
    }

    fn equivalent_lists(a: &Vec<ExternFnDecl>, b: &Vec<ExternFnDecl>) -> (r: bool)
        ensures
            r == (ExternFnDecl::terms(*a, Reading::SpanFree) == ExternFnDecl::terms(*b, Reading::SpanFree)),
    {
        if a.len() != b.len() {
            assert(
                ExternFnDecl::terms(*a, Reading::SpanFree).len() != ExternFnDecl::terms(*b, Reading::SpanFree).len()
            );
            return false;
        }
        for i in 0..a.len()
            invariant
                a.len() == b.len(),
                forall|j: int| 0 <= j < i ==> a[j].to_term(Reading::SpanFree) == b[j].to_term(Reading::SpanFree),
        {
            if !a[i].equivalent(&b[i]) {
                assert(
                    ExternFnDecl::terms(
                        *a,
                        Reading::SpanFree,
                    )[i as int] != ExternFnDecl::terms(*b, Reading::SpanFree)[i as int]
                );
                return false;
            }
        }
        assert(ExternFnDecl::terms(*a, Reading::SpanFree) =~= ExternFnDecl::terms(*b, Reading::SpanFree));
        true
    }
}

impl FormatEquivalent for ExternFnDecl {
    fn format_equivalent(&self, other: &Self) -> (r: bool) {
        self.equivalent(other)
    }
}

impl PluginImportDecl {
    fn equivalent(&self, other: &Self) -> (r: bool)
        ensures
            r == (self.to_term(Reading::SpanFree) == other.to_term(Reading::SpanFree)),
    {
        self.path.format_equivalent(&other.path)
            && self.alias.format_equivalent(&other.alias)
            && ExternFnDecl::equivalent_lists(&self.functions, &other.functions)
    }
}

impl FormatEquivalent for PluginImportDecl {
    fn format_equivalent(&self, other: &Self) -> (r: bool) {
        self.equivalent(other)
    }
}

impl MultiDeclSlot {
    fn equivalent(&self, other: &Self) -> (r: bool)
        ensures
            r == (self.to_term(Reading::SpanFree) == other.to_term(Reading::SpanFree)),
    {
        self.visibility.format_equivalent(&other.visibility)
            && self.kind.format_equivalent(&other.kind)
            && self.name.format_equivalent(&other.name)
            && self.type_ann.equivalent(&other.type_ann)
    }

    fn equivalent_lists(a: &Vec<MultiDeclSlot>, b: &Vec<MultiDeclSlot>) -> (r: bool)
        ensures
            r == (MultiDeclSlot::terms(*a, Reading::SpanFree) == MultiDeclSlot::terms(*b, Reading::SpanFree)),
    {
        if a.len() != b.len() {
            assert(
                MultiDeclSlot::terms(*a, Reading::SpanFree).len() != MultiDeclSlot::terms(*b, Reading::SpanFree).len()
            );
            return false;
        }
        for i in 0..a.len()
            invariant
                a.len() == b.len(),
                forall|j: int| 0 <= j < i ==> a[j].to_term(Reading::SpanFree) == b[j].to_term(Reading::SpanFree),
        {
            if !a[i].equivalent(&b[i]) {
                assert(
                    MultiDeclSlot::terms(
                        *a,
                        Reading::SpanFree,
                    )[i as int] != MultiDeclSlot::terms(*b, Reading::SpanFree)[i as int]
                );
                return false;
            }
        }
        assert(MultiDeclSlot::terms(*a, Reading::SpanFree) =~= MultiDeclSlot::terms(*b, Reading::SpanFree));
        true
    }
}

impl FormatEquivalent for MultiDeclSlot {
    fn format_equivalent(&self, other: &Self) -> (r: bool) {
        self.equivalent(other)
    }
}

impl MultiDataRow {
    fn equivalent(&self, other: &Self) -> (r: bool)
        ensures
            r == (self.to_term(Reading::SpanFree) == other.to_term(Reading::SpanFree)),
    {
        self.label.format_equivalent(&other.label)
            && Expr::equivalent_lists(&self.values, &other.values)
    }

    fn equivalent_lists(a: &Vec<MultiDataRow>, b: &Vec<MultiDataRow>) -> (r: bool)
        ensures
            r == (MultiDataRow::terms(*a, Reading::SpanFree) == MultiDataRow::terms(*b, Reading::SpanFree)),
    {
        if a.len() != b.len() {
            assert(
                MultiDataRow::terms(*a, Reading::SpanFree).len() != MultiDataRow::terms(*b, Reading::SpanFree).len()
            );
            return false;
        }
        for i in 0..a.len()
            invariant
                a.len() == b.len(),
                forall|j: int| 0 <= j < i ==> a[j].to_term(Reading::SpanFree) == b[j].to_term(Reading::SpanFree),
        {
            if !a[i].equivalent(&b[i]) {
                assert(
                    MultiDataRow::terms(
                        *a,
                        Reading::SpanFree,
                    )[i as int] != MultiDataRow::terms(*b, Reading::SpanFree)[i as int]
                );
                return false;
            }
        }
        assert(MultiDataRow::terms(*a, Reading::SpanFree) =~= MultiDataRow::terms(*b, Reading::SpanFree));
        true
    }
}

impl FormatEquivalent for MultiDataRow {
    fn format_equivalent(&self, other: &Self) -> (r: bool) {
        self.equivalent(other)
    }
}

impl MultiDeclSlice {
    fn equivalent(&self, other: &Self) -> (r: bool)
        ensures
            r == (self.to_term(Reading::SpanFree) == other.to_term(Reading::SpanFree)),
    {
        MapEntryKey::equivalent_lists(&self.prefix_keys, &other.prefix_keys)
            && self.header_cells.format_equivalent(&other.header_cells)
            && self.column_layout.format_equivalent(&other.column_layout)
            && MultiDataRow::equivalent_lists(&self.rows, &other.rows)
    }

    fn equivalent_lists(a: &Vec<MultiDeclSlice>, b: &Vec<MultiDeclSlice>) -> (r: bool)
        ensures
            r == (MultiDeclSlice::terms(*a, Reading::SpanFree) == MultiDeclSlice::terms(*b, Reading::SpanFree)),
    {
        if a.len() != b.len() {
            assert(
                MultiDeclSlice::terms(
                    *a,
                    Reading::SpanFree,
                ).len() != MultiDeclSlice::terms(*b, Reading::SpanFree).len()
            );
            return false;
        }
        for i in 0..a.len()
            invariant
                a.len() == b.len(),
                forall|j: int| 0 <= j < i ==> a[j].to_term(Reading::SpanFree) == b[j].to_term(Reading::SpanFree),
        {
            if !a[i].equivalent(&b[i]) {
                assert(
                    MultiDeclSlice::terms(
                        *a,
                        Reading::SpanFree,
                    )[i as int] != MultiDeclSlice::terms(*b, Reading::SpanFree)[i as int]
                );
                return false;
            }
        }
        assert(MultiDeclSlice::terms(*a, Reading::SpanFree) =~= MultiDeclSlice::terms(*b, Reading::SpanFree));
        true
    }
}

impl FormatEquivalent for MultiDeclSlice {
    fn format_equivalent(&self, other: &Self) -> (r: bool) {
        self.equivalent(other)
    }
}

impl MultiDecl {
    fn equivalent(&self, other: &Self) -> (r: bool)
        ensures
            r == (self.to_term(Reading::SpanFree) == other.to_term(Reading::SpanFree)),
    {
        MultiDeclSlot::equivalent_lists(&self.slots, &other.slots)
            && self.shared_axes.format_equivalent(&other.shared_axes)
            && self.slot_axes.format_equivalent(&other.slot_axes)
            && MultiDeclSlice::equivalent_lists(&self.slices, &other.slices)
    }
}

impl FormatEquivalent for MultiDecl {
    fn format_equivalent(&self, other: &Self) -> (r: bool) {
        self.equivalent(other)
    }
}

impl RawDeclSugar {
    fn equivalent(&self, other: &Self) -> (r: bool)
        ensures
            r == (self.to_term(Reading::SpanFree) == other.to_term(Reading::SpanFree)),
    {
        match self {
            RawDeclSugar::Multi(value) => match other {
                RawDeclSugar::Multi(other_value) => value.equivalent(other_value),
            },
        }
    }
}

impl FormatEquivalent for RawDeclSugar {
    fn format_equivalent(&self, other: &Self) -> (r: bool) {
        self.equivalent(other)
    }
}

impl DagDecl {
    fn equivalent(&self, other: &Self) -> (r: bool)
        ensures
            r == (self.to_term(Reading::SpanFree) == other.to_term(Reading::SpanFree)),
        decreases self,
    {
        self.visibility.format_equivalent(&other.visibility)
            && self.name.format_equivalent(&other.name)
            && Declaration::equivalent_lists(&self.body, &other.body)
    }
}

impl FormatEquivalent for DagDecl {
    fn format_equivalent(&self, other: &Self) -> (r: bool) {
        self.equivalent(other)
    }
}

impl DeclKind {
    fn equivalent(&self, other: &Self) -> (r: bool)
        ensures
            r == (self.to_term(Reading::SpanFree) == other.to_term(Reading::SpanFree)),
        decreases self,
    {
        match self {
            DeclKind::Param(value) => match other {
                DeclKind::Param(other_value) => value.equivalent(other_value),
                _ => false,
            },
            DeclKind::Node(value) => match other {
                DeclKind::Node(other_value) => value.equivalent(other_value),
                _ => false,
            },
            DeclKind::ConstNode(value) => match other {
                DeclKind::ConstNode(other_value) => value.equivalent(other_value),
                _ => false,
            },
            DeclKind::BaseDimension(value) => match other {
                DeclKind::BaseDimension(other_value) => value.format_equivalent(other_value),
                _ => false,
            },
            DeclKind::Dimension(value) => match other {
                DeclKind::Dimension(other_value) => value.format_equivalent(other_value),
                _ => false,
            },
            DeclKind::Unit(value) => match other {
                DeclKind::Unit(other_value) => value.equivalent(other_value),
                _ => false,
            },
            DeclKind::Type(value) => match other {
                DeclKind::Type(other_value) => value.equivalent(other_value),
                _ => false,
            },
            DeclKind::Index(value) => match other {
                DeclKind::Index(other_value) => value.equivalent(other_value),
                _ => false,
            },
            DeclKind::Import(value) => match other {
                DeclKind::Import(other_value) => value.format_equivalent(other_value),
                _ => false,
            },
            DeclKind::PluginImport(value) => match other {
                DeclKind::PluginImport(other_value) => value.equivalent(other_value),
                _ => false,
            },
            DeclKind::Include(value) => match other {
                DeclKind::Include(other_value) => value.equivalent(other_value),
                _ => false,
            },
            DeclKind::Dag(value) => match other {
                DeclKind::Dag(other_value) => value.equivalent(other_value),
                _ => false,
            },
            DeclKind::Assert(value) => match other {
                DeclKind::Assert(other_value) => value.equivalent(other_value),
                _ => false,
            },
            DeclKind::Plot(value) => match other {
                DeclKind::Plot(other_value) => value.equivalent(other_value),
                _ => false,
            },
            DeclKind::Figure(value) => match other {
                DeclKind::Figure(other_value) => value.equivalent(other_value),
                _ => false,
            },
            DeclKind::Layer(value) => match other {
                DeclKind::Layer(other_value) => value.equivalent(other_value),
                _ => false,
            },
            DeclKind::Sugar(value) => match other {
                DeclKind::Sugar(other_value) => value.equivalent(other_value),
                _ => false,
            },
        }
    }
}

impl FormatEquivalent for DeclKind {
    fn format_equivalent(&self, other: &Self) -> (r: bool) {
        self.equivalent(other)
    }
}

impl Declaration {
    fn equivalent(&self, other: &Self) -> (r: bool)
        ensures
            r == (self.to_term(Reading::SpanFree) == other.to_term(Reading::SpanFree)),
        decreases self,
    {
        self.attributes.format_equivalent(&other.attributes)
            && self.kind.equivalent(&other.kind)
    }

    fn equivalent_lists(a: &Vec<Declaration>, b: &Vec<Declaration>) -> (r: bool)
        ensures
            r == (Declaration::terms(*a, Reading::SpanFree) == Declaration::terms(*b, Reading::SpanFree)),
        decreases a,
    {
        if a.len() != b.len() {
            assert(
                Declaration::terms(*a, Reading::SpanFree).len() != Declaration::terms(*b, Reading::SpanFree).len()
            );
            return false;
        }
        for i in 0..a.len()
            invariant
                a.len() == b.len(),
                forall|j: int| 0 <= j < i ==> a[j].to_term(Reading::SpanFree) == b[j].to_term(Reading::SpanFree),
        {
            if !a[i].equivalent(&b[i]) {
                assert(
                    Declaration::terms(
                        *a,
                        Reading::SpanFree,
                    )[i as int] != Declaration::terms(*b, Reading::SpanFree)[i as int]
                );
                return false;
            }
        }
        assert(Declaration::terms(*a, Reading::SpanFree) =~= Declaration::terms(*b, Reading::SpanFree));
        true
    }
}

impl FormatEquivalent for Declaration {
    fn format_equivalent(&self, other: &Self) -> (r: bool) {
        self.equivalent(other)
    }
}

impl File {
    fn equivalent(&self, other: &Self) -> (r: bool)
        ensures
            r == (self.to_term(Reading::SpanFree) == other.to_term(Reading::SpanFree)),
    {
        Declaration::equivalent_lists(&self.declarations, &other.declarations)
    }
}

impl FormatEquivalent for File {
    fn format_equivalent(&self, other: &Self) -> (r: bool) {
        self.equivalent(other)
    }
}

} // verus!
