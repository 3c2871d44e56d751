//! Expansion of multi-declarations.
//!
//! A multi-declaration writes several declarations beside one table whose rows
//! they share. It stands for one ordinary declaration per slot: each gets the
//! table of its own columns, with the positions of the cells it was written in.

use crate::desugar::desugared_ast;
use crate::syntax::ast::{
    DeclKind, Declaration, Expr, ExprKind, File, IndexEntryKey, MapEntry, MapEntryIndex, MapEntryKey,
    MultiDecl, MultiDeclSlice, MultiHeaderCell, MultiSlotColumnSpan, MultiSlotKind, ParamDecl,
    RawExprSugar, TableIndexSpec, ValueDecl,
};
use crate::desugar::convert::flattened;
use crate::syntax::multi_decl::{rows_fit, slices_fit};
use crate::syntax::non_empty::NonEmpty;
use crate::syntax::span::{reaching, Span, Spanned};
use crate::syntax::term::{
    marks, node1, node2, node3, node4, pair, prepend, seq_terms, DeepClone, Reading, Spans, Syntax, Tag, Term,
};
use vstd::prelude::*;

verus! {

/// A declaration that an expansion gives: a slot is never sugar itself.
#[derive(Debug)]
pub enum ExpandedSlotDecl {
    Param(ParamDecl, Span),
    Node(ValueDecl, Span),
    ConstNode(ValueDecl, Span),
}

/// The index that a table axis names, with its position.
pub open spec fn axis_index(axis: TableIndexSpec) -> Term {
    match axis {
        TableIndexSpec::Named(path) => pair(
            node1(Tag::MapEntryIndexNamed, path.value.term(Spans::Kept)),
            Term::At(path.span),
        ),
        TableIndexSpec::Finite { cardinality, span } => pair(
            node1(Tag::MapEntryIndexFinite, Term::Int(cardinality as int)),
            Term::At(span),
        ),
    }
}

/// A discrete key of a map entry.
pub open spec fn discrete_key(index: Term, additional: Seq<Span>, entry: Term) -> Term {
    node3(Tag::MapEntryKeyDiscrete, index, marks(Spans::Kept, additional), entry)
}

/// The terms of some map keys.
pub open spec fn key_terms(keys: Seq<MapEntryKey>, r: Reading) -> Seq<Term> {
    Seq::new(keys.len(), |i: int| keys[i].to_term(r))
}

/// The entry that one cell of a slice becomes: the slice's keys come first,
/// then the row's, then the column's where the slot has an axis of its own.
pub open(crate) spec fn cell_entry(
    slice: MultiDeclSlice,
    row: int,
    column: int,
    row_axis: TableIndexSpec,
    column_keys: Seq<Term>,
    r: Reading,
) -> Term {
    let row_key = discrete_key(axis_index(row_axis), Seq::empty(), slice.rows@[row].label.term(Spans::Kept));
    node2(
        Tag::MapEntry,
        Term::List(key_terms(slice.prefix_keys@, r).push(row_key) + column_keys),
        slice.rows@[row].values@[column].to_term(r),
    )
}

/// The positions of the labelled cells among `cells[start..end]`.
pub open spec fn labelled_columns(cells: Seq<MultiHeaderCell>, start: int, end: int) -> Seq<int>
    decreases end - start,
{
    if start >= end {
        Seq::empty()
    } else if cells[end - 1] is Variant {
        labelled_columns(cells, start, end - 1).push(end - 1)
    } else {
        labelled_columns(cells, start, end - 1)
    }
}

/// The key of a labelled column.
pub open spec fn column_key(cell: MultiHeaderCell, extra_axis_span: Span) -> Term {
    match cell {
        MultiHeaderCell::Variant { axis, variant, span } => discrete_key(
            pair(node1(Tag::MapEntryIndexNamed, axis.value.term(Spans::Kept)), Term::At(axis.span)),
            seq![extra_axis_span],
            pair(node1(Tag::IndexEntryKeyNamed, variant.value.term(Spans::Kept)), Term::At(variant.span)),
        ),
        MultiHeaderCell::Underscore { span } => Term::Absent,
    }
}

/// The entries of one row of a slot with an axis of its own.
pub open(crate) spec fn row_entries(
    slice: MultiDeclSlice,
    row: int,
    start: int,
    columns: Seq<int>,
    extra_axis_span: Span,
    row_axis: TableIndexSpec,
    r: Reading,
) -> Seq<Term> {
    Seq::new(
        columns.len(),
        |k: int|
            cell_entry(
                slice,
                row,
                start + k,
                row_axis,
                seq![column_key(slice.header_cells@[columns[k]], extra_axis_span)],
                r,
            ),
    )
}

/// The entries of the first `rows` rows of a slot with an axis of its own.
pub open(crate) spec fn range_entries(
    slice: MultiDeclSlice,
    rows: nat,
    start: int,
    columns: Seq<int>,
    extra_axis_span: Span,
    row_axis: TableIndexSpec,
    r: Reading,
) -> Seq<Term>
    decreases rows,
{
    if rows == 0 {
        Seq::empty()
    } else {
        range_entries(slice, (rows - 1) as nat, start, columns, extra_axis_span, row_axis, r) + row_entries(
            slice,
            rows - 1,
            start,
            columns,
            extra_axis_span,
            row_axis,
            r,
        )
    }
}

/// What a slot gets from one slice.
pub open(crate) spec fn slice_entries(
    slice: MultiDeclSlice,
    slot: int,
    row_axis: TableIndexSpec,
    r: Reading,
) -> Seq<Term> {
    match slice.column_layout@[slot] {
        MultiSlotColumnSpan::Single(column) => Seq::new(
            slice.rows@.len(),
            |i: int| cell_entry(slice, i, column as int, row_axis, Seq::empty(), r),
        ),
        MultiSlotColumnSpan::Range { start, end, extra_axis } => range_entries(
            slice,
            slice.rows@.len(),
            start as int,
            labelled_columns(slice.header_cells@, start as int, end as int),
            extra_axis.span,
            row_axis,
            r,
        ),
    }
}

/// What a slot gets from the first `n` slices, in order.
pub open(crate) spec fn slot_entries(multi: MultiDecl, slot: int, n: nat, r: Reading) -> Seq<Term>
    decreases n,
{
    if n == 0 {
        Seq::empty()
    } else {
        slot_entries(multi, slot, (n - 1) as nat, r) + slice_entries(
            multi.slices@[n - 1],
            slot,
            multi.shared_axes.row_axis,
            r,
        )
    }
}

/// The axis of the slot's own that the first `n` slices mention first.
pub open(crate) spec fn slot_extra_axis(multi: MultiDecl, slot: int, n: nat) -> Option<Term>
    decreases n,
{
    if n == 0 {
        None
    } else {
        match slot_extra_axis(multi, slot, (n - 1) as nat) {
            Some(axis) => Some(axis),
            None => match multi.slices@[n - 1].column_layout@[slot] {
                MultiSlotColumnSpan::Single(column) => None,
                MultiSlotColumnSpan::Range { start, end, extra_axis } => Some(extra_axis.term(Spans::Kept)),
            },
        }
    }
}

/// The axes of the table that a slot gets: the shared ones, then its own.
pub open(crate) spec fn slot_axes(multi: MultiDecl, slot: int) -> Seq<Term> {
    let shared = seq_terms(multi.shared_axes.slice_axes@, Spans::Kept).push(
        multi.shared_axes.row_axis.term(Spans::Kept),
    );
    match slot_extra_axis(multi, slot, multi.slices@.len()) {
        Some(axis) => shared.push(node1(Tag::TableIndexSpecNamed, axis)),
        None => shared,
    }
}

/// The table that a slot gets.
pub open(crate) spec fn slot_table(multi: MultiDecl, slot: int, r: Reading) -> Term {
    let entries = slot_entries(multi, slot, multi.slices@.len(), r);
    let table = match r {
        Reading::Desugared => node1(Tag::ExprMapLiteral, Term::List(entries)),
        _ => node2(Tag::TableLiteral, Term::List(slot_axes(multi, slot)), Term::List(entries)),
    };
    node2(Tag::Expr, table, Term::At(multi.table_expr_span))
}

/// The declaration that a slot stands for. It reaches from the slot's header
/// to the end of the multi-declaration and has no attributes.
pub open(crate) spec fn slot_declaration(multi: MultiDecl, slot: int, r: Reading) -> Term {
    let header = multi.slots@[slot];
    let name = header.name.term(Spans::Kept);
    let type_ann = header.type_ann.to_term(r);
    let table = slot_table(multi, slot, r);
    let visibility = header.visibility.term(Spans::Kept);
    let kind = match header.kind {
        MultiSlotKind::Param => node1(
            Tag::DeclParam,
            node3(Tag::ParamDecl, name, type_ann, crate::syntax::term::present(table)),
        ),
        MultiSlotKind::Node => node1(Tag::DeclNode, node4(Tag::ValueDecl, visibility, name, type_ann, table)),
        MultiSlotKind::ConstNode => node1(
            Tag::DeclConstNode,
            node4(Tag::ValueDecl, visibility, name, type_ann, table),
        ),
    };
    node3(
        Tag::Declaration,
        Term::List(Seq::empty()),
        kind,
        Term::At(reaching(header.header_span, multi.span)),
    )
}

impl ExpandedSlotDecl {
    /// Where the declaration stands.
    pub open spec fn place(self) -> Span {
        match self {
            ExpandedSlotDecl::Param(_, span) => span,
            ExpandedSlotDecl::Node(_, span) => span,
            ExpandedSlotDecl::ConstNode(_, span) => span,
        }
    }

    /// The declaration with no attributes that this stands for.
    pub open spec fn to_term(self, r: Reading) -> Term {
        match self {
            ExpandedSlotDecl::Param(decl, span) => node3(
                Tag::Declaration,
                Term::List(Seq::empty()),
                node1(Tag::DeclParam, decl.to_term(r)),
                Term::At(span),
            ),
            ExpandedSlotDecl::Node(decl, span) => node3(
                Tag::Declaration,
                Term::List(Seq::empty()),
                node1(Tag::DeclNode, decl.to_term(r)),
                Term::At(span),
            ),
            ExpandedSlotDecl::ConstNode(decl, span) => node3(
                Tag::Declaration,
                Term::List(Seq::empty()),
                node1(Tag::DeclConstNode, decl.to_term(r)),
                Term::At(span),
            ),
        }
    }

    /// The same declaration as an ordinary one.
    pub fn into_declaration(self) -> (r: Declaration)
        ensures
            r.to_term(Reading::Exact) == self.to_term(Reading::Exact),
            r.attributes@.len() == 0,
            match self {
                ExpandedSlotDecl::Param(decl, span) => r.kind == DeclKind::Param(decl) && r.span == span,
                ExpandedSlotDecl::Node(decl, span) => r.kind == DeclKind::Node(decl) && r.span == span,
                ExpandedSlotDecl::ConstNode(decl, span) => r.kind == DeclKind::ConstNode(decl) && r.span == span,
            },
    {
        let (kind, span) = match self {
            ExpandedSlotDecl::Param(decl, span) => (DeclKind::Param(decl), span),
            ExpandedSlotDecl::Node(decl, span) => (DeclKind::Node(decl), span),
            ExpandedSlotDecl::ConstNode(decl, span) => (DeclKind::ConstNode(decl), span),
        };
        let r = Declaration { attributes: Vec::new(), kind, span };
        assert(seq_terms(r.attributes@, Spans::Kept) =~= Seq::empty());
        r
    }
}

/// Put the keys of an entry in order: the slice's, the row's, the column's.
pub(crate) fn multi_entry_keys(
    prefix: Vec<MapEntryKey>,
    row: MapEntryKey,
    extra: Option<MapEntryKey>,
) -> (r: NonEmpty<
    MapEntryKey,
>)
    ensures
        r@ == match extra {
            Some(key) => prefix@.push(row).push(key),
            None => prefix@.push(row),
        },
{
    let mut prefix = prefix;
    let ghost all = prefix@;
    if prefix.len() == 0 {
        let mut rest: Vec<MapEntryKey> = Vec::new();
        match extra {
            Some(key) => {
                rest.push(key);
                let r = NonEmpty::new(row, rest);
                assert(r@ =~= all.push(row).push(key));
                r
            },
            None => {
                let r = NonEmpty::new(row, rest);
                assert(r@ =~= all.push(row));
                r
            },
        }
    } else {
        let first = prefix.remove(0);
        prefix.push(row);
        match extra {
            Some(key) => {
                prefix.push(key);
                let r = NonEmpty::new(first, prefix);
                assert(r@ =~= all.push(row).push(key));
                r
            },
            None => {
                let r = NonEmpty::new(first, prefix);
                assert(r@ =~= all.push(row));
                r
            },
        }
    }
}

pub(crate) proof fn lemma_key_terms(keys: NonEmpty<MapEntryKey>, r: Reading)
    ensures
        prepend(keys.first.to_term(r), MapEntryKey::terms(keys.rest, r)) == key_terms(keys@, r),
{
    assert(prepend(keys.first.to_term(r), MapEntryKey::terms(keys.rest, r)) =~= key_terms(keys@, r));
}

pub(crate) proof fn lemma_prefix_terms(copy: Vec<MapEntryKey>, original: Vec<MapEntryKey>, r: Reading)
    requires
        MapEntryKey::terms(copy, r) == MapEntryKey::terms(original, r),
    ensures
        key_terms(copy@, r) == key_terms(original@, r),
{
    assert(MapEntryKey::terms(copy, r) =~= key_terms(copy@, r));
    assert(MapEntryKey::terms(original, r) =~= key_terms(original@, r));
}

/// The index that the rows are labelled by, as the key of an entry names it.
fn axis_entry_index(axis: &TableIndexSpec) -> (r: Spanned<MapEntryIndex>)
    ensures
        r.term(Spans::Kept) == axis_index(*axis),
{
    match axis {
        TableIndexSpec::Named(path) => Spanned::new(MapEntryIndex::Named(path.value.deep_clone()), path.span),
        TableIndexSpec::Finite { cardinality, span } => Spanned::new(MapEntryIndex::Finite(*cardinality), *span),
    }
}

/// The entry of one cell.
fn entry_of_cell(
    slice: &MultiDeclSlice,
    row: usize,
    column: usize,
    row_axis: &TableIndexSpec,
    extra: Option<MapEntryKey>,
) -> (r: MapEntry)
    requires
        row < slice.rows@.len(),
        column < slice.rows@[row as int].values@.len(),
    ensures
        r.to_term(Reading::Exact) == cell_entry(
            *slice,
            row as int,
            column as int,
            *row_axis,
            match extra {
                Some(key) => seq![key.to_term(Reading::Exact)],
                None => Seq::empty(),
            },
            Reading::Exact,
        ),
        r.to_term(Reading::Desugared) == cell_entry(
            *slice,
            row as int,
            column as int,
            *row_axis,
            match extra {
                Some(key) => seq![key.to_term(Reading::Desugared)],
                None => Seq::empty(),
            },
            Reading::Desugared,
        ),
{
    let row_key = MapEntryKey::Discrete {
        index: axis_entry_index(row_axis),
        additional_index_spans: Vec::new(),
        entry: slice.rows[row].label.deep_clone(),
    };
    let prefix = MapEntryKey::duplicate_list(&slice.prefix_keys);
    let ghost spans = Seq::<Span>::empty();
    proof {
        assert(spans.map_values(|span: Span| Term::At(span)) =~= Seq::<Term>::empty());
        lemma_prefix_terms(prefix, slice.prefix_keys, Reading::Exact);
        lemma_prefix_terms(prefix, slice.prefix_keys, Reading::Desugared);
    }
    let ghost before = prefix@;
    let keys = multi_entry_keys(prefix, row_key, extra);
    let value = slice.rows[row].values[column].duplicate();
    proof {
        lemma_key_terms(keys, Reading::Exact);
        lemma_key_terms(keys, Reading::Desugared);
        lemma_keys_appended(before, row_key, extra, Reading::Exact);
        lemma_keys_appended(before, row_key, extra, Reading::Desugared);
        assert(row_key->additional_index_spans@ =~= spans);
    }
    MapEntry { keys, value }
}

pub(crate) proof fn lemma_keys_appended(
    prefix: Seq<MapEntryKey>,
    row: MapEntryKey,
    extra: Option<MapEntryKey>,
    r: Reading,
)
    ensures
        match extra {
            Some(key) => key_terms(prefix.push(row).push(key), r) == key_terms(prefix, r).push(row.to_term(r))
                + seq![key.to_term(r)],
            None => key_terms(prefix.push(row), r) == key_terms(prefix, r).push(row.to_term(r)) + Seq::empty(),
        },
{
    match extra {
        Some(key) => {
            assert(key_terms(prefix.push(row).push(key), r) =~= key_terms(prefix, r).push(row.to_term(r)) + seq![
                key.to_term(r),
            ]);
        },
        None => {
            assert(key_terms(prefix.push(row), r) =~= key_terms(prefix, r).push(row.to_term(r)) + Seq::empty());
        },
    }
}

/// The labelled cells among `cells[start..end]`.
fn labelled_cells(cells: &Vec<MultiHeaderCell>, start: usize, end: usize) -> (r: Vec<usize>)
    requires
        start <= end <= cells.len(),
    ensures
        r@.map_values(|p: usize| p as int) == labelled_columns(cells@, start as int, end as int),
        r@.len() <= end - start,
        forall|k: int| 0 <= k < r@.len() ==> start <= #[trigger] r@[k] < end && cells@[r@[k] as int] is Variant,
{
    let mut out: Vec<usize> = Vec::new();
    assert(out@.map_values(|p: usize| p as int) =~= labelled_columns(cells@, start as int, start as int));
    for i in start..end
        invariant
            start <= end <= cells.len(),
            out@.map_values(|p: usize| p as int) == labelled_columns(cells@, start as int, i as int),
            out@.len() <= i - start,
            forall|k: int| 0 <= k < out@.len() ==> start <= #[trigger] out@[k] < i
                && cells@[out@[k] as int] is Variant,
    {
        let ghost before = out@;
        match &cells[i] {
            MultiHeaderCell::Variant { .. } => {
                out.push(i);
                assert(out@.map_values(|p: usize| p as int) =~= before.map_values(|p: usize| p as int).push(
                    i as int,
                ));
            },
            MultiHeaderCell::Underscore { .. } => {},
        }
    }
    out
}

/// The key of a labelled column.
fn key_of_column(cell: &MultiHeaderCell, extra_axis_span: Span) -> (r: MapEntryKey)
    requires
        cell is Variant,
    ensures
        r.to_term(Reading::Exact) == column_key(*cell, extra_axis_span),
        r.to_term(Reading::Desugared) == column_key(*cell, extra_axis_span),
{
    let mut spans: Vec<Span> = Vec::new();
    spans.push(extra_axis_span);
    assert(spans@ =~= seq![extra_axis_span]);
    match cell {
        MultiHeaderCell::Variant { axis, variant, span: _ } => MapEntryKey::Discrete {
            index: Spanned::new(MapEntryIndex::Named(axis.value.deep_clone()), axis.span),
            additional_index_spans: spans,
            entry: Spanned::new(IndexEntryKey::Named(variant.value.deep_clone()), variant.span),
        },
        MultiHeaderCell::Underscore { span } => MapEntryKey::Discrete {
            index: Spanned::new(MapEntryIndex::Finite(0), *span),
            additional_index_spans: spans,
            entry: Spanned::new(IndexEntryKey::Position(0), *span),
        },
    }
}

/// Append to `entries` what a slot gets from one slice.
fn push_slice_entries(entries: &mut Vec<MapEntry>, slice: &MultiDeclSlice, slot: usize, row_axis: &TableIndexSpec)
    requires
        slot < slice.column_layout@.len(),
    ensures
        MapEntry::terms(*final(entries), Reading::Exact) == MapEntry::terms(*old(entries), Reading::Exact)
            + slice_entries(*slice, slot as int, *row_axis, Reading::Exact),
        MapEntry::terms(*final(entries), Reading::Desugared) == MapEntry::terms(*old(entries), Reading::Desugared)
            + slice_entries(*slice, slot as int, *row_axis, Reading::Desugared),
{
    proof {
        use_type_invariant(slice);
    }
    let ghost before = *entries;
    match &slice.column_layout[slot] {
        MultiSlotColumnSpan::Single(column) => {
            for i in 0..slice.rows.len()
                invariant
                    *column < slice.header_cells@.len(),
                    rows_fit(slice.header_cells@, slice.rows@),
                    MapEntry::terms(*entries, Reading::Exact) == MapEntry::terms(before, Reading::Exact) + Seq::new(
                        i as nat,
                        |k: int| cell_entry(*slice, k, *column as int, *row_axis, Seq::empty(), Reading::Exact),
                    ),
                    MapEntry::terms(*entries, Reading::Desugared) == MapEntry::terms(before, Reading::Desugared)
                        + Seq::new(
                        i as nat,
                        |k: int| cell_entry(*slice, k, *column as int, *row_axis, Seq::empty(), Reading::Desugared),
                    ),
            {
                let ghost sofar = *entries;
                assert(slice.rows@[i as int].values@.len() == slice.header_cells@.len());
                entries.push(entry_of_cell(slice, i, *column, row_axis, None));
                proof {
                    lemma_pushed(sofar, *entries, Reading::Exact);
                    lemma_pushed(sofar, *entries, Reading::Desugared);
                    assert(MapEntry::terms(*entries, Reading::Exact) =~= MapEntry::terms(before, Reading::Exact)
                        + Seq::new(
                        (i + 1) as nat,
                        |k: int| cell_entry(*slice, k, *column as int, *row_axis, Seq::empty(), Reading::Exact),
                    ));
                    assert(MapEntry::terms(*entries, Reading::Desugared) =~= MapEntry::terms(
                        before,
                        Reading::Desugared,
                    ) + Seq::new(
                        (i + 1) as nat,
                        |k: int| cell_entry(*slice, k, *column as int, *row_axis, Seq::empty(), Reading::Desugared),
                    ));
                }
            }
        },
        MultiSlotColumnSpan::Range { start, end, extra_axis } => {
            let columns = labelled_cells(&slice.header_cells, *start, *end);
            let ghost positions = labelled_columns(slice.header_cells@, *start as int, *end as int);
            let ghost mark = extra_axis.span;
            for i in 0..slice.rows.len()
                invariant
                    *start <= *end <= slice.header_cells@.len(),
                    rows_fit(slice.header_cells@, slice.rows@),
                    mark == extra_axis.span,
                    positions == columns@.map_values(|p: usize| p as int),
                    columns@.len() <= *end - *start,
                    forall|k: int|
                        0 <= k < columns@.len() ==> #[trigger] columns@[k] < *end
                            && slice.header_cells@[columns@[k] as int] is Variant,
                    MapEntry::terms(*entries, Reading::Exact) == MapEntry::terms(before, Reading::Exact)
                        + range_entries(*slice, i as nat, *start as int, positions, mark, *row_axis, Reading::Exact),
                    MapEntry::terms(*entries, Reading::Desugared) == MapEntry::terms(before, Reading::Desugared)
                        + range_entries(
                        *slice,
                        i as nat,
                        *start as int,
                        positions,
                        mark,
                        *row_axis,
                        Reading::Desugared,
                    ),
            {
                assert(slice.rows@[i as int].values@.len() == slice.header_cells@.len());
                let ghost row_start = *entries;
                for k in 0..columns.len()
                    invariant
                        i < slice.rows@.len(),
                        slice.rows@[i as int].values@.len() == slice.header_cells@.len(),
                        *start <= *end <= slice.header_cells@.len(),
                        mark == extra_axis.span,
                        positions == columns@.map_values(|p: usize| p as int),
                        columns@.len() <= *end - *start,
                        forall|k: int|
                            0 <= k < columns@.len() ==> #[trigger] columns@[k] < *end
                                && slice.header_cells@[columns@[k] as int] is Variant,
                        MapEntry::terms(*entries, Reading::Exact) == MapEntry::terms(row_start, Reading::Exact)
                            + row_entries(
                                *slice,
                                i as int,
                                *start as int,
                                positions,
                                mark,
                                *row_axis,
                                Reading::Exact,
                            ).take(
                            k as int,
                        ),
                        MapEntry::terms(*entries, Reading::Desugared) == MapEntry::terms(
                            row_start,
                            Reading::Desugared,
                        ) + row_entries(
                            *slice,
                            i as int,
                            *start as int,
                            positions,
                            mark,
                            *row_axis,
                            Reading::Desugared,
                        ).take(k as int),
                {
                    let ghost sofar = *entries;
                    let key = key_of_column(&slice.header_cells[columns[k]], extra_axis.span);
                    entries.push(entry_of_cell(slice, i, *start + k, row_axis, Some(key)));
                    proof {
                        lemma_pushed(sofar, *entries, Reading::Exact);
                        lemma_pushed(sofar, *entries, Reading::Desugared);
                        let exact = row_entries(
                            *slice,
                            i as int,
                            *start as int,
                            positions,
                            mark,
                            *row_axis,
                            Reading::Exact,
                        );
                        let desugared = row_entries(
                            *slice,
                            i as int,
                            *start as int,
                            positions,
                            mark,
                            *row_axis,
                            Reading::Desugared,
                        );
                        assert(exact.take(k as int + 1) =~= exact.take(k as int).push(exact[k as int]));
                        assert(desugared.take(k as int + 1) =~= desugared.take(k as int).push(desugared[k as int]));
                        assert(MapEntry::terms(*entries, Reading::Exact) =~= MapEntry::terms(row_start, Reading::Exact)
                            + exact.take(k as int + 1));
                        assert(MapEntry::terms(*entries, Reading::Desugared) =~= MapEntry::terms(
                            row_start,
                            Reading::Desugared,
                        ) + desugared.take(k as int + 1));
                    }
                }
                proof {
                    let exact = row_entries(
                        *slice,
                        i as int,
                        *start as int,
                        positions,
                        mark,
                        *row_axis,
                        Reading::Exact,
                    );
                    let desugared = row_entries(
                        *slice,
                        i as int,
                        *start as int,
                        positions,
                        mark,
                        *row_axis,
                        Reading::Desugared,
                    );
                    assert(exact.take(positions.len() as int) =~= exact);
                    assert(desugared.take(positions.len() as int) =~= desugared);
                    assert(MapEntry::terms(*entries, Reading::Exact) =~= MapEntry::terms(before, Reading::Exact)
                        + range_entries(
                        *slice,
                        (i + 1) as nat,
                        *start as int,
                        positions,
                        mark,
                        *row_axis,
                        Reading::Exact,
                    ));
                    assert(MapEntry::terms(*entries, Reading::Desugared) =~= MapEntry::terms(
                        before,
                        Reading::Desugared,
                    ) + range_entries(
                        *slice,
                        (i + 1) as nat,
                        *start as int,
                        positions,
                        mark,
                        *row_axis,
                        Reading::Desugared,
                    ));
                }
            }
        },
    }
}

proof fn lemma_pushed(before: Vec<MapEntry>, after: Vec<MapEntry>, r: Reading)
    requires
        after@.len() > 0,
        after@ == before@.push(after@.last()),
    ensures
        MapEntry::terms(after, r) == MapEntry::terms(before, r).push(after@.last().to_term(r)),
{
    assert(MapEntry::terms(after, r) =~= MapEntry::terms(before, r).push(after@.last().to_term(r)));
}

/// The declarations that a multi-declaration stands for, one per slot. Each
/// reaches from the header of its slot to the end of the multi-declaration.
pub fn expand_multi_decl(multi: &MultiDecl) -> (r: Vec<ExpandedSlotDecl>)
    ensures
        r@.len() == multi.slots()@.len(),
        forall|i: int|
            0 <= i < r@.len() ==> (#[trigger] r@[i]).to_term(Reading::Exact) == slot_declaration(
                *multi,
                i,
                Reading::Exact,
            ),
        forall|i: int|
            0 <= i < r@.len() ==> (#[trigger] r@[i]).to_term(Reading::Desugared) == slot_declaration(
                *multi,
                i,
                Reading::Desugared,
            ),
        forall|i: int|
            0 <= i < r@.len() ==> (#[trigger] r@[i]).place() == reaching(
                multi.slots()@[i].header_span,
                multi.span(),
            ),
{
    proof {
        use_type_invariant(multi);
    }
    let row_axis = &multi.shared_axes.row_axis;
    let mut out: Vec<ExpandedSlotDecl> = Vec::new();
    for slot in 0..multi.slots.len()
        invariant
            slices_fit(multi.slots@.len(), multi.slices@),
            *row_axis == multi.shared_axes.row_axis,
            out@.len() == slot,
            forall|i: int|
                0 <= i < out@.len() ==> (#[trigger] out@[i]).to_term(Reading::Exact) == slot_declaration(
                    *multi,
                    i,
                    Reading::Exact,
                ),
            forall|i: int|
                0 <= i < out@.len() ==> (#[trigger] out@[i]).to_term(Reading::Desugared) == slot_declaration(
                    *multi,
                    i,
                    Reading::Desugared,
                ),
            forall|i: int|
                0 <= i < out@.len() ==> (#[trigger] out@[i]).place() == reaching(
                    multi.slots@[i].header_span,
                    multi.span,
                ),
    {
        let mut entries: Vec<MapEntry> = Vec::new();
        let mut extra_axis: Option<TableIndexSpec> = None;
        proof {
            assert(MapEntry::terms(entries, Reading::Exact) =~= slot_entries(*multi, slot as int, 0, Reading::Exact));
            assert(MapEntry::terms(entries, Reading::Desugared) =~= slot_entries(
                *multi,
                slot as int,
                0,
                Reading::Desugared,
            ));
        }
        for i in 0..multi.slices.len()
            invariant
                slot < multi.slots@.len(),
                slices_fit(multi.slots@.len(), multi.slices@),
                *row_axis == multi.shared_axes.row_axis,
                MapEntry::terms(entries, Reading::Exact) == slot_entries(
                    *multi,
                    slot as int,
                    i as nat,
                    Reading::Exact,
                ),
                MapEntry::terms(entries, Reading::Desugared) == slot_entries(
                    *multi,
                    slot as int,
                    i as nat,
                    Reading::Desugared,
                ),
                match (extra_axis, slot_extra_axis(*multi, slot as int, i as nat)) {
                    (Some(axis), Some(term)) => axis.term(Spans::Kept) == node1(Tag::TableIndexSpecNamed, term),
                    (None, None) => true,
                    _ => false,
                },
        {
            let slice = &multi.slices[i];
            assert(slice.column_layout@.len() == multi.slots@.len());
            push_slice_entries(&mut entries, slice, slot, row_axis);
            match &slice.column_layout[slot] {
                MultiSlotColumnSpan::Range { start: _, end: _, extra_axis: axis } => {
                    if extra_axis.is_none() {
                        extra_axis = Some(TableIndexSpec::Named(axis.deep_clone()));
                    }
                },
                MultiSlotColumnSpan::Single(_) => {},
            }
        }
        let mut indexes = multi.shared_axes.slice_axes.deep_clone();
        let ghost shared = indexes@;
        let row_copy = row_axis.deep_clone();
        indexes.push(row_copy);
        proof {
            assert(seq_terms(indexes@, Spans::Kept) =~= seq_terms(shared, Spans::Kept).push(
                row_axis.term(Spans::Kept),
            ));
        }
        match extra_axis {
            Some(axis) => {
                let ghost before = indexes@;
                indexes.push(axis);
                proof {
                    assert(seq_terms(indexes@, Spans::Kept) =~= seq_terms(before, Spans::Kept).push(
                        axis.term(Spans::Kept),
                    ));
                }
            },
            None => {},
        }
        assert(seq_terms(indexes@, Spans::Kept) == slot_axes(*multi, slot as int));
        let sugar = RawExprSugar::TableLiteral { indexes, entries };
        let ghost exact_entries = slot_entries(*multi, slot as int, multi.slices@.len(), Reading::Exact);
        let ghost desugared_entries = slot_entries(*multi, slot as int, multi.slices@.len(), Reading::Desugared);
        assert(sugar.to_term(Reading::Exact) == node2(
            Tag::TableLiteral,
            Term::List(slot_axes(*multi, slot as int)),
            Term::List(exact_entries),
        ));
        assert(sugar.to_term(Reading::Desugared) == node1(Tag::ExprMapLiteral, Term::List(desugared_entries)));
        let kind = ExprKind::Sugar(sugar);
        proof {
            reveal(ExprKind::to_term);
        }
        assert(kind.to_term(Reading::Exact) == sugar.to_term(Reading::Exact));
        assert(kind.to_term(Reading::Desugared) == sugar.to_term(Reading::Desugared));
        let table = Expr { kind, span: multi.table_expr_span };
        assert(table.to_term(Reading::Exact) == slot_table(*multi, slot as int, Reading::Exact));
        assert(table.to_term(Reading::Desugared) == slot_table(*multi, slot as int, Reading::Desugared));
        let header = &multi.slots[slot];
        let span = header.header_span.through(multi.span);
        let name = header.name.deep_clone();
        let type_ann = header.type_ann.duplicate();
        out.push(
            match header.kind {
                MultiSlotKind::Param => ExpandedSlotDecl::Param(
                    ParamDecl { name, type_ann, value: Some(table) },
                    span,
                ),
                MultiSlotKind::Node => ExpandedSlotDecl::Node(
                    ValueDecl { visibility: header.visibility, name, type_ann, value: table },
                    span,
                ),
                MultiSlotKind::ConstNode => ExpandedSlotDecl::ConstNode(
                    ValueDecl { visibility: header.visibility, name, type_ann, value: table },
                    span,
                ),
            },
        );
    }
    out
}

/// Replace every multi-declaration of a file, at any depth, by the declarations
/// of its slots, and every table literal by a map literal.
pub fn desugar_multi_decls_in_file(file: File) -> (r: desugared_ast::File)
    ensures
        desugared_ast::Declaration::terms(r.declarations) == flattened(
            file.declarations,
            file.declarations.len() as nat,
        ),
{
    file.desugar()
}

} // verus!
