//! Where the cells of a multi-declaration go.

use crate::syntax::ast::{
    ExprKind, IndexEntryKey, MapEntry, MapEntryKey, MultiDecl, MultiDeclSlice, MultiHeaderCell, MultiSlotColumnSpan,
    RawExprSugar, TableIndexSpec,
};
use crate::syntax::desugar::{
    cell_entry, column_key, key_terms, labelled_columns, range_entries, row_entries, slice_entries, slot_declaration,
    slot_entries, ExpandedSlotDecl,
};
use crate::syntax::term::{node2, prepend, Reading, Spans, Syntax, Tag, Term};
use vstd::multiset::Multiset;
use vstd::prelude::*;

verus! {

/// The first column of a slot.
pub open spec fn first_column(span: MultiSlotColumnSpan) -> int {
    match span {
        MultiSlotColumnSpan::Single(column) => column as int,
        MultiSlotColumnSpan::Range { start, end, extra_axis } => start as int,
    }
}

/// The first column behind those of a slot.
pub open spec fn end_column(span: MultiSlotColumnSpan) -> int {
    match span {
        MultiSlotColumnSpan::Single(column) => column + 1,
        MultiSlotColumnSpan::Range { start, end, extra_axis } => end as int,
    }
}

/// Whether a column belongs to a slot.
pub open spec fn covers(span: MultiSlotColumnSpan, column: int) -> bool {
    first_column(span) <= column < end_column(span)
}

/// Whether the columns of a slot lie in the header, each with a label where the
/// slot has an axis of its own.
pub open(crate) spec fn is_laid_out(slice: MultiDeclSlice, slot: int) -> bool {
    let span = slice.column_layout()@[slot];
    &&& 0 <= slot < slice.column_layout()@.len()
    &&& first_column(span) <= end_column(span) <= slice.header_cells()@.len()
    &&& span is Range ==> forall|c: int| covers(span, c) ==> (#[trigger] slice.header_cells()@[c]) is Variant
}

/// The entries of the table of a declaration.
pub open spec fn table_of(d: ExpandedSlotDecl) -> Seq<MapEntry> {
    let value = match d {
        ExpandedSlotDecl::Param(decl, _) => decl.value,
        ExpandedSlotDecl::Node(decl, _) => Some(decl.value),
        ExpandedSlotDecl::ConstNode(decl, _) => Some(decl.value),
    };
    match value {
        Some(e) => match e.kind {
            ExprKind::Sugar(RawExprSugar::TableLiteral { indexes, entries }) => entries@,
            _ => Seq::empty(),
        },
        None => Seq::empty(),
    }
}

/// Whether a key is the label of a row.
pub open spec fn is_row_key(key: MapEntryKey, label: IndexEntryKey) -> bool {
    key is Discrete && key->entry.value.term(Spans::Kept) == label.term(Spans::Kept)
}

/// Whether a key is the label of a column.
pub open spec fn is_column_key(key: MapEntryKey, cell: MultiHeaderCell) -> bool {
    &&& cell is Variant
    &&& key is Discrete
    &&& key->entry.value is Named
    &&& key->entry.value->Named_0.atom.text@ == cell->variant.value.atom.text@
}

/// Whether an entry of a table is the cell of a slice in a row and a column: it
/// has the value of the cell, under the keys of the slice, the label of the row
/// and, where the slot has an axis of its own, the label of the column.
pub open(crate) spec fn is_cell(slice: MultiDeclSlice, slot: int, row: int, column: int, m: MapEntry) -> bool {
    let prefix = slice.prefix_keys()@;
    let ranged = slice.column_layout()@[slot] is Range;
    let all = m.keys@;
    &&& 0 <= row < slice.rows()@.len()
    &&& covers(slice.column_layout()@[slot], column)
    &&& m.value.to_term(Reading::Exact) == slice.rows()@[row].values()@[column].to_term(Reading::Exact)
    &&& all.len() == prefix.len() + (if ranged { 2int } else { 1 })
    &&& forall|i: int|
        0 <= i < prefix.len() ==> (#[trigger] all[i]).to_term(Reading::Exact) == prefix[i].to_term(Reading::Exact)
    &&& is_row_key(all[prefix.len() as int], slice.rows()@[row].label().value)
    &&& ranged ==> is_column_key(all[prefix.len() + 1int], slice.header_cells()@[column])
}

proof fn lemma_keys(m: MapEntry)
    ensures
        prepend(
            m.keys.first.to_term(Reading::Exact),
            MapEntryKey::terms(m.keys.rest, Reading::Exact),
        ) == key_terms(m.keys@, Reading::Exact),
{
    assert(prepend(
        m.keys.first.to_term(Reading::Exact),
        MapEntryKey::terms(m.keys.rest, Reading::Exact),
    ) =~= key_terms(m.keys@, Reading::Exact));
}

proof fn lemma_single(slice: MultiDeclSlice, slot: int, row: int, axis: TableIndexSpec, m: MapEntry)
    requires
        is_laid_out(slice, slot),
        slice.column_layout()@[slot] is Single,
        0 <= row < slice.rows()@.len(),
        m.to_term(Reading::Exact) == slice_entries(slice, slot, axis, Reading::Exact)[row],
    ensures
        is_cell(slice, slot, row, first_column(slice.column_layout()@[slot]), m),
{
    let column = first_column(slice.column_layout()@[slot]);
    let prefix = key_terms(slice.prefix_keys()@, Reading::Exact);
    let all = key_terms(m.keys@, Reading::Exact);
    lemma_keys(m);
    assert(slice_entries(slice, slot, axis, Reading::Exact)[row] == cell_entry(
        slice,
        row,
        column,
        axis,
        Seq::empty(),
        Reading::Exact,
    ));
    assert(all.len() == prefix.len() + 1);
    assert forall|i: int| 0 <= i < slice.prefix_keys()@.len() implies (#[trigger] m.keys@[i]).to_term(Reading::Exact)
        == slice.prefix_keys()@[i].to_term(Reading::Exact) by {
        assert(all[i] == prefix[i]);
    }
    assert(all[prefix.len() as int] == m.keys@[prefix.len() as int].to_term(Reading::Exact));
}

proof fn lemma_ranged(slice: MultiDeclSlice, slot: int, row: int, k: int, axis: TableIndexSpec, m: MapEntry)
    requires
        is_laid_out(slice, slot),
        slice.column_layout()@[slot] is Range,
        0 <= row < slice.rows()@.len(),
        covers(slice.column_layout()@[slot], first_column(slice.column_layout()@[slot]) + k),
        m.to_term(Reading::Exact) == cell_entry(
            slice,
            row,
            first_column(slice.column_layout()@[slot]) + k,
            axis,
            seq![
                column_key(
                    slice.header_cells()@[first_column(slice.column_layout()@[slot]) + k],
                    slice.column_layout()@[slot]->extra_axis.span,
                ),
            ],
            Reading::Exact,
        ),
    ensures
        is_cell(slice, slot, row, first_column(slice.column_layout()@[slot]) + k, m),
{
    let column = first_column(slice.column_layout()@[slot]) + k;
    let prefix = key_terms(slice.prefix_keys()@, Reading::Exact);
    let all = key_terms(m.keys@, Reading::Exact);
    let cell = slice.header_cells()@[column];
    lemma_keys(m);
    assert(cell is Variant);
    assert(all.len() == prefix.len() + 2);
    assert forall|i: int| 0 <= i < slice.prefix_keys()@.len() implies (#[trigger] m.keys@[i]).to_term(Reading::Exact)
        == slice.prefix_keys()@[i].to_term(Reading::Exact) by {
        assert(all[i] == prefix[i]);
    }
    assert(all[prefix.len() as int] == m.keys@[prefix.len() as int].to_term(Reading::Exact));
    assert(all[prefix.len() + 1int] == m.keys@[prefix.len() + 1int].to_term(Reading::Exact));
    assert(all[prefix.len() + 1int] == column_key(cell, slice.column_layout()@[slot]->extra_axis.span));
}

proof fn lemma_labelled(cells: Seq<MultiHeaderCell>, start: int, end: int)
    requires
        0 <= start <= end <= cells.len(),
        forall|c: int| start <= c < end ==> (#[trigger] cells[c]) is Variant,
    ensures
        labelled_columns(cells, start, end).len() == end - start,
        forall|k: int| 0 <= k < end - start ==> #[trigger] labelled_columns(cells, start, end)[k] == start + k,
    decreases end - start,
{
    if start < end {
        lemma_labelled(cells, start, end - 1);
    }
}

/// The entries of some rows stand row by row.
proof fn lemma_range(
    slice: MultiDeclSlice,
    rows: nat,
    start: int,
    columns: Seq<int>,
    extra: crate::syntax::span::Span,
    axis: TableIndexSpec,
    row: int,
    k: int,
)
    requires
        0 <= row < rows,
        0 <= k < columns.len(),
    ensures
        range_entries(slice, rows, start, columns, extra, axis, Reading::Exact).len() == rows * columns.len(),
        0 <= row * columns.len() + k < rows * columns.len(),
        range_entries(slice, rows, start, columns, extra, axis, Reading::Exact)[row * columns.len() + k]
            == row_entries(slice, row, start, columns, extra, axis, Reading::Exact)[k],
    decreases rows,
{
    let n = columns.len() as int;
    let before = range_entries(slice, (rows - 1) as nat, start, columns, extra, axis, Reading::Exact);
    lemma_range_count(slice, (rows - 1) as nat, start, columns, extra, axis);
    assert(rows * n == (rows - 1) * n + n) by (nonlinear_arith);
    if row == rows - 1 {
        assert(row * n + k == before.len() + k);
        assert(row * n >= 0) by (nonlinear_arith)
            requires
                row >= 0,
                n >= 0,
        ;
    } else {
        lemma_range(slice, (rows - 1) as nat, start, columns, extra, axis, row, k);
    }
}

proof fn lemma_range_count(
    slice: MultiDeclSlice,
    rows: nat,
    start: int,
    columns: Seq<int>,
    extra: crate::syntax::span::Span,
    axis: TableIndexSpec,
)
    ensures
        range_entries(slice, rows, start, columns, extra, axis, Reading::Exact).len() == rows * columns.len(),
    decreases rows,
{
    let n = columns.len() as int;
    if rows > 0 {
        lemma_range_count(slice, (rows - 1) as nat, start, columns, extra, axis);
        assert(rows * n == (rows - 1) * n + n) by (nonlinear_arith);
    } else {
        assert(rows * n == 0) by (nonlinear_arith)
            requires
                rows == 0,
        ;
    }
}

/// Where the entry of a cell stands among the entries of its slice.
pub open(crate) spec fn cell_place(slice: MultiDeclSlice, slot: int, row: int, column: int) -> int {
    let span = slice.column_layout()@[slot];
    row * (end_column(span) - first_column(span)) + (column - first_column(span))
}

/// A slot gets one entry from each of its cells in a slice, row by row, and each
/// of them is that cell.
pub proof fn law_a_slice_gives_each_cell_once(
    slice: MultiDeclSlice,
    slot: int,
    axis: TableIndexSpec,
    row: int,
    column: int,
    m: MapEntry,
)
    requires
        is_laid_out(slice, slot),
        0 <= row < slice.rows()@.len(),
        covers(slice.column_layout()@[slot], column),
        m.to_term(Reading::Exact) == slice_entries(slice, slot, axis, Reading::Exact)[cell_place(
            slice,
            slot,
            row,
            column,
        )],
    ensures
        is_cell(slice, slot, row, column, m),
        slice_entries(slice, slot, axis, Reading::Exact).len() == slice.rows()@.len() * (end_column(
            slice.column_layout()@[slot],
        ) - first_column(slice.column_layout()@[slot])),
        0 <= cell_place(slice, slot, row, column) < slice_entries(slice, slot, axis, Reading::Exact).len(),
{
    lemma_slice_count(slice, slot, axis);
    lemma_place(slice, slot, axis, row, column);
    let span = slice.column_layout()@[slot];
    if span is Single {
        let n = end_column(span) - first_column(span);
        assert(row * n == row) by (nonlinear_arith)
            requires
                n == 1,
        ;
        lemma_single(slice, slot, row, axis, m);
    } else {
        lemma_range_cell(slice, slot, axis, row, column);
        lemma_ranged(slice, slot, row, column - first_column(span), axis, m);
    }
}

proof fn lemma_range_cell(slice: MultiDeclSlice, slot: int, axis: TableIndexSpec, row: int, column: int)
    requires
        is_laid_out(slice, slot),
        slice.column_layout()@[slot] is Range,
        0 <= row < slice.rows()@.len(),
        covers(slice.column_layout()@[slot], column),
    ensures
        slice_entries(slice, slot, axis, Reading::Exact)[cell_place(slice, slot, row, column)] == cell_entry(
            slice,
            row,
            column,
            axis,
            seq![
                column_key(slice.header_cells()@[column], slice.column_layout()@[slot]->extra_axis.span),
            ],
            Reading::Exact,
        ),
{
    match slice.column_layout()@[slot] {
        MultiSlotColumnSpan::Range { start, end, extra_axis } => {
            let columns = labelled_columns(slice.header_cells()@, start as int, end as int);
            let k = column - start;
            lemma_labelled(slice.header_cells()@, start as int, end as int);
            lemma_range(slice, slice.rows()@.len(), start as int, columns, extra_axis.span, axis, row, k);
            assert(columns[k] == start + k);
            assert(row * columns.len() + k == cell_place(slice, slot, row, column));
        },
        _ => {},
    }
}

/// The number of entries that a slot gets from the first `n` slices.
pub open(crate) spec fn entries_before(multi: MultiDecl, slot: int, n: nat) -> int
    decreases n,
{
    if n == 0 {
        0
    } else {
        let slice = multi.slices()@[n - 1];
        let span = slice.column_layout()@[slot];
        entries_before(multi, slot, (n - 1) as nat) + slice.rows()@.len() * (end_column(span) - first_column(span))
    }
}

proof fn lemma_slices(multi: MultiDecl, slot: int, n: nat, k: int)
    requires
        n <= multi.slices()@.len(),
        0 <= k < n,
        forall|i: int| 0 <= i < n ==> is_laid_out(#[trigger] multi.slices()@[i], slot),
    ensures
        slot_entries(multi, slot, n, Reading::Exact).len() == entries_before(multi, slot, n),
        ({
            let part = slice_entries(multi.slices()@[k], slot, multi.shared_axes.row_axis, Reading::Exact);
            let start = entries_before(multi, slot, k as nat);
            &&& 0 <= start
            &&& start + part.len() <= slot_entries(multi, slot, n, Reading::Exact).len()
            &&& forall|j: int|
                0 <= j < part.len() ==> #[trigger] part[j] == slot_entries(multi, slot, n, Reading::Exact)[start + j]
        }),
    decreases n,
{
    lemma_slice_count(multi.slices()@[n - 1], slot, multi.shared_axes.row_axis);
    lemma_slot_count(multi, slot, (n - 1) as nat);
    if k < n - 1 {
        lemma_slices(multi, slot, (n - 1) as nat, k);
        let part = slice_entries(multi.slices()@[k], slot, multi.shared_axes.row_axis, Reading::Exact);
        let start = entries_before(multi, slot, k as nat);
        let less = slot_entries(multi, slot, (n - 1) as nat, Reading::Exact);
        let more = slot_entries(multi, slot, n, Reading::Exact);
        assert forall|j: int| 0 <= j < part.len() implies #[trigger] part[j] == more[start + j] by {
            assert(less[start + j] == more[start + j]);
        }
    }
}

proof fn lemma_slot_count(multi: MultiDecl, slot: int, n: nat)
    requires
        n <= multi.slices()@.len(),
        forall|i: int| 0 <= i < n ==> is_laid_out(#[trigger] multi.slices()@[i], slot),
    ensures
        slot_entries(multi, slot, n, Reading::Exact).len() == entries_before(multi, slot, n),
    decreases n,
{
    if n > 0 {
        lemma_slice_count(multi.slices()@[n - 1], slot, multi.shared_axes.row_axis);
        lemma_slot_count(multi, slot, (n - 1) as nat);
    }
}

proof fn lemma_slice_count(slice: MultiDeclSlice, slot: int, axis: TableIndexSpec)
    requires
        is_laid_out(slice, slot),
    ensures
        slice_entries(slice, slot, axis, Reading::Exact).len() == slice.rows()@.len() * (end_column(
            slice.column_layout()@[slot],
        ) - first_column(slice.column_layout()@[slot])),
{
    match slice.column_layout()@[slot] {
        MultiSlotColumnSpan::Single(c) => {
            let rows = slice.rows()@.len() as int;
            assert(rows * (c + 1 - c) == rows) by (nonlinear_arith);
        },
        MultiSlotColumnSpan::Range { start, end, extra_axis } => {
            let columns = labelled_columns(slice.header_cells()@, start as int, end as int);
            lemma_labelled(slice.header_cells()@, start as int, end as int);
            lemma_range_count(slice, slice.rows()@.len(), start as int, columns, extra_axis.span, axis);
        },
    }
}

/// The table that a slot gets holds each cell of its columns, in every slice,
/// exactly once, and nothing else: the slices one behind the other, and in a
/// slice row by row.
pub proof fn law_each_slot_gets_its_own_cells(
    multi: MultiDecl,
    slot: int,
    d: ExpandedSlotDecl,
    k: int,
    row: int,
    column: int,
)
    requires
        d.to_term(Reading::Exact) == slot_declaration(multi, slot, Reading::Exact),
        forall|i: int| 0 <= i < multi.slices()@.len() ==> is_laid_out(#[trigger] multi.slices()@[i], slot),
        0 <= k < multi.slices()@.len(),
        0 <= row < multi.slices()@[k].rows()@.len(),
        covers(multi.slices()@[k].column_layout()@[slot], column),
    ensures
        ({
            let place = entries_before(multi, slot, k as nat) + cell_place(multi.slices()@[k], slot, row, column);
            &&& table_of(d).len() == entries_before(multi, slot, multi.slices()@.len())
            &&& 0 <= place < table_of(d).len()
            &&& is_cell(multi.slices()@[k], slot, row, column, table_of(d)[place])
        }),
{
    reveal(ExprKind::to_term);
    let slice = multi.slices()@[k];
    let n = multi.slices()@.len();
    let all = slot_entries(multi, slot, n, Reading::Exact);
    let axis = multi.shared_axes.row_axis;
    let place = entries_before(multi, slot, k as nat) + cell_place(slice, slot, row, column);
    lemma_table(multi, slot, d);
    lemma_slices(multi, slot, n, k);
    lemma_place(slice, slot, axis, row, column);
    let part = slice_entries(slice, slot, axis, Reading::Exact);
    assert(part[cell_place(slice, slot, row, column)] == all[place]);
    assert(table_of(d)[place].to_term(Reading::Exact) == all[place]);
    law_a_slice_gives_each_cell_once(slice, slot, axis, row, column, table_of(d)[place]);
}

proof fn lemma_place(slice: MultiDeclSlice, slot: int, axis: TableIndexSpec, row: int, column: int)
    requires
        is_laid_out(slice, slot),
        0 <= row < slice.rows()@.len(),
        covers(slice.column_layout()@[slot], column),
    ensures
        0 <= cell_place(slice, slot, row, column) < slice_entries(slice, slot, axis, Reading::Exact).len(),
{
    let span = slice.column_layout()@[slot];
    let n = end_column(span) - first_column(span);
    let k = column - first_column(span);
    let rows = slice.rows()@.len() as int;
    lemma_slice_count(slice, slot, axis);
    assert(0 <= row * n + k < rows * n) by (nonlinear_arith)
        requires
            0 <= row < rows,
            0 <= k < n,
    ;
}

proof fn lemma_table(multi: MultiDecl, slot: int, d: ExpandedSlotDecl)
    requires
        d.to_term(Reading::Exact) == slot_declaration(multi, slot, Reading::Exact),
    ensures
        ({
            let all = slot_entries(multi, slot, multi.slices()@.len(), Reading::Exact);
            &&& table_of(d).len() == all.len()
            &&& forall|i: int|
                0 <= i < all.len() ==> (#[trigger] table_of(d)[i]).to_term(Reading::Exact) == all[i]
        }),
{
    reveal(ExprKind::to_term);
    let all = slot_entries(multi, slot, multi.slices()@.len(), Reading::Exact);
    let value = match d {
        ExpandedSlotDecl::Param(decl, _) => decl.value->0,
        ExpandedSlotDecl::Node(decl, _) => decl.value,
        ExpandedSlotDecl::ConstNode(decl, _) => decl.value,
    };
    assert(value.to_term(Reading::Exact) == crate::syntax::desugar::slot_table(multi, slot, Reading::Exact));
    match value.kind {
        ExprKind::Sugar(RawExprSugar::TableLiteral { indexes, entries }) => {
            let sugar = RawExprSugar::TableLiteral { indexes, entries };
            assert(value.kind == ExprKind::Sugar(sugar));
            assert(value.kind.to_term(Reading::Exact) == sugar.to_term(Reading::Exact));
            assert(sugar.to_term(Reading::Exact) == node2(
                Tag::TableLiteral,
                indexes.term(Spans::Kept),
                Term::List(MapEntry::terms(entries, Reading::Exact)),
            ));
            assert(MapEntry::terms(entries, Reading::Exact) == all);
            assert forall|i: int| 0 <= i < all.len() implies (#[trigger] entries@[i]).to_term(Reading::Exact)
                == all[i] by {
                assert(MapEntry::terms(entries, Reading::Exact)[i] == entries@[i].to_term(Reading::Exact));
            }
        },
        _ => {},
    }
}

// The cells of all slots.

/// The values of some entries.
pub open spec fn values_of(entries: Seq<MapEntry>) -> Seq<Term> {
    Seq::new(entries.len(), |i: int| entries[i].value.to_term(Reading::Exact))
}

/// The values of a row in some columns.
pub open(crate) spec fn row_cells(slice: MultiDeclSlice, row: int, start: int, end: int) -> Seq<Term> {
    Seq::new((end - start) as nat, |i: int| slice.rows()@[row].values()@[start + i].to_term(Reading::Exact))
}

/// The cells of the first `rows` rows in some columns.
pub open(crate) spec fn block(slice: MultiDeclSlice, rows: nat, start: int, end: int) -> Multiset<Term>
    decreases rows,
{
    if rows == 0 {
        Multiset::empty()
    } else {
        block(slice, (rows - 1) as nat, start, end).add(row_cells(slice, rows - 1, start, end).to_multiset())
    }
}

/// What the first `n` slots get from a slice: the values of their tables, for
/// tables with these entries.
pub open spec fn all_values(tables: Seq<Seq<MapEntry>>, n: nat) -> Multiset<Term>
    decreases n,
{
    if n == 0 {
        Multiset::empty()
    } else {
        all_values(tables, (n - 1) as nat).add(values_of(tables[n - 1]).to_multiset())
    }
}

/// Whether the slots share out the columns of a slice: each begins where the one
/// before ends, from the first column to the last.
pub open(crate) spec fn shares_columns(slice: MultiDeclSlice) -> bool {
    let spans = slice.column_layout()@;
    &&& forall|i: int| 0 <= i < spans.len() ==> is_laid_out(slice, i) && first_column(#[trigger] spans[i]) == (if i == 0 {
        0
    } else {
        end_column(spans[i - 1])
    })
    &&& slice.header_cells()@.len() == (if spans.len() == 0 {
        0
    } else {
        end_column(spans.last())
    })
}

proof fn lemma_blocks(slice: MultiDeclSlice, rows: nat, a: int, b: int, c: int)
    requires
        a <= b <= c,
    ensures
        block(slice, rows, a, c) == block(slice, rows, a, b).add(block(slice, rows, b, c)),
    decreases rows,
{
    broadcast use vstd::multiset::group_multiset_axioms;

    if rows > 0 {
        lemma_blocks(slice, (rows - 1) as nat, a, b, c);
        let left = row_cells(slice, rows - 1, a, b);
        let right = row_cells(slice, rows - 1, b, c);
        assert(row_cells(slice, rows - 1, a, c) =~= left + right);
        vstd::seq_lib::lemma_multiset_commutative(left, right);
        assert(block(slice, rows, a, c) =~= block(slice, rows, a, b).add(block(slice, rows, b, c)));
    } else {
        assert(block(slice, rows, a, c) =~= block(slice, rows, a, b).add(block(slice, rows, b, c)));
    }
}

/// The values that a slot gets, row by row.
proof fn lemma_block(slice: MultiDeclSlice, slot: int, rows: nat, w: Seq<MapEntry>)
    requires
        is_laid_out(slice, slot),
        rows <= slice.rows()@.len(),
        w.len() == rows * (end_column(slice.column_layout()@[slot]) - first_column(slice.column_layout()@[slot])),
        forall|row: int, column: int|
            0 <= row < rows && #[trigger] covers(slice.column_layout()@[slot], column) ==> is_cell(
                slice,
                slot,
                row,
                column,
                #[trigger] w[cell_place(slice, slot, row, column)],
            ),
    ensures
        values_of(w).to_multiset() == block(
            slice,
            rows,
            first_column(slice.column_layout()@[slot]),
            end_column(slice.column_layout()@[slot]),
        ),
    decreases rows,
{
    let span = slice.column_layout()@[slot];
    let start = first_column(span);
    let n = end_column(span) - start;
    if rows == 0 {
        assert(rows * n == 0) by (nonlinear_arith)
            requires
                rows == 0,
        ;
        assert(values_of(w) =~= Seq::empty());
        broadcast use vstd::seq_lib::group_to_multiset_ensures;

        assert(values_of(w).to_multiset() =~= Multiset::empty());
    } else {
        let row = rows - 1;
        assert(rows * n == row * n + n) by (nonlinear_arith)
            requires
                row == rows - 1,
        ;
        assert(row * n >= 0) by (nonlinear_arith)
            requires
                row >= 0,
                n >= 0,
        ;
        let front = w.take(row * n);
        assert forall|r: int, column: int|
            0 <= r < row && #[trigger] covers(span, column) implies is_cell(
            slice,
            slot,
            r,
            column,
            #[trigger] front[cell_place(slice, slot, r, column)],
        ) by {
            let k = column - start;
            assert(0 <= r * n + k < row * n) by (nonlinear_arith)
                requires
                    0 <= r < row,
                    0 <= k < n,
            ;
            assert(front[cell_place(slice, slot, r, column)] == w[cell_place(slice, slot, r, column)]);
        }
        lemma_block(slice, slot, row as nat, front);
        let last = row_cells(slice, row, start, end_column(span));
        assert(values_of(w) =~= values_of(front) + last) by {
            assert forall|i: int| 0 <= i < n implies values_of(w)[row * n + i] == last[i] by {
                assert(covers(span, start + i));
                assert(cell_place(slice, slot, row, start + i) == row * n + i);
                assert(is_cell(slice, slot, row, start + i, w[cell_place(slice, slot, row, start + i)]));
            }
            assert forall|i: int| 0 <= i < values_of(w).len() implies values_of(w)[i] == (values_of(front) + last)[i] by {
                if i >= row * n {
                    assert(values_of(w)[row * n + (i - row * n)] == last[i - row * n]);
                }
            }
        }
        vstd::seq_lib::lemma_multiset_commutative(values_of(front), last);
    }
}

/// Taken together, the slots get from a slice exactly its cells: each as often
/// as it stands there.
pub proof fn law_no_cell_is_lost(slice: MultiDeclSlice, axis: TableIndexSpec, tables: Seq<Seq<MapEntry>>, n: nat)
    requires
        shares_columns(slice),
        tables.len() == slice.column_layout()@.len(),
        n <= tables.len(),
        forall|s: int|
            0 <= s < tables.len() ==> (#[trigger] tables[s]).len() == slice_entries(
                slice,
                s,
                axis,
                Reading::Exact,
            ).len() && forall|i: int|
                0 <= i < tables[s].len() ==> (#[trigger] tables[s][i]).to_term(Reading::Exact) == slice_entries(
                    slice,
                    s,
                    axis,
                    Reading::Exact,
                )[i],
    ensures
        all_values(tables, n) == block(
            slice,
            slice.rows()@.len(),
            0,
            if n == 0 {
                0
            } else {
                end_column(slice.column_layout()@[n - 1])
            },
        ),
    decreases n,
{
    broadcast use vstd::multiset::group_multiset_axioms;

    let rows = slice.rows()@.len();
    if n == 0 {
        lemma_empty_block(slice, rows);
    } else {
        let slot = n - 1;
        let span = slice.column_layout()@[slot];
        let entries = slice_entries(slice, slot, axis, Reading::Exact);
        law_no_cell_is_lost(slice, axis, tables, slot as nat);
        assert(is_laid_out(slice, slot));
        lemma_slice_count(slice, slot, axis);
        assert forall|row: int, column: int|
            0 <= row < rows && #[trigger] covers(span, column) implies is_cell(
            slice,
            slot,
            row,
            column,
            #[trigger] tables[slot][cell_place(slice, slot, row, column)],
        ) by {
            lemma_place(slice, slot, axis, row, column);
            law_a_slice_gives_each_cell_once(
                slice,
                slot,
                axis,
                row,
                column,
                tables[slot][cell_place(slice, slot, row, column)],
            );
        }
        lemma_block(slice, slot, rows, tables[slot]);
        lemma_ends(slice, slot);
        lemma_blocks(slice, rows, 0, first_column(span), end_column(span));
    }
}

proof fn lemma_ends(slice: MultiDeclSlice, slot: int)
    requires
        shares_columns(slice),
        0 <= slot < slice.column_layout()@.len(),
    ensures
        0 <= first_column(slice.column_layout()@[slot]) <= end_column(slice.column_layout()@[slot]),
    decreases slot,
{
    assert(is_laid_out(slice, slot));
    if slot > 0 {
        lemma_ends(slice, slot - 1);
    }
}

proof fn lemma_empty_block(slice: MultiDeclSlice, rows: nat)
    ensures
        block(slice, rows, 0, 0) == Multiset::<Term>::empty(),
    decreases rows,
{
    broadcast use vstd::multiset::group_multiset_axioms;
    broadcast use vstd::seq_lib::group_to_multiset_ensures;

    if rows > 0 {
        lemma_empty_block(slice, (rows - 1) as nat);
        assert(row_cells(slice, rows - 1, 0, 0) =~= Seq::empty());
        assert(block(slice, rows, 0, 0) =~= Multiset::<Term>::empty());
    }
}

} // verus!
