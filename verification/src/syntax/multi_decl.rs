//! The shape of a multi-declaration.

use crate::syntax::ast::{
    MapEntryKey, MultiDataRow, MultiDecl, MultiDeclSharedAxes, MultiDeclSlice, MultiDeclSlot,
    MultiHeaderCell, MultiSlotAxis, MultiSlotColumnSpan, TableIndexSpec,
};
use crate::syntax::ast::{Expr, IndexEntryKey};
use crate::syntax::span::{Span, Spanned};
use vstd::prelude::*;

verus! {

/// Why the parts of a multi-declaration do not fit together.
#[derive(Clone, Copy, Debug, PartialEq, Eq, Structural)]
pub enum MultiDeclShapeError {
    /// A row does not have one value per header cell.
    RowArity,
    /// A slot points at columns that the header does not have.
    ColumnOutOfRange,
    /// There is not exactly one slot axis per slot.
    SlotAxisCount,
    /// A slice does not lay out exactly one column span per slot.
    LayoutCount,
}

/// Whether a slot's columns lie inside a header of `width` cells.
pub open spec fn columns_in_range(columns: MultiSlotColumnSpan, width: int) -> bool {
    match columns {
        MultiSlotColumnSpan::Single(column) => column < width,
        MultiSlotColumnSpan::Range { start, end, extra_axis } => start <= end <= width,
    }
}

/// Whether every row has one value per header cell.
pub open spec fn rows_fit(header_cells: Seq<MultiHeaderCell>, rows: Seq<MultiDataRow>) -> bool {
    forall|i: int| 0 <= i < rows.len() ==> (#[trigger] rows[i]).values()@.len() == header_cells.len()
}

/// Whether every slot's columns lie inside the header.
pub open spec fn layout_fits(header_cells: Seq<MultiHeaderCell>, layout: Seq<MultiSlotColumnSpan>) -> bool {
    forall|i: int| 0 <= i < layout.len() ==> columns_in_range(#[trigger] layout[i], header_cells.len() as int)
}

/// Whether every slice lays out one column span per slot.
pub open spec fn slices_fit(slots: nat, slices: Seq<MultiDeclSlice>) -> bool {
    forall|i: int| 0 <= i < slices.len() ==> (#[trigger] slices[i]).column_layout()@.len() == slots
}

impl MultiDataRow {
    pub fn new(label: Spanned<IndexEntryKey>, values: Vec<Expr>) -> (r: MultiDataRow)
        ensures
            *r.label() == label,
            *r.values() == values,
    {
        MultiDataRow { label, values }
    }

    pub open(crate) spec fn spec_label(&self) -> &Spanned<IndexEntryKey> {
        &self.label
    }

    #[verifier::when_used_as_spec(spec_label)]
    pub fn label(&self) -> (r: &Spanned<IndexEntryKey>)
        ensures
            r == self.spec_label(),
    {
        &self.label
    }

    pub open(crate) spec fn spec_values(&self) -> &Vec<Expr> {
        &self.values
    }

    #[verifier::when_used_as_spec(spec_values)]
    pub fn values(&self) -> (r: &Vec<Expr>)
        ensures
            r == self.spec_values(),
    {
        &self.values
    }
}

impl MultiDeclSlice {
    #[verifier::type_invariant]
    pub open(crate) spec fn well_formed(self) -> bool {
        &&& rows_fit(self.header_cells@, self.rows@)
        &&& layout_fits(self.header_cells@, self.column_layout@)
    }

    /// A slice of a multi-table, refused where its rows or its column layout
    /// do not fit its header.
    pub fn new(
        prefix_keys: Vec<MapEntryKey>,
        header_cells: Vec<MultiHeaderCell>,
        column_layout: Vec<MultiSlotColumnSpan>,
        rows: Vec<MultiDataRow>,
    ) -> (r: Result<MultiDeclSlice, MultiDeclShapeError>)
        ensures
            match r {
                Ok(slice) => {
                    &&& rows_fit(header_cells@, rows@)
                    &&& layout_fits(header_cells@, column_layout@)
                    &&& *slice.prefix_keys() == prefix_keys
                    &&& *slice.header_cells() == header_cells
                    &&& *slice.column_layout() == column_layout
                    &&& *slice.rows() == rows
                },
                Err(MultiDeclShapeError::RowArity) => !rows_fit(header_cells@, rows@),
                Err(error) => {
                    &&& error == MultiDeclShapeError::ColumnOutOfRange
                    &&& rows_fit(header_cells@, rows@)
                    &&& !layout_fits(header_cells@, column_layout@)
                },
            },
    {
        let width: usize = header_cells.len();
        for i in 0..rows.len()
            invariant
                width == header_cells.len(),
                forall|j: int| 0 <= j < i ==> (#[trigger] rows[j]).values@.len() == width,
        {
            if rows[i].values.len() != width {
                assert(rows@[i as int].values@.len() != header_cells@.len());
                return Err(MultiDeclShapeError::RowArity);
            }
        }
        for i in 0..column_layout.len()
            invariant
                width == header_cells.len(),
                rows_fit(header_cells@, rows@),
                forall|j: int| 0 <= j < i ==> columns_in_range(#[trigger] column_layout[j], width as int),
        {
            let fits = match &column_layout[i] {
                MultiSlotColumnSpan::Single(column) => *column < width,
                MultiSlotColumnSpan::Range { start, end, extra_axis: _ } => *start <= *end && *end <= width,
            };
            if !fits {
                assert(!columns_in_range(column_layout@[i as int], header_cells@.len() as int));
                return Err(MultiDeclShapeError::ColumnOutOfRange);
            }
        }
        Ok(MultiDeclSlice { prefix_keys, header_cells, column_layout, rows })
    }

    pub open(crate) spec fn spec_prefix_keys(&self) -> &Vec<MapEntryKey> {
        &self.prefix_keys
    }

    #[verifier::when_used_as_spec(spec_prefix_keys)]
    pub fn prefix_keys(&self) -> (r: &Vec<MapEntryKey>)
        ensures
            r == self.spec_prefix_keys(),
    {
        &self.prefix_keys
    }

    pub open(crate) spec fn spec_header_cells(&self) -> &Vec<MultiHeaderCell> {
        &self.header_cells
    }

    #[verifier::when_used_as_spec(spec_header_cells)]
    pub fn header_cells(&self) -> (r: &Vec<MultiHeaderCell>)
        ensures
            r == self.spec_header_cells(),
    {
        &self.header_cells
    }

    pub open(crate) spec fn spec_column_layout(&self) -> &Vec<MultiSlotColumnSpan> {
        &self.column_layout
    }

    #[verifier::when_used_as_spec(spec_column_layout)]
    pub fn column_layout(&self) -> (r: &Vec<MultiSlotColumnSpan>)
        ensures
            r == self.spec_column_layout(),
            layout_fits(self.header_cells()@, r@),
    {
        proof {
            use_type_invariant(self);
        }
        &self.column_layout
    }

    pub open(crate) spec fn spec_rows(&self) -> &Vec<MultiDataRow> {
        &self.rows
    }

    #[verifier::when_used_as_spec(spec_rows)]
    pub fn rows(&self) -> (r: &Vec<MultiDataRow>)
        ensures
            r == self.spec_rows(),
            rows_fit(self.header_cells()@, r@),
    {
        proof {
            use_type_invariant(self);
        }
        &self.rows
    }
}

impl MultiDeclSharedAxes {
    pub fn slice_axes(&self) -> (r: &Vec<TableIndexSpec>)
        ensures
            *r == self.slice_axes,
    {
        &self.slice_axes
    }

    pub fn row_axis(&self) -> (r: &TableIndexSpec)
        ensures
            *r == self.row_axis,
    {
        &self.row_axis
    }

    /// The last axis labels the rows, those before it the slices.
    pub fn try_from_vec(axes: Vec<TableIndexSpec>) -> (r: Option<MultiDeclSharedAxes>)
        ensures
            r is Some == (axes@.len() > 0),
            r is Some ==> r->0.slice_axes@ == axes@.drop_last() && r->0.row_axis == axes@.last(),
    {
        let mut axes = axes;
        match axes.pop() {
            Some(row_axis) => Some(MultiDeclSharedAxes { slice_axes: axes, row_axis }),
            None => None,
        }
    }
}

impl MultiDecl {
    #[verifier::type_invariant]
    pub open(crate) spec fn well_formed(self) -> bool {
        &&& self.slot_axes@.len() == self.slots@.len()
        &&& slices_fit(self.slots@.len(), self.slices@)
    }

    /// A multi-declaration, refused where its slot axes or its slices do not
    /// fit its slots.
    pub fn new(
        slots: Vec<MultiDeclSlot>,
        shared_axes: MultiDeclSharedAxes,
        slot_axes: Vec<MultiSlotAxis>,
        slices: Vec<MultiDeclSlice>,
        span: Span,
        table_expr_span: Span,
    ) -> (r: Result<MultiDecl, MultiDeclShapeError>)
        ensures
            match r {
                Ok(multi) => {
                    &&& slot_axes@.len() == slots@.len()
                    &&& slices_fit(slots@.len(), slices@)
                    &&& *multi.slots() == slots
                    &&& *multi.shared_axes() == shared_axes
                    &&& *multi.slot_axes() == slot_axes
                    &&& *multi.slices() == slices
                    &&& multi.span() == span
                    &&& multi.table_expr_span() == table_expr_span
                },
                Err(MultiDeclShapeError::SlotAxisCount) => slot_axes@.len() != slots@.len(),
                Err(error) => {
                    &&& error == MultiDeclShapeError::LayoutCount
                    &&& slot_axes@.len() == slots@.len()
                    &&& !slices_fit(slots@.len(), slices@)
                },
            },
    {
        if slot_axes.len() != slots.len() {
            return Err(MultiDeclShapeError::SlotAxisCount);
        }
        for i in 0..slices.len()
            invariant
                slot_axes.len() == slots.len(),
                forall|j: int| 0 <= j < i ==> (#[trigger] slices[j]).column_layout@.len() == slots.len(),
        {
            if slices[i].column_layout.len() != slots.len() {
                assert(slices@[i as int].column_layout@.len() != slots@.len());
                return Err(MultiDeclShapeError::LayoutCount);
            }
        }
        Ok(MultiDecl { slots, shared_axes, slot_axes, slices, span, table_expr_span })
    }

    pub open(crate) spec fn spec_slots(&self) -> &Vec<MultiDeclSlot> {
        &self.slots
    }

    #[verifier::when_used_as_spec(spec_slots)]
    pub fn slots(&self) -> (r: &Vec<MultiDeclSlot>)
        ensures
            r == self.spec_slots(),
    {
        &self.slots
    }

    pub open(crate) spec fn spec_shared_axes(&self) -> &MultiDeclSharedAxes {
        &self.shared_axes
    }

    #[verifier::when_used_as_spec(spec_shared_axes)]
    pub fn shared_axes(&self) -> (r: &MultiDeclSharedAxes)
        ensures
            r == self.spec_shared_axes(),
    {
        &self.shared_axes
    }

    pub open(crate) spec fn spec_slot_axes(&self) -> &Vec<MultiSlotAxis> {
        &self.slot_axes
    }

    #[verifier::when_used_as_spec(spec_slot_axes)]
    pub fn slot_axes(&self) -> (r: &Vec<MultiSlotAxis>)
        ensures
            r == self.spec_slot_axes(),
            r@.len() == self.slots()@.len(),
    {
        proof {
            use_type_invariant(self);
        }
        &self.slot_axes
    }

    pub open(crate) spec fn spec_slices(&self) -> &Vec<MultiDeclSlice> {
        &self.slices
    }

    #[verifier::when_used_as_spec(spec_slices)]
    pub fn slices(&self) -> (r: &Vec<MultiDeclSlice>)
        ensures
            r == self.spec_slices(),
            slices_fit(self.slots()@.len(), r@),
    {
        proof {
            use_type_invariant(self);
        }
        &self.slices
    }

    pub open(crate) spec fn spec_span(&self) -> Span {
        self.span
    }

    #[verifier::when_used_as_spec(spec_span)]
    pub fn span(&self) -> (r: Span)
        ensures
            r == self.spec_span(),
    {
        self.span
    }

    pub open(crate) spec fn spec_table_expr_span(&self) -> Span {
        self.table_expr_span
    }

    #[verifier::when_used_as_spec(spec_table_expr_span)]
    pub fn table_expr_span(&self) -> (r: Span)
        ensures
            r == self.spec_table_expr_span(),
    {
        self.table_expr_span
    }
}

} // verus!
