//! The parser of multi-declarations.

use crate::syntax::ast::{
    BindableVisibility, DeclKind, Declaration, Expr, IndexEntryKey, MapEntryKey, MultiDataRow, MultiDecl,
    MultiDeclSharedAxes, MultiDeclSlice, MultiDeclSlot, MultiHeaderCell, MultiSlotAxis, MultiSlotColumnSpan,
    MultiSlotKind, RawDeclSugar, TableIndexSpec, TypeExpr, Visibility,
};
use crate::syntax::multi_decl::{layout_fits, rows_fit, slices_fit};
use crate::syntax::names::{DeclName, IndexVariantName, NameAtom};
use crate::syntax::parser::error::{header_arity, unsupported_shape, ParseError};
use crate::syntax::parser::grammar::refuse;
use crate::syntax::parser::multi_grammar::{
    axis_run, cell_terms, column_terms, data_row, data_rows, header_cell, header_cells, header_row, header_terms,
    label_text, layout, more_slots, multi_body, multi_decl, multi_head, multi_rest, multi_slice_label,
    multi_slice_labels, multi_slices, multi_table, next_slot, row_label, row_terms, second_axis, shared_axes,
    slice_body, slot_axes, slot_axis, slot_axis_terms, slot_header, slot_kind, type_span, visibility_error,
    visibility_prefix, Cell, Columns, Header, Part, Row, SlotAxis,
};
use crate::syntax::parser::state::{moved, outcome, result, Parser};
use crate::syntax::parser::table::{axes_of, axis_of, keys_term, qualified_slice_key, same_path};
use crate::syntax::parser::table_grammar::{axis_terms, Axis};
use crate::syntax::span::{Span, Spanned};
use crate::syntax::term::{seq_terms, DeepClone, Reading, Spans, Syntax, Term};
use crate::syntax::text::{decimal, decimal_string, joined};
use crate::syntax::token::Token;
use vstd::prelude::*;
use vstd::string::StringExecFns;

verus! {

/// The parsed header of one slot.
#[derive(Debug)]
pub struct SlotHeader {
    pub visibility: Visibility,
    pub kind: MultiSlotKind,
    pub kind_span: Span,
    pub name: Spanned<DeclName>,
    pub type_ann: TypeExpr,
    pub header_span: Span,
}

pub open spec fn header_of(slot: SlotHeader) -> Header {
    Header {
        visibility: slot.visibility,
        kind: slot.kind,
        kind_span: slot.kind_span,
        name: slot.name.value.atom.text@,
        name_span: slot.name.span,
        type_ann: slot.type_ann.to_term(Reading::Exact),
        header_span: slot.header_span,
    }
}

pub open spec fn headers_of(slots: Seq<SlotHeader>) -> Seq<Header> {
    Seq::new(slots.len(), |i: int| header_of(slots[i]))
}

pub open spec fn slot_axis_of(axis: MultiSlotAxis) -> SlotAxis {
    match axis {
        MultiSlotAxis::Underscore => SlotAxis::Underscore,
        MultiSlotAxis::Axis(path) => SlotAxis::Axis(path.value.term(Spans::Kept), path.span),
    }
}

pub open spec fn slot_axes_of(axes: Seq<MultiSlotAxis>) -> Seq<SlotAxis> {
    Seq::new(axes.len(), |i: int| slot_axis_of(axes[i]))
}

pub open spec fn cell_of(cell: MultiHeaderCell) -> Cell {
    match cell {
        MultiHeaderCell::Underscore { span } => Cell::Underscore(span),
        MultiHeaderCell::Variant { axis, variant, span } => Cell::Variant(
            axis.value.term(Spans::Kept),
            axis.span,
            variant.term(Spans::Kept),
            span,
        ),
    }
}

pub open spec fn cells_of(cells: Seq<MultiHeaderCell>) -> Seq<Cell> {
    Seq::new(cells.len(), |i: int| cell_of(cells[i]))
}

pub open spec fn columns_of(columns: MultiSlotColumnSpan) -> Columns {
    match columns {
        MultiSlotColumnSpan::Single(column) => Columns::Single(column as int),
        MultiSlotColumnSpan::Range { start, end, extra_axis } => Columns::Range(
            start as int,
            end as int,
            extra_axis.value.term(Spans::Kept),
            extra_axis.span,
        ),
    }
}

pub open spec fn layout_of(layout: Seq<MultiSlotColumnSpan>) -> Seq<Columns> {
    Seq::new(layout.len(), |i: int| columns_of(layout[i]))
}

pub open spec fn row_of(row: MultiDataRow) -> Row {
    Row { label: row.label().term(Spans::Kept), values: Expr::terms(*row.values(), Reading::Exact) }
}

pub open spec fn rows_of(rows: Seq<MultiDataRow>) -> Seq<Row> {
    Seq::new(rows.len(), |i: int| row_of(rows[i]))
}

/// What a parse function returns, read as a part of the grammar.
pub open spec fn part<T, G>(r: Result<(T, usize), ParseError>, f: spec_fn(T) -> G) -> Part<G> {
    match r {
        Ok((value, q)) => Part::Read(f(value), q as int),
        Err(error) => Part::Refused(error.to_term()),
    }
}

/// Why the cells of a header row do not go with the slots.
#[derive(Debug)]
pub enum LayoutError {
    HeaderCellKind { span: Span, slot_name: String },
    HeaderArity { slot_count: usize, header_count: usize, span: Span },
    AxisMismatch { span: Span, slot_name: String, expected_axis: String, got_axis: String },
    NotEnoughCells { slot_name: String, span: Span },
}

impl LayoutError {
    /// The error that the text is refused with.
    pub open spec fn to_term(self) -> Term {
        match self {
            LayoutError::HeaderCellKind { span, slot_name } => unsupported_shape(
                "header cell for 1-D slot `"@ + slot_name@ + "` must be `_`"@,
                span,
            ),
            LayoutError::HeaderArity { slot_count, header_count, span } => header_arity(
                slot_count as int,
                header_count as int,
                span,
            ),
            LayoutError::AxisMismatch { span, slot_name, expected_axis, got_axis } => unsupported_shape(
                "header cell for slot `"@ + slot_name@ + "` is qualified with `"@ + got_axis@
                    + ".…`, but the slot's extra axis is `"@ + expected_axis@ + "`"@,
                span,
            ),
            LayoutError::NotEnoughCells { slot_name, span } => unsupported_shape(
                "slot `"@ + slot_name@
                    + "` is declared with an extra axis but has zero variant cells in the header row"@,
                span,
            ),
        }
    }

    pub fn into_parse_error(self) -> (r: ParseError)
        ensures
            r.to_term() == self.to_term(),
    {
        match self {
            LayoutError::HeaderCellKind { span, slot_name } => {
                let mut reason = joined("header cell for 1-D slot `", slot_name.as_str());
                reason.append("` must be `_`");
                ParseError::unsupported(reason, span)
            },
            LayoutError::HeaderArity { slot_count, header_count, span } => ParseError::header_count(
                slot_count,
                header_count,
                span,
            ),
            LayoutError::AxisMismatch { span, slot_name, expected_axis, got_axis } => {
                let mut reason = joined("header cell for slot `", slot_name.as_str());
                reason.append("` is qualified with `");
                reason.append(got_axis.as_str());
                reason.append(".…`, but the slot's extra axis is `");
                reason.append(expected_axis.as_str());
                reason.append("`");
                ParseError::unsupported(reason, span)
            },
            LayoutError::NotEnoughCells { slot_name, span } => {
                let mut reason = joined("slot `", slot_name.as_str());
                reason.append("` is declared with an extra axis but has zero variant cells in the header row");
                ParseError::unsupported(reason, span)
            },
        }
    }
}

proof fn lemma_axis_run(cells: Seq<Cell>, axis: Term, cursor: int)
    ensures
        cursor <= axis_run(cells, axis, cursor),
        cursor <= cells.len() ==> axis_run(cells, axis, cursor) <= cells.len(),
    decreases cells.len() - cursor,
{
    if 0 <= cursor < cells.len() && cells[cursor].labels(axis) {
        lemma_axis_run(cells, axis, cursor + 1);
    }
}

/// The first cell from `cursor` on that is no variant of the axis.
fn scan_axis_run(cells: &Vec<MultiHeaderCell>, axis: &crate::syntax::ast::NamePath, cursor: usize) -> (r: usize)
    requires
        cursor <= cells@.len(),
    ensures
        r == axis_run(cells_of(cells@), axis.term(Spans::Kept), cursor as int),
        cursor <= r <= cells@.len(),
{
    let mut run: usize = cursor;
    while run < cells.len()
        invariant
            cursor <= run <= cells@.len(),
            axis_run(cells_of(cells@), axis.term(Spans::Kept), cursor as int) == axis_run(
                cells_of(cells@),
                axis.term(Spans::Kept),
                run as int,
            ),
        decreases cells@.len() - run,
    {
        let labelled = match &cells[run] {
            MultiHeaderCell::Underscore { .. } => false,
            MultiHeaderCell::Variant { axis: path, variant: _, span: _ } => same_path(&path.value, axis),
        };
        assert(labelled == cells_of(cells@)[run as int].labels(axis.term(Spans::Kept)));
        if !labelled {
            return run;
        }
        run = run + 1;
    }
    run
}

/// Which columns belong to which slot.
pub fn build_column_layout(
    axes: &Vec<MultiSlotAxis>,
    cells: &Vec<MultiHeaderCell>,
    header_span: Span,
    slots: &Vec<SlotHeader>,
) -> (r: Result<Vec<MultiSlotColumnSpan>, LayoutError>)
    requires
        axes@.len() == slots@.len(),
    ensures
        match r {
            Ok(columns) => {
                &&& layout(
                    slot_axes_of(axes@),
                    cells_of(cells@),
                    headers_of(slots@),
                    header_span,
                    0,
                    0,
                    Seq::empty(),
                ) == Ok::<Seq<Columns>, Term>(layout_of(columns@))
                &&& columns@.len() == axes@.len()
                &&& layout_fits(cells@, columns@)
            },
            Err(error) => layout(
                slot_axes_of(axes@),
                cells_of(cells@),
                headers_of(slots@),
                header_span,
                0,
                0,
                Seq::empty(),
            ) == Err::<Seq<Columns>, Term>(error.to_term()),
        },
{
    let ghost axes_g = slot_axes_of(axes@);
    let ghost cells_g = cells_of(cells@);
    let ghost slots_g = headers_of(slots@);
    let ghost whole = layout(axes_g, cells_g, slots_g, header_span, 0, 0, Seq::empty());
    let mut columns: Vec<MultiSlotColumnSpan> = Vec::new();
    let mut cursor: usize = 0;
    assert(layout_of(columns@) =~= Seq::empty());
    for i in 0..axes.len()
        invariant
            axes@.len() == slots@.len(),
            axes_g == slot_axes_of(axes@),
            cells_g == cells_of(cells@),
            slots_g == headers_of(slots@),
            cursor <= cells@.len(),
            columns@.len() == i,
            layout_fits(cells@, columns@),
            whole == layout(axes_g, cells_g, slots_g, header_span, 0, 0, Seq::empty()),
            whole == layout(
                axes_g,
                cells_g,
                slots_g,
                header_span,
                i as int,
                cursor as int,
                layout_of(columns@),
            ),
    {
        let ghost before = columns@;
        assert(axes_g[i as int] == slot_axis_of(axes@[i as int]));
        assert(slots_g[i as int].name == slots@[i as int].name.value.atom.text@);
        match &axes[i] {
            MultiSlotAxis::Underscore => {
                if cursor >= cells.len() {
                    return Err(
                        LayoutError::HeaderArity {
                            slot_count: axes.len(),
                            header_count: cells.len(),
                            span: header_span,
                        },
                    );
                }
                assert(cells_g[cursor as int] == cell_of(cells@[cursor as int]));
                match &cells[cursor] {
                    MultiHeaderCell::Underscore { .. } => {},
                    MultiHeaderCell::Variant { axis: _, variant: _, span } => {
                        return Err(
                            LayoutError::HeaderCellKind {
                                span: *span,
                                slot_name: slots[i].name.value.atom.text.clone(),
                            },
                        );
                    },
                }
                columns.push(MultiSlotColumnSpan::Single(cursor));
                assert(layout_of(columns@) =~= layout_of(before).push(Columns::Single(cursor as int)));
                cursor = cursor + 1;
            },
            MultiSlotAxis::Axis(extra_axis) => {
                let run = scan_axis_run(cells, &extra_axis.value, cursor);
                if run < cells.len() {
                    assert(cells_g[run as int] == cell_of(cells@[run as int]));
                    match &cells[run] {
                        MultiHeaderCell::Underscore { .. } => {},
                        MultiHeaderCell::Variant { axis, variant: _, span } => {
                            return Err(
                                LayoutError::AxisMismatch {
                                    span: *span,
                                    slot_name: slots[i].name.value.atom.text.clone(),
                                    expected_axis: extra_axis.value.display_path(),
                                    got_axis: axis.value.display_path(),
                                },
                            );
                        },
                    }
                }
                if run == cursor {
                    return Err(
                        LayoutError::NotEnoughCells {
                            slot_name: slots[i].name.value.atom.text.clone(),
                            span: extra_axis.span,
                        },
                    );
                }
                let span = MultiSlotColumnSpan::Range {
                    start: cursor,
                    end: run,
                    extra_axis: extra_axis.deep_clone(),
                };
                columns.push(span);
                assert(layout_of(columns@) =~= layout_of(before).push(columns_of(span)));
                cursor = run;
            },
        }
    }
    if cursor != cells.len() {
        return Err(
            LayoutError::HeaderArity { slot_count: axes.len(), header_count: cells.len(), span: header_span },
        );
    }
    Ok(columns)
}

/// Where the second axis in a slot tuple stands, if there is one.
fn find_second_axis(axes: &Vec<MultiSlotAxis>) -> (r: Option<Span>)
    ensures
        r == second_axis(slot_axes_of(axes@), 0, false),
{
    let mut seen: bool = false;
    for i in 0..axes.len()
        invariant
            second_axis(slot_axes_of(axes@), 0, false) == second_axis(slot_axes_of(axes@), i as int, seen),
    {
        match &axes[i] {
            MultiSlotAxis::Underscore => {},
            MultiSlotAxis::Axis(path) => {
                if seen {
                    return Some(path.span);
                }
                seen = true;
            },
        }
    }
    None
}

/// How a row label is named in messages.
impl IndexEntryKey {
    pub fn to_label(&self) -> (r: String)
        ensures
            r@ == match *self {
                IndexEntryKey::Named(name) => name.atom.text@,
                IndexEntryKey::Position(position) => "#"@ + decimal(position as nat),
            },
    {
        match self {
            IndexEntryKey::Named(name) => name.atom.text.clone(),
            IndexEntryKey::Position(position) => joined("#", decimal_string(*position).as_str()),
        }
    }
}

impl Parser {
    /// `pub`, `pub(bind)` or nothing, and where it stands.
    pub(crate) fn parse_visibility_prefix(&self, p: usize) -> (r: Result<
        ((BindableVisibility, Option<Span>), usize),
        ParseError,
    >)
        requires
            p <= self@.end(),
        ensures
            part(r, |v: (BindableVisibility, Option<Span>)| v) == visibility_prefix(self@, p as int),
            r is Ok ==> p <= r->Ok_0.1 <= self@.end(),
    {
        if !self.is(p, Token::Pub) {
            return Ok(((BindableVisibility::Private, None), p));
        }
        if !self.is(p + 1, Token::LParen) {
            return Ok(((BindableVisibility::Public, Some(self.span(p))), p + 1));
        }
        if !self.named(p + 2) || self.text(p + 2) != "bind".to_owned() {
            return Err(self.refuse(p + 2, "`bind`"));
        }
        if !self.is(p + 3, Token::RParen) {
            return Err(self.refuse_token(p + 3, Token::RParen));
        }
        Ok(((BindableVisibility::PublicBind, Some(self.span(p).merge(self.span(p + 3)))), p + 4))
    }

    /// Refuse a visibility that does not go with a kind of declaration.
    pub(crate) fn check_value_decl_visibility(
        visibility: BindableVisibility,
        visibility_span: Option<Span>,
        kind: MultiSlotKind,
    ) -> (r: Result<(), ParseError>)
        ensures
            match r {
                Ok(_) => visibility_error(visibility, visibility_span, kind) is None,
                Err(e) => visibility_error(visibility, visibility_span, kind) == Some(e.to_term()),
            },
    {
        let span = match visibility_span {
            None => {
                return Ok(());
            },
            Some(span) => span,
        };
        match (kind, visibility) {
            (MultiSlotKind::Param, BindableVisibility::Public) => Err(
                ParseError::unexpected(
                    "no visibility annotation (`param` declares a named input port)".to_owned(),
                    "`pub`".to_owned(),
                    span,
                ),
            ),
            (MultiSlotKind::Param, BindableVisibility::PublicBind) => Err(
                ParseError::unexpected(
                    "no visibility annotation (`param` declares a named input port)".to_owned(),
                    "`pub(bind)`".to_owned(),
                    span,
                ),
            ),
            (_, BindableVisibility::PublicBind) => Err(
                ParseError::unexpected(
                    "`pub` (nodes are computed values — `pub(bind)` is not meaningful; use `param` to declare a named input port)".to_owned(),
                    "`pub(bind)`".to_owned(),
                    span,
                ),
            ),
            _ => Ok(()),
        }
    }

    pub(crate) fn parse_slot_kind(&self, p: usize) -> (r: Result<((MultiSlotKind, Span), usize), ParseError>)
        ensures
            part(r, |v: (MultiSlotKind, Span)| v) == slot_kind(self@, p as int),
            moved(r, p as int, self@.end()),
    {
        match self.token(p) {
            Some(Token::Param) => Ok(((MultiSlotKind::Param, self.span(p)), p + 1)),
            Some(Token::Node) => Ok(((MultiSlotKind::Node, self.span(p)), p + 1)),
            Some(Token::Const) => {
                if !self.is(p + 1, Token::Node) {
                    return Err(self.refuse_token(p + 1, Token::Node));
                }
                Ok(((MultiSlotKind::ConstNode, self.span(p).merge(self.span(p + 1))), p + 2))
            },
            Some(_) => Err(self.refuse(p, "`param`, `node`, or `const node` for next multi-decl slot")),
            None => Err(self.refuse(p, "`param`, `node`, or `const node`")),
        }
    }

    pub(crate) fn parse_slot_header_tail(
        &self,
        visibility: BindableVisibility,
        kind: MultiSlotKind,
        kind_span: Span,
        p: usize,
    ) -> (r: Result<(SlotHeader, usize), ParseError>)
        ensures
            part(r, |h: SlotHeader| header_of(h)) == slot_header(self@, visibility, kind, kind_span, p as int),
            moved(r, p as int, self@.end()),
            r is Ok ==> r->Ok_0.0.kind == kind,
    {
        if !self.named(p) {
            return Err(self.refuse(p, "identifier"));
        }
        if !self.is(p + 1, Token::Colon) {
            return Err(self.refuse_token(p + 1, Token::Colon));
        }
        let (type_ann, q) = match self.parse_type_expr(p + 2, 0) {
            Ok(x) => x,
            Err(e) => return Err(e),
        };
        assert(type_span(type_ann.to_term(Reading::Exact)) == type_ann.span);
        let header_span = kind_span.merge(type_ann.span);
        let visibility = match visibility {
            BindableVisibility::Private => Visibility::Private,
            _ => Visibility::Public,
        };
        let name = Spanned { value: DeclName { atom: NameAtom { text: self.text(p) } }, span: self.span(p) };
        Ok((SlotHeader { visibility, kind, kind_span, name, type_ann, header_span }, q))
    }

    fn parse_next_slot(&self, p: usize) -> (r: Result<(SlotHeader, usize), ParseError>)
        requires
            p <= self@.end(),
        ensures
            part(r, |h: SlotHeader| header_of(h)) == next_slot(self@, p as int),
            moved(r, p as int, self@.end()),
    {
        let ((visibility, span), q) = match self.parse_visibility_prefix(p) {
            Ok(x) => x,
            Err(e) => return Err(e),
        };
        let ((kind, kind_span), r) = match self.parse_slot_kind(q) {
            Ok(x) => x,
            Err(e) => return Err(e),
        };
        match Parser::check_value_decl_visibility(visibility, span, kind) {
            Ok(_) => {},
            Err(e) => return Err(e),
        }
        self.parse_slot_header_tail(visibility, kind, kind_span, r)
    }

    fn parse_more_slots(&self, first: SlotHeader, p: usize) -> (r: Result<(Vec<SlotHeader>, usize), ParseError>)
        requires
            p <= self@.end(),
        ensures
            part(r, |v: Vec<SlotHeader>| headers_of(v@)) == more_slots(self@, p as int, seq![header_of(first)]),
            r is Ok ==> p <= r->Ok_0.1 <= self@.end() && r->Ok_0.0@.len() > 0,
    {
        let ghost whole = more_slots(self@, p as int, seq![header_of(first)]);
        let mut slots: Vec<SlotHeader> = Vec::new();
        slots.push(first);
        let mut q: usize = p;
        assert(headers_of(slots@) =~= seq![header_of(first)]);
        while self.is(q, Token::Comma)
            invariant
                p <= q <= self@.end(),
                slots@.len() > 0,
                whole == more_slots(self@, p as int, seq![header_of(first)]),
                whole == more_slots(self@, q as int, headers_of(slots@)),
            decreases self@.end() - q,
        {
            match self.parse_next_slot(q + 1) {
                Ok((slot, r)) => {
                    let ghost before = slots@;
                    slots.push(slot);
                    assert(headers_of(slots@) =~= headers_of(before).push(header_of(slot)));
                    q = r;
                },
                Err(e) => {
                    return Err(e);
                },
            }
        }
        Ok((slots, q))
    }

    fn parse_shared_axes(&self, p: usize) -> (r: Result<(Vec<TableIndexSpec>, usize), ParseError>)
        requires
            p <= self@.end(),
        ensures
            part(r, |v: Vec<TableIndexSpec>| axes_of(v@)) == shared_axes(self@, p as int, Seq::empty()),
            r is Ok ==> p <= r->Ok_0.1 && self@.is(r->Ok_0.1 as int, Token::LParen),
    {
        let mut axes: Vec<TableIndexSpec> = Vec::new();
        let mut q: usize = p;
        assert(axes_of(axes@) =~= Seq::empty());
        while !self.is(q, Token::LParen)
            invariant
                p <= q <= self@.end(),
                shared_axes(self@, p as int, Seq::empty()) == shared_axes(self@, q as int, axes_of(axes@)),
            decreases self@.end() - q,
        {
            let (axis, r) = match self.parse_table_index_spec(q) {
                Ok(x) => x,
                Err(e) => return Err(e),
            };
            if !self.is(r, Token::Comma) {
                return Err(self.refuse_token(r, Token::Comma));
            }
            let ghost before = axes@;
            axes.push(axis);
            assert(axes_of(axes@) =~= axes_of(before).push(axis_of(axis)));
            q = r + 1;
        }
        Ok((axes, q))
    }

    fn parse_slot_axis_entry(&self, p: usize) -> (r: Result<(MultiSlotAxis, usize), ParseError>)
        ensures
            part(r, |a: MultiSlotAxis| slot_axis_of(a)) == slot_axis(self@, p as int),
            moved(r, p as int, self@.end()),
    {
        if self.is(p, Token::Underscore) {
            return Ok((MultiSlotAxis::Underscore, p + 1));
        }
        if self.named(p) {
            let last = self.path_last(p);
            return Ok((MultiSlotAxis::Axis(self.name_path(p, last)), last + 1));
        }
        Err(self.refuse(p, "`_` or an axis identifier path in slot tuple"))
    }

    fn parse_slot_axes(&self, p: usize) -> (r: Result<(Vec<MultiSlotAxis>, usize), ParseError>)
        requires
            p <= self@.end(),
        ensures
            part(r, |v: Vec<MultiSlotAxis>| slot_axes_of(v@)) == slot_axes(self@, p as int, Seq::empty()),
            r is Ok ==> p <= r->Ok_0.1 <= self@.end(),
    {
        let mut axes: Vec<MultiSlotAxis> = Vec::new();
        let mut q: usize = p;
        assert(slot_axes_of(axes@) =~= Seq::empty());
        loop
            invariant
                p <= q <= self@.end(),
                slot_axes(self@, p as int, Seq::empty()) == slot_axes(self@, q as int, slot_axes_of(axes@)),
            decreases self@.end() - q,
        {
            if self.is(q, Token::RParen) {
                return Ok((axes, q));
            }
            let (axis, r) = match self.parse_slot_axis_entry(q) {
                Ok(x) => x,
                Err(e) => return Err(e),
            };
            let ghost before = axes@;
            axes.push(axis);
            assert(slot_axes_of(axes@) =~= slot_axes_of(before).push(slot_axis_of(axis)));
            if self.is(r, Token::Comma) {
                q = r + 1;
            } else {
                return Ok((axes, r));
            }
        }
    }

    fn parse_header_cell(&self, p: usize) -> (r: Result<(MultiHeaderCell, usize), ParseError>)
        ensures
            part(r, |c: MultiHeaderCell| cell_of(c)) == header_cell(self@, p as int),
            moved(r, p as int, self@.end()),
    {
        if self.is(p, Token::Underscore) {
            return Ok((MultiHeaderCell::Underscore { span: self.span(p) }, p + 1));
        }
        if self.named(p) {
            return match self.parse_index_variant_path(p) {
                Ok((path, q)) => Ok(
                    (MultiHeaderCell::Variant { axis: path.index, variant: path.variant, span: path.span }, q),
                ),
                Err(e) => Err(e),
            };
        }
        Err(self.refuse(p, "`_` or a qualified `Axis.Variant` label in header row"))
    }

    fn parse_header_cells(&self, p: usize) -> (r: Result<(Vec<MultiHeaderCell>, usize), ParseError>)
        requires
            p <= self@.end(),
        ensures
            part(r, |v: Vec<MultiHeaderCell>| cells_of(v@)) == header_cells(self@, p as int, Seq::empty()),
            moved(r, p as int, self@.end()),
    {
        let mut cells: Vec<MultiHeaderCell> = Vec::new();
        let mut q: usize = p;
        assert(cells_of(cells@) =~= Seq::empty());
        loop
            invariant
                p <= q <= self@.end(),
                header_cells(self@, p as int, Seq::empty()) == header_cells(self@, q as int, cells_of(cells@)),
            decreases self@.end() - q,
        {
            let (cell, r) = match self.parse_header_cell(q) {
                Ok(x) => x,
                Err(e) => return Err(e),
            };
            let ghost before = cells@;
            cells.push(cell);
            assert(cells_of(cells@) =~= cells_of(before).push(cell_of(cell)));
            if self.is(r, Token::Comma) {
                q = r + 1;
            } else {
                return Ok((cells, r));
            }
        }
    }

    fn parse_multi_header_row(&self, p: usize) -> (r: Result<((Vec<MultiHeaderCell>, Span), usize), ParseError>)
        ensures
            part(r, |v: (Vec<MultiHeaderCell>, Span)| (cells_of(v.0@), v.1)) == header_row(self@, p as int),
            moved(r, p as int, self@.end()),
    {
        if !self.is(p, Token::Colon) {
            return Err(self.refuse_token(p, Token::Colon));
        }
        let (cells, q) = match self.parse_header_cells(p + 1) {
            Ok(x) => x,
            Err(e) => return Err(e),
        };
        if !self.is(q, Token::Semicolon) {
            return Err(self.refuse_token(q, Token::Semicolon));
        }
        let span = self.span(p).merge(self.span(q));
        Ok(((cells, span), q + 1))
    }

    /// The label of a row and where it stands.
    fn parse_row_label(&self, axis: &TableIndexSpec, p: usize, count: u64, header_span: Span) -> (r: Result<
        ((Spanned<IndexEntryKey>, Span), usize),
        ParseError,
    >)
        requires
            p <= self@.end(),
        ensures
            part(r, |v: (Spanned<IndexEntryKey>, Span)| (v.0.term(Spans::Kept), v.1)) == row_label(
                self@,
                axis_of(*axis),
                p as int,
                count as int,
                header_span,
            ),
            r is Ok ==> p <= r->Ok_0.1 <= self@.end(),
            r is Ok ==> match r->Ok_0.0.0.value {
                IndexEntryKey::Named(name) => name.atom.text@ == label_text(
                    self@,
                    axis_of(*axis),
                    p as int,
                    count as int,
                ),
                IndexEntryKey::Position(position) => "#"@ + decimal(position as nat) == label_text(
                    self@,
                    axis_of(*axis),
                    p as int,
                    count as int,
                ),
            },
    {
        match axis {
            TableIndexSpec::Named(_) => {
                if !self.named(p) {
                    return Err(self.refuse(p, "identifier"));
                }
                if !self.is(p + 1, Token::Colon) {
                    return Err(self.refuse_token(p + 1, Token::Colon));
                }
                let name = IndexVariantName { atom: NameAtom { text: self.text(p) } };
                let span = self.span(p);
                Ok(((Spanned { value: IndexEntryKey::Named(name), span }, span), p + 2))
            },
            TableIndexSpec::Finite { .. } => {
                let span = self.span_or(p, header_span);
                Ok(((Spanned { value: IndexEntryKey::Position(count), span }, span), p))
            },
        }
    }

    fn parse_data_row(&self, axis: &TableIndexSpec, width: usize, p: usize, count: u64, header_span: Span) -> (r:
        Result<(MultiDataRow, usize), ParseError>)
        requires
            p <= self@.end(),
        ensures
            part(r, |v: MultiDataRow| row_of(v)) == data_row(
                self@,
                axis_of(*axis),
                width as int,
                p as int,
                count as int,
                header_span,
            ),
            moved(r, p as int, self@.end()),
            r is Ok ==> r->Ok_0.0.values@.len() == width,
    {
        let ((label, at), q) = match self.parse_row_label(axis, p, count, header_span) {
            Ok(x) => x,
            Err(e) => return Err(e),
        };
        let (values, r) = match self.parse_row_values(q, 0) {
            Ok(x) => x,
            Err(e) => return Err(e),
        };
        if !self.is(r, Token::Semicolon) {
            return Err(self.refuse_token(r, Token::Semicolon));
        }
        if values.len() != width {
            let span = at.merge(self.span_or(r, at));
            return Err(ParseError::row_arity(width, values.len(), label.value.to_label(), span));
        }
        Ok((MultiDataRow::new(label, values), r + 1))
    }

    fn parse_data_rows(&self, axis: &TableIndexSpec, width: usize, p: usize, header_span: Span) -> (r: Result<
        (Vec<MultiDataRow>, usize),
        ParseError,
    >)
        requires
            p <= self@.end(),
        ensures
            part(r, |v: Vec<MultiDataRow>| rows_of(v@)) == data_rows(
                self@,
                axis_of(*axis),
                width as int,
                p as int,
                header_span,
                Seq::empty(),
            ),
            r is Ok ==> p <= r->Ok_0.1 <= self@.end(),
            r is Ok ==> forall|i: int|
                0 <= i < r->Ok_0.0@.len() ==> (#[trigger] r->Ok_0.0@[i]).values@.len() == width,
    {
        let mut rows: Vec<MultiDataRow> = Vec::new();
        let mut q: usize = p;
        assert(rows_of(rows@) =~= Seq::empty());
        loop
            invariant
                p <= q <= self@.end(),
                data_rows(self@, axis_of(*axis), width as int, p as int, header_span, Seq::empty()) == data_rows(
                    self@,
                    axis_of(*axis),
                    width as int,
                    q as int,
                    header_span,
                    rows_of(rows@),
                ),
                forall|i: int| 0 <= i < rows@.len() ==> (#[trigger] rows@[i]).values@.len() == width,
            decreases self@.end() - q,
        {
            if self.is(q, Token::RBrace) || self.is(q, Token::LBracket) {
                let got: u64 = rows.len() as u64;
                return match axis {
                    TableIndexSpec::Finite { cardinality, span: _ } => if got == *cardinality {
                        Ok((rows, q))
                    } else {
                        Err(ParseError::row_length(*cardinality, got, header_span))
                    },
                    TableIndexSpec::Named(_) => Ok((rows, q)),
                };
            }
            let (row, r) = match self.parse_data_row(axis, width, q, rows.len() as u64, header_span) {
                Ok(x) => x,
                Err(e) => return Err(e),
            };
            let ghost before = rows@;
            rows.push(row);
            assert(rows_of(rows@) =~= rows_of(before).push(row_of(row)));
            q = r;
        }
    }

    fn parse_multi_slice_body(
        &self,
        prefix_keys: Vec<MapEntryKey>,
        row_axis: &TableIndexSpec,
        axes: &Vec<MultiSlotAxis>,
        slots: &Vec<SlotHeader>,
        p: usize,
    ) -> (r: Result<(MultiDeclSlice, usize), ParseError>)
        requires
            p <= self@.end(),
            axes@.len() == slots@.len(),
        ensures
            outcome(r, |s: MultiDeclSlice| s.to_term(Reading::Exact)) == slice_body(
                self@,
                MapEntryKey::terms(prefix_keys, Reading::Exact),
                axis_of(*row_axis),
                slot_axes_of(axes@),
                headers_of(slots@),
                p as int,
            ),
            moved(r, p as int, self@.end()),
            r is Ok ==> r->Ok_0.0.column_layout@.len() == slots@.len(),
    {
        let ((cells, header_span), q) = match self.parse_multi_header_row(p) {
            Ok(x) => x,
            Err(e) => return Err(e),
        };
        let columns = match build_column_layout(axes, &cells, header_span, slots) {
            Ok(columns) => columns,
            Err(error) => return Err(error.into_parse_error()),
        };
        let (rows, r) = match self.parse_data_rows(row_axis, cells.len(), q, header_span) {
            Ok(x) => x,
            Err(e) => return Err(e),
        };
        assert(rows_fit(cells@, rows@));
        let ghost cell_list = cells;
        let ghost column_list = columns;
        let ghost row_list = rows;
        match MultiDeclSlice::new(prefix_keys, cells, columns, rows) {
            Ok(slice) => {
                proof {
                    assert(seq_terms(cell_list@, Spans::Kept) =~= cell_terms(cells_of(cell_list@)));
                    assert(seq_terms(column_list@, Spans::Kept) =~= column_terms(layout_of(column_list@)));
                    assert(MultiDataRow::terms(row_list, Reading::Exact) =~= row_terms(rows_of(row_list@)));
                }
                Ok((slice, r))
            },
            Err(_) => Err(self.refuse(p, "a table with one column span per slot")),
        }
    }

    fn parse_multi_slice_label(&self, axis: &TableIndexSpec, p: usize) -> (r: Result<
        (MapEntryKey, usize),
        ParseError,
    >)
        ensures
            result(r) == multi_slice_label(self@, axis_of(*axis), p as int),
            moved(r, p as int, self@.end()),
    {
        match axis {
            TableIndexSpec::Finite { .. } => self.parse_slice_position(axis, p),
            TableIndexSpec::Named(name) => {
                let (path, q) = match self.parse_index_variant_path(p) {
                    Ok(x) => x,
                    Err(e) => return Err(e),
                };
                if !same_path(&path.index.value, &name.value) {
                    let mut reason = joined("slice label qualifies axis `", path.index.value.display_path().as_str());
                    reason.append("`, but the shared axis at this position is `");
                    reason.append(name.value.display_path().as_str());
                    reason.append("`");
                    return Err(ParseError::unsupported(reason, path.index.span));
                }
                Ok((qualified_slice_key(path, name.span), q))
            },
        }
    }

    /// The labels of a slice, one for each slice axis.
    fn parse_multi_slice_labels(&self, axes: &Vec<TableIndexSpec>, p: usize) -> (r: Result<
        (Vec<MapEntryKey>, usize),
        ParseError,
    >)
        requires
            p <= self@.end(),
        ensures
            outcome(r, |v: Vec<MapEntryKey>| keys_term(v)) == multi_slice_labels(
                self@,
                axes_of(axes@),
                0,
                p as int,
                Seq::empty(),
            ),
            r is Ok ==> p <= r->Ok_0.1 <= self@.end(),
    {
        let mut keys: Vec<MapEntryKey> = Vec::new();
        let mut q: usize = p;
        assert(MapEntryKey::terms(keys, Reading::Exact) =~= Seq::empty());
        for i in 0..axes.len()
            invariant
                p <= q <= self@.end(),
                multi_slice_labels(self@, axes_of(axes@), 0, p as int, Seq::empty()) == multi_slice_labels(
                    self@,
                    axes_of(axes@),
                    i as int,
                    q as int,
                    MapEntryKey::terms(keys, Reading::Exact),
                ),
        {
            let mut start: usize = q;
            if i > 0 {
                if !self.is(q, Token::Comma) {
                    return Err(self.refuse_token(q, Token::Comma));
                }
                start = q + 1;
            }
            assert(axes_of(axes@)[i as int] == axis_of(axes@[i as int]));
            let (key, r) = match self.parse_multi_slice_label(&axes[i], start) {
                Ok(x) => x,
                Err(e) => return Err(e),
            };
            let ghost before = MapEntryKey::terms(keys, Reading::Exact);
            keys.push(key);
            assert(MapEntryKey::terms(keys, Reading::Exact) =~= before.push(key.to_term(Reading::Exact)));
            q = r;
        }
        Ok((keys, q))
    }

    /// `[labels] body` as often as it follows.
    fn parse_multi_slices(
        &self,
        shared: &MultiDeclSharedAxes,
        axes: &Vec<MultiSlotAxis>,
        slots: &Vec<SlotHeader>,
        p: usize,
    ) -> (r: Result<(Vec<MultiDeclSlice>, usize), ParseError>)
        requires
            p <= self@.end(),
            axes@.len() == slots@.len(),
        ensures
            outcome(r, |v: Vec<MultiDeclSlice>| Term::List(MultiDeclSlice::terms(v, Reading::Exact))) == multi_slices(
                self@,
                axes_of(shared.slice_axes@).push(axis_of(shared.row_axis)),
                slot_axes_of(axes@),
                headers_of(slots@),
                p as int,
                Seq::empty(),
            ),
            r is Ok ==> p <= r->Ok_0.1 <= self@.end() && slices_fit(slots@.len(), r->Ok_0.0@),
    {
        let ghost all = axes_of(shared.slice_axes@).push(axis_of(shared.row_axis));
        let mut slices: Vec<MultiDeclSlice> = Vec::new();
        let mut q: usize = p;
        assert(MultiDeclSlice::terms(slices, Reading::Exact) =~= Seq::empty());
        assert(all.drop_last() =~= axes_of(shared.slice_axes@));
        while self.is(q, Token::LBracket)
            invariant
                p <= q <= self@.end(),
                axes@.len() == slots@.len(),
                all == axes_of(shared.slice_axes@).push(axis_of(shared.row_axis)),
                all.drop_last() == axes_of(shared.slice_axes@),
                slices_fit(slots@.len(), slices@),
                multi_slices(self@, all, slot_axes_of(axes@), headers_of(slots@), p as int, Seq::empty())
                    == multi_slices(
                    self@,
                    all,
                    slot_axes_of(axes@),
                    headers_of(slots@),
                    q as int,
                    MultiDeclSlice::terms(slices, Reading::Exact),
                ),
            decreases self@.end() - q,
        {
            let (keys, r) = match self.parse_multi_slice_labels(&shared.slice_axes, q + 1) {
                Ok(x) => x,
                Err(e) => return Err(e),
            };
            if !self.is(r, Token::RBracket) {
                return Err(self.refuse_token(r, Token::RBracket));
            }
            let (slice, s) = match self.parse_multi_slice_body(keys, &shared.row_axis, axes, slots, r + 1) {
                Ok(x) => x,
                Err(e) => return Err(e),
            };
            let ghost before = MultiDeclSlice::terms(slices, Reading::Exact);
            slices.push(slice);
            assert(MultiDeclSlice::terms(slices, Reading::Exact) =~= before.push(slice.to_term(Reading::Exact)));
            q = s;
        }
        Ok((slices, q))
    }

    fn parse_multi_body(
        &self,
        shared: &MultiDeclSharedAxes,
        axes: &Vec<MultiSlotAxis>,
        slots: &Vec<SlotHeader>,
        table: usize,
        p: usize,
    ) -> (r: Result<(Vec<MultiDeclSlice>, usize), ParseError>)
        requires
            p <= self@.end(),
            axes@.len() == slots@.len(),
        ensures
            outcome(r, |v: Vec<MultiDeclSlice>| Term::List(MultiDeclSlice::terms(v, Reading::Exact))) == multi_body(
                self@,
                axes_of(shared.slice_axes@).push(axis_of(shared.row_axis)),
                slot_axes_of(axes@),
                headers_of(slots@),
                table as int,
                p as int,
            ),
            r is Ok ==> p <= r->Ok_0.1 <= self@.end() && slices_fit(slots@.len(), r->Ok_0.0@),
    {
        if shared.slice_axes.len() == 0 {
            let prefix: Vec<MapEntryKey> = Vec::new();
            assert(MapEntryKey::terms(prefix, Reading::Exact) =~= Seq::empty());
            let (slice, q) = match self.parse_multi_slice_body(prefix, &shared.row_axis, axes, slots, p) {
                Ok(x) => x,
                Err(e) => return Err(e),
            };
            let mut slices: Vec<MultiDeclSlice> = Vec::new();
            slices.push(slice);
            assert(MultiDeclSlice::terms(slices, Reading::Exact) =~= seq![slice.to_term(Reading::Exact)]);
            return Ok((slices, q));
        }
        if !self.is(p, Token::LBracket) {
            return Err(
                ParseError::unsupported(
                    "multi-decl with multiple shared axes requires at least one `[slice]` section".to_owned(),
                    self.span_or(p, self.span(table)),
                ),
            );
        }
        self.parse_multi_slices(shared, axes, slots, p)
    }

    /// `table[axes, (slot axes)]`.
    fn parse_multi_head(&self, slots: &Vec<SlotHeader>, table: usize) -> (r: Result<
        ((MultiDeclSharedAxes, Vec<MultiSlotAxis>), usize),
        ParseError,
    >)
        ensures
            part(
                r,
                |v: (MultiDeclSharedAxes, Vec<MultiSlotAxis>)|
                    (axes_of(v.0.slice_axes@).push(axis_of(v.0.row_axis)), slot_axes_of(v.1@)),
            ) == multi_head(self@, headers_of(slots@), table as int),
            moved(r, table as int, self@.end()),
            r is Ok ==> r->Ok_0.0.1@.len() == slots@.len(),
    {
        if !self.is(table, Token::Table) {
            return Err(self.refuse_token(table, Token::Table));
        }
        if !self.is(table + 1, Token::LBracket) {
            return Err(self.refuse_token(table + 1, Token::LBracket));
        }
        let (shared, q) = match self.parse_shared_axes(table + 2) {
            Ok(x) => x,
            Err(e) => return Err(e),
        };
        let tuple_start = self.span(q);
        let (axes, r) = match self.parse_slot_axes(q + 1) {
            Ok(x) => x,
            Err(e) => return Err(e),
        };
        if !self.is(r, Token::RParen) {
            return Err(self.refuse_token(r, Token::RParen));
        }
        if axes.len() != slots.len() {
            let span = tuple_start.merge(self.span(r));
            return Err(ParseError::tuple_arity(slots.len(), axes.len(), span));
        }
        if !self.is(r + 1, Token::RBracket) {
            return Err(self.refuse_token(r + 1, Token::RBracket));
        }
        let ghost all = shared@;
        let shared_axes = match MultiDeclSharedAxes::try_from_vec(shared) {
            Some(shared_axes) => shared_axes,
            None => {
                return Err(ParseError::no_shared_axis(self.span(table).merge(self.span(r + 1))));
            },
        };
        assert(axes_of(shared_axes.slice_axes@).push(axis_of(shared_axes.row_axis)) =~= axes_of(all));
        match find_second_axis(&axes) {
            Some(span) => Err(
                ParseError::unsupported(
                    "multi-decl with more than one extra-axis slot is not yet supported (v3)".to_owned(),
                    span,
                ),
            ),
            None => Ok(((shared_axes, axes), r + 2)),
        }
    }

    /// The table of a multi-declaration, from `=` on.
    fn parse_multi_table(&self, slots: Vec<SlotHeader>, p: usize) -> (r: Result<(Declaration, usize), ParseError>)
        requires
            slots@.len() > 0,
        ensures
            outcome(r, |v: Declaration| v.to_term(Reading::Exact)) == multi_table(
                self@,
                headers_of(slots@),
                p as int,
            ),
            moved(r, p as int, self@.end()),
    {
        if !self.is(p, Token::Eq) {
            return Err(self.refuse_token(p, Token::Eq));
        }
        let ((shared, axes), q) = match self.parse_multi_head(&slots, p + 1) {
            Ok(x) => x,
            Err(e) => return Err(e),
        };
        if !self.is(q, Token::LBrace) {
            return Err(self.refuse_token(q, Token::LBrace));
        }
        let (slices, r) = match self.parse_multi_body(&shared, &axes, &slots, p + 1, q + 1) {
            Ok(x) => x,
            Err(e) => return Err(e),
        };
        if !self.is(r, Token::RBrace) {
            return Err(self.refuse_token(r, Token::RBrace));
        }
        if !self.is(r + 1, Token::Semicolon) {
            return Err(self.refuse_token(r + 1, Token::Semicolon));
        }
        let table_span = self.span(p + 1).merge(self.span(r));
        let span = slots[0].kind_span.merge(self.span(r + 1));
        match assemble_multi_decl(slots, shared, axes, slices, span, table_span) {
            Some(declaration) => Ok((declaration, r + 2)),
            None => Err(self.refuse(p, "a table with one column span per slot")),
        }
    }

    pub(crate) fn parse_multi_decl_rest(
        &self,
        first: SlotHeader,
        visibility: BindableVisibility,
        visibility_span: Option<Span>,
        p: usize,
    ) -> (r: Result<(Declaration, usize), ParseError>)
        requires
            p <= self@.end(),
        ensures
            outcome(r, |v: Declaration| v.to_term(Reading::Exact)) == multi_rest(
                self@,
                header_of(first),
                visibility,
                visibility_span,
                p as int,
            ),
            moved(r, p as int, self@.end()),
    {
        match Parser::check_value_decl_visibility(visibility, visibility_span, first.kind) {
            Ok(_) => {},
            Err(e) => return Err(e),
        }
        match self.parse_more_slots(first, p) {
            Ok((slots, q)) => {
                if slots.len() < 2 {
                    return Err(ParseError::single_slot(slots[0].header_span));
                }
                self.parse_multi_table(slots, q)
            },
            Err(e) => Err(e),
        }
    }
}

/// Put the parts of a multi-declaration together.
fn assemble_multi_decl(
    slots: Vec<SlotHeader>,
    shared: MultiDeclSharedAxes,
    axes: Vec<MultiSlotAxis>,
    slices: Vec<MultiDeclSlice>,
    span: Span,
    table_span: Span,
) -> (r: Option<Declaration>)
    requires
        axes@.len() == slots@.len(),
        slices_fit(slots@.len(), slices@),
    ensures
        r is Some,
        r->0.to_term(Reading::Exact) == multi_decl(
            headers_of(slots@),
            axes_of(shared.slice_axes@).push(axis_of(shared.row_axis)),
            slot_axes_of(axes@),
            Term::List(MultiDeclSlice::terms(slices, Reading::Exact)),
            span,
            table_span,
        ),
{
    let ghost headers = headers_of(slots@);
    let ghost all_axes = axes_of(shared.slice_axes@).push(axis_of(shared.row_axis));
    let ghost axis_list = axes;
    let ghost count = slots@.len();
    let parts = slots_into_ast(slots);
    let ghost part_list = parts;
    match MultiDecl::new(parts, shared, axes, slices, span, table_span) {
        Ok(multi) => {
            proof {
                assert(MultiDeclSlot::terms(part_list, Reading::Exact) =~= header_terms(headers));
                assert(all_axes.drop_last() =~= axes_of(shared.slice_axes@));
                assert(seq_terms(shared.slice_axes@, Spans::Kept) =~= axis_terms(axes_of(shared.slice_axes@)));
                assert(seq_terms(axis_list@, Spans::Kept) =~= slot_axis_terms(slot_axes_of(axis_list@)));
            }
            let sugar = RawDeclSugar::Multi(multi);
            let kind = DeclKind::Sugar(sugar);
            let attributes = Vec::new();
            let declaration = Declaration { attributes, kind, span };
            proof {
                assert(kind.to_term(Reading::Exact) == sugar.to_term(Reading::Exact));
                assert(seq_terms(attributes@, Spans::Kept) =~= Seq::empty());
            }
            Some(declaration)
        },
        Err(_) => None,
    }
}

/// The slots as parts of the syntax tree.
fn slots_into_ast(slots: Vec<SlotHeader>) -> (r: Vec<MultiDeclSlot>)
    ensures
        r@.len() == slots@.len(),
        MultiDeclSlot::terms(r, Reading::Exact) == header_terms(headers_of(slots@)),
{
    let ghost all = slots@;
    let mut out: Vec<MultiDeclSlot> = Vec::new();
    for slot in iter: slots
        invariant
            iter.seq() == all,
            out@.len() == iter.index(),
            forall|j: int|
                0 <= j < iter.index() ==> (#[trigger] out@[j]).to_term(Reading::Exact) == header_of(all[j]).to_term(),
    {
        assert(slot == all[iter.index() as int]);
        out.push(
            MultiDeclSlot {
                visibility: slot.visibility,
                kind: slot.kind,
                name: slot.name,
                type_ann: slot.type_ann,
                header_span: slot.header_span,
            },
        );
    }
    assert(MultiDeclSlot::terms(out, Reading::Exact) =~= header_terms(headers_of(all)));
    out
}

} // verus!
