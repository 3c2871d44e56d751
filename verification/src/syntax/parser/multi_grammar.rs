//! The grammar of multi-declarations.
//!
//! ```text
//! param power: Power[Component],
//! param count: Int[Component]
//!     = table[Component, (_, _)] {
//!         :            _,      _;
//!         ComponentA: 10.0 W,  1;
//!     };
//! ```

use crate::syntax::ast::{BindableVisibility, MultiSlotKind, Visibility};
use crate::syntax::desugar::discrete_key;
use crate::syntax::parser::error::{header_arity, row_length_mismatch, unexpected, unsupported_shape};
use crate::syntax::parser::expr_grammar::{ahead, named_entry, type_expr};
use crate::syntax::parser::grammar::{
    path_last, path_names, path_span, quoted, refuse, spanned_name, stuck, variant_path, Input, Parse,
};
use crate::syntax::parser::table_grammar::{
    axis_terms, dotted, position_entry, row_values, slice_position, table_axis, Axis,
};
use crate::syntax::span::{merged, Span};
use crate::syntax::term::{node0, node1, node2, node3, node4, node5, node6, pair, Symbol, Tag, Term};
use crate::syntax::text::decimal;
use crate::syntax::token::Token;
use vstd::prelude::*;

verus! {

/// The header of one slot: `param name: Type`.
pub struct Header {
    pub visibility: Visibility,
    pub kind: MultiSlotKind,
    pub kind_span: Span,
    pub name: Seq<char>,
    pub name_span: Span,
    pub type_ann: Term,
    pub header_span: Span,
}

impl Header {
    pub open spec fn name_term(self) -> Term {
        pair(Term::Text(self.name), Term::At(self.name_span))
    }

    pub open spec fn to_term(self) -> Term {
        node5(
            Tag::MultiDeclSlot,
            Term::Symbol(Symbol::Visibility(self.visibility)),
            Term::Symbol(Symbol::MultiSlotKind(self.kind)),
            self.name_term(),
            self.type_ann,
            Term::At(self.header_span),
        )
    }
}

/// What reading a part gives: the part and the place behind it, or the refusal.
pub enum Part<T> {
    Read(T, int),
    Refused(Term),
}

/// A refusal in place of a part.
pub open spec fn no_part<T>(refused: Parse) -> Part<T> {
    match refused {
        Parse::Refused(e) => Part::Refused(e),
        Parse::Read(_, _) => Part::Refused(Term::Absent),
    }
}

/// `pub`, `pub(bind)` or nothing, and where it stands.
pub open spec fn visibility_prefix(g: Input, p: int) -> Part<(BindableVisibility, Option<Span>)> {
    if !g.is(p, Token::Pub) {
        Part::Read((BindableVisibility::Private, None), p)
    } else if !g.is(p + 1, Token::LParen) {
        Part::Read((BindableVisibility::Public, Some(g.span(p))), p + 1)
    } else if !(g.named(p + 2) && g.text(p + 2) == "bind"@) {
        no_part(refuse(g, p + 2, "`bind`"@))
    } else if !g.is(p + 3, Token::RParen) {
        no_part(refuse(g, p + 3, quoted(Token::RParen)))
    } else {
        Part::Read((BindableVisibility::PublicBind, Some(merged(g.span(p), g.span(p + 3)))), p + 4)
    }
}

pub open spec fn without_bindability(visibility: BindableVisibility) -> Visibility {
    match visibility {
        BindableVisibility::Private => Visibility::Private,
        _ => Visibility::Public,
    }
}

/// Why a visibility does not go with a kind of declaration, if it does not.
pub open spec fn visibility_error(
    visibility: BindableVisibility,
    span: Option<Span>,
    kind: MultiSlotKind,
) -> Option<Term> {
    match span {
        None => None,
        Some(span) => match (kind, visibility) {
            (MultiSlotKind::Param, BindableVisibility::Public) => Some(
                unexpected("no visibility annotation (`param` declares a named input port)"@, "`pub`"@, span),
            ),
            (MultiSlotKind::Param, BindableVisibility::PublicBind) => Some(
                unexpected("no visibility annotation (`param` declares a named input port)"@, "`pub(bind)`"@, span),
            ),
            (_, BindableVisibility::PublicBind) => Some(
                unexpected(
                    "`pub` (nodes are computed values — `pub(bind)` is not meaningful; use `param` to declare a named input port)"@,
                    "`pub(bind)`"@,
                    span,
                ),
            ),
            _ => None,
        },
    }
}

/// `param`, `node` or `const node`, and where it stands.
pub open spec fn slot_kind(g: Input, p: int) -> Part<(MultiSlotKind, Span)> {
    match g.token(p) {
        Some(Token::Param) => Part::Read((MultiSlotKind::Param, g.span(p)), p + 1),
        Some(Token::Node) => Part::Read((MultiSlotKind::Node, g.span(p)), p + 1),
        Some(Token::Const) => if g.is(p + 1, Token::Node) {
            Part::Read((MultiSlotKind::ConstNode, merged(g.span(p), g.span(p + 1))), p + 2)
        } else {
            no_part(refuse(g, p + 1, quoted(Token::Node)))
        },
        Some(_) => no_part(refuse(g, p, "`param`, `node`, or `const node` for next multi-decl slot"@)),
        None => no_part(refuse(g, p, "`param`, `node`, or `const node`"@)),
    }
}

/// `name: Type` behind a visibility and a kind.
pub open spec fn slot_header(
    g: Input,
    visibility: BindableVisibility,
    kind: MultiSlotKind,
    kind_span: Span,
    p: int,
) -> Part<Header> {
    if !g.named(p) {
        no_part(refuse(g, p, "identifier"@))
    } else if !g.is(p + 1, Token::Colon) {
        no_part(refuse(g, p + 1, quoted(Token::Colon)))
    } else {
        match type_expr(g, p + 2, 0) {
            Parse::Refused(e) => Part::Refused(e),
            Parse::Read(type_ann, q) => Part::Read(
                Header {
                    visibility: without_bindability(visibility),
                    kind,
                    kind_span,
                    name: g.text(p),
                    name_span: g.span(p),
                    type_ann,
                    header_span: merged(kind_span, type_span(type_ann)),
                },
                q,
            ),
        }
    }
}

/// Where a type stands.
pub open spec fn type_span(t: Term) -> Span {
    match t {
        Term::Node(_, parts) => match *parts {
            Term::Pair(_, rest) => match *rest {
                Term::Pair(_, at) => match *at {
                    Term::At(span) => span,
                    _ => Span { offset: 0, len: 0 },
                },
                _ => Span { offset: 0, len: 0 },
            },
            _ => Span { offset: 0, len: 0 },
        },
        _ => Span { offset: 0, len: 0 },
    }
}

/// A further slot, from behind its comma on.
pub open spec fn next_slot(g: Input, p: int) -> Part<Header> {
    match visibility_prefix(g, p) {
        Part::Refused(e) => Part::Refused(e),
        Part::Read((visibility, span), q) => match slot_kind(g, q) {
            Part::Refused(e) => Part::Refused(e),
            Part::Read((kind, kind_span), r) => match visibility_error(visibility, span, kind) {
                Some(error) => Part::Refused(error),
                None => slot_header(g, visibility, kind, kind_span, r),
            },
        },
    }
}

/// The slots after the first, as long as commas announce them.
pub open spec fn more_slots(g: Input, p: int, slots: Seq<Header>) -> Part<Seq<Header>>
    decreases g.end() - p,
{
    if !g.is(p, Token::Comma) {
        Part::Read(slots, p)
    } else {
        match next_slot(g, p + 1) {
            Part::Refused(e) => Part::Refused(e),
            Part::Read(header, q) => if ahead(g, p, q) {
                more_slots(g, q, slots.push(header))
            } else {
                Part::Refused(Term::Absent)
            },
        }
    }
}

/// The shared axes, each with a comma behind it, up to `(`.
pub open spec fn shared_axes(g: Input, p: int, axes: Seq<Axis>) -> Part<Seq<Axis>>
    decreases g.end() - p,
{
    if g.is(p, Token::LParen) {
        Part::Read(axes, p)
    } else {
        match table_axis(g, p) {
            (Some(axis), Parse::Read(_, q)) => if !g.is(q, Token::Comma) {
                no_part(refuse(g, q, quoted(Token::Comma)))
            } else if ahead(g, p, q) {
                shared_axes(g, q + 1, axes.push(axis))
            } else {
                Part::Refused(Term::Absent)
            },
            (_, refused) => no_part(refused),
        }
    }
}

/// What a slot adds to the shared axes: nothing, or an axis of its own.
pub enum SlotAxis {
    Underscore,
    Axis(Term, Span),
}

impl SlotAxis {
    pub open spec fn to_term(self) -> Term {
        match self {
            SlotAxis::Underscore => node0(Tag::MultiSlotAxisUnderscore),
            SlotAxis::Axis(path, span) => node1(Tag::MultiSlotAxisAxis, pair(path, Term::At(span))),
        }
    }
}

pub open spec fn slot_axis(g: Input, p: int) -> Part<SlotAxis> {
    if g.is(p, Token::Underscore) {
        Part::Read(SlotAxis::Underscore, p + 1)
    } else if g.named(p) {
        let last = path_last(g, p);
        Part::Read(SlotAxis::Axis(Term::List(path_names(g, p, last)), path_span(g, p, last)), last + 1)
    } else {
        no_part(refuse(g, p, "`_` or an axis identifier path in slot tuple"@))
    }
}

/// The slot axes between commas, up to what is no comma.
pub open spec fn slot_axes(g: Input, p: int, axes: Seq<SlotAxis>) -> Part<Seq<SlotAxis>>
    decreases g.end() - p,
{
    if g.is(p, Token::RParen) {
        Part::Read(axes, p)
    } else {
        match slot_axis(g, p) {
            Part::Refused(e) => Part::Refused(e),
            Part::Read(axis, q) => if !g.is(q, Token::Comma) {
                Part::Read(axes.push(axis), q)
            } else if ahead(g, p, q) {
                slot_axes(g, q + 1, axes.push(axis))
            } else {
                Part::Refused(Term::Absent)
            },
        }
    }
}

/// A cell of a header row.
pub enum Cell {
    Underscore(Span),
    Variant(Term, Span, Term, Span),
}

impl Cell {
    pub open spec fn to_term(self) -> Term {
        match self {
            Cell::Underscore(span) => node1(Tag::MultiHeaderCellUnderscore, Term::At(span)),
            Cell::Variant(path, path_span, variant, span) => node3(
                Tag::MultiHeaderCellVariant,
                pair(path, Term::At(path_span)),
                variant,
                Term::At(span),
            ),
        }
    }

    pub open spec fn span(self) -> Span {
        match self {
            Cell::Underscore(span) => span,
            Cell::Variant(_, _, _, span) => span,
        }
    }

    /// Whether the cell is labelled with a variant of the axis.
    pub open spec fn labels(self, axis: Term) -> bool {
        match self {
            Cell::Underscore(_) => false,
            Cell::Variant(path, _, _, _) => path == axis,
        }
    }
}

pub open spec fn header_cell(g: Input, p: int) -> Part<Cell> {
    if g.is(p, Token::Underscore) {
        Part::Read(Cell::Underscore(g.span(p)), p + 1)
    } else if g.named(p) {
        match variant_path(g, p) {
            Parse::Refused(e) => Part::Refused(e),
            Parse::Read(_, q) => Part::Read(
                Cell::Variant(
                    Term::List(path_names(g, p, q - 3)),
                    path_span(g, p, q - 3),
                    spanned_name(g, q - 1),
                    merged(g.span(p), g.span(q - 1)),
                ),
                q,
            ),
        }
    } else {
        no_part(refuse(g, p, "`_` or a qualified `Axis.Variant` label in header row"@))
    }
}

/// The cells of a header row, between commas.
pub open spec fn header_cells(g: Input, p: int, cells: Seq<Cell>) -> Part<Seq<Cell>>
    decreases g.end() - p,
{
    match header_cell(g, p) {
        Part::Refused(e) => Part::Refused(e),
        Part::Read(cell, q) => if !g.is(q, Token::Comma) {
            Part::Read(cells.push(cell), q)
        } else if ahead(g, p, q) {
            header_cells(g, q + 1, cells.push(cell))
        } else {
            Part::Refused(Term::Absent)
        },
    }
}

/// `: cells ;`, with where it stands.
pub open spec fn header_row(g: Input, p: int) -> Part<(Seq<Cell>, Span)> {
    if !g.is(p, Token::Colon) {
        no_part(refuse(g, p, quoted(Token::Colon)))
    } else {
        match header_cells(g, p + 1, Seq::empty()) {
            Part::Refused(e) => Part::Refused(e),
            Part::Read(cells, q) => if !g.is(q, Token::Semicolon) {
                no_part(refuse(g, q, quoted(Token::Semicolon)))
            } else {
                Part::Read((cells, merged(g.span(p), g.span(q))), q + 1)
            },
        }
    }
}

/// The columns of a slot.
pub enum Columns {
    Single(int),
    Range(int, int, Term, Span),
}

impl Columns {
    pub open spec fn to_term(self) -> Term {
        match self {
            Columns::Single(column) => node1(Tag::MultiSlotColumnSpanSingle, Term::Int(column)),
            Columns::Range(start, end, path, span) => node3(
                Tag::MultiSlotColumnSpanRange,
                Term::Int(start),
                Term::Int(end),
                pair(path, Term::At(span)),
            ),
        }
    }

    /// The first column that is not the slot's any more.
    pub open spec fn end(self) -> int {
        match self {
            Columns::Single(column) => column + 1,
            Columns::Range(_, end, _, _) => end,
        }
    }
}

/// The first cell from `cursor` on that is no variant of the axis.
pub open spec fn axis_run(cells: Seq<Cell>, axis: Term, cursor: int) -> int
    decreases cells.len() - cursor,
{
    if 0 <= cursor < cells.len() && cells[cursor].labels(axis) {
        axis_run(cells, axis, cursor + 1)
    } else {
        cursor
    }
}

/// Which columns belong to which slot, from the `i`th slot and the column
/// `cursor` on: `_` takes one `_` cell, an axis takes the run of cells that are
/// labelled with its variants.
pub open spec fn layout(
    axes: Seq<SlotAxis>,
    cells: Seq<Cell>,
    slots: Seq<Header>,
    header_span: Span,
    i: int,
    cursor: int,
    columns: Seq<Columns>,
) -> Result<Seq<Columns>, Term>
    decreases axes.len() - i,
{
    let arity = Err(header_arity(axes.len() as int, cells.len() as int, header_span));
    if i < 0 || i >= axes.len() {
        if cursor == cells.len() { Ok(columns) } else { arity }
    } else {
        match axes[i] {
            SlotAxis::Underscore => if cursor >= cells.len() {
                arity
            } else {
                match cells[cursor] {
                    Cell::Underscore(_) => layout(
                        axes,
                        cells,
                        slots,
                        header_span,
                        i + 1,
                        cursor + 1,
                        columns.push(Columns::Single(cursor)),
                    ),
                    Cell::Variant(_, _, _, span) => Err(
                        unsupported_shape("header cell for 1-D slot `"@ + slots[i].name + "` must be `_`"@, span),
                    ),
                }
            },
            SlotAxis::Axis(axis, span) => {
                let run = axis_run(cells, axis, cursor);
                if run < cells.len() && cells[run] is Variant {
                    Err(
                        unsupported_shape(
                            "header cell for slot `"@ + slots[i].name + "` is qualified with `"@ + dotted(
                                cells[run]->Variant_0,
                            ) + ".…`, but the slot's extra axis is `"@ + dotted(axis) + "`"@,
                            cells[run].span(),
                        ),
                    )
                } else if run == cursor {
                    Err(
                        unsupported_shape(
                            "slot `"@ + slots[i].name
                                + "` is declared with an extra axis but has zero variant cells in the header row"@,
                            span,
                        ),
                    )
                } else {
                    layout(
                        axes,
                        cells,
                        slots,
                        header_span,
                        i + 1,
                        run,
                        columns.push(Columns::Range(cursor, run, axis, span)),
                    )
                }
            },
        }
    }
}

/// A data row: its label and its values.
pub struct Row {
    pub label: Term,
    pub values: Seq<Term>,
}

impl Row {
    pub open spec fn to_term(self) -> Term {
        node2(Tag::MultiDataRow, self.label, Term::List(self.values))
    }
}

/// The label of a row, where it stands, and the place behind it.
pub open spec fn row_label(g: Input, axis: Axis, p: int, count: int, header_span: Span) -> Part<(Term, Span)> {
    match axis {
        Axis::Named(_, _) => if !g.named(p) {
            no_part(refuse(g, p, "identifier"@))
        } else if !g.is(p + 1, Token::Colon) {
            no_part(refuse(g, p + 1, quoted(Token::Colon)))
        } else {
            Part::Read((named_entry(g, p), g.span(p)), p + 2)
        },
        Axis::Finite(_, _) => {
            let span = g.span_or(p, header_span);
            Part::Read((position_entry(count, span), span), p)
        },
    }
}

/// How a row label is named in messages.
pub open spec fn label_text(g: Input, axis: Axis, p: int, count: int) -> Seq<char> {
    match axis {
        Axis::Named(_, _) => g.text(p),
        Axis::Finite(_, _) => "#"@ + decimal(count as nat),
    }
}

/// One data row.
pub open spec fn data_row(g: Input, axis: Axis, width: int, p: int, count: int, header_span: Span) -> Part<Row> {
    match row_label(g, axis, p, count, header_span) {
        Part::Refused(e) => Part::Refused(e),
        Part::Read((label, at), q) => match row_values(g, q, 0, Seq::empty()) {
            Parse::Read(Term::List(values), r) => if !g.is(r, Token::Semicolon) {
                no_part(refuse(g, r, quoted(Token::Semicolon)))
            } else if values.len() != width {
                Part::Refused(
                    node4(
                        Tag::MultiDeclRowArity,
                        Term::Int(width),
                        Term::Int(values.len() as int),
                        Term::Text(label_text(g, axis, p, count)),
                        Term::At(merged(at, g.span_or(r, at))),
                    ),
                )
            } else {
                Part::Read(Row { label, values }, r + 1)
            },
            Parse::Read(_, _) => Part::Refused(Term::Absent),
            Parse::Refused(e) => Part::Refused(e),
        },
    }
}

/// The data rows, up to `}` or the next slice; over a finite axis as many as it
/// has entries.
pub open spec fn data_rows(g: Input, axis: Axis, width: int, p: int, header_span: Span, rows: Seq<Row>) -> Part<
    Seq<Row>,
>
    decreases g.end() - p,
{
    if g.is(p, Token::RBrace) || g.is(p, Token::LBracket) {
        match axis {
            Axis::Finite(size, _) => if rows.len() == size {
                Part::Read(rows, p)
            } else {
                Part::Refused(row_length_mismatch(size, rows.len() as int, header_span))
            },
            Axis::Named(_, _) => Part::Read(rows, p),
        }
    } else {
        match data_row(g, axis, width, p, rows.len() as int, header_span) {
            Part::Refused(e) => Part::Refused(e),
            Part::Read(row, q) => if ahead(g, p, q) {
                data_rows(g, axis, width, q, header_span, rows.push(row))
            } else {
                Part::Refused(Term::Absent)
            },
        }
    }
}

pub open spec fn cell_terms(cells: Seq<Cell>) -> Seq<Term> {
    Seq::new(cells.len(), |i: int| cells[i].to_term())
}

pub open spec fn column_terms(columns: Seq<Columns>) -> Seq<Term> {
    Seq::new(columns.len(), |i: int| columns[i].to_term())
}

pub open spec fn row_terms(rows: Seq<Row>) -> Seq<Term> {
    Seq::new(rows.len(), |i: int| rows[i].to_term())
}

pub open spec fn header_terms(slots: Seq<Header>) -> Seq<Term> {
    Seq::new(slots.len(), |i: int| slots[i].to_term())
}

pub open spec fn slot_axis_terms(axes: Seq<SlotAxis>) -> Seq<Term> {
    Seq::new(axes.len(), |i: int| axes[i].to_term())
}

/// A header row and its data rows.
pub open spec fn slice_body(
    g: Input,
    prefix: Seq<Term>,
    row_axis: Axis,
    axes: Seq<SlotAxis>,
    slots: Seq<Header>,
    p: int,
) -> Parse {
    match header_row(g, p) {
        Part::Refused(e) => Parse::Refused(e),
        Part::Read((cells, header_span), q) => match layout(axes, cells, slots, header_span, 0, 0, Seq::empty()) {
            Err(error) => Parse::Refused(error),
            Ok(columns) => match data_rows(g, row_axis, cells.len() as int, q, header_span, Seq::empty()) {
                Part::Refused(e) => Parse::Refused(e),
                Part::Read(rows, r) => Parse::Read(
                    node4(
                        Tag::MultiDeclSlice,
                        Term::List(prefix),
                        Term::List(cell_terms(cells)),
                        Term::List(column_terms(columns)),
                        Term::List(row_terms(rows)),
                    ),
                    r,
                ),
            },
        },
    }
}

/// The label of a slice over one shared axis.
pub open spec fn multi_slice_label(g: Input, axis: Axis, p: int) -> Parse {
    match axis {
        Axis::Finite(_, _) => slice_position(g, axis, p),
        Axis::Named(path, span) => match variant_path(g, p) {
            Parse::Refused(e) => Parse::Refused(e),
            Parse::Read(_, q) => {
                let index = Term::List(path_names(g, p, q - 3));
                if index != path {
                    Parse::Refused(
                        unsupported_shape(
                            "slice label qualifies axis `"@ + dotted(index)
                                + "`, but the shared axis at this position is `"@ + dotted(path) + "`"@,
                            path_span(g, p, q - 3),
                        ),
                    )
                } else {
                    Parse::Read(
                        discrete_key(
                            pair(node1(Tag::MapEntryIndexNamed, index), Term::At(path_span(g, p, q - 3))),
                            seq![span],
                            named_entry(g, q - 1),
                        ),
                        q,
                    )
                }
            },
        },
    }
}

/// The labels of a slice, one for each axis from the `i`th on.
pub open spec fn multi_slice_labels(g: Input, axes: Seq<Axis>, i: int, p: int, keys: Seq<Term>) -> Parse
    decreases axes.len() - i,
{
    if i < 0 || i >= axes.len() {
        Parse::Read(Term::List(keys), p)
    } else if i > 0 && !g.is(p, Token::Comma) {
        refuse(g, p, quoted(Token::Comma))
    } else {
        match multi_slice_label(g, axes[i], if i > 0 { p + 1 } else { p }) {
            Parse::Refused(e) => Parse::Refused(e),
            Parse::Read(key, q) => multi_slice_labels(g, axes, i + 1, q, keys.push(key)),
        }
    }
}

/// `[labels] body` as often as it follows.
pub open spec fn multi_slices(
    g: Input,
    shared: Seq<Axis>,
    axes: Seq<SlotAxis>,
    slots: Seq<Header>,
    p: int,
    slices: Seq<Term>,
) -> Parse
    decreases g.end() - p,
{
    if !g.is(p, Token::LBracket) {
        Parse::Read(Term::List(slices), p)
    } else {
        match multi_slice_labels(g, shared.drop_last(), 0, p + 1, Seq::empty()) {
            Parse::Read(Term::List(keys), q) => if !g.is(q, Token::RBracket) {
                refuse(g, q, quoted(Token::RBracket))
            } else {
                match slice_body(g, keys, shared.last(), axes, slots, q + 1) {
                    Parse::Refused(e) => Parse::Refused(e),
                    Parse::Read(slice, r) => if ahead(g, p, r) {
                        multi_slices(g, shared, axes, slots, r, slices.push(slice))
                    } else {
                        stuck()
                    },
                }
            },
            Parse::Read(_, _) => stuck(),
            Parse::Refused(e) => Parse::Refused(e),
        }
    }
}

/// Where the second axis in a slot tuple stands, if there is one.
pub open spec fn second_axis(axes: Seq<SlotAxis>, i: int, seen: bool) -> Option<Span>
    decreases axes.len() - i,
{
    if i < 0 || i >= axes.len() {
        None
    } else {
        match axes[i] {
            SlotAxis::Underscore => second_axis(axes, i + 1, seen),
            SlotAxis::Axis(_, span) => if seen { Some(span) } else { second_axis(axes, i + 1, true) },
        }
    }
}

/// The slices of a multi-table between its braces.
pub open spec fn multi_body(
    g: Input,
    shared: Seq<Axis>,
    axes: Seq<SlotAxis>,
    slots: Seq<Header>,
    table: int,
    p: int,
) -> Parse {
    if shared.len() == 1 {
        match slice_body(g, Seq::empty(), shared.last(), axes, slots, p) {
            Parse::Refused(e) => Parse::Refused(e),
            Parse::Read(slice, q) => Parse::Read(Term::List(seq![slice]), q),
        }
    } else if !g.is(p, Token::LBracket) {
        Parse::Refused(
            unsupported_shape(
                "multi-decl with multiple shared axes requires at least one `[slice]` section"@,
                g.span_or(p, g.span(table)),
            ),
        )
    } else {
        multi_slices(g, shared, axes, slots, p, Seq::empty())
    }
}

/// The head of a multi-table: `table[axes, (slot axes)]`.
pub open spec fn multi_head(g: Input, slots: Seq<Header>, table: int) -> Part<(Seq<Axis>, Seq<SlotAxis>)> {
    if !g.is(table, Token::Table) {
        no_part(refuse(g, table, quoted(Token::Table)))
    } else if !g.is(table + 1, Token::LBracket) {
        no_part(refuse(g, table + 1, quoted(Token::LBracket)))
    } else {
        match shared_axes(g, table + 2, Seq::empty()) {
            Part::Refused(e) => Part::Refused(e),
            Part::Read(shared, q) => match slot_axes(g, q + 1, Seq::empty()) {
                Part::Refused(e) => Part::Refused(e),
                Part::Read(axes, r) => if !g.is(r, Token::RParen) {
                    no_part(refuse(g, r, quoted(Token::RParen)))
                } else if axes.len() != slots.len() {
                    Part::Refused(
                        node3(
                            Tag::MultiDeclTupleArity,
                            Term::Int(slots.len() as int),
                            Term::Int(axes.len() as int),
                            Term::At(merged(g.span(q), g.span(r))),
                        ),
                    )
                } else if !g.is(r + 1, Token::RBracket) {
                    no_part(refuse(g, r + 1, quoted(Token::RBracket)))
                } else if shared.len() == 0 {
                    Part::Refused(
                        node1(Tag::MultiDeclNoSharedAxis, Term::At(merged(g.span(table), g.span(r + 1)))),
                    )
                } else {
                    match second_axis(axes, 0, false) {
                        Some(span) => Part::Refused(
                            unsupported_shape(
                                "multi-decl with more than one extra-axis slot is not yet supported (v3)"@,
                                span,
                            ),
                        ),
                        None => Part::Read((shared, axes), r + 2),
                    }
                },
            },
        }
    }
}

/// The tree of a multi-declaration.
pub open spec fn multi_decl(
    slots: Seq<Header>,
    shared: Seq<Axis>,
    axes: Seq<SlotAxis>,
    slices: Term,
    span: Span,
    table_span: Span,
) -> Term {
    node3(
        Tag::Declaration,
        Term::List(Seq::empty()),
        node1(
            Tag::RawDeclSugarMulti,
            node6(
                Tag::MultiDecl,
                Term::List(header_terms(slots)),
                node2(
                    Tag::MultiDeclSharedAxes,
                    Term::List(axis_terms(shared.drop_last())),
                    shared.last().to_term(),
                ),
                Term::List(slot_axis_terms(axes)),
                slices,
                Term::At(span),
                Term::At(table_span),
            ),
        ),
        Term::At(span),
    )
}

/// The table of a multi-declaration, from `=` on.
pub open spec fn multi_table(g: Input, slots: Seq<Header>, p: int) -> Parse {
    if !g.is(p, Token::Eq) {
        refuse(g, p, quoted(Token::Eq))
    } else {
        match multi_head(g, slots, p + 1) {
            Part::Refused(e) => Parse::Refused(e),
            Part::Read((shared, axes), q) => if !g.is(q, Token::LBrace) {
                refuse(g, q, quoted(Token::LBrace))
            } else {
                match multi_body(g, shared, axes, slots, p + 1, q + 1) {
                    Parse::Refused(e) => Parse::Refused(e),
                    Parse::Read(slices, r) => if !g.is(r, Token::RBrace) {
                        refuse(g, r, quoted(Token::RBrace))
                    } else if !g.is(r + 1, Token::Semicolon) {
                        refuse(g, r + 1, quoted(Token::Semicolon))
                    } else {
                        Parse::Read(
                            multi_decl(
                                slots,
                                shared,
                                axes,
                                slices,
                                merged(slots[0].kind_span, g.span(r + 1)),
                                merged(g.span(p + 1), g.span(r)),
                            ),
                            r + 2,
                        )
                    },
                }
            },
        }
    }
}

/// A multi-declaration, from behind its first slot on.
pub open spec fn multi_rest(
    g: Input,
    first: Header,
    visibility: BindableVisibility,
    visibility_span: Option<Span>,
    p: int,
) -> Parse {
    match visibility_error(visibility, visibility_span, first.kind) {
        Some(error) => Parse::Refused(error),
        None => match more_slots(g, p, seq![first]) {
            Part::Refused(e) => Parse::Refused(e),
            Part::Read(slots, q) => if slots.len() < 2 {
                Parse::Refused(node1(Tag::MultiDeclSingleSlot, Term::At(slots[0].header_span)))
            } else {
                multi_table(g, slots, q)
            },
        },
    }
}

} // verus!
