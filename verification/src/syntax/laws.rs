//! What holds of source text and syntax trees as a whole.

use crate::desugar::convert::{desugared_declarations, flattened};
use crate::syntax::ast::{DeclKind, Declaration, ExprKind, MapEntry, RawDeclSugar, RawExprSugar, TableIndexSpec};
use crate::syntax::lexer::{is_line_end, lemma_trivia_end, lexemes_from, run_end, token_from, trivia_end};
use crate::syntax::parser::expr_grammar::{expression, too_deep};
use crate::syntax::parser::grammar::{Input, NESTING_LIMIT};
use crate::syntax::parser::multi_grammar::{axis_run, layout, Cell, Columns, Header, SlotAxis};
use crate::syntax::span::{reaching, span_end, Span};
use crate::syntax::term::{lemma_canonical, Reading, Spans, Syntax, Term};
use crate::syntax::token::Token;
use vstd::prelude::*;

verus! {

/// Tokens stand in the text one behind the other, and none is empty.
pub proof fn law_tokens_in_order(bytes: Seq<u8>, p: int)
    requires
        0 <= p <= bytes.len() <= usize::MAX,
    ensures
        forall|i: int|
            0 <= i < lexemes_from(bytes, p).len() ==> {
                let span = (#[trigger] lexemes_from(bytes, p)[i]).span;
                p <= span.offset && 0 < span.len && span.offset + span.len <= bytes.len()
            },
        forall|i: int, j: int|
            0 <= i < j < lexemes_from(bytes, p).len() ==> (#[trigger] lexemes_from(bytes, p)[i]).span.offset
                + lexemes_from(bytes, p)[i].span.len <= (#[trigger] lexemes_from(bytes, p)[j]).span.offset,
    decreases bytes.len() - p,
{
    lemma_trivia_end(bytes, p);
    let start = trivia_end(bytes, p);
    if start < bytes.len() {
        let end = token_from(bytes, start).1;
        if start < end <= bytes.len() {
            law_tokens_in_order(bytes, end);
            let rest = lexemes_from(bytes, end);
            let all = lexemes_from(bytes, p);
            assert forall|i: int| 0 <= i < all.len() implies {
                let span = (#[trigger] all[i]).span;
                p <= span.offset && 0 < span.len && span.offset + span.len <= bytes.len()
            } by {
                if i > 0 {
                    assert(all[i] == rest[i - 1]);
                }
            }
            assert forall|i: int, j: int| 0 <= i < j < all.len() implies (#[trigger] all[i]).span.offset
                + all[i].span.len <= (#[trigger] all[j]).span.offset by {
                assert(all[j] == rest[j - 1]);
                if i > 0 {
                    assert(all[i] == rest[i - 1]);
                }
            }
        }
    }
}

/// Whether no byte from `p` up to `q` ends a line.
pub open spec fn on_one_line(bytes: Seq<u8>, p: int, q: int) -> bool {
    forall|i: int| p <= i < q ==> !is_line_end(#[trigger] bytes[i])
}

/// Whether the byte at `i` is accepted.
pub open spec fn accepted_at(bytes: Seq<u8>, i: int, f: spec_fn(u8) -> bool) -> bool {
    0 <= i < bytes.len() && f(bytes[i])
}

proof fn lemma_run(bytes: Seq<u8>, p: int, f: spec_fn(u8) -> bool, i: int)
    requires
        0 <= p <= i < run_end(bytes, p, f),
    ensures
        accepted_at(bytes, i, f),
    decreases bytes.len() - p,
{
    if i > p {
        lemma_run(bytes, p + 1, f, i);
    }
}

/// A string literal does not reach over the end of its line.
pub proof fn law_strings_stay_on_their_line(bytes: Seq<u8>, p: int)
    requires
        0 <= p < bytes.len(),
        token_from(bytes, p).0 == Token::StringLiteral,
    ensures
        on_one_line(bytes, p, token_from(bytes, p).1),
{
    let f = |b: u8| b != 34 && !is_line_end(b);
    let close = run_end(bytes, p + 1, f);
    assert forall|i: int| p <= i < close + 1 implies !is_line_end(#[trigger] bytes[i]) by {
        if p < i < close {
            lemma_run(bytes, p + 1, f, i);
        }
    }
}

/// Where the columns of a slot start.
pub open spec fn first_column(columns: Columns) -> int {
    match columns {
        Columns::Single(column) => column,
        Columns::Range(start, _, _, _) => start,
    }
}

/// Whether the columns lie one behind the other and cover those before
/// `cursor`.
pub open spec fn cover(columns: Seq<Columns>, cursor: int) -> bool {
    &&& columns.len() == 0 ==> cursor == 0
    &&& columns.len() > 0 ==> first_column(columns[0]) == 0 && columns.last().end() == cursor
    &&& forall|i: int|
        0 <= i < columns.len() ==> first_column(#[trigger] columns[i]) < columns[i].end()
    &&& forall|i: int|
        0 < i < columns.len() ==> columns[i - 1].end() == first_column(#[trigger] columns[i])
}

proof fn lemma_axis_run(cells: Seq<Cell>, axis: Term, cursor: int)
    ensures
        axis_run(cells, axis, cursor) >= cursor,
        cursor <= cells.len() ==> axis_run(cells, axis, cursor) <= cells.len(),
    decreases cells.len() - cursor,
{
    if 0 <= cursor < cells.len() && cells[cursor].labels(axis) {
        lemma_axis_run(cells, axis, cursor + 1);
    }
}

proof fn lemma_cover_push(columns: Seq<Columns>, cursor: int, next: Columns)
    requires
        cover(columns, cursor),
        first_column(next) == cursor,
        cursor < next.end(),
    ensures
        cover(columns.push(next), next.end()),
{
    let all = columns.push(next);
    assert forall|i: int| 0 < i < all.len() implies all[i - 1].end() == first_column(#[trigger] all[i]) by {
        assert(all[i - 1] == columns[i - 1]);
        if i < columns.len() {
            assert(all[i] == columns[i]);
        }
    }
    if columns.len() > 0 {
        assert(all[0] == columns[0]);
    }
}

proof fn lemma_layout(
    axes: Seq<SlotAxis>,
    cells: Seq<Cell>,
    slots: Seq<Header>,
    header_span: Span,
    i: int,
    cursor: int,
    columns: Seq<Columns>,
)
    requires
        0 <= i <= axes.len(),
        0 <= cursor <= cells.len(),
        columns.len() == i,
        cover(columns, cursor),
        layout(axes, cells, slots, header_span, i, cursor, columns) is Ok,
    ensures
        layout(axes, cells, slots, header_span, i, cursor, columns)->Ok_0.len() == axes.len(),
        cover(layout(axes, cells, slots, header_span, i, cursor, columns)->Ok_0, cells.len() as int),
    decreases axes.len() - i,
{
    if i < axes.len() {
        match axes[i] {
            SlotAxis::Underscore => {
                lemma_cover_push(columns, cursor, Columns::Single(cursor));
                lemma_layout(
                    axes,
                    cells,
                    slots,
                    header_span,
                    i + 1,
                    cursor + 1,
                    columns.push(Columns::Single(cursor)),
                );
            },
            SlotAxis::Axis(axis, span) => {
                let run = axis_run(cells, axis, cursor);
                lemma_axis_run(cells, axis, cursor);
                let next = Columns::Range(cursor, run, axis, span);
                lemma_cover_push(columns, cursor, next);
                lemma_layout(axes, cells, slots, header_span, i + 1, run, columns.push(next));
            },
        }
    }
}

/// A header row that is accepted gives each of its columns to exactly one
/// slot: the columns of the slots follow each other and cover the row.
pub proof fn law_columns_partition_the_header(
    axes: Seq<SlotAxis>,
    cells: Seq<Cell>,
    slots: Seq<Header>,
    header_span: Span,
)
    requires
        layout(axes, cells, slots, header_span, 0, 0, Seq::empty()) is Ok,
    ensures
        layout(axes, cells, slots, header_span, 0, 0, Seq::empty())->Ok_0.len() == axes.len(),
        cover(layout(axes, cells, slots, header_span, 0, 0, Seq::empty())->Ok_0, cells.len() as int),
{
    lemma_layout(axes, cells, slots, header_span, 0, 0, Seq::empty());
}

/// An expression that stands too deep is refused.
pub proof fn law_nesting_is_bounded(g: Input, p: int, d: nat)
    requires
        d >= NESTING_LIMIT,
    ensures
        expression(g, p, d) == too_deep(g, p),
        expression(g, p, d) is Refused,
{
}

/// Whether two trees differ at most in layout.
pub open spec fn equivalent<T: Syntax>(a: T, b: T) -> bool {
    a.term(Spans::Dropped) == b.term(Spans::Dropped)
}

/// To differ at most in layout is an equivalence.
pub proof fn law_format_equivalence<T: Syntax>(a: T, b: T, c: T)
    ensures
        equivalent(a, a),
        equivalent(a, b) == equivalent(b, a),
        equivalent(a, b) && equivalent(b, c) ==> equivalent(a, c),
{
}

/// Tables over the same axes are equivalent exactly where they hold the same
/// entries equally often, in whatever order.
pub proof fn law_table_entries_have_no_order(indexes: Vec<TableIndexSpec>, a: Vec<MapEntry>, b: Vec<MapEntry>)
    ensures
        (ExprKind::Sugar(RawExprSugar::TableLiteral { indexes, entries: a }).to_term(Reading::SpanFree)
            == ExprKind::Sugar(RawExprSugar::TableLiteral { indexes, entries: b }).to_term(Reading::SpanFree)) == (
        MapEntry::terms(a, Reading::SpanFree).to_multiset() == MapEntry::terms(b, Reading::SpanFree).to_multiset()),
{
    reveal(ExprKind::to_term);
    lemma_canonical(MapEntry::terms(a, Reading::SpanFree), MapEntry::terms(b, Reading::SpanFree));
}

/// How many declarations a declaration becomes.
pub open spec fn expansion(d: Declaration) -> nat {
    match d.kind {
        DeclKind::Sugar(RawDeclSugar::Multi(multi)) => multi.slots()@.len(),
        _ => 1,
    }
}

pub open spec fn expansions(v: Vec<Declaration>, n: nat) -> nat
    decreases n,
{
    if n == 0 || n > v.len() {
        0
    } else {
        expansions(v, (n - 1) as nat) + expansion(v[n - 1])
    }
}

/// A declaration that a slot stands for starts at the header of the slot, not at
/// that of an earlier one, and ends where the whole multi-declaration ends.
pub proof fn law_slots_start_at_their_own_headers(header: Span, whole: Span)
    requires
        header.offset <= span_end(whole),
    ensures
        reaching(header, whole).offset == header.offset,
        span_end(reaching(header, whole)) == span_end(whole),
{
}

/// A multi-declaration becomes one declaration for each of its slots; every
/// other declaration stays one.
pub proof fn law_one_declaration_per_slot(v: Vec<Declaration>, n: nat)
    requires
        n <= v.len(),
    ensures
        flattened(v, n).len() == expansions(v, n),
    decreases n,
{
    if n > 0 {
        law_one_declaration_per_slot(v, (n - 1) as nat);
        assert(desugared_declarations(v[n - 1]).len() == expansion(v[n - 1]));
    }
}

} // verus!
