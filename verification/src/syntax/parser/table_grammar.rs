//! The grammar of table literals.
//!
//! `table[Axis] { label: value; ... }` has one axis, `table[Row, Column] {
//! : labels; label: values; ... }` two. With more axes the table is a list of
//! slices, each under `[labels]` for the axes before the last two. An axis
//! `Fin(n)` has no labels: its entries are counted.

use crate::syntax::desugar::discrete_key;
use crate::syntax::parser::error::{invalid_number, row_length_mismatch, unexpected};
use crate::syntax::parser::expr_grammar::{ahead, expression, map_entry, named_entry};
use crate::syntax::parser::grammar::{
    expr, fin_at, kind_of, number_upto, path_names, path_span, quoted, refuse, span_of, stuck, variant_path, Input,
    Parse,
};
use crate::syntax::span::{merged, Span};
use crate::syntax::term::{node1, node2, pair, Tag, Term};
use crate::syntax::text::decimal;
use crate::syntax::token::{ContextualKeyword, Token};
use vstd::prelude::*;

verus! {

/// An axis of a table: the position that it is written at, and its path or its
/// size.
pub enum Axis {
    Named(Term, Span),
    Finite(int, Span),
}

impl Axis {
    pub open spec fn to_term(self) -> Term {
        match self {
            Axis::Named(path, span) => node1(Tag::TableIndexSpecNamed, pair(path, Term::At(span))),
            Axis::Finite(size, span) => node2(Tag::TableIndexSpecFinite, Term::Int(size), Term::At(span)),
        }
    }

    /// The index that a discrete key over this axis names.
    pub open spec fn index(self) -> Term {
        match self {
            Axis::Named(path, span) => pair(node1(Tag::MapEntryIndexNamed, path), Term::At(span)),
            Axis::Finite(size, span) => pair(node1(Tag::MapEntryIndexFinite, Term::Int(size)), Term::At(span)),
        }
    }

    pub open spec fn span(self) -> Span {
        match self {
            Axis::Named(_, span) => span,
            Axis::Finite(_, span) => span,
        }
    }

    /// A key by expression over this axis.
    pub open spec fn expression_key(self, e: Term) -> Term {
        match self {
            Axis::Named(path, span) => node2(
                Tag::MapEntryKeyExpression,
                node1(Tag::MapKeyAxisSyntaxExplicit, pair(path, Term::At(span))),
                e,
            ),
            Axis::Finite(_, _) => Term::Absent,
        }
    }
}

/// A counted entry of a finite axis.
pub open spec fn position_entry(position: int, span: Span) -> Term {
    pair(node1(Tag::IndexEntryKeyPosition, Term::Int(position)), Term::At(span))
}

/// One axis, with the place behind it; or the refusal.
pub open spec fn table_axis(g: Input, p: int) -> (Option<Axis>, Parse) {
    if g.is(p, Token::ContextualKeyword(ContextualKeyword::Range)) && g.is(p + 1, Token::LParen) {
        (None, Parse::Refused(unexpected("`Fin(N)`"@, "range"@, g.span(p))))
    } else if fin_at(g, p) {
        if !g.is(p + 2, Token::Number) {
            (None, refuse(g, p + 2, quoted(Token::Number)))
        } else {
            match number_upto(g, p + 2, u64::MAX as int) {
                None => (
                    None,
                    Parse::Refused(
                        invalid_number(
                            "table Fin cardinality must be a non-negative integer literal"@,
                            g.span(p + 2),
                        ),
                    ),
                ),
                Some(size) => if !g.is(p + 3, Token::RParen) {
                    (None, refuse(g, p + 3, quoted(Token::RParen)))
                } else {
                    let axis = Axis::Finite(size, merged(g.span(p), g.span(p + 3)));
                    (Some(axis), Parse::Read(axis.to_term(), p + 4))
                },
            }
        }
    } else if g.is(p, Token::Number) {
        (
            None,
            Parse::Refused(
                crate::syntax::term::node3(
                    Tag::ExpectedIndexFoundNat,
                    Term::Text(g.text(p)),
                    Term::Text("Fin("@ + g.text(p) + ")"@),
                    Term::At(g.span(p)),
                ),
            ),
        )
    } else if g.named(p) {
        let last = crate::syntax::parser::grammar::path_last(g, p);
        let axis = Axis::Named(Term::List(path_names(g, p, last)), path_span(g, p, last));
        (Some(axis), Parse::Read(axis.to_term(), last + 1))
    } else {
        (None, refuse(g, p, "index name or `Fin(N)`"@))
    }
}

/// The axes between brackets, up to `]`; a comma may trail.
pub open spec fn table_axes(g: Input, p: int, axes: Seq<Axis>) -> (Seq<Axis>, Parse)
    decreases g.end() - p,
{
    match table_axis(g, p) {
        (Some(axis), Parse::Read(_, q)) => if g.is(q, Token::Comma) && g.is(q + 1, Token::RBracket) {
            (axes.push(axis), Parse::Read(Term::Absent, q + 1))
        } else if g.is(q, Token::Comma) && ahead(g, p, q) {
            table_axes(g, q + 1, axes.push(axis))
        } else {
            (axes.push(axis), Parse::Read(Term::Absent, q))
        },
        (_, refused) => (axes, refused),
    }
}

pub open spec fn axis_terms(axes: Seq<Axis>) -> Seq<Term> {
    Seq::new(axes.len(), |i: int| axes[i].to_term())
}

/// A table literal.
pub open spec fn table_expr(g: Input, p: int, d: nat) -> Parse
    decreases g.end() - p, 17int,
{
    if !g.is(p, Token::Table) {
        refuse(g, p, quoted(Token::Table))
    } else if !g.is(p + 1, Token::LBracket) {
        refuse(g, p + 1, quoted(Token::LBracket))
    } else {
        match table_axes(g, p + 2, Seq::empty()) {
            (axes, Parse::Read(_, q)) => if !g.is(q, Token::RBracket) {
                refuse(g, q, quoted(Token::RBracket))
            } else if !g.is(q + 1, Token::LBrace) {
                refuse(g, q + 1, quoted(Token::LBrace))
            } else if !ahead(g, p, q) || axes.len() == 0 {
                stuck()
            } else {
                let body = if axes.len() == 1 {
                    match axes[0] {
                        Axis::Named(_, _) => labelled_entries(g, axes[0], q + 2, d, Seq::empty()),
                        Axis::Finite(_, _) => counted_entries(g, axes[0], q + 2, d, Seq::empty()),
                    }
                } else if axes.len() == 2 {
                    grid(g, axes[0], axes[1], Seq::empty(), q + 2, d)
                } else {
                    slices(g, axes, q + 2, d, Seq::empty())
                };
                match body {
                    Parse::Refused(e) => Parse::Refused(e),
                    Parse::Read(entries, r) => if !g.is(r, Token::RBrace) {
                        refuse(g, r, quoted(Token::RBrace))
                    } else {
                        Parse::Read(
                            expr(
                                node2(Tag::TableLiteral, Term::List(axis_terms(axes)), entries),
                                merged(g.span(p), g.span(r)),
                            ),
                            r + 1,
                        )
                    },
                }
            },
            (_, refused) => refused,
        }
    }
}

/// Whether an expression is a name or a path of names.
pub open spec fn is_path(e: Term) -> bool {
    match kind_of(e) {
        Term::Node(tag, _) => tag == Tag::ExprUnresolvedRef,
        _ => false,
    }
}

/// A label over a named axis: a bare name before one of two tokens, or an
/// expression. A qualified name is no label: the axis says which index is
/// meant.
pub open spec fn axis_label(g: Input, axis: Axis, p: int, d: nat, before: Token, or_before: Token) -> Parse
    decreases g.end() - p, 31int,
{
    if g.named(p) && (g.is(p + 1, before) || g.is(p + 1, or_before)) {
        Parse::Read(discrete_key(axis.index(), Seq::empty(), named_entry(g, p)), p + 1)
    } else {
        match expression(g, p, d) {
            Parse::Read(e, q) => if g.named(p) && g.is(p + 1, Token::Dot) && is_path(e) {
                refuse(g, p + 1, quoted(before))
            } else {
                Parse::Read(axis.expression_key(e), q)
            },
            Parse::Refused(e) => Parse::Refused(e),
        }
    }
}

/// `label: value;` up to `}`.
pub open spec fn labelled_entries(g: Input, axis: Axis, p: int, d: nat, entries: Seq<Term>) -> Parse
    decreases g.end() - p, 32int,
{
    if g.is(p, Token::RBrace) {
        Parse::Read(Term::List(entries), p)
    } else {
        match axis_label(g, axis, p, d, Token::Colon, Token::Colon) {
            Parse::Refused(e) => Parse::Refused(e),
            Parse::Read(key, q) => if !ahead(g, p, q) {
                stuck()
            } else if !g.is(q, Token::Colon) {
                refuse(g, q, quoted(Token::Colon))
            } else {
                match expression(g, q + 1, d) {
                    Parse::Refused(e) => Parse::Refused(e),
                    Parse::Read(value, r) => if !ahead(g, q, r) {
                        stuck()
                    } else if !g.is(r, Token::Semicolon) {
                        refuse(g, r, quoted(Token::Semicolon))
                    } else {
                        labelled_entries(g, axis, r + 1, d, entries.push(map_entry(seq![key], value)))
                    },
                }
            },
        }
    }
}

/// `value;` up to `}`: as many as the axis has entries.
pub open spec fn counted_entries(g: Input, axis: Axis, p: int, d: nat, entries: Seq<Term>) -> Parse
    decreases g.end() - p, 32int,
{
    if g.is(p, Token::RBrace) {
        match axis {
            Axis::Finite(size, span) => if entries.len() == size {
                Parse::Read(Term::List(entries), p)
            } else {
                Parse::Refused(row_length_mismatch(size, entries.len() as int, merged(span, g.span(p))))
            },
            _ => stuck(),
        }
    } else {
        match expression(g, p, d) {
            Parse::Refused(e) => Parse::Refused(e),
            Parse::Read(value, q) => if !ahead(g, p, q) {
                stuck()
            } else if !g.is(q, Token::Semicolon) {
                refuse(g, q, quoted(Token::Semicolon))
            } else {
                let key = discrete_key(
                    axis.index(),
                    Seq::empty(),
                    position_entry(entries.len() as int, span_of(value)),
                );
                counted_entries(g, axis, q + 1, d, entries.push(map_entry(seq![key], value)))
            },
        }
    }
}

/// Expressions between commas.
pub open spec fn row_values(g: Input, p: int, d: nat, values: Seq<Term>) -> Parse
    decreases g.end() - p, 31int,
{
    match expression(g, p, d) {
        Parse::Refused(e) => Parse::Refused(e),
        Parse::Read(value, q) => if !ahead(g, p, q) {
            stuck()
        } else if g.is(q, Token::Comma) {
            row_values(g, q + 1, d, values.push(value))
        } else {
            Parse::Read(Term::List(values.push(value)), q)
        },
    }
}

/// The labels of the columns, up to `;`.
pub open spec fn column_labels(g: Input, axis: Axis, p: int, d: nat, labels: Seq<Term>) -> Parse
    decreases g.end() - p, 32int,
{
    match axis_label(g, axis, p, d, Token::Comma, Token::Semicolon) {
        Parse::Refused(e) => Parse::Refused(e),
        Parse::Read(label, q) => if !ahead(g, p, q) {
            stuck()
        } else if g.is(q, Token::Comma) {
            column_labels(g, axis, q + 1, d, labels.push(label))
        } else if !g.is(q, Token::Semicolon) {
            refuse(g, q, quoted(Token::Semicolon))
        } else {
            Parse::Read(Term::List(labels.push(label)), q + 1)
        },
    }
}

/// How many columns a row has to have.
pub open spec fn column_count(column: Axis, labels: Seq<Term>) -> int {
    match column {
        Axis::Named(_, _) => labels.len() as int,
        Axis::Finite(size, _) => size,
    }
}

/// The key of one column.
pub open spec fn column_key(column: Axis, labels: Seq<Term>, i: int) -> Term {
    match column {
        Axis::Named(_, _) => labels[i],
        Axis::Finite(_, span) => discrete_key(column.index(), Seq::empty(), position_entry(i, span)),
    }
}

/// The entries of one row.
#[verifier::opaque]
pub open spec fn grid_row(prefix: Seq<Term>, row: Term, column: Axis, labels: Seq<Term>, values: Seq<Term>) -> Seq<
    Term,
> {
    Seq::new(
        values.len(),
        |i: int| map_entry(prefix.push(row).push(column_key(column, labels, i)), values[i]),
    )
}

/// One row of a grid as it is written: its label, its values, where it stands
/// and the place behind it; or the refusal.
pub enum Line {
    Read(Term, Seq<Term>, Span, int),
    Refused(Term),
}

/// A row of a grid.
pub open spec fn grid_line(g: Input, row: Axis, p: int, d: nat, count: int) -> Line
    decreases g.end() - p, 33int,
{
    match grid_label(g, row, p, d, count) {
        Parse::Refused(e) => Line::Refused(e),
        Parse::Read(label, q) => if q < p || q > g.end() {
            Line::Refused(Term::Absent)
        } else {
            line_rest(g, label, label_span(g, row, label, p), q, d)
        },
    }
}

/// The values of a row whose label stands at `at`, up to `;`.
pub open spec fn line_rest(g: Input, label: Term, at: Span, p: int, d: nat) -> Line
    decreases g.end() - p, 32int,
{
    match row_values(g, p, d, Seq::empty()) {
        Parse::Read(Term::List(values), r) => if !g.is(r, Token::Semicolon) {
            match refuse(g, r, quoted(Token::Semicolon)) {
                Parse::Refused(e) => Line::Refused(e),
                _ => Line::Refused(Term::Absent),
            }
        } else {
            Line::Read(label, values, merged(at, g.span_or(r, at)), r + 1)
        },
        Parse::Read(_, _) => Line::Refused(Term::Absent),
        Parse::Refused(e) => Line::Refused(e),
    }
}

/// The rows of a grid, up to `}` or the next slice.
pub open spec fn grid_rows(
    g: Input,
    row: Axis,
    column: Axis,
    labels: Seq<Term>,
    prefix: Seq<Term>,
    p: int,
    d: nat,
    count: int,
    entries: Seq<Term>,
) -> Parse
    decreases g.end() - p, 34int,
{
    if g.is(p, Token::RBrace) || g.is(p, Token::LBracket) {
        match row {
            Axis::Finite(size, span) => if count == size {
                Parse::Read(Term::List(entries), p)
            } else {
                Parse::Refused(row_length_mismatch(size, count, span))
            },
            Axis::Named(_, _) => Parse::Read(Term::List(entries), p),
        }
    } else {
        match grid_line(g, row, p, d, count) {
            Line::Refused(e) => Parse::Refused(e),
            Line::Read(label, values, span, q) => if !ahead(g, p, q) {
                stuck()
            } else if values.len() != column_count(column, labels) {
                Parse::Refused(row_length_mismatch(column_count(column, labels), values.len() as int, span))
            } else {
                grid_rows(
                    g,
                    row,
                    column,
                    labels,
                    prefix,
                    q,
                    d,
                    count + 1,
                    entries + grid_row(prefix, label, column, labels, values),
                )
            },
        }
    }
}

impl Input {
    /// Where the token at a place stands, or `otherwise` past the last one.
    pub open spec fn span_or(self, p: int, otherwise: Span) -> Span {
        if 0 <= p < self.end() {
            self.lexemes[p].span
        } else {
            otherwise
        }
    }
}

/// The label of a row: `label:` over a named axis, the row's number over a
/// finite one.
pub open spec fn grid_label(g: Input, row: Axis, p: int, d: nat, count: int) -> Parse
    decreases g.end() - p, 32int,
{
    match row {
        Axis::Finite(_, span) => Parse::Read(
            discrete_key(row.index(), Seq::empty(), position_entry(count, span)),
            p,
        ),
        Axis::Named(_, _) => match axis_label(g, row, p, d, Token::Colon, Token::Colon) {
            Parse::Refused(e) => Parse::Refused(e),
            Parse::Read(label, q) => if !g.is(q, Token::Colon) {
                refuse(g, q, quoted(Token::Colon))
            } else {
                Parse::Read(label, q + 1)
            },
        },
    }
}

/// Where the label of a row stands.
#[verifier::opaque]
pub open spec fn label_span(g: Input, row: Axis, label: Term, p: int) -> Span {
    match row {
        Axis::Finite(_, span) => g.span_or(p, span),
        Axis::Named(_, _) => key_span(label),
    }
}

/// Where the entry of a discrete key, or the expression of another, stands.
#[verifier::opaque]
pub open spec fn key_span(key: Term) -> Span {
    match key {
        Term::Node(Tag::MapEntryKeyDiscrete, parts) => match *parts {
            Term::Pair(_, rest) => match *rest {
                Term::Pair(_, entry) => match *entry {
                    Term::Pair(_, at) => match *at {
                        Term::At(span) => span,
                        _ => Span { offset: 0, len: 0 },
                    },
                    _ => Span { offset: 0, len: 0 },
                },
                _ => Span { offset: 0, len: 0 },
            },
            _ => Span { offset: 0, len: 0 },
        },
        Term::Node(_, parts) => match *parts {
            Term::Pair(_, e) => span_of(*e),
            _ => Span { offset: 0, len: 0 },
        },
        _ => Span { offset: 0, len: 0 },
    }
}

/// A table of rows and columns.
pub open spec fn grid(g: Input, row: Axis, column: Axis, prefix: Seq<Term>, p: int, d: nat) -> Parse
    decreases g.end() - p, 35int,
{
    match column {
        Axis::Finite(_, _) => grid_rows(g, row, column, Seq::empty(), prefix, p, d, 0, Seq::empty()),
        Axis::Named(_, _) => if !g.is(p, Token::Colon) {
            refuse(g, p, quoted(Token::Colon))
        } else {
            match column_labels(g, column, p + 1, d, Seq::empty()) {
                Parse::Read(Term::List(labels), q) => if !ahead(g, p, q) {
                    stuck()
                } else {
                    grid_rows(g, row, column, labels, prefix, q, d, 0, Seq::empty())
                },
                Parse::Read(_, _) => stuck(),
                Parse::Refused(e) => Parse::Refused(e),
            }
        },
    }
}

/// A label of a slice: `Axis.Variant` or an expression over a named axis, `#n`
/// over a finite one.
pub open spec fn slice_label(g: Input, axis: Axis, p: int, d: nat) -> Parse
    decreases g.end() - p, 31int,
{
    match axis {
        Axis::Named(path, span) => if g.named(p) && g.is(p + 1, Token::Dot) {
            match variant_path(g, p) {
                Parse::Refused(e) => Parse::Refused(e),
                Parse::Read(_, q) => {
                    let index = Term::List(path_names(g, p, q - 3));
                    if index != path {
                        Parse::Refused(
                            unexpected(
                                "slice axis `"@ + dotted(path) + "`"@,
                                dotted(index),
                                path_span(g, p, q - 3),
                            ),
                        )
                    } else {
                        Parse::Read(
                            discrete_key(
                                pair(node1(Tag::MapEntryIndexNamed, index), Term::At(path_span(g, p, q - 3))),
                                seq![span],
                                named_entry(g, q - 1),
                            ),
                            q,
                        )
                    }
                },
            }
        } else {
            match expression(g, p, d) {
                Parse::Read(e, q) => Parse::Read(axis.expression_key(e), q),
                Parse::Refused(e) => Parse::Refused(e),
            }
        },
        Axis::Finite(size, span) => slice_position(g, axis, p),
    }
}

/// `#n` over a finite axis.
pub open spec fn slice_position(g: Input, axis: Axis, p: int) -> Parse {
    if !g.is(p, Token::Hash) {
        refuse(g, p, quoted(Token::Hash))
    } else if !g.is(p + 1, Token::Number) {
        refuse(g, p + 1, quoted(Token::Number))
    } else {
        match (number_upto(g, p + 1, u64::MAX as int), axis) {
            (Some(v), Axis::Finite(size, span)) => if v >= size {
                Parse::Refused(
                    invalid_number(
                        "slice index #"@ + decimal(v as nat) + " out of range for Fin("@
                            + decimal(size as nat) + ")"@,
                        g.span(p + 1),
                    ),
                )
            } else {
                Parse::Read(
                    discrete_key(
                        axis.index(),
                        Seq::empty(),
                        position_entry(v, merged(g.span(p), g.span(p + 1))),
                    ),
                    p + 2,
                )
            },
            _ => Parse::Refused(invalid_number("expected non-negative integer in slice label"@, g.span(p + 1))),
        }
    }
}

/// The names of a path with dots between them.
pub open spec fn dotted(path: Term) -> Seq<char> {
    match path {
        Term::List(names) => dotted_names(names),
        _ => Seq::empty(),
    }
}

pub open spec fn dotted_names(names: Seq<Term>) -> Seq<char>
    decreases names.len(),
{
    if names.len() == 0 {
        Seq::empty()
    } else {
        let name = match names.last() {
            Term::Text(text) => text,
            _ => Seq::empty(),
        };
        if names.len() == 1 { name } else { dotted_names(names.drop_last()) + "."@ + name }
    }
}

/// The labels of a slice, one for each axis from the `i`th on, with commas
/// between them.
pub open spec fn slice_labels(g: Input, axes: Seq<Axis>, i: int, p: int, d: nat, keys: Seq<Term>) -> Parse
    decreases g.end() - p, 32int,
{
    if i < 0 || i >= axes.len() {
        Parse::Read(Term::List(keys), p)
    } else {
        let start = if i > 0 { p + 1 } else { p };
        if i > 0 && !g.is(p, Token::Comma) {
            refuse(g, p, quoted(Token::Comma))
        } else {
            match slice_label(g, axes[i], start, d) {
                Parse::Refused(e) => Parse::Refused(e),
                Parse::Read(key, q) => if !ahead(g, p, q) {
                    stuck()
                } else {
                    slice_labels(g, axes, i + 1, q, d, keys.push(key))
                },
            }
        }
    }
}

/// `[labels] grid` as often as it follows.
pub open spec fn slices(g: Input, axes: Seq<Axis>, p: int, d: nat, entries: Seq<Term>) -> Parse
    decreases g.end() - p, 36int,
{
    if !g.is(p, Token::LBracket) {
        Parse::Read(Term::List(entries), p)
    } else {
        match slice_labels(g, axes.take(axes.len() - 2), 0, p + 1, d, Seq::empty()) {
            Parse::Read(Term::List(keys), q) => if q <= p || q > g.end() {
                stuck()
            } else if !g.is(q, Token::RBracket) {
                refuse(g, q, quoted(Token::RBracket))
            } else {
                match grid(g, axes[axes.len() - 2], axes[axes.len() - 1], keys, q + 1, d) {
                    Parse::Read(Term::List(more), r) => if !ahead(g, p, r) {
                        stuck()
                    } else {
                        slices(g, axes, r, d, entries + more)
                    },
                    Parse::Read(_, _) => stuck(),
                    Parse::Refused(e) => Parse::Refused(e),
                }
            },
            Parse::Read(_, _) => stuck(),
            Parse::Refused(e) => Parse::Refused(e),
        }
    }
}

} // verus!
