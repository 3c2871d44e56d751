//! The parser of map and table literals.

use crate::syntax::ast::{
    Expr, ExprKind, IndexEntryKey, MapEntry, MapEntryIndex, MapEntryKey, MapKeyAxisSyntax, NamePath, TableIndexSpec,
};
use crate::syntax::desugar::{
    discrete_key, key_terms, lemma_key_terms, lemma_keys_appended, lemma_prefix_terms, multi_entry_keys,
};
use crate::syntax::names::{IndexVariantName, NameAtom};
use crate::syntax::non_empty::NonEmpty;
use crate::syntax::parser::error::ParseError;
use crate::syntax::parser::expr_grammar::{
    brace_expr, contextual_key, coordinate_entries, found_at, map_close, map_entries, map_entry, named_entry,
    tuple_entries, tuple_key, tuple_keys, variant_key,
};
use crate::syntax::parser::grammar::{name_path, refuse, Parse};
use crate::syntax::parser::nodes::{self, lemma_expr};
use crate::syntax::parser::state::{moved, outcome, result, Parser, VariantPath};
use crate::syntax::parser::table_grammar::{
    axis_label, axis_terms, column_count, column_key, column_labels, counted_entries, dotted, dotted_names, grid,
    grid_label, grid_line, grid_row, grid_rows, is_path, key_span, label_span, labelled_entries, line_rest,
    position_entry, row_values, slice_label, slice_labels, slice_position, slices, table_axes, table_axis, table_expr,
    Axis, Line,
};
use crate::syntax::span::{Span, Spanned};
use crate::syntax::term::{node1, node2, pair, prepend, seq_terms, DeepClone, Reading, Spans, Syntax, Tag, Term};
use crate::syntax::text::{decimal_string, joined};
use crate::syntax::token::{ContextualKeyword, Token};
use vstd::prelude::*;
use vstd::string::StringExecFns;

verus! {

/// A table axis as the grammar sees it.
pub open spec fn axis_of(axis: TableIndexSpec) -> Axis {
    match axis {
        TableIndexSpec::Named(path) => Axis::Named(path.value.term(Spans::Kept), path.span),
        TableIndexSpec::Finite { cardinality, span } => Axis::Finite(cardinality as int, span),
    }
}

pub open spec fn axes_of(axes: Seq<TableIndexSpec>) -> Seq<Axis> {
    Seq::new(axes.len(), |i: int| axis_of(axes[i]))
}

/// The term of some map entries.
pub open spec fn entries_term(v: Vec<MapEntry>) -> Term {
    Term::List(MapEntry::terms(v, Reading::Exact))
}

/// The term of some keys.
pub open spec fn keys_term(v: Vec<MapEntryKey>) -> Term {
    Term::List(MapEntryKey::terms(v, Reading::Exact))
}

/// The names of a path with dots between them.
impl NamePath {
    pub fn display_path(&self) -> (r: String)
        ensures
            r@ == dotted(self.term(Spans::Kept)),
    {
        proof {
            crate::syntax::parser::state::lemma_non_empty_term(self.segments, Spans::Kept);
        }
        let ghost names = seq_terms(self.segments@, Spans::Kept);
        let mut text = self.segments.first.text.clone();
        assert(names.take(1).last() == Term::Text(self.segments.first.text@));
        for i in 0..self.segments.rest.len()
            invariant
                names == seq_terms(self.segments@, Spans::Kept),
                text@ == dotted_names(names.take(i as int + 1)),
        {
            let ghost sofar = names.take(i as int + 2);
            assert(sofar.drop_last() =~= names.take(i as int + 1));
            assert(sofar.last() == Term::Text(self.segments.rest@[i as int].text@));
            text.append(".");
            text.append(self.segments.rest[i].text.as_str());
        }
        assert(names.take(names.len() as int) =~= names);
        text
    }
}

/// Whether an expression is a name or a path of names.
fn is_path_expr(e: &Expr) -> (r: bool)
    ensures
        r == is_path(e.to_term(Reading::Exact)),
{
    proof {
        reveal(ExprKind::to_term);
        lemma_expr(*e);
    }
    match &e.kind {
        ExprKind::UnresolvedRef(_) => true,
        _ => false,
    }
}

/// A discrete key of a map entry.
fn discrete(index: Spanned<MapEntryIndex>, additional_index_spans: Vec<Span>, entry: Spanned<IndexEntryKey>) -> (r:
    MapEntryKey)
    ensures
        r.to_term(Reading::Exact) == discrete_key(
            index.term(Spans::Kept),
            additional_index_spans@,
            entry.term(Spans::Kept),
        ),
{
    MapEntryKey::Discrete { index, additional_index_spans, entry }
}

/// A discrete key that stands by itself.
fn plain_discrete(index: Spanned<MapEntryIndex>, entry: Spanned<IndexEntryKey>) -> (r: MapEntryKey)
    ensures
        r.to_term(Reading::Exact) == discrete_key(index.term(Spans::Kept), Seq::empty(), entry.term(Spans::Kept)),
{
    let spans: Vec<Span> = Vec::new();
    assert(spans@ =~= Seq::empty());
    discrete(index, spans, entry)
}

fn contextual(expr: Expr) -> (r: MapEntryKey)
    ensures
        r.to_term(Reading::Exact) == contextual_key(expr.to_term(Reading::Exact)),
{
    MapEntryKey::Expression { axis: MapKeyAxisSyntax::Contextual, expr }
}

/// A key by expression over a named axis.
fn explicit(axis: &TableIndexSpec, expr: Expr) -> (r: MapEntryKey)
    requires
        axis is Named,
    ensures
        r.to_term(Reading::Exact) == axis_of(*axis).expression_key(expr.to_term(Reading::Exact)),
{
    let syntax = match axis {
        TableIndexSpec::Named(path) => MapKeyAxisSyntax::Explicit(path.deep_clone()),
        TableIndexSpec::Finite { .. } => MapKeyAxisSyntax::Contextual,
    };
    assert(syntax.term(Spans::Kept) == match *axis {
        TableIndexSpec::Named(path) => node1(Tag::MapKeyAxisSyntaxExplicit, path.term(Spans::Kept)),
        TableIndexSpec::Finite { cardinality, span } => Term::Absent,
    });
    MapEntryKey::Expression { axis: syntax, expr }
}

/// The index that a discrete key over an axis names.
fn index_of_axis(axis: &TableIndexSpec) -> (r: Spanned<MapEntryIndex>)
    ensures
        r.term(Spans::Kept) == axis_of(*axis).index(),
{
    match axis {
        TableIndexSpec::Named(path) => Spanned::new(MapEntryIndex::Named(path.value.deep_clone()), path.span),
        TableIndexSpec::Finite { cardinality, span } => Spanned::new(MapEntryIndex::Finite(*cardinality), *span),
    }
}

fn position_at(position: u64, span: Span) -> (r: Spanned<IndexEntryKey>)
    ensures
        r.term(Spans::Kept) == position_entry(position as int, span),
{
    Spanned::new(IndexEntryKey::Position(position), span)
}

/// An entry with one key.
fn single_entry(key: MapEntryKey, value: Expr) -> (r: MapEntry)
    ensures
        r.to_term(Reading::Exact) == map_entry(seq![key.to_term(Reading::Exact)], value.to_term(Reading::Exact)),
{
    let keys = NonEmpty::singleton(key);
    proof {
        lemma_key_terms(keys, Reading::Exact);
        assert(key_terms(keys@, Reading::Exact) =~= seq![key.to_term(Reading::Exact)]);
    }
    MapEntry { keys, value }
}

proof fn lemma_entry_pushed(before: Vec<MapEntry>, after: Vec<MapEntry>, entry: MapEntry)
    requires
        after@ == before@.push(entry),
    ensures
        MapEntry::terms(after, Reading::Exact) == MapEntry::terms(before, Reading::Exact).push(
            entry.to_term(Reading::Exact),
        ),
{
    assert(MapEntry::terms(after, Reading::Exact) =~= MapEntry::terms(before, Reading::Exact).push(
        entry.to_term(Reading::Exact),
    ));
}

proof fn lemma_no_entries(v: Vec<MapEntry>)
    requires
        v@.len() == 0,
    ensures
        MapEntry::terms(v, Reading::Exact) == Seq::<Term>::empty(),
{
    assert(MapEntry::terms(v, Reading::Exact) =~= Seq::<Term>::empty());
}

proof fn lemma_key_pushed(before: Vec<MapEntryKey>, after: Vec<MapEntryKey>, key: MapEntryKey)
    requires
        after@ == before@.push(key),
    ensures
        MapEntryKey::terms(after, Reading::Exact) == MapEntryKey::terms(before, Reading::Exact).push(
            key.to_term(Reading::Exact),
        ),
{
    assert(MapEntryKey::terms(after, Reading::Exact) =~= MapEntryKey::terms(before, Reading::Exact).push(
        key.to_term(Reading::Exact),
    ));
}

proof fn lemma_no_keys(v: Vec<MapEntryKey>)
    requires
        v@.len() == 0,
    ensures
        MapEntryKey::terms(v, Reading::Exact) == Seq::<Term>::empty(),
{
    assert(MapEntryKey::terms(v, Reading::Exact) =~= Seq::<Term>::empty());
}

impl Parser {
    /// A variant as the entry of a discrete key.
    fn named_entry_at(&self, p: usize) -> (r: Spanned<IndexEntryKey>)
        ensures
            r.term(Spans::Kept) == named_entry(self@, p as int),
    {
        Spanned::new(
            IndexEntryKey::Named(IndexVariantName { atom: NameAtom { text: self.text(p) } }),
            self.span(p),
        )
    }

    /// The key `Index.Variant` and the place behind it.
    fn parse_variant_key(&self, p: usize) -> (r: Result<(MapEntryKey, usize), ParseError>)
        ensures
            match r {
                Ok((key, q)) => {
                    &&& crate::syntax::parser::grammar::variant_path(self@, p as int) is Read
                    &&& crate::syntax::parser::grammar::variant_path(self@, p as int)->Read_1 == q
                    &&& key.to_term(Reading::Exact) == variant_key(self@, p as int, q - 1)
                    &&& p + 3 <= q <= self@.end()
                },
                Err(e) => crate::syntax::parser::grammar::variant_path(
                    self@,
                    p as int,
                ) == Parse::Refused(e.to_term()),
            },
    {
        match self.parse_index_variant_path(p) {
            Ok((path, q)) => {
                let index = Spanned { value: MapEntryIndex::Named(path.index.value), span: path.index.span };
                let entry = Spanned { value: IndexEntryKey::Named(path.variant.value), span: path.variant.span };
                Ok((plain_discrete(index, entry), q))
            },
            Err(e) => Err(e),
        }
    }

    fn found_error(&self, p: usize, otherwise: Span, expected: &str) -> (r: ParseError)
        ensures
            Parse::Refused(r.to_term()) == found_at(self@, p as int, otherwise, expected@),
    {
        match self.token(p) {
            Some(token) => ParseError::unexpected(expected.to_owned(), token.to_str().to_owned(), self.span(p)),
            None => ParseError::unexpected(expected.to_owned(), "EOF".to_owned(), otherwise),
        }
    }

    pub(crate) fn parse_brace_expr(&self, p: usize, d: usize) -> (r: Result<(Expr, usize), ParseError>)
        requires
            p < self@.end(),
        ensures
            result(r) == brace_expr(self@, p as int, d as nat),
            moved(r, p as int, self@.end()),
        decreases 64 * (self@.end() - p) + 17,
    {
        let brace = self.span(p);
        if self.named_after(p, 1) {
            if !self.is_after(p, 2, Token::Dot) {
                return Err(
                    ParseError::unexpected(
                        "map literal (`{ Index.Variant: expr, ... }`)".to_owned(),
                        self.text(p + 1),
                        self.span(p + 1),
                    ),
                );
            }
            let (key, q) = match self.parse_variant_key(p + 1) {
                Ok(x) => x,
                Err(e) => return Err(e),
            };
            if !self.is(q, Token::Colon) {
                return Err(self.found_error(q, brace, "`:` after variant in map literal"));
            }
            let (value, r) = match self.parse_expr(q + 1, d) {
                Ok(x) => x,
                Err(e) => return Err(e),
            };
            return self.parse_map_literal_after_first_entry(p, single_entry(key, value), r, d);
        }
        if self.is_after(p, 1, Token::Number) || self.is_after(p, 1, Token::Minus) {
            let (quantity, q) = match self.parse_expr(p + 1, d) {
                Ok(x) => x,
                Err(e) => return Err(e),
            };
            if !self.is(q, Token::Colon) {
                return Err(self.refuse_token(q, Token::Colon));
            }
            let (value, r) = match self.parse_expr(q + 1, d) {
                Ok(x) => x,
                Err(e) => return Err(e),
            };
            return self.parse_coordinate_map_literal_after_first_entry(
                p,
                single_entry(contextual(quantity), value),
                r,
                d,
            );
        }
        if self.is_after(p, 1, Token::LParen) {
            return self.parse_tuple_key_map_literal(p, p + 1, d);
        }
        Err(self.found_error(p + 1, brace, "map literal (`{ Index.Variant: expr, ... }`)"))
    }

    /// The end of a map literal.
    fn close_map(&self, brace: usize, p: usize, entries: Vec<MapEntry>) -> (r: Result<(Expr, usize), ParseError>)
        ensures
            result(r) == map_close(self@, brace as int, p as int, MapEntry::terms(entries, Reading::Exact)),
            moved(r, p as int, self@.end()),
    {
        if !self.is(p, Token::RBrace) {
            return Err(self.refuse_token(p, Token::RBrace));
        }
        let span = self.span(brace).merge(self.span(p));
        Ok((nodes::map_literal(entries, span), p + 1))
    }

    fn parse_map_literal_after_first_entry(&self, brace: usize, first: MapEntry, p: usize, d: usize) -> (r: Result<
        (Expr, usize),
        ParseError,
    >)
        requires
            p <= self@.end(),
        ensures
            result(r) == map_entries(
                self@,
                brace as int,
                p as int,
                d as nat,
                seq![first.to_term(Reading::Exact)],
            ),
            moved(r, p as int, self@.end()),
        decreases 64 * (self@.end() - p) + 0,
    {
        let ghost whole = map_entries(self@, brace as int, p as int, d as nat, seq![first.to_term(Reading::Exact)]);
        let mut entries: Vec<MapEntry> = Vec::new();
        entries.push(first);
        let mut q: usize = p;
        assert(MapEntry::terms(entries, Reading::Exact) =~= seq![first.to_term(Reading::Exact)]);
        loop
            invariant
                p <= q <= self@.end(),
                whole == map_entries(
                    self@,
                    brace as int,
                    q as int,
                    d as nat,
                    MapEntry::terms(entries, Reading::Exact),
                ),
                whole == map_entries(
                    self@,
                    brace as int,
                    p as int,
                    d as nat,
                    seq![first.to_term(Reading::Exact)],
                ),
            decreases self@.end() - q,
        {
            if !self.is(q, Token::Comma) {
                return self.close_map(brace, q, entries);
            }
            if self.is(q + 1, Token::RBrace) {
                return self.close_map(brace, q + 1, entries);
            }
            let (key, r) = match self.parse_variant_key(q + 1) {
                Ok(x) => x,
                Err(e) => return Err(e),
            };
            if !self.is(r, Token::Colon) {
                return Err(self.refuse_token(r, Token::Colon));
            }
            let (value, s) = match self.parse_expr(r + 1, d) {
                Ok(x) => x,
                Err(e) => return Err(e),
            };
            let entry = single_entry(key, value);
            let ghost before = entries;
            entries.push(entry);
            proof {
                lemma_entry_pushed(before, entries, entry);
            }
            q = s;
        }
    }

    fn parse_coordinate_map_literal_after_first_entry(
        &self,
        brace: usize,
        first: MapEntry,
        p: usize,
        d: usize,
    ) -> (r: Result<(Expr, usize), ParseError>)
        requires
            p <= self@.end(),
        ensures
            result(r) == coordinate_entries(
                self@,
                brace as int,
                p as int,
                d as nat,
                seq![first.to_term(Reading::Exact)],
            ),
            moved(r, p as int, self@.end()),
        decreases 64 * (self@.end() - p) + 0,
    {
        let ghost whole = coordinate_entries(
            self@,
            brace as int,
            p as int,
            d as nat,
            seq![first.to_term(Reading::Exact)],
        );
        let mut entries: Vec<MapEntry> = Vec::new();
        entries.push(first);
        let mut q: usize = p;
        assert(MapEntry::terms(entries, Reading::Exact) =~= seq![first.to_term(Reading::Exact)]);
        loop
            invariant
                p <= q <= self@.end(),
                whole == coordinate_entries(
                    self@,
                    brace as int,
                    q as int,
                    d as nat,
                    MapEntry::terms(entries, Reading::Exact),
                ),
                whole == coordinate_entries(
                    self@,
                    brace as int,
                    p as int,
                    d as nat,
                    seq![first.to_term(Reading::Exact)],
                ),
            decreases self@.end() - q,
        {
            if !self.is(q, Token::Comma) {
                return self.close_map(brace, q, entries);
            }
            if self.is(q + 1, Token::RBrace) {
                return self.close_map(brace, q + 1, entries);
            }
            let (quantity, r) = match self.parse_expr(q + 1, d) {
                Ok(x) => x,
                Err(e) => return Err(e),
            };
            if !self.is(r, Token::Colon) {
                return Err(self.refuse_token(r, Token::Colon));
            }
            let (value, s) = match self.parse_expr(r + 1, d) {
                Ok(x) => x,
                Err(e) => return Err(e),
            };
            let entry = single_entry(contextual(quantity), value);
            let ghost before = entries;
            entries.push(entry);
            proof {
                lemma_entry_pushed(before, entries, entry);
            }
            q = s;
        }
    }

    fn parse_tuple_map_key(&self, p: usize, d: usize) -> (r: Result<(MapEntryKey, usize), ParseError>)
        requires
            p <= self@.end(),
        ensures
            result(r) == tuple_key(self@, p as int, d as nat),
            moved(r, p as int, self@.end()),
        decreases 64 * (self@.end() - p) + 31,
    {
        if self.named(p) && self.is_after(p, 1, Token::Dot) {
            self.parse_variant_key(p)
        } else {
            match self.parse_expr(p, d) {
                Ok((e, q)) => Ok((contextual(e), q)),
                Err(e) => Err(e),
            }
        }
    }

    fn parse_tuple_keys(&self, p: usize, d: usize) -> (r: Result<(Vec<MapEntryKey>, usize), ParseError>)
        requires
            p <= self@.end(),
        ensures
            outcome(r, |v: Vec<MapEntryKey>| keys_term(v)) == tuple_keys(self@, p as int, d as nat, Seq::empty()),
            moved(r, p as int, self@.end()),
            r is Ok ==> r->Ok_0.0@.len() > 0,
        decreases 64 * (self@.end() - p) + 32,
    {
        let mut keys: Vec<MapEntryKey> = Vec::new();
        let mut q: usize = p;
        proof {
            lemma_no_keys(keys);
        }
        loop
            invariant
                p <= q <= self@.end(),
                tuple_keys(self@, p as int, d as nat, Seq::empty()) == tuple_keys(
                    self@,
                    q as int,
                    d as nat,
                    MapEntryKey::terms(keys, Reading::Exact),
                ),
            decreases self@.end() - q,
        {
            let (key, r) = match self.parse_tuple_map_key(q, d) {
                Ok(x) => x,
                Err(e) => return Err(e),
            };
            let ghost before = keys;
            keys.push(key);
            proof {
                lemma_key_pushed(before, keys, key);
            }
            if self.is(r, Token::Comma) {
                q = r + 1;
            } else {
                return Ok((keys, r));
            }
        }
    }

    fn parse_tuple_key_map_literal(&self, brace: usize, p: usize, d: usize) -> (r: Result<(Expr, usize), ParseError>)
        requires
            p <= self@.end(),
        ensures
            result(r) == tuple_entries(self@, brace as int, p as int, d as nat, Seq::empty()),
            moved(r, p as int, self@.end()),
        decreases 64 * (self@.end() - p) + 0,
    {
        let mut entries: Vec<MapEntry> = Vec::new();
        let mut q: usize = p;
        proof {
            lemma_no_entries(entries);
        }
        loop
            invariant
                p <= q <= self@.end(),
                tuple_entries(self@, brace as int, p as int, d as nat, Seq::empty()) == tuple_entries(
                    self@,
                    brace as int,
                    q as int,
                    d as nat,
                    MapEntry::terms(entries, Reading::Exact),
                ),
            decreases self@.end() - q,
        {
            if self.is(q, Token::RBrace) {
                return self.close_map(brace, q, entries);
            }
            if !self.is(q, Token::LParen) {
                return Err(self.refuse_token(q, Token::LParen));
            }
            let (keys, r) = match self.parse_tuple_keys(q + 1, d) {
                Ok(x) => x,
                Err(e) => return Err(e),
            };
            if !self.is(r, Token::RParen) {
                return Err(self.refuse_token(r, Token::RParen));
            }
            if !self.is(r + 1, Token::Colon) {
                return Err(self.refuse_token(r + 1, Token::Colon));
            }
            let (value, s) = match self.parse_expr(r + 2, d) {
                Ok(x) => x,
                Err(e) => return Err(e),
            };
            let entry = entry_of_keys(keys, value);
            let ghost before = entries;
            entries.push(entry);
            proof {
                lemma_entry_pushed(before, entries, entry);
            }
            if self.is(s, Token::Comma) {
                q = s + 1;
            } else {
                return self.close_map(brace, s, entries);
            }
        }
    }

    /// One axis of a table.
    pub(crate) fn parse_table_index_spec(&self, p: usize) -> (r: Result<(TableIndexSpec, usize), ParseError>)
        ensures
            match r {
                Ok((axis, q)) => table_axis(self@, p as int) == (
                    Some(axis_of(axis)),
                    Parse::Read(axis.term(Spans::Kept), q as int),
                ),
                Err(e) => table_axis(self@, p as int) == (None::<Axis>, Parse::Refused(e.to_term())),
            },
            moved(r, p as int, self@.end()),
    {
        if self.is(p, Token::ContextualKeyword(ContextualKeyword::Range)) && self.is_after(p, 1, Token::LParen) {
            return Err(
                ParseError::unexpected("`Fin(N)`".to_owned(), "range".to_owned(), self.span(p)),
            );
        }
        if self.fin_at(p) {
            if !self.is(p + 2, Token::Number) {
                return Err(self.refuse_token(p + 2, Token::Number));
            }
            let cardinality: u64 = match self.number_upto(p + 2, u64::MAX as u128) {
                Some(v) => v as u64,
                None => {
                    return Err(
                        ParseError::invalid_number(
                            "table Fin cardinality must be a non-negative integer literal".to_owned(),
                            self.span(p + 2),
                        ),
                    );
                },
            };
            if !self.is(p + 3, Token::RParen) {
                return Err(self.refuse_token(p + 3, Token::RParen));
            }
            let span = self.span(p).merge(self.span(p + 3));
            return Ok((TableIndexSpec::Finite { cardinality, span }, p + 4));
        }
        if self.is(p, Token::Number) {
            let expression = self.text(p);
            let mut suggestion = joined("Fin(", expression.as_str());
            suggestion.append(")");
            return Err(ParseError::found_nat(expression, suggestion, self.span(p)));
        }
        if self.named(p) {
            let last = self.path_last(p);
            return Ok((TableIndexSpec::Named(self.name_path(p, last)), last + 1));
        }
        Err(self.refuse(p, "index name or `Fin(N)`"))
    }

    fn parse_table_axes(&self, p: usize) -> (r: Result<(Vec<TableIndexSpec>, usize), ParseError>)
        requires
            p <= self@.end(),
        ensures
            match r {
                Ok((axes, q)) => table_axes(self@, p as int, Seq::empty()) == (
                    axes_of(axes@),
                    Parse::Read(Term::Absent, q as int),
                ) && axes@.len() > 0,
                Err(e) => table_axes(self@, p as int, Seq::empty()).1 == Parse::Refused(e.to_term()),
            },
            moved(r, p as int, self@.end()),
    {
        let mut axes: Vec<TableIndexSpec> = Vec::new();
        let mut q: usize = p;
        assert(axes_of(axes@) =~= Seq::empty());
        loop
            invariant
                p <= q <= self@.end(),
                table_axes(self@, p as int, Seq::empty()) == table_axes(self@, q as int, axes_of(axes@)),
            decreases self@.end() - q,
        {
            let (axis, r) = match self.parse_table_index_spec(q) {
                Ok(x) => x,
                Err(e) => return Err(e),
            };
            let ghost before = axes@;
            axes.push(axis);
            assert(axes_of(axes@) =~= axes_of(before).push(axis_of(axis)));
            if !self.is(r, Token::Comma) {
                return Ok((axes, r));
            }
            if self.is(r + 1, Token::RBracket) {
                return Ok((axes, r + 1));
            }
            q = r + 1;
        }
    }

    pub(crate) fn parse_table_expr(&self, p: usize, d: usize) -> (r: Result<(Expr, usize), ParseError>)
        requires
            p < self@.end(),
        ensures
            result(r) == table_expr(self@, p as int, d as nat),
            moved(r, p as int, self@.end()),
        decreases 64 * (self@.end() - p) + 17,
    {
        if !self.is(p, Token::Table) {
            return Err(self.refuse_token(p, Token::Table));
        }
        if !self.is(p + 1, Token::LBracket) {
            return Err(self.refuse_token(p + 1, Token::LBracket));
        }
        let (indexes, q) = match self.parse_table_axes(p + 2) {
            Ok(x) => x,
            Err(e) => return Err(e),
        };
        if !self.is(q, Token::RBracket) {
            return Err(self.refuse_token(q, Token::RBracket));
        }
        if !self.is(q + 1, Token::LBrace) {
            return Err(self.refuse_token(q + 1, Token::LBrace));
        }
        let none: Vec<MapEntryKey> = Vec::new();
        proof {
            lemma_no_keys(none);
        }
        let body = if indexes.len() == 1 {
            match &indexes[0] {
                TableIndexSpec::Named(_) => self.parse_table_1d_named(&indexes[0], q + 2, d),
                TableIndexSpec::Finite { .. } => self.parse_table_1d_finite(&indexes[0], q + 2, d),
            }
        } else if indexes.len() == 2 {
            self.parse_table_single(&indexes[0], &indexes[1], &none, q + 2, d)
        } else {
            self.parse_table_sliced(&indexes, q + 2, d)
        };
        let (entries, r) = match body {
            Ok(x) => x,
            Err(e) => return Err(e),
        };
        if !self.is(r, Token::RBrace) {
            return Err(self.refuse_token(r, Token::RBrace));
        }
        let span = self.span(p).merge(self.span(r));
        assert(seq_terms(indexes@, Spans::Kept) =~= axis_terms(axes_of(indexes@)));
        Ok((nodes::table_literal(indexes, entries, span), r + 1))
    }

    /// A label over a named axis, and where it stands.
    fn parse_axis_label(&self, axis: &TableIndexSpec, p: usize, d: usize, before: Token, or_before: Token) -> (r:
        Result<(MapEntryKey, Span, usize), ParseError>)
        requires
            p <= self@.end(),
            axis is Named,
        ensures
            match r {
                Ok((key, span, q)) => {
                    &&& axis_label(self@, axis_of(*axis), p as int, d as nat, before, or_before) == Parse::Read(
                        key.to_term(Reading::Exact),
                        q as int,
                    )
                    &&& span == key_span(key.to_term(Reading::Exact))
                    &&& p < q <= self@.end()
                },
                Err(e) => axis_label(self@, axis_of(*axis), p as int, d as nat, before, or_before)
                    == Parse::Refused(e.to_term()),
            },
        decreases 64 * (self@.end() - p) + 31,
    {
        proof {
            reveal(key_span);
        }
        if self.named(p) && (self.is_after(p, 1, before) || self.is_after(p, 1, or_before)) {
            let key = plain_discrete(index_of_axis(axis), self.named_entry_at(p));
            return Ok((key, self.span(p), p + 1));
        }
        match self.parse_expr(p, d) {
            Ok((e, q)) => {
                proof {
                    lemma_expr(e);
                }
                if self.named(p) && self.is_after(p, 1, Token::Dot) && is_path_expr(&e) {
                    return Err(self.refuse_token(p + 1, before));
                }
                let span = e.span;
                Ok((explicit(axis, e), span, q))
            },
            Err(e) => Err(e),
        }
    }

    fn parse_table_1d_named(&self, axis: &TableIndexSpec, p: usize, d: usize) -> (r: Result<
        (Vec<MapEntry>, usize),
        ParseError,
    >)
        requires
            p <= self@.end(),
            axis is Named,
        ensures
            outcome(r, |v: Vec<MapEntry>| entries_term(v)) == labelled_entries(
                self@,
                axis_of(*axis),
                p as int,
                d as nat,
                Seq::empty(),
            ),
            r is Ok ==> p <= r->Ok_0.1 <= self@.end(),
        decreases 64 * (self@.end() - p) + 32,
    {
        let mut entries: Vec<MapEntry> = Vec::new();
        let mut q: usize = p;
        proof {
            lemma_no_entries(entries);
        }
        loop
            invariant
                p <= q <= self@.end(),
                axis is Named,
                labelled_entries(self@, axis_of(*axis), p as int, d as nat, Seq::empty()) == labelled_entries(
                    self@,
                    axis_of(*axis),
                    q as int,
                    d as nat,
                    MapEntry::terms(entries, Reading::Exact),
                ),
            decreases self@.end() - q,
        {
            if self.is(q, Token::RBrace) {
                return Ok((entries, q));
            }
            let (key, _, r) = match self.parse_axis_label(axis, q, d, Token::Colon, Token::Colon) {
                Ok(x) => x,
                Err(e) => return Err(e),
            };
            if !self.is(r, Token::Colon) {
                return Err(self.refuse_token(r, Token::Colon));
            }
            let (value, s) = match self.parse_expr(r + 1, d) {
                Ok(x) => x,
                Err(e) => return Err(e),
            };
            if !self.is(s, Token::Semicolon) {
                return Err(self.refuse_token(s, Token::Semicolon));
            }
            let entry = single_entry(key, value);
            let ghost before = entries;
            entries.push(entry);
            proof {
                lemma_entry_pushed(before, entries, entry);
            }
            q = s + 1;
        }
    }

    fn parse_table_1d_finite(&self, axis: &TableIndexSpec, p: usize, d: usize) -> (r: Result<
        (Vec<MapEntry>, usize),
        ParseError,
    >)
        requires
            p <= self@.end(),
            axis is Finite,
        ensures
            outcome(r, |v: Vec<MapEntry>| entries_term(v)) == counted_entries(
                self@,
                axis_of(*axis),
                p as int,
                d as nat,
                Seq::empty(),
            ),
            r is Ok ==> p <= r->Ok_0.1 <= self@.end(),
        decreases 64 * (self@.end() - p) + 32,
    {
        let mut entries: Vec<MapEntry> = Vec::new();
        let mut q: usize = p;
        proof {
            lemma_no_entries(entries);
        }
        loop
            invariant
                p <= q <= self@.end(),
                axis is Finite,
                counted_entries(self@, axis_of(*axis), p as int, d as nat, Seq::empty()) == counted_entries(
                    self@,
                    axis_of(*axis),
                    q as int,
                    d as nat,
                    MapEntry::terms(entries, Reading::Exact),
                ),
            decreases self@.end() - q,
        {
            if self.is(q, Token::RBrace) {
                let got: u64 = entries.len() as u64;
                return match axis {
                    TableIndexSpec::Finite { cardinality, span } => if got == *cardinality {
                        Ok((entries, q))
                    } else {
                        Err(
                            ParseError::row_length(*cardinality, got, span.merge(self.span(q))),
                        )
                    },
                    TableIndexSpec::Named(_) => Err(self.refuse(q, "")),
                };
            }
            let (value, r) = match self.parse_expr(q, d) {
                Ok(x) => x,
                Err(e) => return Err(e),
            };
            if !self.is(r, Token::Semicolon) {
                return Err(self.refuse_token(r, Token::Semicolon));
            }
            proof {
                lemma_expr(value);
            }
            let key = plain_discrete(index_of_axis(axis), position_at(entries.len() as u64, value.span));
            let entry = single_entry(key, value);
            let ghost before = entries;
            entries.push(entry);
            proof {
                lemma_entry_pushed(before, entries, entry);
            }
            q = r + 1;
        }
    }

    /// Expressions between commas.
    pub(crate) fn parse_row_values(&self, p: usize, d: usize) -> (r: Result<(Vec<Expr>, usize), ParseError>)
        requires
            p <= self@.end(),
        ensures
            outcome(r, |v: Vec<Expr>| Term::List(Expr::terms(v, Reading::Exact))) == row_values(
                self@,
                p as int,
                d as nat,
                Seq::empty(),
            ),
            moved(r, p as int, self@.end()),
        decreases 64 * (self@.end() - p) + 31,
    {
        let mut values: Vec<Expr> = Vec::new();
        let mut q: usize = p;
        assert(Expr::terms(values, Reading::Exact) =~= Seq::empty());
        loop
            invariant
                p <= q <= self@.end(),
                row_values(self@, p as int, d as nat, Seq::empty()) == row_values(
                    self@,
                    q as int,
                    d as nat,
                    Expr::terms(values, Reading::Exact),
                ),
            decreases self@.end() - q,
        {
            let (value, r) = match self.parse_expr(q, d) {
                Ok(x) => x,
                Err(e) => return Err(e),
            };
            let ghost before = Expr::terms(values, Reading::Exact);
            values.push(value);
            assert(Expr::terms(values, Reading::Exact) =~= before.push(value.to_term(Reading::Exact)));
            if self.is(r, Token::Comma) {
                q = r + 1;
            } else {
                return Ok((values, r));
            }
        }
    }

    fn parse_column_labels(&self, axis: &TableIndexSpec, p: usize, d: usize) -> (r: Result<
        (Vec<MapEntryKey>, usize),
        ParseError,
    >)
        requires
            p <= self@.end(),
            axis is Named,
        ensures
            outcome(r, |v: Vec<MapEntryKey>| keys_term(v)) == column_labels(
                self@,
                axis_of(*axis),
                p as int,
                d as nat,
                Seq::empty(),
            ),
            moved(r, p as int, self@.end()),
        decreases 64 * (self@.end() - p) + 32,
    {
        let mut labels: Vec<MapEntryKey> = Vec::new();
        let mut q: usize = p;
        proof {
            lemma_no_keys(labels);
        }
        loop
            invariant
                p <= q <= self@.end(),
                axis is Named,
                column_labels(self@, axis_of(*axis), p as int, d as nat, Seq::empty()) == column_labels(
                    self@,
                    axis_of(*axis),
                    q as int,
                    d as nat,
                    MapEntryKey::terms(labels, Reading::Exact),
                ),
            decreases self@.end() - q,
        {
            let (label, _, r) = match self.parse_axis_label(axis, q, d, Token::Comma, Token::Semicolon) {
                Ok(x) => x,
                Err(e) => return Err(e),
            };
            let ghost before = labels;
            labels.push(label);
            proof {
                lemma_key_pushed(before, labels, label);
            }
            if self.is(r, Token::Comma) {
                q = r + 1;
            } else if !self.is(r, Token::Semicolon) {
                return Err(self.refuse_token(r, Token::Semicolon));
            } else {
                return Ok((labels, r + 1));
            }
        }
    }

    /// The label of a row, and where it stands.
    pub(crate) fn parse_grid_label(&self, row: &TableIndexSpec, p: usize, d: usize, count: u64) -> (r: Result<
        (MapEntryKey, Span, usize),
        ParseError,
    >)
        requires
            p <= self@.end(),
        ensures
            match r {
                Ok((key, span, q)) => {
                    &&& grid_label(self@, axis_of(*row), p as int, d as nat, count as int) == Parse::Read(
                        key.to_term(Reading::Exact),
                        q as int,
                    )
                    &&& span == label_span(self@, axis_of(*row), key.to_term(Reading::Exact), p as int)
                    &&& p <= q <= self@.end()
                },
                Err(e) => grid_label(self@, axis_of(*row), p as int, d as nat, count as int) == Parse::Refused(
                    e.to_term(),
                ),
            },
        decreases 64 * (self@.end() - p) + 32,
    {
        proof {
            reveal(label_span);
        }
        match row {
            TableIndexSpec::Finite { cardinality: _, span } => {
                let key = plain_discrete(index_of_axis(row), position_at(count, *span));
                Ok((key, self.span_or(p, *span), p))
            },
            TableIndexSpec::Named(_) => {
                let (key, span, q) = match self.parse_axis_label(row, p, d, Token::Colon, Token::Colon) {
                    Ok(x) => x,
                    Err(e) => return Err(e),
                };
                if !self.is(q, Token::Colon) {
                    return Err(self.refuse_token(q, Token::Colon));
                }
                Ok((key, span, q + 1))
            },
        }
    }

    /// A row of a grid: its label, its values, where it stands and the place
    /// behind it.
    fn parse_grid_line(&self, row: &TableIndexSpec, p: usize, d: usize, count: u64) -> (r: Result<
        (MapEntryKey, Vec<Expr>, Span, usize),
        ParseError,
    >)
        requires
            p <= self@.end(),
        ensures
            match r {
                Ok((label, values, span, q)) => grid_line(self@, axis_of(*row), p as int, d as nat, count as int)
                    == Line::Read(
                    label.to_term(Reading::Exact),
                    Expr::terms(values, Reading::Exact),
                    span,
                    q as int,
                ) && p < q <= self@.end(),
                Err(e) => grid_line(self@, axis_of(*row), p as int, d as nat, count as int) == Line::Refused(
                    e.to_term(),
                ),
            },
        decreases 64 * (self@.end() - p) + 33,
    {
        match self.parse_grid_label(row, p, d, count) {
            Ok((label, at, q)) => self.parse_line_rest(label, at, q, d),
            Err(e) => Err(e),
        }
    }

    /// The values of a row whose label stands at `at`, up to `;`.
    pub(crate) fn parse_line_rest(&self, label: MapEntryKey, at: Span, p: usize, d: usize) -> (r: Result<
        (MapEntryKey, Vec<Expr>, Span, usize),
        ParseError,
    >)
        requires
            p <= self@.end(),
        ensures
            match r {
                Ok((row_label, values, span, q)) => row_label == label && line_rest(
                    self@,
                    label.to_term(Reading::Exact),
                    at,
                    p as int,
                    d as nat,
                ) == Line::Read(
                    label.to_term(Reading::Exact),
                    Expr::terms(values, Reading::Exact),
                    span,
                    q as int,
                ) && p < q <= self@.end(),
                Err(e) => line_rest(self@, label.to_term(Reading::Exact), at, p as int, d as nat) == Line::Refused(
                    e.to_term(),
                ),
            },
        decreases 64 * (self@.end() - p) + 32,
    {
        let (values, r) = match self.parse_row_values(p, d) {
            Ok(x) => x,
            Err(e) => return Err(e),
        };
        if !self.is(r, Token::Semicolon) {
            return Err(self.refuse_token(r, Token::Semicolon));
        }
        let span = at.merge(self.span_or(r, at));
        Ok((label, values, span, r + 1))
    }

    fn parse_grid_rows(
        &self,
        row: &TableIndexSpec,
        column: &TableIndexSpec,
        labels: &Vec<MapEntryKey>,
        prefix: &Vec<MapEntryKey>,
        p: usize,
        d: usize,
    ) -> (r: Result<(Vec<MapEntry>, usize), ParseError>)
        requires
            p <= self@.end(),
        ensures
            outcome(r, |v: Vec<MapEntry>| entries_term(v)) == grid_rows(
                self@,
                axis_of(*row),
                axis_of(*column),
                MapEntryKey::terms(*labels, Reading::Exact),
                MapEntryKey::terms(*prefix, Reading::Exact),
                p as int,
                d as nat,
                0,
                Seq::empty(),
            ),
            r is Ok ==> p <= r->Ok_0.1 <= self@.end(),
        decreases 64 * (self@.end() - p) + 34,
    {
        let mut entries: Vec<MapEntry> = Vec::new();
        let mut q: usize = p;
        let mut count: u64 = 0;
        let ghost label_terms = MapEntryKey::terms(*labels, Reading::Exact);
        let ghost prefix_terms = MapEntryKey::terms(*prefix, Reading::Exact);
        let expected: u64 = match column {
            TableIndexSpec::Named(_) => labels.len() as u64,
            TableIndexSpec::Finite { cardinality, span: _ } => *cardinality,
        };
        proof {
            lemma_no_entries(entries);
        }
        loop
            invariant
                p <= q <= self@.end(),
                count <= q,
                label_terms == MapEntryKey::terms(*labels, Reading::Exact),
                prefix_terms == MapEntryKey::terms(*prefix, Reading::Exact),
                expected == column_count(axis_of(*column), label_terms),
                grid_rows(
                    self@,
                    axis_of(*row),
                    axis_of(*column),
                    label_terms,
                    prefix_terms,
                    p as int,
                    d as nat,
                    0,
                    Seq::empty(),
                ) == grid_rows(
                    self@,
                    axis_of(*row),
                    axis_of(*column),
                    label_terms,
                    prefix_terms,
                    q as int,
                    d as nat,
                    count as int,
                    MapEntry::terms(entries, Reading::Exact),
                ),
            decreases self@.end() - q,
        {
            if self.is(q, Token::RBrace) || self.is(q, Token::LBracket) {
                return match row {
                    TableIndexSpec::Finite { cardinality, span } => if count == *cardinality {
                        Ok((entries, q))
                    } else {
                        Err(
                            ParseError::row_length(*cardinality, count, *span),
                        )
                    },
                    TableIndexSpec::Named(_) => Ok((entries, q)),
                };
            }
            let (label, values, span, s) = match self.parse_grid_line(row, q, d, count) {
                Ok(x) => x,
                Err(e) => return Err(e),
            };
            let got: u64 = values.len() as u64;
            if got != expected {
                return Err(ParseError::row_length(expected, got, span));
            }
            push_grid_row(&mut entries, prefix, label, column, labels, values);
            q = s;
            count = count + 1;
        }
    }

    fn parse_table_single(
        &self,
        row: &TableIndexSpec,
        column: &TableIndexSpec,
        prefix: &Vec<MapEntryKey>,
        p: usize,
        d: usize,
    ) -> (r: Result<(Vec<MapEntry>, usize), ParseError>)
        requires
            p <= self@.end(),
        ensures
            outcome(r, |v: Vec<MapEntry>| entries_term(v)) == grid(
                self@,
                axis_of(*row),
                axis_of(*column),
                MapEntryKey::terms(*prefix, Reading::Exact),
                p as int,
                d as nat,
            ),
            r is Ok ==> p <= r->Ok_0.1 <= self@.end(),
        decreases 64 * (self@.end() - p) + 35,
    {
        match column {
            TableIndexSpec::Finite { .. } => {
                let none: Vec<MapEntryKey> = Vec::new();
                proof {
                    lemma_no_keys(none);
                }
                self.parse_grid_rows(row, column, &none, prefix, p, d)
            },
            TableIndexSpec::Named(_) => {
                if !self.is(p, Token::Colon) {
                    return Err(self.refuse_token(p, Token::Colon));
                }
                match self.parse_column_labels(column, p + 1, d) {
                    Ok((labels, q)) => self.parse_grid_rows(row, column, &labels, prefix, q, d),
                    Err(e) => Err(e),
                }
            },
        }
    }

    /// `#n` over a finite axis.
    pub(crate) fn parse_slice_position(&self, axis: &TableIndexSpec, p: usize) -> (r: Result<
        (MapEntryKey, usize),
        ParseError,
    >)
        requires
            axis is Finite,
        ensures
            result(r) == slice_position(self@, axis_of(*axis), p as int),
            moved(r, p as int, self@.end()),
    {
        if !self.is(p, Token::Hash) {
            return Err(self.refuse_token(p, Token::Hash));
        }
        if !self.is(p + 1, Token::Number) {
            return Err(self.refuse_token(p + 1, Token::Number));
        }
        let value: u64 = match self.number_upto(p + 1, u64::MAX as u128) {
            Some(v) => v as u64,
            None => {
                return Err(
                    ParseError::invalid_number(
                        "expected non-negative integer in slice label".to_owned(),
                        self.span(p + 1),
                    ),
                );
            },
        };
        let size: u64 = match axis {
            TableIndexSpec::Finite { cardinality, span: _ } => *cardinality,
            TableIndexSpec::Named(_) => 0,
        };
        if value >= size {
            let mut reason = joined("slice index #", decimal_string(value).as_str());
            reason.append(" out of range for Fin(");
            reason.append(decimal_string(size).as_str());
            reason.append(")");
            return Err(ParseError::invalid_number(reason, self.span(p + 1)));
        }
        let span = self.span(p).merge(self.span(p + 1));
        Ok((plain_discrete(index_of_axis(axis), position_at(value, span)), p + 2))
    }

    fn parse_slice_label(&self, axis: &TableIndexSpec, p: usize, d: usize) -> (r: Result<
        (MapEntryKey, usize),
        ParseError,
    >)
        requires
            p <= self@.end(),
        ensures
            result(r) == slice_label(self@, axis_of(*axis), p as int, d as nat),
            moved(r, p as int, self@.end()),
        decreases 64 * (self@.end() - p) + 31,
    {
        match axis {
            TableIndexSpec::Finite { .. } => self.parse_slice_position(axis, p),
            TableIndexSpec::Named(name) => {
                if self.named(p) && self.is_after(p, 1, Token::Dot) {
                    let (path, q) = match self.parse_index_variant_path(p) {
                        Ok(x) => x,
                        Err(e) => return Err(e),
                    };
                    if !same_path(&path.index.value, &name.value) {
                        let mut expected = joined("slice axis `", name.value.display_path().as_str());
                        expected.append("`");
                        return Err(
                            ParseError::unexpected(expected, path.index.value.display_path(), path.index.span),
                        );
                    }
                    Ok((qualified_slice_key(path, name.span), q))
                } else {
                    match self.parse_expr(p, d) {
                        Ok((e, q)) => Ok((explicit(axis, e), q)),
                        Err(e) => Err(e),
                    }
                }
            },
        }
    }

    fn parse_slice_labels(&self, axes: &Vec<TableIndexSpec>, n: usize, p: usize, d: usize) -> (r: Result<
        (Vec<MapEntryKey>, usize),
        ParseError,
    >)
        requires
            p <= self@.end(),
            n <= axes@.len(),
        ensures
            outcome(r, |v: Vec<MapEntryKey>| keys_term(v)) == slice_labels(
                self@,
                axes_of(axes@).take(n as int),
                0,
                p as int,
                d as nat,
                Seq::empty(),
            ),
            r is Ok ==> p <= r->Ok_0.1 <= self@.end(),
        decreases 64 * (self@.end() - p) + 33,
    {
        let mut keys: Vec<MapEntryKey> = Vec::new();
        let mut q: usize = p;
        let ghost all = axes_of(axes@).take(n as int);
        proof {
            lemma_no_keys(keys);
        }
        for i in 0..n
            invariant
                p <= q <= self@.end(),
                n <= axes@.len(),
                all == axes_of(axes@).take(n as int),
                slice_labels(self@, all, 0, p as int, d as nat, Seq::empty()) == slice_labels(
                    self@,
                    all,
                    i as int,
                    q as int,
                    d as nat,
                    MapEntryKey::terms(keys, Reading::Exact),
                ),
        {
            let mut start: usize = q;
            if i > 0 {
                if !self.is(q, Token::Comma) {
                    return Err(self.refuse_token(q, Token::Comma));
                }
                start = q + 1;
            }
            let (key, r) = match self.parse_slice_label(&axes[i], start, d) {
                Ok(x) => x,
                Err(e) => return Err(e),
            };
            let ghost before = keys;
            keys.push(key);
            proof {
                lemma_key_pushed(before, keys, key);
            }
            q = r;
        }
        Ok((keys, q))
    }

    fn parse_table_sliced(&self, axes: &Vec<TableIndexSpec>, p: usize, d: usize) -> (r: Result<
        (Vec<MapEntry>, usize),
        ParseError,
    >)
        requires
            p <= self@.end(),
            axes@.len() >= 2,
        ensures
            outcome(r, |v: Vec<MapEntry>| entries_term(v)) == slices(
                self@,
                axes_of(axes@),
                p as int,
                d as nat,
                Seq::empty(),
            ),
            r is Ok ==> p <= r->Ok_0.1 <= self@.end(),
        decreases 64 * (self@.end() - p) + 36,
    {
        let m: usize = axes.len();
        let n: usize = m - 2;
        let mut entries: Vec<MapEntry> = Vec::new();
        let mut q: usize = p;
        proof {
            lemma_no_entries(entries);
        }
        while self.is(q, Token::LBracket)
            invariant
                p <= q <= self@.end(),
                axes@.len() >= 2,
                m == axes@.len(),
                n == m - 2,
                slices(self@, axes_of(axes@), p as int, d as nat, Seq::empty()) == slices(
                    self@,
                    axes_of(axes@),
                    q as int,
                    d as nat,
                    MapEntry::terms(entries, Reading::Exact),
                ),
            decreases self@.end() - q,
        {
            let (keys, r) = match self.parse_slice_labels(axes, n, q + 1, d) {
                Ok(x) => x,
                Err(e) => return Err(e),
            };
            if !self.is(r, Token::RBracket) {
                return Err(self.refuse_token(r, Token::RBracket));
            }
            let (mut more, s) = match self.parse_table_single(&axes[n], &axes[n + 1], &keys, r + 1, d) {
                Ok(x) => x,
                Err(e) => return Err(e),
            };
            let ghost before = entries;
            let ghost added = more;
            entries.append(&mut more);
            assert(MapEntry::terms(entries, Reading::Exact) =~= MapEntry::terms(before, Reading::Exact)
                + MapEntry::terms(added, Reading::Exact));
            q = s;
        }
        Ok((entries, q))
    }
}

/// Whether two paths are the same.
pub(crate) fn same_path(a: &NamePath, b: &NamePath) -> (r: bool)
    ensures
        r == (a.term(Spans::Kept) == b.term(Spans::Kept)),
{
    proof {
        lemma_path_term(*a);
        lemma_path_term(*b);
    }
    crate::syntax::format_equivalent::FormatEquivalent::format_equivalent(a, b)
}

/// A path has no positions in it.
proof fn lemma_path_term(path: NamePath)
    ensures
        path.term(Spans::Kept) == path.term(Spans::Dropped),
{
    assert(seq_terms(path.segments.rest@, Spans::Kept) =~= seq_terms(path.segments.rest@, Spans::Dropped));
}

/// The key of a slice that is labelled `Axis.Variant`.
pub(crate) fn qualified_slice_key(path: VariantPath, axis_span: Span) -> (r: MapEntryKey)
    ensures
        r.to_term(Reading::Exact) == discrete_key(
            pair(node1(Tag::MapEntryIndexNamed, path.index.value.term(Spans::Kept)), Term::At(path.index.span)),
            seq![axis_span],
            pair(node1(Tag::IndexEntryKeyNamed, path.variant.value.term(Spans::Kept)), Term::At(path.variant.span)),
        ),
{
    let mut spans: Vec<Span> = Vec::new();
    spans.push(axis_span);
    assert(spans@ =~= seq![axis_span]);
    let index = Spanned { value: MapEntryIndex::Named(path.index.value), span: path.index.span };
    let entry = Spanned { value: IndexEntryKey::Named(path.variant.value), span: path.variant.span };
    discrete(index, spans, entry)
}

/// An entry with the given keys, of which there is at least one.
fn entry_of_keys(keys: Vec<MapEntryKey>, value: Expr) -> (r: MapEntry)
    requires
        keys@.len() > 0,
    ensures
        r.to_term(Reading::Exact) == node2(Tag::MapEntry, keys_term(keys), value.to_term(Reading::Exact)),
{
    let mut rest = keys;
    let first = rest.remove(0);
    let all = NonEmpty::new(first, rest);
    proof {
        assert(all@ =~= keys@);
        lemma_key_terms(all, Reading::Exact);
        assert(key_terms(all@, Reading::Exact) =~= MapEntryKey::terms(keys, Reading::Exact));
    }
    MapEntry { keys: all, value }
}

/// The keys of a cell: those of the slice, of the row and of the column.
fn table_entry_keys(prefix: &Vec<MapEntryKey>, row: &MapEntryKey, column: MapEntryKey) -> (r: NonEmpty<MapEntryKey>)
    ensures
        prepend(r.first.to_term(Reading::Exact), MapEntryKey::terms(r.rest, Reading::Exact)) == MapEntryKey::terms(
            *prefix,
            Reading::Exact,
        ).push(row.to_term(Reading::Exact)).push(column.to_term(Reading::Exact)),
{
    let front = MapEntryKey::duplicate_list(prefix);
    let row_key = row.duplicate();
    let ghost before = front@;
    proof {
        lemma_prefix_terms(front, *prefix, Reading::Exact);
        assert(MapEntryKey::terms(*prefix, Reading::Exact) =~= key_terms(prefix@, Reading::Exact));
    }
    let keys = multi_entry_keys(front, row_key, Some(column));
    proof {
        lemma_key_terms(keys, Reading::Exact);
        lemma_keys_appended(before, row_key, Some(column), Reading::Exact);
        let start = key_terms(before, Reading::Exact).push(row.to_term(Reading::Exact));
        assert(start + seq![column.to_term(Reading::Exact)] =~= start.push(column.to_term(Reading::Exact)));
    }
    keys
}

/// The key of one column.
fn key_of_column(column: &TableIndexSpec, labels: &Vec<MapEntryKey>, i: usize) -> (r: MapEntryKey)
    requires
        column is Named ==> i < labels@.len(),
    ensures
        r.to_term(Reading::Exact) == column_key(
            axis_of(*column),
            MapEntryKey::terms(*labels, Reading::Exact),
            i as int,
        ),
{
    match column {
        TableIndexSpec::Named(_) => labels[i].duplicate(),
        TableIndexSpec::Finite { cardinality: _, span } => plain_discrete(
            index_of_axis(column),
            position_at(i as u64, *span),
        ),
    }
}

/// Append the entries of one row.
fn push_grid_row(
    entries: &mut Vec<MapEntry>,
    prefix: &Vec<MapEntryKey>,
    label: MapEntryKey,
    column: &TableIndexSpec,
    labels: &Vec<MapEntryKey>,
    values: Vec<Expr>,
)
    requires
        values@.len() == column_count(axis_of(*column), MapEntryKey::terms(*labels, Reading::Exact)),
    ensures
        MapEntry::terms(*final(entries), Reading::Exact) == MapEntry::terms(*old(entries), Reading::Exact)
            + grid_row(
            MapEntryKey::terms(*prefix, Reading::Exact),
            label.to_term(Reading::Exact),
            axis_of(*column),
            MapEntryKey::terms(*labels, Reading::Exact),
            Expr::terms(values, Reading::Exact),
        ),
{
    proof {
        reveal(grid_row);
    }
    let ghost before = MapEntry::terms(*entries, Reading::Exact);
    let ghost all = values;
    let ghost row = grid_row(
        MapEntryKey::terms(*prefix, Reading::Exact),
        label.to_term(Reading::Exact),
        axis_of(*column),
        MapEntryKey::terms(*labels, Reading::Exact),
        Expr::terms(values, Reading::Exact),
    );
    let mut i: usize = 0;
    assert(before + row.take(0) =~= before);
    for value in iter: values
        invariant
            iter.seq() == all@,
            i == iter.index(),
            all@.len() == column_count(axis_of(*column), MapEntryKey::terms(*labels, Reading::Exact)),
            row == grid_row(
                MapEntryKey::terms(*prefix, Reading::Exact),
                label.to_term(Reading::Exact),
                axis_of(*column),
                MapEntryKey::terms(*labels, Reading::Exact),
                Expr::terms(all, Reading::Exact),
            ),
            MapEntry::terms(*entries, Reading::Exact) == before + row.take(i as int),
    {
        proof {
            reveal(grid_row);
        }
        assert(value == all[i as int]);
        let keys = table_entry_keys(prefix, &label, key_of_column(column, labels, i));
        let entry = MapEntry { keys, value };
        let ghost sofar = *entries;
        entries.push(entry);
        proof {
            lemma_entry_pushed(sofar, *entries, entry);
            assert(entry.to_term(Reading::Exact) == row[i as int]);
            assert(row.take(i as int + 1) =~= row.take(i as int).push(row[i as int]));
            assert(before + row.take(i as int + 1) =~= (before + row.take(i as int)).push(row[i as int]));
        }
        i = i + 1;
    }
    assert(row.take(row.len() as int) =~= row);
}

} // verus!
