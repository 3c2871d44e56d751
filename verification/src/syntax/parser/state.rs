//! The parser's state and the phrases without expressions in them.

use crate::exact_rational::{ExactRational, ExactRationalError};
use crate::syntax::ast::{
    DimExpr, DimExprItem, DimTerm, ForBinding, ForBindingIndex, Ident, IdentPath, IndexExpr, MulDivOp, NamePath,
    NatExpr, PatternBinding, UnitExpr, UnitExprItem, UnitRef,
};
use crate::syntax::lexer::{is_line_end, lex, lexemes_from};
use crate::syntax::names::{FieldName, IndexVariantName, LocalName, NameAtom, UnitName};
use crate::syntax::non_empty::NonEmpty;
use crate::syntax::parser::error::ParseError;
use crate::syntax::parser::expr_grammar::{for_binding, for_bindings, pattern_bindings};
use crate::syntax::parser::grammar::{
    dim_expr, dim_item, dim_items_rest, expect, exponent, fin_at, finite, ident, ident_path, index_expr,
    index_exprs_rest, joining_op, line_break_between, name_path, named_path, nat_expr, nat_factor, nat_factors,
    nat_product, nat_summands, number_upto, optional_exponent, path_idents, path_last, path_names, path_span, quoted,
    rational_error, reciprocal_at, refuse, signed_integer, spanned_name, unit_expr, unit_follows, unit_item,
    unit_items, unit_items_rest, variant_last, variant_path, Input, Parse,
};
use crate::syntax::span::{Span, Spanned};
use crate::syntax::term::{at, node2, node3, prepend, seq_terms, Spans, Syntax, Tag, Term};
use crate::syntax::text::{joined, parse_bounded, strip_separators, without_separators};
use crate::syntax::token::{ContextualKeyword, Lexeme, Token};
use vstd::prelude::*;
use vstd::string::{StringExecFns, StringSliceAdditionalSpecFns};
use vstd::utf8::{encode_utf8, is_char_boundary};

verus! {

/// Source text with its tokens.
pub struct Parser {
    pub source: String,
    pub lexemes: Vec<Lexeme>,
    /// For each token that is a decimal literal, the bits of its value where
    /// that is finite.
    pub floats: Vec<Option<u64>>,
}

impl View for Parser {
    type V = Input;

    open spec fn view(&self) -> Input {
        Input { bytes: encode_utf8(self.source@), lexemes: self.lexemes@, floats: self.floats@ }
    }
}

/// What a parse function returns, read as a phrase of the grammar.
pub open spec fn outcome<T>(r: Result<(T, usize), ParseError>, term: spec_fn(T) -> Term) -> Parse {
    match r {
        Ok((value, q)) => Parse::Read(term(value), q as int),
        Err(error) => Parse::Refused(error.to_term()),
    }
}

/// As `outcome`, for values with a term of their own.
pub open spec fn result<T: Syntax>(r: Result<(T, usize), ParseError>) -> Parse {
    match r {
        Ok((value, q)) => Parse::Read(value.term(Spans::Kept), q as int),
        Err(error) => Parse::Refused(error.to_term()),
    }
}

/// Whether a phrase took at least one token and ended inside the source.
pub open spec fn moved<T>(r: Result<(T, usize), ParseError>, p: int, end: int) -> bool {
    match r {
        Ok((value, q)) => p < q <= end,
        Err(error) => true,
    }
}

/// A qualified variant: its index, the variant, and where the whole stands.
#[derive(Debug)]
pub struct VariantPath {
    pub index: Spanned<NamePath>,
    pub variant: Spanned<IndexVariantName>,
    pub span: Span,
}

impl Syntax for VariantPath {
    open spec fn term(&self, s: Spans) -> Term {
        node3(Tag::VariantPath, self.index.term(s), self.variant.term(s), at(s, self.span))
    }
}

/// A list with at least one item has the terms of its items.
pub proof fn lemma_non_empty_term<T: Syntax>(items: NonEmpty<T>, s: Spans)
    ensures
        items.term(s) == Term::List(seq_terms(items@, s)),
{
    assert(prepend(items.first.term(s), seq_terms(items.rest@, s)) =~= seq_terms(items@, s));
}

impl Parser {
    /// Split some source text into tokens.
    pub fn new(source: &str) -> (r: Parser)
        ensures
            r@.bytes == source.spec_bytes(),
            r@.lexemes == lexemes_from(source.spec_bytes(), 0),
            r@.floats.len() == 0,
    {
        Parser { source: source.to_owned(), lexemes: lex(source), floats: Vec::new() }
    }

    /// The texts of the tokens that are numbers, each at the place of its token;
    /// other tokens have none.
    pub fn decimal_literals(&self) -> (r: Vec<Option<String>>)
        ensures
            r@.len() == self@.lexemes.len(),
            forall|i: int|
                0 <= i < r@.len() ==> match #[trigger] r@[i] {
                    Some(text) => self@.is(i, Token::Number) && text@ == self@.text(i),
                    None => !self@.is(i, Token::Number),
                },
    {
        let mut out: Vec<Option<String>> = Vec::new();
        for i in 0..self.lexemes.len()
            invariant
                out@.len() == i,
                forall|j: int|
                    0 <= j < i ==> match #[trigger] out@[j] {
                        Some(text) => self@.is(j, Token::Number) && text@ == self@.text(j),
                        None => !self@.is(j, Token::Number),
                    },
        {
            if self.is(i, Token::Number) {
                out.push(Some(self.text(i)));
            } else {
                out.push(None);
            }
        }
        out
    }

    /// The same source with the values of its decimal literals, each at the
    /// place of its token.
    pub fn with_float_values(self, floats: Vec<Option<u64>>) -> (r: Parser)
        ensures
            r@ == (Input { floats: floats@, ..self@ }),
    {
        Parser { source: self.source, lexemes: self.lexemes, floats }
    }

    pub(crate) fn is(&self, p: usize, token: Token) -> (r: bool)
        ensures
            r == self@.is(p as int, token),
            self@.end() <= usize::MAX,
    {
        p < self.lexemes.len() && self.lexemes[p].token == token
    }

    /// As `is`, `n` places further on.
    pub(crate) fn is_after(&self, p: usize, n: usize, token: Token) -> (r: bool)
        requires
            n <= 8,
        ensures
            r == self@.is(p + n, token),
            self@.end() <= usize::MAX,
    {
        p < self.lexemes.len() && n < self.lexemes.len() - p && self.lexemes[p + n].token == token
    }

    pub(crate) fn named(&self, p: usize) -> (r: bool)
        ensures
            r == self@.named(p as int),
            self@.end() <= usize::MAX,
    {
        p < self.lexemes.len() && self.lexemes[p].token.is_identifier()
    }

    /// As `named`, `n` places further on.
    pub(crate) fn named_after(&self, p: usize, n: usize) -> (r: bool)
        requires
            n <= 8,
        ensures
            r == self@.named(p + n),
            self@.end() <= usize::MAX,
    {
        p < self.lexemes.len() && n < self.lexemes.len() - p && self.lexemes[p + n].token.is_identifier()
    }

    pub(crate) fn token(&self, p: usize) -> (r: Option<Token>)
        ensures
            r == self@.token(p as int),
            self@.end() <= usize::MAX,
    {
        if p < self.lexemes.len() {
            Some(self.lexemes[p].token)
        } else {
            None
        }
    }

    pub(crate) fn span(&self, p: usize) -> (r: Span)
        ensures
            r == self@.span(p as int),
            self@.end() <= usize::MAX,
    {
        if p < self.lexemes.len() {
            self.lexemes[p].span
        } else {
            Span { offset: self.source.as_str().as_bytes().len(), len: 0 }
        }
    }

    /// Where the token at a place stands, or `otherwise` past the last one.
    pub(crate) fn span_or(&self, p: usize, otherwise: Span) -> (r: Span)
        ensures
            r == self@.span_or(p as int, otherwise),
    {
        if p < self.lexemes.len() {
            self.lexemes[p].span
        } else {
            otherwise
        }
    }

    /// The text between two byte positions.
    pub(crate) fn text_between(&self, start: usize, end: usize) -> (r: String)
        ensures
            r@ == self@.text_between(start as int, end as int),
    {
        let source = self.source.as_str();
        if start <= end && end <= source.as_bytes().len() && source.is_char_boundary(end) {
            let (head, _) = source.split_at(end);
            if head.is_char_boundary(start) {
                let (_, text) = head.split_at(start);
                proof {
                    vstd::utf8::encode_utf8_decode_utf8(text@);
                    assert(head.spec_bytes() =~= self@.bytes.subrange(0, end as int));
                    assert(
                        text.spec_bytes() =~= self@.bytes.subrange(0, end as int).subrange(start as int, end as int)
                    );
                }
                return text.to_owned();
            }
            assert(head.spec_bytes() =~= self@.bytes.subrange(0, end as int));
        }
        let text = String::new();
        assert(text@ =~= Seq::empty());
        text
    }

    pub(crate) fn text(&self, p: usize) -> (r: String)
        ensures
            r@ == self@.text(p as int),
    {
        self.slice_text(self.span(p))
    }

    /// How many bytes the source has.
    pub(crate) fn source_len(&self) -> (r: usize)
        ensures
            r == self@.bytes.len(),
    {
        self.source.as_str().as_bytes().len()
    }

    /// The text of a span.
    pub(crate) fn slice_text(&self, span: Span) -> (r: String)
        ensures
            r@ == self@.text_between(span.offset as int, span.offset + span.len),
    {
        let n = self.source_len();
        if span.len <= n && span.offset <= n - span.len {
            self.text_between(span.offset, span.offset + span.len)
        } else {
            let text = String::new();
            assert(text@ =~= Seq::empty());
            text
        }
    }

    /// The text of a string literal without its quotes.
    pub(crate) fn quoted_text(&self, p: usize) -> (r: String)
        ensures
            r@ == self@.quoted_text(p as int),
    {
        let span = self.span(p);
        let n = self.source_len();
        if 2 <= span.len && span.len - 1 <= n && span.offset <= n - (span.len - 1) {
            self.text_between(span.offset + 1, span.offset + (span.len - 1))
        } else {
            let text = String::new();
            assert(text@ =~= Seq::empty());
            text
        }
    }

    /// The digits of the number at a place, without separators.
    pub(crate) fn digits(&self, p: usize) -> (r: Vec<u8>)
        ensures
            r@ == self@.digits(p as int),
    {
        let span = self.span(p);
        let bytes = self.source.as_str().as_bytes();
        if span.len <= bytes.len() && span.offset <= bytes.len() - span.len {
            strip_separators(bytes, span.offset, span.offset + span.len)
        } else {
            let digits: Vec<u8> = Vec::new();
            assert(digits@ =~= without_separators(Seq::empty()));
            digits
        }
    }

    /// The number at a place, where it is an integer of at most `max`.
    pub(crate) fn number_upto(&self, p: usize, max: u128) -> (r: Option<u128>)
        requires
            max <= i128::MAX,
        ensures
            match r {
                Some(v) => number_upto(self@, p as int, max as int) == Some(v as int) && v <= max,
                None => number_upto(self@, p as int, max as int) is None,
            },
    {
        let digits = self.digits(p);
        assert(digits@.subrange(0, digits@.len() as int) =~= digits@);
        parse_bounded(&digits, 0, digits.len(), max)
    }

    pub(crate) fn float(&self, p: usize) -> (r: Option<u64>)
        ensures
            r == self@.float(p as int),
    {
        if p < self.floats.len() {
            self.floats[p]
        } else {
            None
        }
    }

    /// The error for what stands at a place where `expected` should.
    pub(crate) fn refuse(&self, p: usize, expected: &str) -> (r: ParseError)
        ensures
            Parse::Refused(r.to_term()) == refuse(self@, p as int, expected@),
    {
        let span = self.span(p);
        match self.token(p) {
            None => ParseError::eof(expected.to_owned(), span),
            Some(token) => match token {
                Token::Unknown => ParseError::unknown(span),
                _ => ParseError::unexpected(expected.to_owned(), token.to_str().to_owned(), span),
            },
        }
    }

    /// The error for what stands at a place where `token` should.
    pub(crate) fn refuse_token(&self, p: usize, token: Token) -> (r: ParseError)
        ensures
            Parse::Refused(r.to_term()) == refuse(self@, p as int, quoted(token)),
    {
        let mut expected = joined("`", token.to_str());
        expected.append("`");
        self.refuse(p, expected.as_str())
    }

    /// A token that has to stand at a place, and where it does.
    pub(crate) fn expect(&self, p: usize, token: Token) -> (r: Result<(Span, usize), ParseError>)
        ensures
            result(r) == expect(self@, p as int, token),
            moved(r, p as int, self@.end()),
    {
        if self.is(p, token) {
            Ok((self.span(p), p + 1))
        } else {
            Err(self.refuse_token(p, token))
        }
    }

    /// The identifier at a place that has one.
    pub(crate) fn ident(&self, p: usize) -> (r: Ident)
        ensures
            r.term(Spans::Kept) == ident(self@, p as int),
            r.name.text@ == self@.text(p as int),
            r.span == self@.span(p as int),
    {
        Ident { name: NameAtom { text: self.text(p) }, span: self.span(p) }
    }

    /// Where the last segment of the path at a place stands.
    pub(crate) fn path_last(&self, p: usize) -> (r: usize)
        requires
            p < self@.end(),
        ensures
            r == path_last(self@, p as int),
            p <= r < self@.end(),
            (r - p) % 2 == 0,
    {
        let mut last: usize = p;
        while self.is_after(last, 1, Token::Dot) && self.named_after(last, 2)
            invariant
                p <= last < self@.end(),
                (last - p) % 2 == 0,
                path_last(self@, p as int) == path_last(self@, last as int),
            decreases self@.end() - last,
        {
            last = last + 2;
        }
        last
    }

    /// The segments of the path between two places.
    pub(crate) fn path_idents(&self, p: usize, last: usize) -> (r: NonEmpty<Ident>)
        requires
            p <= last < self@.end(),
        ensures
            r.term(Spans::Kept) == Term::List(path_idents(self@, p as int, last as int)),
    {
        let mut rest: Vec<Ident> = Vec::new();
        let mut q: usize = p;
        let ghost all = path_idents(self@, p as int, last as int);
        while last - q >= 2
            invariant
                p <= q <= last < self@.end(),
                q == p + 2 * rest@.len(),
                all == path_idents(self@, p as int, last as int),
                forall|i: int| 0 <= i < rest@.len() ==> (#[trigger] rest@[i]).term(Spans::Kept) == all[i + 1],
            decreases last - q,
        {
            q = q + 2;
            rest.push(self.ident(q));
        }
        let r = NonEmpty::new(self.ident(p), rest);
        proof {
            lemma_non_empty_term(r, Spans::Kept);
            assert(seq_terms(r@, Spans::Kept) =~= all);
        }
        r
    }

    /// The names of the path between two places.
    pub(crate) fn path_names(&self, p: usize, last: usize) -> (r: NamePath)
        requires
            p <= last < self@.end(),
        ensures
            r.term(Spans::Kept) == Term::List(path_names(self@, p as int, last as int)),
    {
        let mut rest: Vec<NameAtom> = Vec::new();
        let mut q: usize = p;
        let ghost all = path_names(self@, p as int, last as int);
        while last - q >= 2
            invariant
                p <= q <= last < self@.end(),
                q == p + 2 * rest@.len(),
                all == path_names(self@, p as int, last as int),
                forall|i: int| 0 <= i < rest@.len() ==> (#[trigger] rest@[i]).term(Spans::Kept) == all[i + 1],
            decreases last - q,
        {
            q = q + 2;
            rest.push(NameAtom { text: self.text(q) });
        }
        let segments = NonEmpty::new(NameAtom { text: self.text(p) }, rest);
        proof {
            lemma_non_empty_term(segments, Spans::Kept);
            assert(seq_terms(segments@, Spans::Kept) =~= all);
        }
        NamePath { segments }
    }

    pub(crate) fn path_span(&self, p: usize, last: usize) -> (r: Span)
        ensures
            r == path_span(self@, p as int, last as int),
    {
        self.span(p).merge(self.span(last))
    }

    /// The path between two places as a qualified name.
    pub(crate) fn name_path(&self, p: usize, last: usize) -> (r: Spanned<NamePath>)
        requires
            p <= last < self@.end(),
        ensures
            r.term(Spans::Kept) == name_path(self@, p as int, last as int),
            r.value.term(Spans::Kept) == Term::List(path_names(self@, p as int, last as int)),
            r.span == path_span(self@, p as int, last as int),
    {
        Spanned { value: self.path_names(p, last), span: self.path_span(p, last) }
    }

    pub(crate) fn parse_ident_path(&self, p: usize) -> (r: Result<(IdentPath, usize), ParseError>)
        ensures
            result(r) == ident_path(self@, p as int),
            moved(r, p as int, self@.end()),
    {
        if self.named(p) {
            let last = self.path_last(p);
            Ok((IdentPath { segments: self.path_idents(p, last) }, last + 1))
        } else {
            Err(self.refuse(p, "identifier"))
        }
    }

    pub(crate) fn parse_named_path(&self, p: usize) -> (r: Result<(Spanned<NamePath>, usize), ParseError>)
        ensures
            result(r) == named_path(self@, p as int),
            moved(r, p as int, self@.end()),
    {
        if self.named(p) {
            let last = self.path_last(p);
            Ok((self.name_path(p, last), last + 1))
        } else {
            Err(self.refuse(p, "identifier"))
        }
    }

    fn parse_signed_integer(&self, p: usize) -> (r: Result<(i64, usize), ParseError>)
        ensures
            result(r) == signed_integer(self@, p as int),
            moved(r, p as int, self@.end()),
            r is Ok ==> r->Ok_0.0 != i64::MIN,
    {
        let negative = self.is(p, Token::Minus);
        let q: usize = if negative {
            p + 1
        } else {
            p
        };
        if !self.is(q, Token::Number) {
            return Err(self.refuse_token(q, Token::Number));
        }
        match self.number_upto(q, i64::MAX as u128) {
            Some(v) => {
                let value: i64 = v as i64;
                if negative {
                    Ok((-value, q + 1))
                } else {
                    Ok((value, q + 1))
                }
            },
            None => Err(
                ParseError::invalid_number("exponent must be an integer literal".to_owned(), self.span(q)),
            ),
        }
    }

    /// The exponent of a unit or a dimension.
    fn parse_exponent(&self, p: usize) -> (r: Result<(ExactRational, usize), ParseError>)
        ensures
            result(r) == exponent(self@, p as int),
            moved(r, p as int, self@.end()),
    {
        if !self.is(p, Token::LParen) {
            return match self.parse_signed_integer(p) {
                Ok((n, q)) => Ok((ExactRational::from_integer(n), q)),
                Err(e) => Err(e),
            };
        }
        let (n, q) = match self.parse_signed_integer(p + 1) {
            Ok(x) => x,
            Err(e) => return Err(e),
        };
        if !self.is(q, Token::Slash) {
            return match self.expect(q, Token::RParen) {
                Ok((_, s)) => Ok((ExactRational::from_integer(n), s)),
                Err(e) => Err(e),
            };
        }
        let (m, r) = match self.parse_signed_integer(q + 1) {
            Ok(x) => x,
            Err(e) => return Err(e),
        };
        match ExactRational::try_new(n, m) {
            Ok(value) => match self.expect(r, Token::RParen) {
                Ok((_, s)) => Ok((value, s)),
                Err(e) => Err(e),
            },
            Err(error) => Err(
                ParseError::invalid_number(rational_error_text(error).to_owned(), self.span(p)),
            ),
        }
    }

    fn parse_optional_exponent(&self, p: usize) -> (r: Result<(Option<ExactRational>, usize), ParseError>)
        requires
            p <= self@.end(),
        ensures
            result(r) == optional_exponent(self@, p as int),
            r is Ok ==> p <= r->Ok_0.1 <= self@.end(),
    {
        if !self.is(p, Token::Caret) {
            return Ok((None, p));
        }
        match self.parse_exponent(p + 1) {
            Ok((value, q)) => Ok((Some(value), q)),
            Err(e) => Err(e),
        }
    }

    fn parse_unit_item(&self, op: MulDivOp, p: usize) -> (r: Result<(UnitExprItem, usize), ParseError>)
        ensures
            result(r) == unit_item(self@, op, p as int),
            moved(r, p as int, self@.end()),
    {
        if !self.named(p) {
            return Err(self.refuse(p, "unit name"));
        }
        let qualified = self.is_after(p, 1, Token::Dot) && self.named_after(p, 2);
        if qualified && self.is_after(p, 3, Token::Dot) && self.named_after(p, 4) {
            return Err(ParseError::unit_too_deep(self.span(p).merge(self.span(p + 4))));
        }
        let (name, q) = if qualified {
            let value = UnitRef {
                qualifier: Some(NameAtom { text: self.text(p) }),
                name: UnitName { atom: NameAtom { text: self.text(p + 2) } },
            };
            (Spanned { value, span: self.span(p).merge(self.span(p + 2)) }, p + 3)
        } else {
            let value = UnitRef { qualifier: None, name: UnitName { atom: NameAtom { text: self.text(p) } } };
            (Spanned { value, span: self.span(p) }, p + 1)
        };
        match self.parse_optional_exponent(q) {
            Ok((power, r)) => Ok((UnitExprItem { op, name, power }, r)),
            Err(e) => Err(e),
        }
    }

    fn joining_op(&self, p: usize) -> (r: Option<MulDivOp>)
        ensures
            r == joining_op(self@, p as int),
            self@.end() <= usize::MAX,
    {
        if self.is(p, Token::Star) && self.named_after(p, 1) {
            Some(MulDivOp::Mul)
        } else if self.is(p, Token::Slash) && self.named_after(p, 1) {
            Some(MulDivOp::Div)
        } else {
            None
        }
    }

    fn parse_unit_items(&self, op: MulDivOp, p: usize) -> (r: Result<(Vec<UnitExprItem>, usize), ParseError>)
        ensures
            result(r) == unit_items(self@, op, p as int),
            moved(r, p as int, self@.end()),
    {
        let (first, mut q) = match self.parse_unit_item(op, p) {
            Ok(x) => x,
            Err(e) => return Err(e),
        };
        let mut items: Vec<UnitExprItem> = Vec::new();
        items.push(first);
        assert(seq_terms(items@, Spans::Kept) =~= seq![first.term(Spans::Kept)]);
        loop
            invariant
                p < q <= self@.end(),
                unit_items(self@, op, p as int) == unit_items_rest(
                    self@,
                    q as int,
                    seq_terms(items@, Spans::Kept),
                ),
            decreases self@.end() - q,
        {
            match self.joining_op(q) {
                None => {
                    return Ok((items, q));
                },
                Some(next_op) => match self.parse_unit_item(next_op, q + 1) {
                    Ok((item, r)) => {
                        let ghost before = seq_terms(items@, Spans::Kept);
                        items.push(item);
                        assert(seq_terms(items@, Spans::Kept) =~= before.push(item.term(Spans::Kept)));
                        q = r;
                    },
                    Err(e) => {
                        return Err(e);
                    },
                },
            }
        }
    }

    /// Whether a reciprocal unit begins at a place.
    fn reciprocal_at(&self, p: usize) -> (r: bool)
        ensures
            r == reciprocal_at(self@, p as int),
    {
        if !self.is(p, Token::Number) || !self.is_after(p, 1, Token::Slash) {
            return false;
        }
        let span = self.span(p);
        let bytes = self.source.as_str().as_bytes();
        let ghost text = self@.slice(span);
        if span.len == 1 && span.offset < bytes.len() && bytes[span.offset] == 49 {
            assert(text =~= seq![49u8]);
            true
        } else {
            proof {
                if text == seq![49u8] {
                    assert(text.len() == 1);
                    assert(text[0] == 49u8);
                }
            }
            false
        }
    }

    pub(crate) fn parse_unit_expr(&self, p: usize) -> (r: Result<(UnitExpr, usize), ParseError>)
        ensures
            result(r) == unit_expr(self@, p as int),
            moved(r, p as int, self@.end()),
    {
        if self.is(p, Token::LParen) {
            let (terms, q) = match self.parse_unit_items(MulDivOp::Mul, p + 1) {
                Ok(x) => x,
                Err(e) => return Err(e),
            };
            return match self.expect(q, Token::RParen) {
                Ok((end, r)) => Ok((UnitExpr { terms, span: self.span(p).merge(end) }, r)),
                Err(e) => Err(e),
            };
        }
        let reciprocal = self.reciprocal_at(p);
        let (op, start) = if reciprocal {
            (MulDivOp::Div, p + 2)
        } else {
            (MulDivOp::Mul, p)
        };
        match self.parse_unit_items(op, start) {
            Ok((terms, q)) => Ok((UnitExpr { terms, span: self.span(p).merge(self.span(q - 1)) }, q)),
            Err(e) => Err(e),
        }
    }

    fn parse_dim_item(&self, op: MulDivOp, p: usize) -> (r: Result<(DimExprItem, usize), ParseError>)
        ensures
            result(r) == dim_item(self@, op, p as int),
            moved(r, p as int, self@.end()),
    {
        let (name, q) = match self.parse_ident_path(p) {
            Ok(x) => x,
            Err(e) => return Err(e),
        };
        match self.parse_optional_exponent(q) {
            Ok((power, r)) => {
                let span = self.span(p).merge(self.span(r - 1));
                Ok((DimExprItem { op, term: DimTerm { name, power, span } }, r))
            },
            Err(e) => Err(e),
        }
    }

    pub(crate) fn parse_dim_expr(&self, p: usize) -> (r: Result<(DimExpr, usize), ParseError>)
        ensures
            result(r) == dim_expr(self@, p as int),
            moved(r, p as int, self@.end()),
    {
        let (first, mut q) = match self.parse_dim_item(MulDivOp::Mul, p) {
            Ok(x) => x,
            Err(e) => return Err(e),
        };
        let ghost q0 = q as int;
        let ghost first_term = first.term(Spans::Kept);
        let mut terms: Vec<DimExprItem> = Vec::new();
        terms.push(first);
        assert(seq_terms(terms@, Spans::Kept) =~= seq![first_term]);
        loop
            invariant
                p < q <= self@.end(),
                dim_item(self@, MulDivOp::Mul, p as int) == Parse::Read(first_term, q0),
                dim_items_rest(self@, q0, seq![first_term]) == dim_items_rest(
                    self@,
                    q as int,
                    seq_terms(terms@, Spans::Kept),
                ),
            decreases self@.end() - q,
        {
            match self.joining_op(q) {
                None => {
                    return Ok((DimExpr { terms, span: self.span(p).merge(self.span(q - 1)) }, q));
                },
                Some(op) => match self.parse_dim_item(op, q + 1) {
                    Ok((item, r)) => {
                        let ghost before = seq_terms(terms@, Spans::Kept);
                        terms.push(item);
                        assert(seq_terms(terms@, Spans::Kept) =~= before.push(item.term(Spans::Kept)));
                        q = r;
                    },
                    Err(e) => {
                        return Err(e);
                    },
                },
            }
        }
    }

    fn parse_nat_factor(&self, p: usize) -> (r: Result<(NatExpr, usize), ParseError>)
        ensures
            result(r) == nat_factor(self@, p as int),
            moved(r, p as int, self@.end()),
    {
        if self.is(p, Token::Number) {
            match self.number_upto(p, u64::MAX as u128) {
                Some(v) => Ok((NatExpr::Literal(v as u64, self.span(p)), p + 1)),
                None => Err(
                    ParseError::invalid_number("expected a natural number".to_owned(), self.span(p)),
                ),
            }
        } else if self.named(p) {
            Ok((NatExpr::Var(self.ident(p)), p + 1))
        } else {
            Err(self.refuse(p, "natural number"))
        }
    }

    fn parse_nat_product(&self, p: usize) -> (r: Result<(NatExpr, usize), ParseError>)
        ensures
            result(r) == nat_product(self@, p as int),
            moved(r, p as int, self@.end()),
    {
        let (first, mut q) = match self.parse_nat_factor(p) {
            Ok(x) => x,
            Err(e) => return Err(e),
        };
        let ghost q0 = q as int;
        let ghost first_term = first.term(Spans::Kept);
        let mut factors: Vec<NatExpr> = Vec::new();
        factors.push(first);
        assert(NatExpr::terms(factors, Spans::Kept) =~= seq![first_term]);
        while self.is(q, Token::Star)
            invariant
                p < q <= self@.end(),
                factors@.len() > 0,
                nat_factor(self@, p as int) == Parse::Read(first_term, q0),
                nat_factors(self@, q0, seq![first_term]) == nat_factors(
                    self@,
                    q as int,
                    NatExpr::terms(factors, Spans::Kept),
                ),
            decreases self@.end() - q,
        {
            match self.parse_nat_factor(q + 1) {
                Ok((factor, r)) => {
                    let ghost before = NatExpr::terms(factors, Spans::Kept);
                    factors.push(factor);
                    assert(NatExpr::terms(factors, Spans::Kept) =~= before.push(factor.to_term(Spans::Kept)));
                    q = r;
                },
                Err(e) => {
                    return Err(e);
                },
            }
        }
        let span = self.span(p).merge(self.span(q - 1));
        let ghost all = NatExpr::terms(factors, Spans::Kept);
        if factors.len() == 1 {
            let only = factors.remove(0);
            assert(all[0] == only.to_term(Spans::Kept));
            return Ok((only, q));
        }
        Ok((NatExpr::Mul(factors, span), q))
    }

    pub(crate) fn parse_nat_expr(&self, p: usize) -> (r: Result<(NatExpr, usize), ParseError>)
        ensures
            result(r) == nat_expr(self@, p as int),
            moved(r, p as int, self@.end()),
    {
        let (first, mut q) = match self.parse_nat_product(p) {
            Ok(x) => x,
            Err(e) => return Err(e),
        };
        let ghost q0 = q as int;
        let ghost first_term = first.term(Spans::Kept);
        let mut summands: Vec<NatExpr> = Vec::new();
        summands.push(first);
        assert(NatExpr::terms(summands, Spans::Kept) =~= seq![first_term]);
        while self.is(q, Token::Plus)
            invariant
                p < q <= self@.end(),
                summands@.len() > 0,
                nat_product(self@, p as int) == Parse::Read(first_term, q0),
                nat_summands(self@, q0, seq![first_term]) == nat_summands(
                    self@,
                    q as int,
                    NatExpr::terms(summands, Spans::Kept),
                ),
            decreases self@.end() - q,
        {
            match self.parse_nat_product(q + 1) {
                Ok((summand, r)) => {
                    let ghost before = NatExpr::terms(summands, Spans::Kept);
                    summands.push(summand);
                    assert(NatExpr::terms(summands, Spans::Kept) =~= before.push(summand.to_term(Spans::Kept)));
                    q = r;
                },
                Err(e) => {
                    return Err(e);
                },
            }
        }
        let span = self.span(p).merge(self.span(q - 1));
        let ghost all = NatExpr::terms(summands, Spans::Kept);
        if summands.len() == 1 {
            let only = summands.remove(0);
            assert(all[0] == only.to_term(Spans::Kept));
            return Ok((only, q));
        }
        Ok((NatExpr::Add(summands, span), q))
    }

    pub(crate) fn fin_at(&self, p: usize) -> (r: bool)
        ensures
            r == fin_at(self@, p as int),
            self@.end() <= usize::MAX,
    {
        self.is(p, Token::ContextualKeyword(ContextualKeyword::Fin)) && self.is_after(p, 1, Token::LParen)
    }

    /// The size of `Fin(n)` and where the whole stands.
    pub(crate) fn parse_finite(&self, Ghost(tag): Ghost<Tag>, p: usize) -> (r: Result<
        (NatExpr, Span, usize),
        ParseError,
    >)
        requires
            fin_at(self@, p as int),
            self@.end() <= usize::MAX,
        ensures
            match r {
                Ok((n, span, q)) => finite(self@, tag, p as int) == Parse::Read(
                    node2(tag, n.term(Spans::Kept), Term::At(span)),
                    q as int,
                ) && p < q <= self@.end(),
                Err(e) => finite(self@, tag, p as int) == Parse::Refused(e.to_term()),
            },
    {
        let (n, q) = match self.parse_nat_expr(p + 2) {
            Ok(x) => x,
            Err(e) => return Err(e),
        };
        match self.expect(q, Token::RParen) {
            Ok((end, r)) => Ok((n, self.span(p).merge(end), r)),
            Err(e) => Err(e),
        }
    }

    pub(crate) fn parse_index_expr(&self, p: usize) -> (r: Result<(IndexExpr, usize), ParseError>)
        ensures
            result(r) == index_expr(self@, p as int),
            moved(r, p as int, self@.end()),
    {
        if self.fin_at(p) {
            match self.parse_finite(Ghost(Tag::IndexExprFinite), p) {
                Ok((cardinality, span, q)) => Ok((IndexExpr::Finite { cardinality, span }, q)),
                Err(e) => Err(e),
            }
        } else if self.is(p, Token::Number) {
            match self.parse_nat_expr(p) {
                Ok((n, q)) => Ok((IndexExpr::BareNat(n), q)),
                Err(e) => Err(e),
            }
        } else {
            match self.parse_named_path(p) {
                Ok((path, q)) => Ok((IndexExpr::Name(path), q)),
                Err(e) => Err(e),
            }
        }
    }

    /// Index expressions after the first.
    pub(crate) fn parse_index_exprs_rest(&self, first: IndexExpr, p: usize) -> (r: Result<
        (NonEmpty<IndexExpr>, usize),
        ParseError,
    >)
        requires
            p <= self@.end(),
        ensures
            result(r) == index_exprs_rest(self@, p as int, seq![first.term(Spans::Kept)]),
            r is Ok ==> p <= r->Ok_0.1 <= self@.end(),
    {
        let mut rest: Vec<IndexExpr> = Vec::new();
        let mut q: usize = p;
        let ghost head = first.term(Spans::Kept);
        assert(prepend(head, seq_terms(rest@, Spans::Kept)) =~= seq![head]);
        while self.is(q, Token::Comma) && !self.is_after(q, 1, Token::RBracket)
            invariant
                p <= q <= self@.end(),
                head == first.term(Spans::Kept),
                index_exprs_rest(self@, p as int, seq![head]) == index_exprs_rest(
                    self@,
                    q as int,
                    prepend(head, seq_terms(rest@, Spans::Kept)),
                ),
            decreases self@.end() - q,
        {
            match self.parse_index_expr(q + 1) {
                Ok((item, r)) => {
                    let ghost before = prepend(head, seq_terms(rest@, Spans::Kept));
                    rest.push(item);
                    assert(prepend(head, seq_terms(rest@, Spans::Kept)) =~= before.push(item.term(Spans::Kept)));
                    q = r;
                },
                Err(e) => {
                    return Err(e);
                },
            }
        }
        if self.is(q, Token::Comma) {
            q = q + 1;
        }
        Ok((NonEmpty::new(first, rest), q))
    }

    /// `Index.Variant`, possibly qualified.
    pub(crate) fn parse_index_variant_path(&self, p: usize) -> (r: Result<(VariantPath, usize), ParseError>)
        ensures
            result(r) == variant_path(self@, p as int),
            moved(r, p as int, self@.end()),
            r is Ok ==> {
                let q = r->Ok_0.1;
                &&& p + 3 <= q
                &&& r->Ok_0.0.index.term(Spans::Kept) == name_path(self@, p as int, q - 3)
                &&& r->Ok_0.0.index.value.term(Spans::Kept) == Term::List(path_names(self@, p as int, q - 3))
                &&& r->Ok_0.0.index.span == path_span(self@, p as int, q - 3)
                &&& r->Ok_0.0.variant.value.atom.text@ == self@.text(q - 1)
                &&& r->Ok_0.0.variant.span == self@.span(q - 1)
            },
    {
        if !self.named(p) {
            return Err(self.refuse(p, "identifier"));
        }
        if !self.is_after(p, 1, Token::Dot) {
            return Err(self.refuse_token(p + 1, Token::Dot));
        }
        if !self.named_after(p, 2) {
            return Err(self.refuse(p + 2, "identifier"));
        }
        let mut last: usize = p + 2;
        while self.is_after(last, 1, Token::Dot)
            invariant
                p + 2 <= last < self@.end(),
                self@.named(p as int),
                self@.is(p + 1, Token::Dot),
                self@.named(p + 2),
                variant_last(self@, p + 2) == variant_last(self@, last as int),
            decreases self@.end() - last,
        {
            if !self.named_after(last, 2) {
                return Err(self.refuse(last + 2, "identifier"));
            }
            last = last + 2;
        }
        let index = self.name_path(p, last - 2);
        let name = self.ident(last);
        let variant = Spanned { value: IndexVariantName { atom: name.name }, span: name.span };
        let span = self.span(p).merge(self.span(last));
        Ok((VariantPath { index, variant, span }, last + 1))
    }

    /// The name at a place as the name of a field.
    pub(crate) fn field_name(&self, p: usize) -> (r: Spanned<FieldName>)
        ensures
            r.term(Spans::Kept) == spanned_name(self@, p as int),
    {
        Spanned { value: FieldName { atom: NameAtom { text: self.text(p) } }, span: self.span(p) }
    }

    /// The name at a place as the name of a local.
    pub(crate) fn local_name(&self, p: usize) -> (r: Spanned<LocalName>)
        ensures
            r.term(Spans::Kept) == spanned_name(self@, p as int),
    {
        Spanned { value: LocalName { atom: NameAtom { text: self.text(p) } }, span: self.span(p) }
    }

    /// Whether a line ends between two spans.
    fn has_line_break_between(&self, left: Span, right: Span) -> (r: bool)
        ensures
            r == line_break_between(self@, left, right),
    {
        let bytes = self.source.as_str().as_bytes();
        if left.len > bytes.len() || left.offset > bytes.len() - left.len {
            return false;
        }
        let start: usize = left.offset + left.len;
        let end: usize = right.offset;
        if start > end || end > bytes.len() {
            return false;
        }
        for i in start..end
            invariant
                start == left.offset + left.len,
                end == right.offset,
                start <= end <= bytes@.len(),
                bytes@ == self@.bytes,
                forall|j: int| start <= j < i ==> !is_line_end(#[trigger] self@.bytes[j]),
        {
            if bytes[i] == 10 || bytes[i] == 13 {
                assert(is_line_end(self@.bytes[i as int]));
                return true;
            }
        }
        false
    }

    /// Whether a unit begins at a place, on the line where `literal` ends.
    pub(crate) fn same_line_unit_expr_start(&self, literal: Span, p: usize) -> (r: bool)
        ensures
            r == unit_follows(self@, literal, p as int),
    {
        (self.named(p) || self.is(p, Token::LParen) || self.reciprocal_at(p)) && !self.has_line_break_between(
            literal,
            self.span(p),
        )
    }

    fn parse_for_binding(&self, p: usize) -> (r: Result<(ForBinding, usize), ParseError>)
        ensures
            result(r) == for_binding(self@, p as int),
            moved(r, p as int, self@.end()),
    {
        if !self.named(p) {
            return Err(self.refuse(p, "identifier"));
        }
        if !self.is_after(p, 1, Token::Colon) {
            return Err(self.refuse_token(p + 1, Token::Colon));
        }
        let var = self.local_name(p);
        if self.fin_at(p + 2) {
            match self.parse_finite(Ghost(Tag::ForBindingIndexFinite), p + 2) {
                Ok((cardinality, span, q)) => Ok(
                    (ForBinding { var, index: ForBindingIndex::Finite { cardinality, span } }, q),
                ),
                Err(e) => Err(e),
            }
        } else {
            match self.parse_named_path(p + 2) {
                Ok((path, q)) => Ok((ForBinding { var, index: ForBindingIndex::Named(path) }, q)),
                Err(e) => Err(e),
            }
        }
    }

    pub(crate) fn parse_for_bindings(&self, p: usize) -> (r: Result<(Vec<ForBinding>, usize), ParseError>)
        ensures
            result(r) == for_bindings(self@, p as int, Seq::empty()),
            moved(r, p as int, self@.end()),
    {
        let mut items: Vec<ForBinding> = Vec::new();
        let mut q: usize = p;
        assert(seq_terms(items@, Spans::Kept) =~= Seq::empty());
        loop
            invariant
                p <= q,
                q == p || q <= self@.end(),
                for_bindings(self@, p as int, Seq::empty()) == for_bindings(
                    self@,
                    q as int,
                    seq_terms(items@, Spans::Kept),
                ),
            decreases self@.end() - q,
        {
            match self.parse_for_binding(q) {
                Ok((item, r)) => {
                    let ghost before = seq_terms(items@, Spans::Kept);
                    items.push(item);
                    assert(seq_terms(items@, Spans::Kept) =~= before.push(item.term(Spans::Kept)));
                    if self.is(r, Token::Comma) {
                        q = r + 1;
                    } else {
                        return Ok((items, r));
                    }
                },
                Err(e) => {
                    return Err(e);
                },
            }
        }
    }

    pub(crate) fn parse_pattern_bindings(&self, p: usize) -> (r: Result<(Vec<PatternBinding>, usize), ParseError>)
        requires
            p <= self@.end(),
        ensures
            result(r) == pattern_bindings(self@, p as int, Seq::empty()),
            r is Ok ==> p <= r->Ok_0.1 <= self@.end(),
    {
        let mut items: Vec<PatternBinding> = Vec::new();
        let mut q: usize = p;
        assert(seq_terms(items@, Spans::Kept) =~= Seq::empty());
        loop
            invariant
                p <= q <= self@.end(),
                pattern_bindings(self@, p as int, Seq::empty()) == pattern_bindings(
                    self@,
                    q as int,
                    seq_terms(items@, Spans::Kept),
                ),
            decreases self@.end() - q,
        {
            if self.is(q, Token::RParen) {
                return Ok((items, q));
            }
            if !self.named(q) {
                return Err(self.refuse(q, "identifier"));
            }
            if !self.is_after(q, 1, Token::Colon) {
                return Err(self.refuse_token(q + 1, Token::Colon));
            }
            let field = self.field_name(q);
            let item = if self.named_after(q, 2) {
                PatternBinding::Bind { field, var: self.ident(q + 2) }
            } else if self.is_after(q, 2, Token::Underscore) {
                PatternBinding::Wildcard { field, span: self.span(q + 2) }
            } else {
                return Err(self.refuse(q + 2, "identifier"));
            };
            let ghost before = seq_terms(items@, Spans::Kept);
            items.push(item);
            assert(seq_terms(items@, Spans::Kept) =~= before.push(item.term(Spans::Kept)));
            if self.is_after(q, 3, Token::Comma) {
                q = q + 4;
            } else {
                return Ok((items, q + 3));
            }
        }
    }
}

/// Why an exponent has no exact value.
pub(crate) fn rational_error_text(error: ExactRationalError) -> (r: &'static str)
    ensures
        r@ == rational_error(error),
{
    match error {
        ExactRationalError::ZeroDenominator => "power exponent denominator must be non-zero",
        ExactRationalError::Overflow => "exact power exponent overflows `i64`",
    }
}

} // verus!
