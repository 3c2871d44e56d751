//! The grammar of expressions and types.
//!
//! A phrase is described by a function from the place where it begins to the
//! tree that is read there and the place behind it, or to the error that the
//! text is refused with. Operators bind, from loosest to tightest: `->`,
//! `if`/`else`, `||`, `&&`, comparisons (which do not chain), `+ -`, `* / %`,
//! prefix `- !`, `^` (which groups to the right), then `.field` and `[index]`.

use crate::exact_rational::{negated, quotient, ExactRational, ExactRationalError};
use crate::syntax::ast::{BinOp, MulDivOp, PowerExponent, UnaryOp};
use crate::syntax::exact_decimal::exact_decimal;
use crate::syntax::lexer::{comment_at, is_line_end, is_word, is_word_start, run_end, trivia_end};
use crate::syntax::parser::error::{invalid_number, unexpected};
use crate::syntax::span::{merged, Span};
use crate::syntax::term::{node1, node2, node3, pair, present, Symbol, Tag, Term};
use crate::syntax::text::{all_digits, bounded_number, digits_text, without_separators};
use crate::syntax::token::{ContextualKeyword, Lexeme, Token};
use vstd::prelude::*;
use vstd::utf8::{decode_utf8, is_char_boundary};

verus! {

/// How deep expressions may be nested.
pub const NESTING_LIMIT: usize = 256;

/// What is being parsed: the bytes of the source, its tokens, and for each
/// token that is a decimal literal the bits of its value where that is finite.
pub struct Input {
    pub bytes: Seq<u8>,
    pub lexemes: Seq<Lexeme>,
    pub floats: Seq<Option<u64>>,
}

/// What comes of reading a phrase: its tree and the place behind it, or the
/// error.
pub enum Parse {
    Read(Term, int),
    Refused(Term),
}

impl Input {
    /// How many tokens there are.
    pub open spec fn end(self) -> int {
        self.lexemes.len() as int
    }

    /// The token at a place, if there is one.
    pub open spec fn token(self, p: int) -> Option<Token> {
        if 0 <= p < self.end() {
            Some(self.lexemes[p].token)
        } else {
            None
        }
    }

    /// Whether the token at a place is `token`.
    pub open spec fn is(self, p: int, token: Token) -> bool {
        self.token(p) == Some(token)
    }

    /// Whether the token at a place can be used as a name.
    pub open spec fn named(self, p: int) -> bool {
        0 <= p < self.end() && self.lexemes[p].token.names()
    }

    /// Where the token at a place stands; past the last token, where the source
    /// ends.
    pub open spec fn span(self, p: int) -> Span {
        if 0 <= p < self.end() {
            self.lexemes[p].span
        } else {
            Span { offset: self.bytes.len() as usize, len: 0 }
        }
    }

    /// The bytes of a span.
    pub open spec fn slice(self, span: Span) -> Seq<u8> {
        if span.offset + span.len <= self.bytes.len() {
            self.bytes.subrange(span.offset as int, span.offset + span.len)
        } else {
            Seq::empty()
        }
    }

    /// The text of some bytes; empty where they do not begin and end between
    /// characters.
    pub open spec fn text_between(self, start: int, end: int) -> Seq<char> {
        if 0 <= start <= end <= self.bytes.len() && is_char_boundary(self.bytes, end) && is_char_boundary(
            self.bytes.subrange(0, end),
            start,
        ) {
            decode_utf8(self.bytes.subrange(0, end).subrange(start, end))
        } else {
            Seq::empty()
        }
    }

    /// The text of the token at a place.
    pub open spec fn text(self, p: int) -> Seq<char> {
        self.text_between(self.span(p).offset as int, self.span(p).offset + self.span(p).len)
    }

    /// The text of a string literal without its quotes.
    pub open spec fn quoted_text(self, p: int) -> Seq<char> {
        self.text_between(self.span(p).offset + 1, self.span(p).offset + self.span(p).len - 1)
    }

    /// The digits of the number at a place, without separators.
    pub open spec fn digits(self, p: int) -> Seq<u8> {
        without_separators(self.slice(self.span(p)))
    }

    /// The value of the decimal literal at a place, where it is finite.
    pub open spec fn float(self, p: int) -> Option<u64> {
        if 0 <= p < self.floats.len() {
            self.floats[p]
        } else {
            None
        }
    }
}

// Errors and single tokens.

/// The refusal of what stands at a place where `expected` should.
pub open spec fn refuse(g: Input, p: int, expected: Seq<char>) -> Parse {
    match g.token(p) {
        None => Parse::Refused(node2(Tag::UnexpectedEof, Term::Text(expected), Term::At(g.span(p)))),
        Some(Token::Unknown) => Parse::Refused(node1(Tag::UnknownToken, Term::At(g.span(p)))),
        Some(token) => Parse::Refused(unexpected(expected, token.label(), g.span(p))),
    }
}

/// The token in the form in which messages ask for it.
pub open spec fn quoted(token: Token) -> Seq<char> {
    "`"@ + token.label() + "`"@
}

/// A token that has to stand at a place.
pub open spec fn expect(g: Input, p: int, token: Token) -> Parse {
    if g.is(p, token) {
        Parse::Read(Term::At(g.span(p)), p + 1)
    } else {
        refuse(g, p, quoted(token))
    }
}

pub open spec fn ident(g: Input, p: int) -> Term {
    node2(Tag::Ident, Term::Text(g.text(p)), Term::At(g.span(p)))
}

/// A name on its own.
pub open spec fn spanned_name(g: Input, p: int) -> Term {
    pair(Term::Text(g.text(p)), Term::At(g.span(p)))
}

/// Where the last segment of the path at a place stands.
pub open spec fn path_last(g: Input, p: int) -> int
    decreases g.end() - p,
{
    if g.is(p + 1, Token::Dot) && g.named(p + 2) {
        path_last(g, p + 2)
    } else {
        p
    }
}

/// The segments of the path between two places.
pub open spec fn path_idents(g: Input, p: int, last: int) -> Seq<Term> {
    Seq::new(((last - p) / 2 + 1) as nat, |i: int| ident(g, p + 2 * i))
}

pub open spec fn path_names(g: Input, p: int, last: int) -> Seq<Term> {
    Seq::new(((last - p) / 2 + 1) as nat, |i: int| Term::Text(g.text(p + 2 * i)))
}

pub open spec fn path_term(g: Input, p: int, last: int) -> Term {
    node1(Tag::IdentPath, Term::List(path_idents(g, p, last)))
}

pub open spec fn path_span(g: Input, p: int, last: int) -> Span {
    merged(g.span(p), g.span(last))
}

/// The path between two places as a qualified name.
pub open spec fn name_path(g: Input, p: int, last: int) -> Term {
    pair(Term::List(path_names(g, p, last)), Term::At(path_span(g, p, last)))
}

pub open spec fn ident_path(g: Input, p: int) -> Parse {
    if g.named(p) {
        Parse::Read(path_term(g, p, path_last(g, p)), path_last(g, p) + 1)
    } else {
        refuse(g, p, "identifier"@)
    }
}

/// The same path read as a qualified name.
pub open spec fn named_path(g: Input, p: int) -> Parse {
    if g.named(p) {
        Parse::Read(name_path(g, p, path_last(g, p)), path_last(g, p) + 1)
    } else {
        refuse(g, p, "identifier"@)
    }
}

/// The number at a place, where it is an integer of at most `max`.
pub open spec fn number_upto(g: Input, p: int, max: int) -> Option<int> {
    bounded_number(g.digits(p), max)
}

// Powers, units, dimensions and natural numbers.

/// A signed integer.
pub open spec fn signed_integer(g: Input, p: int) -> Parse {
    let q = if g.is(p, Token::Minus) { p + 1 } else { p };
    if !g.is(q, Token::Number) {
        refuse(g, q, quoted(Token::Number))
    } else {
        match number_upto(g, q, i64::MAX as int) {
            Some(v) => Parse::Read(Term::Int(if g.is(p, Token::Minus) { -v } else { v }), q + 1),
            None => Parse::Refused(invalid_number("exponent must be an integer literal"@, g.span(q))),
        }
    }
}

pub open spec fn rational_term(r: ExactRational) -> Term {
    pair(Term::Int(r.numerator as int), Term::Int(r.denominator as int))
}

pub open spec fn rational_error(error: ExactRationalError) -> Seq<char> {
    match error {
        ExactRationalError::ZeroDenominator => "power exponent denominator must be non-zero"@,
        ExactRationalError::Overflow => "exact power exponent overflows `i64`"@,
    }
}

/// The exponent of a unit or a dimension: an integer, or a quotient in
/// parentheses.
pub open spec fn exponent(g: Input, p: int) -> Parse {
    if g.is(p, Token::LParen) {
        match signed_integer(g, p + 1) {
            Parse::Read(Term::Int(n), q) => {
                if g.is(q, Token::Slash) {
                    match signed_integer(g, q + 1) {
                        Parse::Read(Term::Int(m), r) => match quotient(n, m) {
                            Ok(value) => match expect(g, r, Token::RParen) {
                                Parse::Read(_, s) => Parse::Read(rational_term(value), s),
                                Parse::Refused(e) => Parse::Refused(e),
                            },
                            Err(error) => Parse::Refused(invalid_number(rational_error(error), g.span(p))),
                        },
                        other => other,
                    }
                } else {
                    match expect(g, q, Token::RParen) {
                        Parse::Read(_, s) => Parse::Read(pair(Term::Int(n), Term::Int(1)), s),
                        Parse::Refused(e) => Parse::Refused(e),
                    }
                }
            },
            other => other,
        }
    } else {
        match signed_integer(g, p) {
            Parse::Read(Term::Int(n), q) => Parse::Read(pair(Term::Int(n), Term::Int(1)), q),
            other => other,
        }
    }
}

/// An exponent, where `^` announces one.
pub open spec fn optional_exponent(g: Input, p: int) -> Parse {
    if g.is(p, Token::Caret) {
        match exponent(g, p + 1) {
            Parse::Read(value, q) => Parse::Read(present(value), q),
            Parse::Refused(e) => Parse::Refused(e),
        }
    } else {
        Parse::Read(Term::Absent, p)
    }
}

pub open spec fn op_term(op: MulDivOp) -> Term {
    Term::Symbol(Symbol::MulDivOp(op))
}

/// One unit with its power: `m`, `alias.m`, `s^2`.
pub open spec fn unit_item(g: Input, op: MulDivOp, p: int) -> Parse {
    if !g.named(p) {
        refuse(g, p, "unit name"@)
    } else {
        let qualified = g.is(p + 1, Token::Dot) && g.named(p + 2);
        if qualified && g.is(p + 3, Token::Dot) && g.named(p + 4) {
            Parse::Refused(node1(Tag::UnitReferenceTooDeep, Term::At(merged(g.span(p), g.span(p + 4)))))
        } else {
            let name = if qualified {
                pair(
                    node2(Tag::UnitRef, present(Term::Text(g.text(p))), Term::Text(g.text(p + 2))),
                    Term::At(merged(g.span(p), g.span(p + 2))),
                )
            } else {
                pair(node2(Tag::UnitRef, Term::Absent, Term::Text(g.text(p))), Term::At(g.span(p)))
            };
            match optional_exponent(g, if qualified { p + 3 } else { p + 1 }) {
                Parse::Read(power, q) => Parse::Read(node3(Tag::UnitExprItem, op_term(op), name, power), q),
                Parse::Refused(e) => Parse::Refused(e),
            }
        }
    }
}

/// The operator at a place that joins two units or dimensions, if a name
/// follows it.
pub open spec fn joining_op(g: Input, p: int) -> Option<MulDivOp> {
    if g.is(p, Token::Star) && g.named(p + 1) {
        Some(MulDivOp::Mul)
    } else if g.is(p, Token::Slash) && g.named(p + 1) {
        Some(MulDivOp::Div)
    } else {
        None
    }
}

pub open spec fn unit_items_rest(g: Input, p: int, items: Seq<Term>) -> Parse
    decreases g.end() - p,
{
    match joining_op(g, p) {
        Some(op) => match unit_item(g, op, p + 1) {
            Parse::Read(item, q) => if p < q <= g.end() {
                unit_items_rest(g, q, items.push(item))
            } else {
                stuck()
            },
            Parse::Refused(e) => Parse::Refused(e),
        },
        None => Parse::Read(Term::List(items), p),
    }
}

pub open spec fn unit_items(g: Input, op: MulDivOp, p: int) -> Parse {
    match unit_item(g, op, p) {
        Parse::Read(item, q) => unit_items_rest(g, q, seq![item]),
        Parse::Refused(e) => Parse::Refused(e),
    }
}

/// Whether a reciprocal unit begins at a place: the literal `1` before `/`.
pub open spec fn reciprocal_at(g: Input, p: int) -> bool {
    g.is(p, Token::Number) && g.slice(g.span(p)) == seq![49u8] && g.is(p + 1, Token::Slash)
}

/// A unit expression: `m/s^2`, `(m/s)` or `1/s`.
pub open spec fn unit_expr(g: Input, p: int) -> Parse {
    if g.is(p, Token::LParen) {
        match unit_items(g, MulDivOp::Mul, p + 1) {
            Parse::Read(items, q) => match expect(g, q, Token::RParen) {
                Parse::Read(_, r) => Parse::Read(
                    node2(Tag::UnitExpr, items, Term::At(merged(g.span(p), g.span(q)))),
                    r,
                ),
                Parse::Refused(e) => Parse::Refused(e),
            },
            Parse::Refused(e) => Parse::Refused(e),
        }
    } else {
        let reciprocal = reciprocal_at(g, p);
        match unit_items(
            g,
            if reciprocal { MulDivOp::Div } else { MulDivOp::Mul },
            if reciprocal { p + 2 } else { p },
        ) {
            Parse::Read(items, q) => Parse::Read(
                node2(Tag::UnitExpr, items, Term::At(merged(g.span(p), g.span(q - 1)))),
                q,
            ),
            Parse::Refused(e) => Parse::Refused(e),
        }
    }
}

/// One dimension with its power.
pub open spec fn dim_item(g: Input, op: MulDivOp, p: int) -> Parse {
    match ident_path(g, p) {
        Parse::Read(name, q) => match optional_exponent(g, q) {
            Parse::Read(power, r) => Parse::Read(
                node2(
                    Tag::DimExprItem,
                    op_term(op),
                    node3(Tag::DimTerm, name, power, Term::At(merged(g.span(p), g.span(r - 1)))),
                ),
                r,
            ),
            Parse::Refused(e) => Parse::Refused(e),
        },
        Parse::Refused(e) => Parse::Refused(e),
    }
}

pub open spec fn dim_items_rest(g: Input, p: int, items: Seq<Term>) -> Parse
    decreases g.end() - p,
{
    match joining_op(g, p) {
        Some(op) => match dim_item(g, op, p + 1) {
            Parse::Read(item, q) => if p < q <= g.end() {
                dim_items_rest(g, q, items.push(item))
            } else {
                stuck()
            },
            Parse::Refused(e) => Parse::Refused(e),
        },
        None => Parse::Read(Term::List(items), p),
    }
}

pub open spec fn dim_expr(g: Input, p: int) -> Parse {
    match dim_item(g, MulDivOp::Mul, p) {
        Parse::Read(item, q) => match dim_items_rest(g, q, seq![item]) {
            Parse::Read(items, r) => Parse::Read(
                node2(Tag::DimExpr, items, Term::At(merged(g.span(p), g.span(r - 1)))),
                r,
            ),
            Parse::Refused(e) => Parse::Refused(e),
        },
        Parse::Refused(e) => Parse::Refused(e),
    }
}

pub open spec fn nat_factor(g: Input, p: int) -> Parse {
    if g.is(p, Token::Number) {
        match number_upto(g, p, u64::MAX as int) {
            Some(v) => Parse::Read(node2(Tag::NatExprLiteral, Term::Int(v), Term::At(g.span(p))), p + 1),
            None => Parse::Refused(invalid_number("expected a natural number"@, g.span(p))),
        }
    } else if g.named(p) {
        Parse::Read(node1(Tag::NatExprVar, ident(g, p)), p + 1)
    } else {
        refuse(g, p, "natural number"@)
    }
}

pub open spec fn nat_factors(g: Input, p: int, factors: Seq<Term>) -> Parse
    decreases g.end() - p,
{
    if g.is(p, Token::Star) {
        match nat_factor(g, p + 1) {
            Parse::Read(factor, q) => if p < q <= g.end() {
                nat_factors(g, q, factors.push(factor))
            } else {
                stuck()
            },
            Parse::Refused(e) => Parse::Refused(e),
        }
    } else {
        Parse::Read(Term::List(factors), p)
    }
}

/// One operand stands for itself, several for an operation over them.
pub open spec fn nat_operation(g: Input, tag: Tag, operands: Term, p: int, q: int) -> Term {
    match operands {
        Term::List(items) => if items.len() == 1 {
            items[0]
        } else {
            node2(tag, operands, Term::At(merged(g.span(p), g.span(q - 1))))
        },
        _ => operands,
    }
}

pub open spec fn nat_product(g: Input, p: int) -> Parse {
    match nat_factor(g, p) {
        Parse::Read(first, q) => match nat_factors(g, q, seq![first]) {
            Parse::Read(factors, r) => Parse::Read(nat_operation(g, Tag::NatExprMul, factors, p, r), r),
            Parse::Refused(e) => Parse::Refused(e),
        },
        Parse::Refused(e) => Parse::Refused(e),
    }
}

pub open spec fn nat_summands(g: Input, p: int, summands: Seq<Term>) -> Parse
    decreases g.end() - p,
{
    if g.is(p, Token::Plus) {
        match nat_product(g, p + 1) {
            Parse::Read(summand, q) => if p < q <= g.end() {
                nat_summands(g, q, summands.push(summand))
            } else {
                stuck()
            },
            Parse::Refused(e) => Parse::Refused(e),
        }
    } else {
        Parse::Read(Term::List(summands), p)
    }
}

/// A natural-number expression: sums of products of literals and names.
pub open spec fn nat_expr(g: Input, p: int) -> Parse {
    match nat_product(g, p) {
        Parse::Read(first, q) => match nat_summands(g, q, seq![first]) {
            Parse::Read(summands, r) => Parse::Read(nat_operation(g, Tag::NatExprAdd, summands, p, r), r),
            Parse::Refused(e) => Parse::Refused(e),
        },
        Parse::Refused(e) => Parse::Refused(e),
    }
}

/// Whether `Fin(` stands at a place.
pub open spec fn fin_at(g: Input, p: int) -> bool {
    g.is(p, Token::ContextualKeyword(ContextualKeyword::Fin)) && g.is(p + 1, Token::LParen)
}

/// `Fin(n)`, as the given node.
pub open spec fn finite(g: Input, tag: Tag, p: int) -> Parse {
    match nat_expr(g, p + 2) {
        Parse::Read(n, q) => match expect(g, q, Token::RParen) {
            Parse::Read(_, r) => Parse::Read(node2(tag, n, Term::At(merged(g.span(p), g.span(q)))), r),
            Parse::Refused(e) => Parse::Refused(e),
        },
        Parse::Refused(e) => Parse::Refused(e),
    }
}

pub open spec fn index_expr(g: Input, p: int) -> Parse {
    if fin_at(g, p) {
        finite(g, Tag::IndexExprFinite, p)
    } else if g.is(p, Token::Number) {
        match nat_expr(g, p) {
            Parse::Read(n, q) => Parse::Read(node1(Tag::IndexExprBareNat, n), q),
            Parse::Refused(e) => Parse::Refused(e),
        }
    } else {
        match named_path(g, p) {
            Parse::Read(path, q) => Parse::Read(node1(Tag::IndexExprName, path), q),
            Parse::Refused(e) => Parse::Refused(e),
        }
    }
}

/// Index expressions up to `]`, after the first.
pub open spec fn index_exprs_rest(g: Input, p: int, items: Seq<Term>) -> Parse
    decreases g.end() - p,
{
    if g.is(p, Token::Comma) && !g.is(p + 1, Token::RBracket) {
        match index_expr(g, p + 1) {
            Parse::Read(item, q) => if p < q <= g.end() {
                index_exprs_rest(g, q, items.push(item))
            } else {
                stuck()
            },
            Parse::Refused(e) => Parse::Refused(e),
        }
    } else if g.is(p, Token::Comma) {
        Parse::Read(Term::List(items), p + 1)
    } else {
        Parse::Read(Term::List(items), p)
    }
}

/// What a phrase that takes no token would give. No phrase is of this kind.
pub open spec fn stuck() -> Parse {
    Parse::Refused(Term::Absent)
}

// Paths of index variants.

/// Where the variant stands in the path whose segment is at `q`, or the error
/// of a dot that no name follows.
pub open spec fn variant_last(g: Input, q: int) -> Parse
    decreases g.end() - q,
{
    if g.is(q + 1, Token::Dot) {
        if g.named(q + 2) {
            variant_last(g, q + 2)
        } else {
            refuse(g, q + 2, "identifier"@)
        }
    } else {
        Parse::Read(Term::Absent, q)
    }
}

/// `Index.Variant`, possibly qualified: the last segment is the variant.
pub open spec fn variant_path(g: Input, p: int) -> Parse {
    if !g.named(p) {
        refuse(g, p, "identifier"@)
    } else if !g.is(p + 1, Token::Dot) {
        refuse(g, p + 1, quoted(Token::Dot))
    } else if !g.named(p + 2) {
        refuse(g, p + 2, "identifier"@)
    } else {
        match variant_last(g, p + 2) {
            Parse::Read(_, last) => Parse::Read(
                node3(
                    Tag::VariantPath,
                    name_path(g, p, last - 2),
                    spanned_name(g, last),
                    Term::At(merged(g.span(p), g.span(last))),
                ),
                last + 1,
            ),
            Parse::Refused(e) => Parse::Refused(e),
        }
    }
}

// Looking ahead in the bytes.

/// Whether `expected` follows the `>` that closes the brackets open at `q`.
/// Bytes that no generic argument holds end the search.
pub open spec fn closed_before(g: Input, q: int, depth: int, expected: u8) -> bool
    decreases g.bytes.len() - q,
{
    if q < 0 || q >= g.bytes.len() {
        false
    } else {
        let b = g.bytes[q];
        if b == 60 {
            closed_before(g, q + 1, depth + 1, expected)
        } else if b == 62 && depth == 1 {
            let r = trivia_end(g.bytes, q + 1);
            r < g.bytes.len() && g.bytes[r] == expected
        } else if b == 62 {
            closed_before(g, q + 1, depth - 1, expected)
        } else if comment_at(g.bytes, q) {
            let line = run_end(g.bytes, q, |x: u8| !is_line_end(x));
            if q < line <= g.bytes.len() {
                closed_before(g, line, depth, expected)
            } else {
                false
            }
        } else if b == 38 || b == 124 || b == 59 || b == 61 || b == 123 || b == 125 || b == 34 || b == 64 || b == 33 {
            false
        } else {
            closed_before(g, q + 1, depth, expected)
        }
    }
}

/// Whether the `<` at a place opens generic arguments that `expected` follows.
pub open spec fn generic_args_followed_by(g: Input, p: int, expected: u8) -> bool {
    g.is(p, Token::Lt) && closed_before(g, g.span(p).offset + g.span(p).len, 1, expected)
}

/// Whether names between commas, then `)` and `=>`, stand from byte `q` on.
pub open spec fn tuple_key_from(g: Input, q: int) -> bool
    decreases g.bytes.len() - q,
{
    let start = trivia_end(g.bytes, q);
    if start < q || start < 0 || start >= g.bytes.len() {
        false
    } else if g.bytes[start] == 41 {
        let r = trivia_end(g.bytes, start + 1);
        r + 1 < g.bytes.len() && g.bytes[r] == 61 && g.bytes[r + 1] == 62
    } else if !is_word_start(g.bytes[start]) {
        false
    } else {
        let end = run_end(g.bytes, start, |b: u8| is_word(b));
        let next = trivia_end(g.bytes, end);
        if next >= g.bytes.len() || next <= q {
            false
        } else if g.bytes[next] == 44 {
            tuple_key_from(g, next + 1)
        } else if g.bytes[next] != 41 {
            false
        } else {
            tuple_key_from(g, next)
        }
    }
}

/// Whether `(` at a place opens a tuple of names that `=>` follows.
pub open spec fn tuple_key_at(g: Input, p: int) -> bool {
    g.is(p, Token::LParen) && tuple_key_from(g, g.span(p).offset + g.span(p).len)
}

/// Whether `(` at a place opens named arguments: a name and a single `:`.
pub open spec fn named_args_at(g: Input, p: int) -> bool {
    let start = trivia_end(g.bytes, g.span(p).offset + g.span(p).len);
    let end = run_end(g.bytes, start, |b: u8| is_word(b));
    let next = trivia_end(g.bytes, end);
    &&& g.is(p, Token::LParen)
    &&& start < g.bytes.len()
    &&& is_word_start(g.bytes[start])
    &&& next < g.bytes.len()
    &&& g.bytes[next] == 58
    &&& !(next + 1 < g.bytes.len() && g.bytes[next + 1] == 58)
}

/// Whether a line ends between two spans.
pub open spec fn line_break_between(g: Input, left: Span, right: Span) -> bool {
    let start = left.offset + left.len;
    let end = right.offset as int;
    start <= end <= g.bytes.len() && exists|i: int| start <= i < end && is_line_end(#[trigger] g.bytes[i])
}

/// Whether a unit begins at a place, on the line where `literal` ends.
pub open spec fn unit_follows(g: Input, literal: Span, p: int) -> bool {
    (g.named(p) || g.is(p, Token::LParen) || reciprocal_at(g, p)) && !line_break_between(g, literal, g.span(p))
}

// Trees of expressions.

pub open spec fn expr(kind: Term, span: Span) -> Term {
    node2(Tag::Expr, kind, Term::At(span))
}

/// The kind of an expression.
pub open spec fn kind_of(e: Term) -> Term {
    match e {
        Term::Node(_, parts) => match *parts {
            Term::Pair(kind, _) => *kind,
            _ => Term::Absent,
        },
        _ => Term::Absent,
    }
}

/// The span that ends a node.
pub open spec fn span_of(e: Term) -> Span {
    match e {
        Term::Node(_, parts) => match *parts {
            Term::Pair(_, span) => match *span {
                Term::At(span) => span,
                _ => Span { offset: 0, len: 0 },
            },
            _ => Span { offset: 0, len: 0 },
        },
        _ => Span { offset: 0, len: 0 },
    }
}

pub open spec fn binary(op: BinOp, lhs: Term, rhs: Term) -> Term {
    expr(
        node3(Tag::ExprBinOp, Term::Symbol(Symbol::BinOp(op)), lhs, rhs),
        merged(span_of(lhs), span_of(rhs)),
    )
}

/// The value of an integer literal, with a sign or without.
pub open spec fn integer_literal(e: Term) -> Option<int> {
    match kind_of(e) {
        Term::Node(Tag::ExprInteger, v) => match *v {
            Term::Int(v) => Some(v),
            _ => None,
        },
        Term::Node(Tag::ExprUnaryOp, parts) => match *parts {
            Term::Pair(op, operand) => if *op == Term::Symbol(Symbol::UnaryOp(UnaryOp::Neg)) {
                match kind_of(*operand) {
                    Term::Node(Tag::ExprInteger, v) => match *v {
                        Term::Int(v) => if v == i64::MIN { None } else { Some(-v) },
                        _ => None,
                    },
                    _ => None,
                }
            } else {
                None
            },
            _ => None,
        },
        _ => None,
    }
}

/// The sign and the place of a decimal literal.
pub open spec fn float_literal(e: Term) -> Option<(bool, Span)> {
    match kind_of(e) {
        Term::Node(Tag::ExprNumber, _) => Some((false, span_of(e))),
        Term::Node(Tag::ExprUnaryOp, parts) => match *parts {
            Term::Pair(op, operand) => if *op == Term::Symbol(Symbol::UnaryOp(UnaryOp::Neg)) {
                match kind_of(*operand) {
                    Term::Node(Tag::ExprNumber, _) => Some((true, span_of(*operand))),
                    _ => None,
                }
            } else {
                None
            },
            _ => None,
        },
        _ => None,
    }
}

/// The two operands of a quotient of integer literals.
pub open spec fn integer_quotient(e: Term) -> Option<(int, int)> {
    match kind_of(e) {
        Term::Node(Tag::ExprBinOp, parts) => match *parts {
            Term::Pair(op, operands) => if *op == Term::Symbol(Symbol::BinOp(BinOp::Div)) {
                match *operands {
                    Term::Pair(lhs, rhs) => match (integer_literal(*lhs), integer_literal(*rhs)) {
                        (Some(n), Some(m)) => Some((n, m)),
                        _ => None,
                    },
                    _ => None,
                }
            } else {
                None
            },
            _ => None,
        },
        _ => None,
    }
}

/// How an exponent was written, or why it is refused.
pub open spec fn power_exponent(g: Input, e: Term) -> Result<PowerExponent, Term> {
    match integer_literal(e) {
        Some(v) => Ok(PowerExponent::Exact(ExactRational { numerator: v as i64, denominator: 1 })),
        None => match integer_quotient(e) {
            Some((n, m)) => match quotient(n, m) {
                Ok(value) => Ok(PowerExponent::Exact(value)),
                Err(error) => Err(invalid_number(rational_error(error), span_of(e))),
            },
            None => match float_literal(e) {
                Some((negative, span)) => Ok(
                    PowerExponent::FloatSyntax {
                        exact: match exact_decimal(g.slice(span)) {
                            Some(value) => if negative {
                                match negated(value) {
                                    Ok(value) => Some(value),
                                    Err(_) => None,
                                }
                            } else {
                                Some(value)
                            },
                            None => None,
                        },
                    },
                ),
                None => Ok(PowerExponent::Runtime),
            },
        },
    }
}

pub open spec fn comparison_op(token: Option<Token>) -> Option<BinOp> {
    match token {
        Some(Token::EqEq) => Some(BinOp::Eq),
        Some(Token::BangEq) => Some(BinOp::Ne),
        Some(Token::Lt) => Some(BinOp::Lt),
        Some(Token::Gt) => Some(BinOp::Gt),
        Some(Token::LtEq) => Some(BinOp::Le),
        Some(Token::GtEq) => Some(BinOp::Ge),
        _ => None,
    }
}

pub open spec fn additive_op(token: Option<Token>) -> Option<BinOp> {
    match token {
        Some(Token::Plus) => Some(BinOp::Add),
        Some(Token::Minus) => Some(BinOp::Sub),
        _ => None,
    }
}

pub open spec fn multiplicative_op(token: Option<Token>) -> Option<BinOp> {
    match token {
        Some(Token::Star) => Some(BinOp::Mul),
        Some(Token::Slash) => Some(BinOp::Div),
        Some(Token::Percent) => Some(BinOp::Mod),
        _ => None,
    }
}

/// Whether the bytes of a number hold neither a point nor an exponent.
pub open spec fn integer_text(text: Seq<u8>) -> bool {
    forall|i: int| 0 <= i < text.len() ==> #[trigger] text[i] != 46 && text[i] != 101 && text[i] != 69
}

/// Why an integer literal is refused.
pub open spec fn integer_error(text: Seq<u8>) -> Seq<char> {
    if text.len() == 0 {
        "cannot parse integer from empty string"@
    } else if all_digits(text) {
        "number too large to fit in target type"@
    } else {
        "invalid digit found in string"@
    }
}

/// A number: an integer, which takes no unit, or a decimal with or without one.
pub open spec fn number_expr(g: Input, p: int) -> Parse {
    let span = g.span(p);
    if integer_text(g.digits(p)) {
        if unit_follows(g, span, p + 1) {
            Parse::Refused(
                invalid_number(
                    "integer literal cannot have units; write `"@ + digits_text(g.digits(p)) + ".0` instead"@,
                    span,
                ),
            )
        } else {
            match number_upto(g, p, i64::MAX as int) {
                Some(v) => Parse::Read(expr(node1(Tag::ExprInteger, Term::Int(v)), span), p + 1),
                None => Parse::Refused(invalid_number(integer_error(g.digits(p)), span)),
            }
        }
    } else {
        match g.float(p) {
            None => Parse::Refused(invalid_number("number literal is not finite"@, span)),
            Some(bits) => if unit_follows(g, span, p + 1) {
                match unit_expr(g, p + 1) {
                    Parse::Read(unit, q) => Parse::Read(
                        expr(
                            node2(Tag::ExprQuantityLiteral, Term::Int(bits as int), unit),
                            merged(span, span_of(unit)),
                        ),
                        q,
                    ),
                    Parse::Refused(e) => Parse::Refused(e),
                }
            } else {
                Parse::Read(expr(node1(Tag::ExprNumber, Term::Int(bits as int)), span), p + 1)
            },
        }
    }
}

} // verus!
