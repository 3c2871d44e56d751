//! The expression parser.

use crate::exact_rational::ExactRational;
use crate::syntax::ast::{
    BinOp, Expr, ExprKind, FieldInit, FloatBits, GenericArg, IdentPath, IndexArg, KeyFormKind, ModulePath,
    ParamBinding, PowerExponent, ScopedName, UnaryOp, UnresolvedRef,
};
use crate::syntax::exact_decimal::exact_decimal_literal;
use crate::syntax::names::{DeclName, NameAtom};
use crate::syntax::non_empty::NonEmpty;
use crate::syntax::parser::nodes::{self, lemma_expr};
use crate::syntax::parser::error::ParseError;
use crate::syntax::parser::expr_grammar::{
    args, at_expr, at_last, atom, bare_name, call, comparison, conditional, dag_output, dag_path, conjunction,
    conjunction_rest, conversion, disjunction, disjunction_rest, expression, field_inits, generic_args,
    identifier_expr, index_arg, index_args, index_args_rest, inline_dag_call, param_bindings, postfix, postfix_rest,
    power, prefix_op, product, product_rest, projections, sum, sum_rest, too_deep, unary, unary_inner,
};
use crate::syntax::parser::grammar::{
    additive_op, binary, comparison_op, finite, float_literal, integer_error, integer_literal, integer_quotient,
    integer_text, multiplicative_op, number_expr, path_idents, path_last, path_span, power_exponent, refuse,
    spanned_name, Parse, NESTING_LIMIT,
};
use crate::syntax::parser::state::{moved, outcome, rational_error_text, result, Parser};
use crate::syntax::span::{Span, Spanned};
use crate::syntax::term::{prepend, seq_terms, Reading, Spans, Syntax, Term};
use crate::syntax::text::{digits_string, joined};
use crate::syntax::token::{ContextualKeyword, Token};
use vstd::prelude::*;
use vstd::string::StringExecFns;

verus! {

/// The term of some expressions.
pub open spec fn exprs_term(v: Vec<Expr>) -> Term {
    Term::List(Expr::terms(v, Reading::Exact))
}

fn binary_expr(op: BinOp, lhs: Expr, rhs: Expr) -> (r: Expr)
    ensures
        r.to_term(Reading::Exact) == binary(op, lhs.to_term(Reading::Exact), rhs.to_term(Reading::Exact)),
{
    proof {
        lemma_expr(lhs);
        lemma_expr(rhs);
    }
    let span = lhs.span.merge(rhs.span);
    nodes::binary_op(op, lhs, rhs, span)
}

/// The comparison that a token stands for.
fn token_to_comparison_op(token: Option<Token>) -> (r: Option<BinOp>)
    ensures
        r == comparison_op(token),
        r is Some ==> token is Some,
{
    match token {
        Some(Token::EqEq) => Some(BinOp::Eq),
        Some(Token::BangEq) => Some(BinOp::Ne),
        Some(Token::Lt) => Some(BinOp::Lt),
        Some(Token::Gt) => Some(BinOp::Gt),
        Some(Token::LtEq) => Some(BinOp::Le),
        Some(Token::GtEq) => Some(BinOp::Ge),
        _ => None,
    }
}

fn token_to_additive_op(token: Option<Token>) -> (r: Option<BinOp>)
    ensures
        r == additive_op(token),
        r is Some ==> token is Some,
{
    match token {
        Some(Token::Plus) => Some(BinOp::Add),
        Some(Token::Minus) => Some(BinOp::Sub),
        _ => None,
    }
}

fn token_to_multiplicative_op(token: Option<Token>) -> (r: Option<BinOp>)
    ensures
        r == multiplicative_op(token),
        r is Some ==> token is Some,
{
    match token {
        Some(Token::Star) => Some(BinOp::Mul),
        Some(Token::Slash) => Some(BinOp::Div),
        Some(Token::Percent) => Some(BinOp::Mod),
        _ => None,
    }
}

fn token_to_prefix_op(token: Option<Token>) -> (r: Option<UnaryOp>)
    ensures
        r == prefix_op(token),
        r is Some ==> token is Some,
{
    match token {
        Some(Token::Minus) => Some(UnaryOp::Neg),
        Some(Token::Bang) => Some(UnaryOp::Not),
        _ => None,
    }
}

/// The value of an integer literal, with a sign or without.
fn signed_integer_expr(e: &Expr) -> (r: Option<i64>)
    ensures
        match r {
            Some(v) => integer_literal(e.to_term(Reading::Exact)) == Some(v as int),
            None => integer_literal(e.to_term(Reading::Exact)) is None,
        },
{
    proof {
        reveal(ExprKind::to_term);
        lemma_expr(*e);
    }
    match &e.kind {
        ExprKind::Integer(value) => Some(*value),
        ExprKind::UnaryOp { op: UnaryOp::Neg, operand } => {
            proof {
                lemma_expr(**operand);
            }
            match &operand.kind {
                ExprKind::Integer(value) => if *value == i64::MIN {
                    None
                } else {
                    Some(-*value)
                },
                _ => None,
            }
        },
        _ => None,
    }
}

/// The sign and the place of a decimal literal.
fn signed_float_literal_span(e: &Expr) -> (r: Option<(bool, Span)>)
    ensures
        r == float_literal(e.to_term(Reading::Exact)),
{
    proof {
        reveal(ExprKind::to_term);
        lemma_expr(*e);
    }
    match &e.kind {
        ExprKind::Number(_) => Some((false, e.span)),
        ExprKind::UnaryOp { op: UnaryOp::Neg, operand } => {
            proof {
                lemma_expr(**operand);
            }
            match &operand.kind {
                ExprKind::Number(_) => Some((true, operand.span)),
                _ => None,
            }
        },
        _ => None,
    }
}

/// The operands of a quotient of integer literals.
fn integer_quotient_expr(e: &Expr) -> (r: Option<(i64, i64)>)
    ensures
        match r {
            Some((n, m)) => integer_quotient(e.to_term(Reading::Exact)) == Some((n as int, m as int)),
            None => integer_quotient(e.to_term(Reading::Exact)) is None,
        },
{
    proof {
        reveal(ExprKind::to_term);
        lemma_expr(*e);
    }
    match &e.kind {
        ExprKind::BinOp { op: BinOp::Div, lhs, rhs } => match (signed_integer_expr(lhs), signed_integer_expr(rhs)) {
            (Some(n), Some(m)) => Some((n, m)),
            _ => None,
        },
        _ => None,
    }
}

impl Parser {
    fn too_deep(&self, p: usize) -> (r: ParseError)
        ensures
            Parse::Refused(r.to_term()) == too_deep(self@, p as int),
    {
        ParseError::too_deep(self.span(p))
    }

    /// How an exponent was written.
    fn classify_power_exponent(&self, exponent: &Expr) -> (r: Result<PowerExponent, ParseError>)
        ensures
            match r {
                Ok(written) => power_exponent(self@, exponent.to_term(Reading::Exact)) == Ok::<PowerExponent, Term>(
                    written,
                ),
                Err(e) => power_exponent(self@, exponent.to_term(Reading::Exact)) == Err::<PowerExponent, Term>(
                    e.to_term(),
                ),
            },
    {
        proof {
            lemma_expr(*exponent);
        }
        match signed_integer_expr(exponent) {
            Some(value) => {
                return Ok(PowerExponent::Exact(ExactRational::from_integer(value)));
            },
            None => {},
        }
        match integer_quotient_expr(exponent) {
            Some((n, m)) => {
                return match ExactRational::try_new(n, m) {
                    Ok(value) => Ok(PowerExponent::Exact(value)),
                    Err(error) => Err(
                        ParseError::invalid_number(rational_error_text(error).to_owned(), exponent.span),
                    ),
                };
            },
            None => {},
        }
        match signed_float_literal_span(exponent) {
            Some((negative, span)) => {
                let bytes = self.source.as_str().as_bytes();
                let literal = if span.len <= bytes.len() && span.offset <= bytes.len() - span.len {
                    exact_decimal_literal(bytes, span.offset, span.offset + span.len)
                } else {
                    assert(bytes@.subrange(0, 0) =~= Seq::empty());
                    exact_decimal_literal(bytes, 0, 0)
                };
                let exact = match literal {
                    Some(value) => if negative {
                        match value.checked_neg() {
                            Ok(value) => Some(value),
                            Err(_) => None,
                        }
                    } else {
                        Some(value)
                    },
                    None => None,
                };
                Ok(PowerExponent::FloatSyntax { exact })
            },
            None => Ok(PowerExponent::Runtime),
        }
    }

    pub(crate) fn parse_expr(&self, p: usize, d: usize) -> (r: Result<(Expr, usize), ParseError>)
        requires
            p <= self@.end(),
        ensures
            result(r) == expression(self@, p as int, d as nat),
            moved(r, p as int, self@.end()),
        decreases 64 * (self@.end() - p) + 30,
    {
        if d >= NESTING_LIMIT {
            return Err(self.too_deep(p));
        }
        self.parse_convert(p, d + 1)
    }

    fn parse_convert(&self, p: usize, d: usize) -> (r: Result<(Expr, usize), ParseError>)
        requires
            p <= self@.end(),
        ensures
            result(r) == conversion(self@, p as int, d as nat),
            moved(r, p as int, self@.end()),
        decreases 64 * (self@.end() - p) + 29,
    {
        let (e, q) = match self.parse_conditional(p, d) {
            Ok(x) => x,
            Err(e) => return Err(e),
        };
        if !self.is(q, Token::Arrow) {
            return Ok((e, q));
        }
        proof {
            lemma_expr(e);
        }
        let start = e.span;
        if self.is(q + 1, Token::StringLiteral) {
            let timezone = self.quoted_text(q + 1);
            let span = start.merge(self.span(q + 1));
            return Ok((nodes::display_timezone(e, timezone, span), q + 2));
        }
        match self.parse_unit_expr(q + 1) {
            Ok((target, r)) => {
                let span = start.merge(target.span);
                Ok((nodes::convert(e, target, span), r))
            },
            Err(e) => Err(e),
        }
    }

    fn parse_conditional(&self, p: usize, d: usize) -> (r: Result<(Expr, usize), ParseError>)
        requires
            p <= self@.end(),
        ensures
            result(r) == conditional(self@, p as int, d as nat),
            moved(r, p as int, self@.end()),
        decreases 64 * (self@.end() - p) + 28,
    {
        if !self.is(p, Token::If) {
            return self.parse_or(p, d);
        }
        let (condition, q) = match self.parse_expr(p + 1, d) {
            Ok(x) => x,
            Err(e) => return Err(e),
        };
        if !self.is(q, Token::LBrace) {
            return Err(self.refuse_token(q, Token::LBrace));
        }
        let (then_branch, r) = match self.parse_expr(q + 1, d) {
            Ok(x) => x,
            Err(e) => return Err(e),
        };
        if !self.is(r, Token::RBrace) {
            return Err(self.refuse_token(r, Token::RBrace));
        }
        if !self.is(r + 1, Token::Else) {
            return Err(self.refuse_token(r + 1, Token::Else));
        }
        if !self.is(r + 2, Token::LBrace) {
            return Err(self.refuse_token(r + 2, Token::LBrace));
        }
        let (else_branch, s) = match self.parse_expr(r + 3, d) {
            Ok(x) => x,
            Err(e) => return Err(e),
        };
        if !self.is(s, Token::RBrace) {
            return Err(self.refuse_token(s, Token::RBrace));
        }
        let span = self.span(p).merge(self.span(s));
        Ok(
            (
                nodes::conditional(condition, then_branch, else_branch, span),
                s + 1,
            ),
        )
    }

    fn parse_or(&self, p: usize, d: usize) -> (r: Result<(Expr, usize), ParseError>)
        requires
            p <= self@.end(),
        ensures
            result(r) == disjunction(self@, p as int, d as nat),
            moved(r, p as int, self@.end()),
        decreases 64 * (self@.end() - p) + 27,
    {
        let (mut lhs, mut q) = match self.parse_and(p, d) {
            Ok(x) => x,
            Err(e) => return Err(e),
        };
        while self.is(q, Token::PipePipe)
            invariant
                p < q <= self@.end(),
                disjunction(self@, p as int, d as nat) == disjunction_rest(
                    self@,
                    lhs.to_term(Reading::Exact),
                    q as int,
                    d as nat,
                ),
            decreases self@.end() - q,
        {
            match self.parse_and(q + 1, d) {
                Ok((rhs, r)) => {
                    lhs = binary_expr(BinOp::Or, lhs, rhs);
                    q = r;
                },
                Err(e) => {
                    return Err(e);
                },
            }
        }
        Ok((lhs, q))
    }

    fn parse_and(&self, p: usize, d: usize) -> (r: Result<(Expr, usize), ParseError>)
        requires
            p <= self@.end(),
        ensures
            result(r) == conjunction(self@, p as int, d as nat),
            moved(r, p as int, self@.end()),
        decreases 64 * (self@.end() - p) + 26,
    {
        let (mut lhs, mut q) = match self.parse_comparison(p, d) {
            Ok(x) => x,
            Err(e) => return Err(e),
        };
        while self.is(q, Token::AmpAmp)
            invariant
                p < q <= self@.end(),
                conjunction(self@, p as int, d as nat) == conjunction_rest(
                    self@,
                    lhs.to_term(Reading::Exact),
                    q as int,
                    d as nat,
                ),
            decreases self@.end() - q,
        {
            match self.parse_comparison(q + 1, d) {
                Ok((rhs, r)) => {
                    lhs = binary_expr(BinOp::And, lhs, rhs);
                    q = r;
                },
                Err(e) => {
                    return Err(e);
                },
            }
        }
        Ok((lhs, q))
    }

    fn parse_comparison(&self, p: usize, d: usize) -> (r: Result<(Expr, usize), ParseError>)
        requires
            p <= self@.end(),
        ensures
            result(r) == comparison(self@, p as int, d as nat),
            moved(r, p as int, self@.end()),
        decreases 64 * (self@.end() - p) + 25,
    {
        let (lhs, q) = match self.parse_add(p, d) {
            Ok(x) => x,
            Err(e) => return Err(e),
        };
        match token_to_comparison_op(self.token(q)) {
            None => Ok((lhs, q)),
            Some(op) => match self.parse_add(q + 1, d) {
                Ok((rhs, r)) => Ok((binary_expr(op, lhs, rhs), r)),
                Err(e) => Err(e),
            },
        }
    }

    fn parse_add(&self, p: usize, d: usize) -> (r: Result<(Expr, usize), ParseError>)
        requires
            p <= self@.end(),
        ensures
            result(r) == sum(self@, p as int, d as nat),
            moved(r, p as int, self@.end()),
        decreases 64 * (self@.end() - p) + 24,
    {
        let (mut lhs, mut q) = match self.parse_mul(p, d) {
            Ok(x) => x,
            Err(e) => return Err(e),
        };
        loop
            invariant
                p < q <= self@.end(),
                sum(self@, p as int, d as nat) == sum_rest(self@, lhs.to_term(Reading::Exact), q as int, d as nat),
            decreases self@.end() - q,
        {
            match token_to_additive_op(self.token(q)) {
                None => {
                    return Ok((lhs, q));
                },
                Some(op) => match self.parse_mul(q + 1, d) {
                    Ok((rhs, r)) => {
                        lhs = binary_expr(op, lhs, rhs);
                        q = r;
                    },
                    Err(e) => {
                        return Err(e);
                    },
                },
            }
        }
    }

    fn parse_mul(&self, p: usize, d: usize) -> (r: Result<(Expr, usize), ParseError>)
        requires
            p <= self@.end(),
        ensures
            result(r) == product(self@, p as int, d as nat),
            moved(r, p as int, self@.end()),
        decreases 64 * (self@.end() - p) + 23,
    {
        let (mut lhs, mut q) = match self.parse_unary(p, d) {
            Ok(x) => x,
            Err(e) => return Err(e),
        };
        loop
            invariant
                p < q <= self@.end(),
                product(self@, p as int, d as nat) == product_rest(
                    self@,
                    lhs.to_term(Reading::Exact),
                    q as int,
                    d as nat,
                ),
            decreases self@.end() - q,
        {
            match token_to_multiplicative_op(self.token(q)) {
                None => {
                    return Ok((lhs, q));
                },
                Some(op) => match self.parse_unary(q + 1, d) {
                    Ok((rhs, r)) => {
                        lhs = binary_expr(op, lhs, rhs);
                        q = r;
                    },
                    Err(e) => {
                        return Err(e);
                    },
                },
            }
        }
    }

    fn parse_unary(&self, p: usize, d: usize) -> (r: Result<(Expr, usize), ParseError>)
        requires
            p <= self@.end(),
        ensures
            result(r) == unary(self@, p as int, d as nat),
            moved(r, p as int, self@.end()),
        decreases 64 * (self@.end() - p) + 22,
    {
        if d >= NESTING_LIMIT {
            return Err(self.too_deep(p));
        }
        self.parse_unary_inner(p, d + 1)
    }

    fn parse_unary_inner(&self, p: usize, d: usize) -> (r: Result<(Expr, usize), ParseError>)
        requires
            p <= self@.end(),
        ensures
            result(r) == unary_inner(self@, p as int, d as nat),
            moved(r, p as int, self@.end()),
        decreases 64 * (self@.end() - p) + 21,
    {
        match token_to_prefix_op(self.token(p)) {
            None => self.parse_power(p, d),
            Some(op) => match self.parse_unary(p + 1, d) {
                Ok((operand, q)) => {
                    proof {
                        lemma_expr(operand);
                    }
                    let span = self.span(p).merge(operand.span);
                    Ok((nodes::unary_op(op, operand, span), q))
                },
                Err(e) => Err(e),
            },
        }
    }

    fn parse_power(&self, p: usize, d: usize) -> (r: Result<(Expr, usize), ParseError>)
        requires
            p <= self@.end(),
        ensures
            result(r) == power(self@, p as int, d as nat),
            moved(r, p as int, self@.end()),
        decreases 64 * (self@.end() - p) + 20,
    {
        let (base, q) = match self.parse_postfix(p, d) {
            Ok(x) => x,
            Err(e) => return Err(e),
        };
        if !self.is(q, Token::Caret) {
            return Ok((base, q));
        }
        let (exponent, r) = match self.parse_unary(q + 1, d) {
            Ok(x) => x,
            Err(e) => return Err(e),
        };
        match self.classify_power_exponent(&exponent) {
            Ok(written) => Ok((binary_expr(BinOp::Pow(written), base, exponent), r)),
            Err(e) => Err(e),
        }
    }

    fn parse_postfix(&self, p: usize, d: usize) -> (r: Result<(Expr, usize), ParseError>)
        requires
            p <= self@.end(),
        ensures
            result(r) == postfix(self@, p as int, d as nat),
            moved(r, p as int, self@.end()),
        decreases 64 * (self@.end() - p) + 19,
    {
        match self.parse_atom(p, d) {
            Ok((e, q)) => self.apply_postfix(e, q, d),
            Err(e) => Err(e),
        }
    }

    fn apply_postfix(&self, start: Expr, p: usize, d: usize) -> (r: Result<(Expr, usize), ParseError>)
        requires
            p <= self@.end(),
        ensures
            result(r) == postfix_rest(self@, start.to_term(Reading::Exact), p as int, d as nat),
            r is Ok ==> p <= r->Ok_0.1 <= self@.end(),
        decreases 64 * (self@.end() - p) + 0,
    {
        let ghost whole = postfix_rest(self@, start.to_term(Reading::Exact), p as int, d as nat);
        let mut e = start;
        let mut q: usize = p;
        loop
            invariant
                p <= q <= self@.end(),
                whole == postfix_rest(self@, e.to_term(Reading::Exact), q as int, d as nat),
                whole == postfix_rest(self@, start.to_term(Reading::Exact), p as int, d as nat),
            decreases self@.end() - q,
        {
            proof {
                lemma_expr(e);
            }
            if self.is(q, Token::Dot) {
                if !self.named(q + 1) {
                    return Err(self.refuse(q + 1, "identifier"));
                }
                let span = e.span.merge(self.span(q + 1));
                e = nodes::field_access(e, self.field_name(q + 1), span);
                q = q + 2;
            } else if self.is(q, Token::LBracket) {
                let (args, r) = match self.parse_index_args(q + 1, d) {
                    Ok(x) => x,
                    Err(e) => return Err(e),
                };
                if !self.is(r, Token::RBracket) {
                    return Err(self.refuse_token(r, Token::RBracket));
                }
                let span = e.span.merge(self.span(r));
                e = nodes::index_access(e, args, span);
                q = r + 1;
            } else {
                return Ok((e, q));
            }
        }
    }

    fn parse_index_arg(&self, p: usize, d: usize) -> (r: Result<(IndexArg, usize), ParseError>)
        requires
            p <= self@.end(),
        ensures
            result(r) == index_arg(self@, p as int, d as nat),
            moved(r, p as int, self@.end()),
        decreases 64 * (self@.end() - p) + 31,
    {
        if self.named(p) && self.is_after(p, 1, Token::Dot) && self.named_after(p, 2) {
            return match self.parse_index_variant_path(p) {
                Ok((path, q)) => Ok((IndexArg::Variant { index: path.index, variant: path.variant }, q)),
                Err(e) => Err(e),
            };
        }
        let (e, q) = match self.parse_expr(p, d) {
            Ok(x) => x,
            Err(e) => return Err(e),
        };
        proof {
            reveal(ExprKind::to_term);
            lemma_expr(e);
        }
        let ghost term = e.to_term(Reading::Exact);
        match e.kind {
            ExprKind::UnresolvedRef(UnresolvedRef::Path(path)) => {
                proof {
                    crate::syntax::parser::state::lemma_non_empty_term(path.segments, Spans::Kept);
                }
                if path.segments.rest.len() == 0 {
                    let name = *path.segments.first;
                    assert(bare_name(term) == Some(name.term(Spans::Kept)));
                    Ok((IndexArg::Var(name), q))
                } else {
                    assert(bare_name(term) is None);
                    let span = e.span;
                    let whole = nodes::unresolved_path(path, span);
                    Ok((IndexArg::Expr(Box::new(whole)), q))
                }
            },
            kind => {
                assert(bare_name(term) is None);
                let span = e.span;
                Ok((IndexArg::Expr(Box::new(Expr::new(kind, span))), q))
            },
        }
    }

    fn parse_index_args(&self, p: usize, d: usize) -> (r: Result<(NonEmpty<IndexArg>, usize), ParseError>)
        requires
            p <= self@.end(),
        ensures
            outcome(
                r,
                |v: NonEmpty<IndexArg>|
                    Term::List(prepend(v.first.to_term(Reading::Exact), IndexArg::terms(v.rest, Reading::Exact))),
            ) == index_args(self@, p as int, d as nat),
            moved(r, p as int, self@.end()),
        decreases 64 * (self@.end() - p) + 32,
    {
        let (first, mut q) = match self.parse_index_arg(p, d) {
            Ok(x) => x,
            Err(e) => return Err(e),
        };
        let ghost head = first.to_term(Reading::Exact);
        let mut rest: Vec<IndexArg> = Vec::new();
        assert(prepend(head, IndexArg::terms(rest, Reading::Exact)) =~= seq![head]);
        loop
            invariant
                p < q <= self@.end(),
                head == first.to_term(Reading::Exact),
                index_args(self@, p as int, d as nat) == index_args_rest(
                    self@,
                    q as int,
                    d as nat,
                    prepend(head, IndexArg::terms(rest, Reading::Exact)),
                ),
            decreases self@.end() - q,
        {
            if !self.is(q, Token::Comma) {
                return Ok((NonEmpty::new(first, rest), q));
            }
            if self.is(q + 1, Token::RBracket) {
                return Ok((NonEmpty::new(first, rest), q + 1));
            }
            match self.parse_index_arg(q + 1, d) {
                Ok((arg, r)) => {
                    let ghost before = prepend(head, IndexArg::terms(rest, Reading::Exact));
                    rest.push(arg);
                    assert(prepend(head, IndexArg::terms(rest, Reading::Exact)) =~= before.push(
                        arg.to_term(Reading::Exact),
                    ));
                    q = r;
                },
                Err(e) => {
                    return Err(e);
                },
            }
        }
    }

    fn parse_atom(&self, p: usize, d: usize) -> (r: Result<(Expr, usize), ParseError>)
        requires
            p <= self@.end(),
        ensures
            result(r) == atom(self@, p as int, d as nat),
            moved(r, p as int, self@.end()),
        decreases 64 * (self@.end() - p) + 18,
    {
        match self.token(p) {
            Some(Token::Number) => self.parse_number_expr(p),
            Some(Token::True) => Ok((nodes::boolean(true, self.span(p)), p + 1)),
            Some(Token::False) => Ok((nodes::boolean(false, self.span(p)), p + 1)),
            Some(Token::StringLiteral) => Ok(
                (nodes::string_literal(self.quoted_text(p), self.span(p)), p + 1),
            ),
            Some(Token::At) => self.parse_at_expr(p, d),
            Some(Token::ContextualKeyword(word)) => {
                if !self.is(p + 1, Token::LParen) {
                    return self.parse_identifier_expr(p, d);
                }
                match word {
                    ContextualKeyword::Scan => self.parse_scan(p, d),
                    ContextualKeyword::Unfold => self.parse_unfold(p, d),
                    ContextualKeyword::Key => self.parse_key_form(KeyFormKind::Static, p, d),
                    ContextualKeyword::FinKey => self.parse_key_form(KeyFormKind::Fin, p, d),
                    ContextualKeyword::FloorKey => self.parse_key_form(KeyFormKind::Floor, p, d),
                    ContextualKeyword::CeilKey => self.parse_key_form(KeyFormKind::Ceil, p, d),
                    ContextualKeyword::NearestKey => self.parse_key_form(KeyFormKind::Nearest, p, d),
                    _ => self.parse_identifier_expr(p, d),
                }
            },
            Some(Token::Ident) => self.parse_identifier_expr(p, d),
            Some(Token::For) => self.parse_for_comp(p, d),
            Some(Token::LBrace) => self.parse_brace_expr(p, d),
            Some(Token::Table) => self.parse_table_expr(p, d),
            Some(Token::Match) => self.parse_match_expr(p, d),
            Some(Token::LParen) => {
                let (e, q) = match self.parse_expr(p + 1, d) {
                    Ok(x) => x,
                    Err(e) => return Err(e),
                };
                if !self.is(q, Token::RParen) {
                    return Err(self.refuse_token(q, Token::RParen));
                }
                Ok((e, q + 1))
            },
            _ => Err(self.refuse(p, "expression")),
        }
    }

    /// Whether the bytes of a number hold neither a point nor an exponent.
    fn is_integer_text(digits: &Vec<u8>) -> (r: bool)
        ensures
            r == integer_text(digits@),
    {
        for i in 0..digits.len()
            invariant
                forall|j: int| 0 <= j < i ==> #[trigger] digits@[j] != 46 && digits@[j] != 101 && digits@[j] != 69,
        {
            if digits[i] == 46 || digits[i] == 101 || digits[i] == 69 {
                return false;
            }
        }
        true
    }

    fn integer_error(digits: &Vec<u8>) -> (r: &'static str)
        ensures
            r@ == integer_error(digits@),
    {
        if digits.len() == 0 {
            return "cannot parse integer from empty string";
        }
        for i in 0..digits.len()
            invariant
                digits@.len() > 0,
                forall|j: int| 0 <= j < i ==> crate::syntax::lexer::is_digit(#[trigger] digits@[j]),
        {
            if digits[i] < 48 || digits[i] > 57 {
                assert(!crate::syntax::lexer::is_digit(digits@[i as int]));
                return "invalid digit found in string";
            }
        }
        "number too large to fit in target type"
    }

    fn parse_number_expr(&self, p: usize) -> (r: Result<(Expr, usize), ParseError>)
        requires
            p < self@.end(),
        ensures
            result(r) == number_expr(self@, p as int),
            moved(r, p as int, self@.end()),
    {
        let span = self.span(p);
        let digits = self.digits(p);
        if Parser::is_integer_text(&digits) {
            if self.same_line_unit_expr_start(span, p + 1) {
                let mut reason = joined(
                    "integer literal cannot have units; write `",
                    digits_string(&digits).as_str(),
                );
                reason.append(".0` instead");
                return Err(ParseError::invalid_number(reason, span));
            }
            return match self.number_upto(p, i64::MAX as u128) {
                Some(v) => Ok((nodes::integer(v as i64, span), p + 1)),
                None => Err(
                    ParseError::invalid_number(Parser::integer_error(&digits).to_owned(), span),
                ),
            };
        }
        match self.float(p) {
            None => Err(ParseError::invalid_number("number literal is not finite".to_owned(), span)),
            Some(bits) => {
                let value = FloatBits { bits };
                if !self.same_line_unit_expr_start(span, p + 1) {
                    return Ok((nodes::number(value, span), p + 1));
                }
                match self.parse_unit_expr(p + 1) {
                    Ok((unit, q)) => {
                        let full = span.merge(unit.span);
                        Ok((nodes::quantity(value, unit, full), q))
                    },
                    Err(e) => Err(e),
                }
            },
        }
    }

    /// Where the path after the `@` at `p` ends.
    fn at_last(&self, p: usize) -> (r: usize)
        requires
            p + 1 < self@.end(),
            self@.end() <= usize::MAX,
        ensures
            r == at_last(self@, p + 1),
            p < r < self@.end(),
            (r - p) % 2 == 1,
    {
        let mut last: usize = p + 1;
        loop
            invariant
                p < last < self@.end(),
                self@.end() <= usize::MAX,
                at_last(self@, p + 1) == at_last(self@, last as int),
                (last - p) % 2 == 1,
            decreases self@.end() - last,
        {
            if !(self.is_after(last, 1, Token::Dot) && self.named_after(last, 2)) {
                return last;
            }
            if self.is_after(last, 3, Token::LParen) {
                return last + 2;
            }
            last = last + 2;
        }
    }

    /// A graph reference and the fields projected from it.
    fn projections(&self, p: usize, last: usize) -> (r: Expr)
        requires
            p < last < self@.end(),
            (last - p) % 2 == 1,
        ensures
            r.to_term(Reading::Exact) == projections(self@, p as int, last as int),
    {
        let name = ScopedName { qualifier: Vec::new(), member: NameAtom { text: self.text(p + 1) } };
        assert(seq_terms(name.qualifier@, Spans::Kept) =~= Seq::empty());
        let mut e = nodes::graph_ref(
            Spanned { value: name, span: self.span(p + 1) },
            self.span(p).merge(self.span(p + 1)),
        );
        let mut k: usize = p + 1;
        while k < last
            invariant
                p < k <= last < self@.end(),
                (last - k) % 2 == 0,
                e.to_term(Reading::Exact) == projections(self@, p as int, k as int),
            decreases last - k,
        {
            proof {
                lemma_expr(e);
            }
            k = k + 2;
            let span = e.span.merge(self.span(k));
            e = nodes::field_access(e, self.field_name(k), span);
        }
        e
    }

    fn parse_at_expr(&self, p: usize, d: usize) -> (r: Result<(Expr, usize), ParseError>)
        requires
            p < self@.end(),
        ensures
            result(r) == at_expr(self@, p as int, d as nat),
            moved(r, p as int, self@.end()),
        decreases 64 * (self@.end() - p) + 17,
    {
        if !self.named_after(p, 1) {
            return Err(self.refuse(p + 1, "identifier"));
        }
        let last = self.at_last(p);
        if self.is_after(last, 1, Token::LParen) {
            return self.finish_inline_dag_call(p, last, d);
        }
        Ok((self.projections(p, last), last + 1))
    }

    /// The path of an inline DAG call whose `@` stands at `p`.
    fn dag_path(&self, p: usize, last: usize) -> (r: ModulePath)
        requires
            p < last < self@.end(),
        ensures
            r.term(Spans::Kept) == dag_path(self@, p as int, last as int),
    {
        ModulePath {
            segments: self.path_idents(p + 1, last),
            span: self.span(p).merge(self.span(p + 1)).merge(self.span(last)),
        }
    }

    /// The name at a place as the name of a declaration.
    pub(crate) fn decl_name(&self, p: usize) -> (r: Spanned<DeclName>)
        ensures
            r.term(Spans::Kept) == spanned_name(self@, p as int),
            r.value.atom.text@ == self@.text(p as int),
    {
        Spanned { value: DeclName { atom: NameAtom { text: self.text(p) } }, span: self.span(p) }
    }

    fn parse_dag_output(&self, q: usize) -> (r: Result<(Spanned<DeclName>, usize), ParseError>)
        ensures
            result(r) == dag_output(self@, q as int),
            moved(r, q as int, self@.end()),
    {
        if !self.is(q, Token::RParen) {
            return Err(self.refuse_token(q, Token::RParen));
        }
        match self.token(q + 1) {
            None => {
                return Err(self.refuse(q + 1, "`.<out>` projection"));
            },
            Some(token) => {
                if token != Token::Dot {
                    return Err(ParseError::missing_projection(self.span(q + 1)));
                }
            },
        }
        if !self.named(q + 2) {
            return Err(self.refuse(q + 2, "identifier"));
        }
        Ok((self.decl_name(q + 2), q + 3))
    }

    fn finish_inline_dag_call(&self, p: usize, last: usize, d: usize) -> (r: Result<(Expr, usize), ParseError>)
        requires
            p < last < self@.end(),
            self@.is(last + 1, Token::LParen),
        ensures
            result(r) == inline_dag_call(self@, p as int, last as int, d as nat),
            moved(r, last as int, self@.end()),
        decreases 64 * (self@.end() - last) + 0,
    {
        let start = self.span(p);
        let (args, q) = match self.parse_import_param_bindings(last + 2, d) {
            Ok(x) => x,
            Err(e) => return Err(e),
        };
        let (output, r) = match self.parse_dag_output(q) {
            Ok(x) => x,
            Err(e) => return Err(e),
        };
        let path = self.dag_path(p, last);
        let span = start.merge(self.span(r - 1));
        Ok((nodes::inline_dag_ref(path, args, output, span), r))
    }

    /// Whether a text is among some names.
    fn name_taken(names: &Vec<String>, name: &String) -> (r: bool)
        ensures
            r == exists|i: int| 0 <= i < names@.len() && (#[trigger] names@[i])@ == name@,
    {
        for i in 0..names.len()
            invariant
                forall|j: int| 0 <= j < i ==> (#[trigger] names@[j])@ != name@,
        {
            if names[i] == *name {
                return true;
            }
        }
        false
    }

    fn parse_import_param_bindings(&self, p: usize, d: usize) -> (r: Result<(Vec<ParamBinding>, usize), ParseError>)
        requires
            p <= self@.end(),
        ensures
            outcome(r, |v: Vec<ParamBinding>| Term::List(ParamBinding::terms(v, Reading::Exact))) == param_bindings(
                self@,
                p as int,
                d as nat,
                Seq::empty(),
                Seq::empty(),
            ),
            r is Ok ==> p <= r->Ok_0.1 <= self@.end(),
        decreases 64 * (self@.end() - p) + 0,
    {
        let mut items: Vec<ParamBinding> = Vec::new();
        let mut names: Vec<String> = Vec::new();
        let mut q: usize = p;
        let ghost mut taken: Seq<Seq<char>> = Seq::empty();
        assert(ParamBinding::terms(items, Reading::Exact) =~= Seq::empty());
        loop
            invariant
                p <= q <= self@.end(),
                taken.len() == names@.len(),
                forall|i: int| 0 <= i < taken.len() ==> #[trigger] taken[i] == names@[i]@,
                param_bindings(self@, p as int, d as nat, Seq::empty(), Seq::empty()) == param_bindings(
                    self@,
                    q as int,
                    d as nat,
                    taken,
                    ParamBinding::terms(items, Reading::Exact),
                ),
            decreases self@.end() - q,
        {
            if self.is(q, Token::RParen) {
                return Ok((items, q));
            }
            if !self.named(q) {
                return Err(self.refuse(q, "identifier"));
            }
            let name = self.ident(q);
            let text = name.name.text.clone();
            let known = Parser::name_taken(&names, &text);
            proof {
                if taken.contains(text@) {
                    let i = choose|i: int| 0 <= i < taken.len() && taken[i] == text@;
                    assert(names@[i]@ == text@);
                }
                if known {
                    let i = choose|i: int| 0 <= i < names@.len() && (#[trigger] names@[i])@ == text@;
                    assert(taken[i] == text@);
                }
            }
            if known {
                return Err(ParseError::duplicate_binding(text, name.span));
            }
            if !self.is(q + 1, Token::Colon) {
                return Err(self.refuse_token(q + 1, Token::Colon));
            }
            let (value, r) = match self.parse_expr(q + 2, d) {
                Ok(x) => x,
                Err(e) => return Err(e),
            };
            proof {
                lemma_expr(value);
            }
            let span = name.span.merge(value.span);
            let item = ParamBinding { name, value, span };
            let ghost before = ParamBinding::terms(items, Reading::Exact);
            items.push(item);
            assert(ParamBinding::terms(items, Reading::Exact) =~= before.push(item.to_term(Reading::Exact)));
            if self.is(r, Token::Comma) {
                proof {
                    taken = taken.push(text@);
                }
                names.push(text);
                q = r + 1;
            } else {
                return Ok((items, r));
            }
        }
    }

    fn parse_identifier_expr(&self, p: usize, d: usize) -> (r: Result<(Expr, usize), ParseError>)
        requires
            p <= self@.end(),
        ensures
            result(r) == identifier_expr(self@, p as int, d as nat),
            moved(r, p as int, self@.end()),
        decreases 64 * (self@.end() - p) + 17,
    {
        if !self.named(p) {
            return Err(self.refuse(p, "identifier"));
        }
        let last = self.path_last(p);
        let q: usize = last + 1;
        if self.is(q, Token::LParen) {
            let generics: Vec<GenericArg> = Vec::new();
            assert(GenericArg::terms(generics, Reading::Exact) =~= Seq::empty());
            return self.parse_call(p, last, generics, q, d);
        }
        if self.is(q, Token::Lt) && self.is_generic_args_followed_by_paren(q) {
            return match self.parse_generic_arg_list(q, d) {
                Ok((generics, r)) => self.parse_call(p, last, generics, r, d),
                Err(e) => Err(e),
            };
        }
        let path = IdentPath { segments: self.path_idents(p, last) };
        Ok((nodes::unresolved_path(path, self.path_span(p, last)), q))
    }

    fn parse_call(&self, p: usize, last: usize, generic_args: Vec<GenericArg>, q: usize, d: usize) -> (r: Result<
        (Expr, usize),
        ParseError,
    >)
        requires
            p <= last < q <= self@.end(),
        ensures
            result(r) == call(
                self@,
                p as int,
                last as int,
                GenericArg::terms(generic_args, Reading::Exact),
                q as int,
                d as nat,
            ),
            moved(r, p as int, self@.end()),
        decreases 64 * (self@.end() - q) + 33,
    {
        let callee = IdentPath { segments: self.path_idents(p, last) };
        let start = self.path_span(p, last);
        let first: usize = if q < self.lexemes.len() {
            q + 1
        } else {
            q
        };
        if self.is_named_arg_call(q) {
            let (fields, r) = match self.parse_named_field_inits(first, d) {
                Ok(x) => x,
                Err(e) => return Err(e),
            };
            if !self.is(r, Token::RParen) {
                return Err(self.refuse_token(r, Token::RParen));
            }
            let span = start.merge(self.span(r));
            return Ok((nodes::constructor_call(callee, generic_args, fields, span), r + 1));
        }
        let (args, r) = match self.parse_arg_list(first, d) {
            Ok(x) => x,
            Err(e) => return Err(e),
        };
        if !self.is(r, Token::RParen) {
            return Err(self.refuse_token(r, Token::RParen));
        }
        let span = start.merge(self.span(r));
        Ok((nodes::fn_call(callee, generic_args, args, span), r + 1))
    }

    fn parse_arg_list(&self, p: usize, d: usize) -> (r: Result<(Vec<Expr>, usize), ParseError>)
        requires
            p <= self@.end(),
        ensures
            outcome(r, |v: Vec<Expr>| exprs_term(v)) == args(self@, p as int, d as nat, Seq::empty()),
            r is Ok ==> p <= r->Ok_0.1 <= self@.end(),
        decreases 64 * (self@.end() - p) + 32,
    {
        let mut items: Vec<Expr> = Vec::new();
        let mut q: usize = p;
        assert(Expr::terms(items, Reading::Exact) =~= Seq::empty());
        loop
            invariant
                p <= q <= self@.end(),
                args(self@, p as int, d as nat, Seq::empty()) == args(
                    self@,
                    q as int,
                    d as nat,
                    Expr::terms(items, Reading::Exact),
                ),
            decreases self@.end() - q,
        {
            if self.is(q, Token::RParen) {
                return Ok((items, q));
            }
            let (item, r) = match self.parse_expr(q, d) {
                Ok(x) => x,
                Err(e) => return Err(e),
            };
            let ghost before = Expr::terms(items, Reading::Exact);
            items.push(item);
            assert(Expr::terms(items, Reading::Exact) =~= before.push(item.to_term(Reading::Exact)));
            if self.is(r, Token::Comma) {
                q = r + 1;
            } else {
                return Ok((items, r));
            }
        }
    }

    fn parse_named_field_inits(&self, p: usize, d: usize) -> (r: Result<(Vec<FieldInit>, usize), ParseError>)
        requires
            p <= self@.end(),
        ensures
            outcome(r, |v: Vec<FieldInit>| Term::List(FieldInit::terms(v, Reading::Exact))) == field_inits(
                self@,
                p as int,
                d as nat,
                Seq::empty(),
            ),
            r is Ok ==> p <= r->Ok_0.1 <= self@.end(),
        decreases 64 * (self@.end() - p) + 32,
    {
        let mut items: Vec<FieldInit> = Vec::new();
        let mut q: usize = p;
        assert(FieldInit::terms(items, Reading::Exact) =~= Seq::empty());
        loop
            invariant
                p <= q <= self@.end(),
                field_inits(self@, p as int, d as nat, Seq::empty()) == field_inits(
                    self@,
                    q as int,
                    d as nat,
                    FieldInit::terms(items, Reading::Exact),
                ),
            decreases self@.end() - q,
        {
            if self.is(q, Token::RParen) {
                return Ok((items, q));
            }
            if !self.named(q) {
                return Err(self.refuse(q, "identifier"));
            }
            if !self.is(q + 1, Token::Colon) {
                return Err(self.refuse_token(q + 1, Token::Colon));
            }
            let (value, r) = match self.parse_expr(q + 2, d) {
                Ok(x) => x,
                Err(e) => return Err(e),
            };
            let item = FieldInit { name: self.field_name(q), value };
            let ghost before = FieldInit::terms(items, Reading::Exact);
            items.push(item);
            assert(FieldInit::terms(items, Reading::Exact) =~= before.push(item.to_term(Reading::Exact)));
            if self.is(r, Token::Comma) {
                q = r + 1;
            } else {
                return Ok((items, r));
            }
        }
    }
}

} // verus!
