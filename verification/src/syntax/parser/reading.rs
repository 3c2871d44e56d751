//! How expressions are written: which tokens stand for which part of a tree,
//! and which parts need parentheses.

use crate::syntax::ast::{BinOp, Expr, ExprKind, KeyFormKind, MulDivOp, PowerExponent, UnaryOp};
use crate::syntax::parser::expr_grammar::{
    ahead, args, at_expr, at_last, atom, behind_fat_arrow, binders, brace_expr, call, comparison, conditional,
    conjunction, conjunction_rest, contextual_key, conversion, coordinate_entries, disjunction, disjunction_rest,
    expression, field_inits, fold_body, fold_rest, for_bindings, for_comp, generic_args, identifier_expr, index_args,
    inline_dag_call, key_form, key_form_kind, map_entries, map_entry, match_arms, match_expr, param_bindings, postfix,
    postfix_rest, power, prefix_op, product, product_rest, projections, scan_expr, sum, sum_rest, tuple_entries,
    tuple_keys, unary, unary_inner, unfold_expr, variant_key, Fold,
};
use crate::syntax::parser::grammar::{
    additive_op, binary, comparison_op, expr, generic_args_followed_by, index_expr, joining_op, multiplicative_op,
    named_args_at, named_path, number_expr, path_last, path_span, path_term, power_exponent, reciprocal_at, span_of,
    spanned_name, tuple_key_at, unit_expr, unit_item, unit_items_rest, variant_path, Input, Parse, NESTING_LIMIT,
};
use crate::syntax::parser::table_grammar::{table_axes, table_expr};
use crate::syntax::span::{merged, Span};
use crate::syntax::spelling::{law_operators_are_spelled, mark_bytes, operator_bytes};
use crate::syntax::term::{node1, node2, node3, node5, node6, Reading, Symbol, Tag, Term};
use crate::syntax::token::{ContextualKeyword, Token};
use vstd::prelude::*;

verus! {

/// How tightly an operator binds.
pub open spec fn rank(op: BinOp) -> int {
    match op {
        BinOp::Or => 2,
        BinOp::And => 3,
        BinOp::Eq | BinOp::Ne | BinOp::Lt | BinOp::Gt | BinOp::Le | BinOp::Ge => 4,
        BinOp::Add | BinOp::Sub => 5,
        BinOp::Mul | BinOp::Div | BinOp::Mod => 6,
        BinOp::Pow(_) => 8,
    }
}

/// How tightly the left operand of an operator has to bind: sums, products,
/// conjunctions and disjunctions group to the left, comparisons not at all.
pub open spec fn left_rank(op: BinOp) -> int {
    match op {
        BinOp::Eq | BinOp::Ne | BinOp::Lt | BinOp::Gt | BinOp::Le | BinOp::Ge | BinOp::Pow(_) => rank(op) + 1,
        _ => rank(op),
    }
}

/// How tightly the right operand of an operator has to bind: powers group to
/// the right, and an exponent may have a sign.
pub open spec fn right_rank(op: BinOp) -> int {
    match op {
        BinOp::Pow(_) => 7,
        _ => rank(op) + 1,
    }
}

/// How tightly an expression binds by its outermost form.
pub open spec fn binding(e: Expr) -> int {
    match e.kind {
        ExprKind::Convert { expr, target } => 0,
        ExprKind::DisplayTimezone { expr, timezone } => 0,
        ExprKind::If { condition, then_branch, else_branch } => 1,
        ExprKind::BinOp { op, lhs, rhs } => rank(op),
        ExprKind::UnaryOp { op, operand } => 7,
        _ => 9,
    }
}

/// Whether the token at a place is written with some bytes.
pub open spec fn marked(g: Input, p: int, bytes: Seq<u8>) -> bool {
    g.token(p) is Some && mark_bytes(g.token(p)->0) == Some(bytes)
}

/// Whether a place stands no earlier than another.
pub open spec fn reaches(p: int, m: int) -> bool {
    p <= m
}

/// Whether the tokens from `p` to `q` write an expression where it has to bind
/// at least so tightly: in its own form, or in parentheses.
pub open spec fn written(g: Input, p: int, q: int, e: Expr, least: int) -> bool
    decreases e, q - p, 1nat,
{
    &&& p < q
    &&& {
        ||| least <= binding(e) && in_order(g, p, q, e)
        ||| p + 1 < q - 1 && g.is(p, Token::LParen) && g.is(q - 1, Token::RParen) && written(g, p + 1, q - 1, e, 0)
    }
}

/// Whether the parts of an expression stand between the tokens from `p` to `q`
/// as its form has them.
pub open spec fn in_order(g: Input, p: int, q: int, e: Expr) -> bool
    decreases e, q - p, 0nat,
{
    match e.kind {
        ExprKind::BinOp { op, lhs, rhs } => exists|m: int|
            written(g, p, m, *lhs, left_rank(op)) && #[trigger] marked(g, m, operator_bytes(op)) && written(
                g,
                m + 1,
                q,
                *rhs,
                right_rank(op),
            ),
        ExprKind::UnaryOp { op, operand } => {
            &&& marked(g, p, if op == UnaryOp::Neg { seq![45u8] } else { seq![33u8] })
            &&& written(g, p + 1, q, *operand, 7)
        },
        ExprKind::If { condition, then_branch, else_branch } => {
            &&& g.is(p, Token::If)
            &&& g.is(q - 1, Token::RBrace)
            &&& exists|m: int, n: int|
                {
                    &&& written(g, p + 1, m, *condition, 0)
                    &&& #[trigger] g.is(m, Token::LBrace)
                    &&& written(g, m + 1, n, *then_branch, 0)
                    &&& #[trigger] g.is(n, Token::RBrace)
                    &&& g.is(n + 1, Token::Else)
                    &&& g.is(n + 2, Token::LBrace)
                    &&& written(g, n + 3, q - 1, *else_branch, 0)
                }
        },
        ExprKind::Convert { expr, target } => exists|m: int|
            written(g, p, m, *expr, 1) && #[trigger] g.is(m, Token::Arrow),
        ExprKind::DisplayTimezone { expr, timezone } => {
            &&& written(g, p, q - 2, *expr, 1)
            &&& g.is(q - 2, Token::Arrow)
            &&& g.is(q - 1, Token::StringLiteral)
            &&& timezone@ == g.quoted_text(q - 1)
        },
        ExprKind::FieldAccess { expr, field } => {
            &&& written(g, p, q - 2, *expr, 9)
            &&& field.value.atom.text@ == g.text(q - 1)
        },
        ExprKind::IndexAccess { expr, args } => g.is(q - 1, Token::RBracket) && exists|m: int|
            written(g, p, m, *expr, 9) && #[trigger] g.is(m, Token::LBracket),
        ExprKind::Bool(value) => q == p + 1 && g.is(p, if value { Token::True } else { Token::False }),
        ExprKind::StringLiteral(value) => {
            &&& q == p + 1
            &&& g.is(p, Token::StringLiteral)
            &&& value@ == g.quoted_text(p)
        },
        ExprKind::FnCall { callee, generic_args, args } => g.is(q - 1, Token::RParen) && exists|m: int| #[trigger]
            reaches(p, m) && listed(g, m, q - 1, args),
        ExprKind::Scan { source, init, acc_name, val_name, body } => {
            &&& g.is(p + 1, Token::LParen)
            &&& g.is(q - 1, Token::RParen)
            &&& exists|m: int, n: int|
                {
                    &&& written(g, p + 2, m, *source, 0)
                    &&& #[trigger] g.is(m, Token::Comma)
                    &&& written(g, m + 1, n, *init, 0)
                    &&& #[trigger] g.is(n, Token::Comma)
                    &&& acc_name.value.atom.text@ == g.text(n + 2)
                    &&& val_name.value.atom.text@ == g.text(n + 4)
                    &&& written(g, n + 6, q - 1, *body, 0)
                }
        },
        ExprKind::Unfold { axis, init, prev_state_name, prev_index_name, index_name, body } => {
            &&& g.is(q - 1, Token::RParen)
            &&& exists|m: int, n: int|
                {
                    &&& #[trigger] g.is(m, Token::Comma)
                    &&& written(g, m + 1, n, *init, 0)
                    &&& #[trigger] g.is(n, Token::Comma)
                    &&& prev_state_name.value.atom.text@ == g.text(n + 2)
                    &&& prev_index_name.value.atom.text@ == g.text(n + 4)
                    &&& index_name.value.atom.text@ == g.text(n + 6)
                    &&& written(g, n + 8, q - 1, *body, 0)
                }
        },
        ExprKind::KeyForm { kind, axis, arg } => g.is(q - 1, Token::RParen) && exists|m: int| #[trigger]
            g.is(m, Token::Comma) && written(g, m + 1, q - 1, *arg, 0),
        ExprKind::ForComp { bindings, body } => g.is(q - 1, Token::RBrace) && exists|m: int| #[trigger]
            reaches(p, m) && written(g, m, q - 1, *body, 0),
        ExprKind::Match { scrutinee, arms } => g.is(q - 1, Token::RBrace) && exists|m: int|
            written(g, p + 1, m, *scrutinee, 0) && #[trigger] g.is(m, Token::LBrace),
        _ => true,
    }
}

/// Whether the first expressions of a list stand one after another between `p`
/// and `q`, a comma behind each.
pub open spec fn led(g: Input, p: int, q: int, items: Vec<Expr>, n: nat) -> bool
    decreases items, n, 0nat,
{
    if n == 0 || n > items@.len() {
        n == 0 && p == q
    } else {
        exists|m: int| #[trigger]
            reaches(p, m) && led(g, p, m, items, (n - 1) as nat) && written(g, m, q - 1, items@[n - 1], 0) && g.is(q - 1, Token::Comma)
    }
}

/// Whether a list of expressions stands between `p` and `q` in its order; a
/// comma may trail.
pub open spec fn listed(g: Input, p: int, q: int, items: Vec<Expr>) -> bool
    decreases items, items@.len() + 1, 0nat,
{
    ||| led(g, p, q, items, items@.len())
    ||| items@.len() > 0 && exists|m: int| #[trigger]
        reaches(p, m) && led(g, p, m, items, (items@.len() - 1) as nat) && written(g, m, q, items@[items@.len() - 1], 0)
}

/// Whether every expression with a tree's term is written from `p` to `q`.
#[verifier::opaque]
spec fn stands(g: Input, p: int, q: int, t: Term, least: int) -> bool {
    p < q && forall|x: Expr| x.to_term(Reading::Exact) == t ==> #[trigger] written(g, p, q, x, least)
}

spec fn reads(g: Input, p: int, parse: Parse, least: int) -> bool {
    match parse {
        Parse::Read(t, q) => stands(g, p, q, t, least),
        Parse::Refused(_) => true,
    }
}

/// The outermost form of an expression's tree.
spec fn tag_of(t: Term) -> Option<Tag> {
    match t {
        Term::Node(_, parts) => match *parts {
            Term::Pair(kind, _) => match *kind {
                Term::Node(tag, _) => Some(tag),
                _ => None,
            },
            _ => None,
        },
        _ => None,
    }
}

/// Whether a form binds tightest, with nothing to say of its parts.
spec fn plain(tag: Option<Tag>) -> bool {
    match tag {
        Some(Tag::ExprInteger) => true,
        Some(Tag::ExprNumber) => true,
        Some(Tag::ExprQuantityLiteral) => true,
        Some(Tag::ExprGraphRef) => true,
        Some(Tag::ExprUnresolvedRef) => true,
        Some(Tag::ExprInlineDagRef) => true,
        Some(Tag::ExprConstructorCall) => true,
        Some(Tag::ExprMapLiteral) => true,
        Some(Tag::TableLiteral) => true,
        _ => false,
    }
}

proof fn lemma_plain(g: Input, p: int, q: int, t: Term)
    requires
        p < q,
        plain(tag_of(t)),
    ensures
        stands(g, p, q, t, 9),
{
    reveal(stands);
    reveal(ExprKind::to_term);
    assert forall|x: Expr| x.to_term(Reading::Exact) == t implies #[trigger] written(g, p, q, x, 9) by {
        match x.kind {
            ExprKind::Sugar(sugar) => {},
            _ => {},
        }
        assert(in_order(g, p, q, x));
    }
}

proof fn lemma_looser(g: Input, p: int, q: int, t: Term, tight: int, least: int)
    requires
        least <= tight,
        stands(g, p, q, t, tight),
    ensures
        stands(g, p, q, t, least),
{
    reveal(stands);
    assert forall|x: Expr| x.to_term(Reading::Exact) == t implies #[trigger] written(g, p, q, x, least) by {
        assert(written(g, p, q, x, tight));
    }
}

proof fn lemma_loosened(g: Input, p: int, parse: Parse, tight: int, least: int)
    requires
        least <= tight,
        reads(g, p, parse, tight),
    ensures
        reads(g, p, parse, least),
{
    match parse {
        Parse::Read(t, q) => lemma_looser(g, p, q, t, tight, least),
        Parse::Refused(_) => {},
    }
}

// Trees by their outermost form.

proof fn lemma_binary_kind(x: Expr, op: BinOp, lhs: Term, rhs: Term)
    requires
        x.to_term(Reading::Exact) == binary(op, lhs, rhs),
    ensures
        x.kind is BinOp,
        x.kind->BinOp_op == op,
        x.kind->lhs.to_term(Reading::Exact) == lhs,
        x.kind->rhs.to_term(Reading::Exact) == rhs,
{
    reveal(ExprKind::to_term);
    match x.kind {
        ExprKind::Sugar(sugar) => {
            assert(x.kind.to_term(Reading::Exact) == sugar.to_term(Reading::Exact));
        },
        _ => {},
    }
}

proof fn lemma_unary_kind(x: Expr, op: UnaryOp, operand: Term, span: Span)
    requires
        x.to_term(Reading::Exact) == expr(
            node2(Tag::ExprUnaryOp, Term::Symbol(Symbol::UnaryOp(op)), operand),
            span,
        ),
    ensures
        x.kind is UnaryOp,
        x.kind->UnaryOp_op == op,
        x.kind->operand.to_term(Reading::Exact) == operand,
{
    reveal(ExprKind::to_term);
    match x.kind {
        ExprKind::Sugar(sugar) => {
            assert(x.kind.to_term(Reading::Exact) == sugar.to_term(Reading::Exact));
        },
        _ => {},
    }
}

proof fn lemma_if_kind(x: Expr, c: Term, a: Term, b: Term, span: Span)
    requires
        x.to_term(Reading::Exact) == expr(node3(Tag::ExprIf, c, a, b), span),
    ensures
        x.kind is If,
        x.kind->condition.to_term(Reading::Exact) == c,
        x.kind->then_branch.to_term(Reading::Exact) == a,
        x.kind->else_branch.to_term(Reading::Exact) == b,
{
    reveal(ExprKind::to_term);
    match x.kind {
        ExprKind::Sugar(sugar) => {
            assert(x.kind.to_term(Reading::Exact) == sugar.to_term(Reading::Exact));
        },
        _ => {},
    }
}

proof fn lemma_operated(g: Input, p: int, m: int, q: int, op: BinOp, lhs: Term, rhs: Term)
    requires
        stands(g, p, m, lhs, left_rank(op)),
        marked(g, m, operator_bytes(op)),
        stands(g, m + 1, q, rhs, right_rank(op)),
    ensures
        stands(g, p, q, binary(op, lhs, rhs), rank(op)),
{
    reveal(stands);
    let t = binary(op, lhs, rhs);
    assert forall|x: Expr| x.to_term(Reading::Exact) == t implies #[trigger] written(g, p, q, x, rank(op)) by {
        lemma_binary_kind(x, op, lhs, rhs);
        assert(written(g, p, m, *x.kind->lhs, left_rank(op)));
        assert(written(g, m + 1, q, *x.kind->rhs, right_rank(op)));
        assert(in_order(g, p, q, x));
    }
}

proof fn lemma_conditional(
    g: Input,
    p: int,
    m: int,
    n: int,
    q: int,
    c: Term,
    a: Term,
    b: Term,
    span: Span,
)
    requires
        g.is(p, Token::If),
        stands(g, p + 1, m, c, 0),
        g.is(m, Token::LBrace),
        stands(g, m + 1, n, a, 0),
        g.is(n, Token::RBrace),
        g.is(n + 1, Token::Else),
        g.is(n + 2, Token::LBrace),
        stands(g, n + 3, q - 1, b, 0),
        g.is(q - 1, Token::RBrace),
    ensures
        stands(g, p, q, expr(node3(Tag::ExprIf, c, a, b), span), 1),
{
    reveal(stands);
    let t = expr(node3(Tag::ExprIf, c, a, b), span);
    assert forall|x: Expr| x.to_term(Reading::Exact) == t implies #[trigger] written(g, p, q, x, 1) by {
        lemma_if_kind(x, c, a, b, span);
        assert(written(g, p + 1, m, *x.kind->condition, 0));
        assert(written(g, m + 1, n, *x.kind->then_branch, 0));
        assert(written(g, n + 3, q - 1, *x.kind->else_branch, 0));
        assert(in_order(g, p, q, x));
    }
}

// Operators.

proof fn lemma_marked(g: Input, p: int, op: BinOp)
    requires
        g.is(
            p,
            match op {
                BinOp::Or => Token::PipePipe,
                BinOp::And => Token::AmpAmp,
                _ => Token::Caret,
            },
        ),
        op is Or || op is And || op is Pow,
    ensures
        marked(g, p, operator_bytes(op)),
{
}

/// The tokens from which an expression is read are those that it is written
/// with: operands stand on their sides of their operator, branches and
/// arguments in their order, and what binds looser than its place allows stands
/// in parentheses.
pub proof fn law_expressions_are_read_as_written(g: Input, p: int, d: nat, q: int, e: Expr)
    requires
        expression(g, p, d) == Parse::Read(e.to_term(Reading::Exact), q),
    ensures
        written(g, p, q, e, 0),
{
    reveal(stands);
    lemma_expression(g, p, d);
}

proof fn lemma_expression(g: Input, p: int, d: nat)
    ensures
        reads(g, p, expression(g, p, d), 0),
    decreases g.end() - p, 30int,
{
    if d < NESTING_LIMIT {
        lemma_conversion(g, p, d + 1);
    }
}

proof fn lemma_disjunction(g: Input, p: int, d: nat)
    ensures
        reads(g, p, disjunction(g, p, d), 2),
    decreases g.end() - p, 27int,
{
    lemma_conjunction(g, p, d);
    match conjunction(g, p, d) {
        Parse::Read(lhs, q) => if ahead(g, p, q) {
            lemma_looser(g, p, q, lhs, 3, 2);
            lemma_disjunction_rest(g, p, lhs, q, d);
        },
        Parse::Refused(_) => {},
    }
}

#[verifier::spinoff_prover]
#[verifier::rlimit(40)]
proof fn lemma_disjunction_rest(g: Input, start: int, lhs: Term, p: int, d: nat)
    requires
        stands(g, start, p, lhs, 2),
    ensures
        reads(g, start, disjunction_rest(g, lhs, p, d), 2),
    decreases g.end() - p, 0int,
{
    if g.is(p, Token::PipePipe) {
        lemma_conjunction(g, p + 1, d);
        match conjunction(g, p + 1, d) {
            Parse::Read(rhs, q) => if ahead(g, p, q) {
                lemma_marked(g, p, BinOp::Or);
                lemma_operated(g, start, p, q, BinOp::Or, lhs, rhs);
                lemma_disjunction_rest(g, start, binary(BinOp::Or, lhs, rhs), q, d);
            },
            Parse::Refused(_) => {},
        }
    }
}

proof fn lemma_conjunction(g: Input, p: int, d: nat)
    ensures
        reads(g, p, conjunction(g, p, d), 3),
    decreases g.end() - p, 26int,
{
    lemma_comparison(g, p, d);
    match comparison(g, p, d) {
        Parse::Read(lhs, q) => if ahead(g, p, q) {
            lemma_looser(g, p, q, lhs, 4, 3);
            lemma_conjunction_rest(g, p, lhs, q, d);
        },
        Parse::Refused(_) => {},
    }
}

#[verifier::spinoff_prover]
#[verifier::rlimit(40)]
proof fn lemma_conjunction_rest(g: Input, start: int, lhs: Term, p: int, d: nat)
    requires
        stands(g, start, p, lhs, 3),
    ensures
        reads(g, start, conjunction_rest(g, lhs, p, d), 3),
    decreases g.end() - p, 0int,
{
    if g.is(p, Token::AmpAmp) {
        lemma_comparison(g, p + 1, d);
        match comparison(g, p + 1, d) {
            Parse::Read(rhs, q) => if ahead(g, p, q) {
                lemma_marked(g, p, BinOp::And);
                lemma_operated(g, start, p, q, BinOp::And, lhs, rhs);
                lemma_conjunction_rest(g, start, binary(BinOp::And, lhs, rhs), q, d);
            },
            Parse::Refused(_) => {},
        }
    }
}

proof fn lemma_comparison(g: Input, p: int, d: nat)
    ensures
        reads(g, p, comparison(g, p, d), 4),
    decreases g.end() - p, 25int,
{
    lemma_sum(g, p, d);
    match sum(g, p, d) {
        Parse::Read(lhs, q) => match comparison_op(g.token(q)) {
            None => lemma_looser(g, p, q, lhs, 5, 4),
            Some(op) => if ahead(g, p, q) {
                lemma_sum(g, q + 1, d);
                law_operators_are_spelled(g.token(q)->0);
                match sum(g, q + 1, d) {
                    Parse::Read(rhs, r) => lemma_operated(g, p, q, r, op, lhs, rhs),
                    Parse::Refused(_) => {},
                }
            },
        },
        Parse::Refused(_) => {},
    }
}

proof fn lemma_sum(g: Input, p: int, d: nat)
    ensures
        reads(g, p, sum(g, p, d), 5),
    decreases g.end() - p, 24int,
{
    lemma_product(g, p, d);
    match product(g, p, d) {
        Parse::Read(lhs, q) => if ahead(g, p, q) {
            lemma_looser(g, p, q, lhs, 6, 5);
            lemma_sum_rest(g, p, lhs, q, d);
        },
        Parse::Refused(_) => {},
    }
}

proof fn lemma_sum_rest(g: Input, start: int, lhs: Term, p: int, d: nat)
    requires
        stands(g, start, p, lhs, 5),
    ensures
        reads(g, start, sum_rest(g, lhs, p, d), 5),
    decreases g.end() - p, 0int,
{
    match additive_op(g.token(p)) {
        None => {},
        Some(op) => {
            lemma_product(g, p + 1, d);
            law_operators_are_spelled(g.token(p)->0);
            match product(g, p + 1, d) {
                Parse::Read(rhs, q) => if ahead(g, p, q) {
                    lemma_operated(g, start, p, q, op, lhs, rhs);
                    lemma_sum_rest(g, start, binary(op, lhs, rhs), q, d);
                },
                Parse::Refused(_) => {},
            }
        },
    }
}

proof fn lemma_product(g: Input, p: int, d: nat)
    ensures
        reads(g, p, product(g, p, d), 6),
    decreases g.end() - p, 23int,
{
    lemma_unary(g, p, d);
    match unary(g, p, d) {
        Parse::Read(lhs, q) => if ahead(g, p, q) {
            lemma_looser(g, p, q, lhs, 7, 6);
            lemma_product_rest(g, p, lhs, q, d);
        },
        Parse::Refused(_) => {},
    }
}

proof fn lemma_product_rest(g: Input, start: int, lhs: Term, p: int, d: nat)
    requires
        stands(g, start, p, lhs, 6),
    ensures
        reads(g, start, product_rest(g, lhs, p, d), 6),
    decreases g.end() - p, 0int,
{
    match multiplicative_op(g.token(p)) {
        None => {},
        Some(op) => {
            lemma_unary(g, p + 1, d);
            law_operators_are_spelled(g.token(p)->0);
            match unary(g, p + 1, d) {
                Parse::Read(rhs, q) => if ahead(g, p, q) {
                    lemma_operated(g, start, p, q, op, lhs, rhs);
                    lemma_product_rest(g, start, binary(op, lhs, rhs), q, d);
                },
                Parse::Refused(_) => {},
            }
        },
    }
}

proof fn lemma_unary(g: Input, p: int, d: nat)
    ensures
        reads(g, p, unary(g, p, d), 7),
    decreases g.end() - p, 22int,
{
    if d < NESTING_LIMIT {
        lemma_unary_inner(g, p, d + 1);
    }
}

proof fn lemma_unary_inner(g: Input, p: int, d: nat)
    ensures
        reads(g, p, unary_inner(g, p, d), 7),
    decreases g.end() - p, 21int,
{
    reveal(stands);
    match prefix_op(g.token(p)) {
        None => {
            lemma_power(g, p, d);
            lemma_loosened(g, p, power(g, p, d), 8, 7);
        },
        Some(op) => {
            law_operators_are_spelled(g.token(p)->0);
            lemma_unary(g, p + 1, d);
            match unary(g, p + 1, d) {
                Parse::Read(e, q) => {
                    let span = merged(g.span(p), span_of(e));
                    let t = expr(node2(Tag::ExprUnaryOp, Term::Symbol(Symbol::UnaryOp(op)), e), span);
                    assert forall|x: Expr| x.to_term(Reading::Exact) == t implies #[trigger] written(
                        g,
                        p,
                        q,
                        x,
                        7,
                    ) by {
                        lemma_unary_kind(x, op, e, span);
                        assert(written(g, p + 1, q, *x.kind->operand, 7));
                        assert(in_order(g, p, q, x));
                    }
                },
                Parse::Refused(_) => {},
            }
        },
    }
}

proof fn lemma_raised(g: Input, p: int, m: int, q: int, base: Term, e: Term, shape: Result<PowerExponent, Term>)
    requires
        stands(g, p, m, base, 9),
        g.is(m, Token::Caret),
        stands(g, m + 1, q, e, 7),
    ensures
        shape is Ok ==> stands(g, p, q, binary(BinOp::Pow(shape->Ok_0), base, e), 8),
{
    if shape is Ok {
        lemma_marked(g, m, BinOp::Pow(shape->Ok_0));
        lemma_operated(g, p, m, q, BinOp::Pow(shape->Ok_0), base, e);
    }
}

#[verifier::spinoff_prover]
#[verifier::rlimit(40)]
proof fn lemma_power(g: Input, p: int, d: nat)
    ensures
        reads(g, p, power(g, p, d), 8),
    decreases g.end() - p, 20int,
{
    lemma_postfix(g, p, d);
    match postfix(g, p, d) {
        Parse::Read(base, q) => if !g.is(q, Token::Caret) {
            lemma_looser(g, p, q, base, 9, 8);
        } else if ahead(g, p, q) {
            lemma_unary(g, q + 1, d);
            match unary(g, q + 1, d) {
                Parse::Read(e, r) => lemma_raised(g, p, q, r, base, e, power_exponent(g, e)),
                Parse::Refused(_) => {},
            }
        },
        Parse::Refused(_) => {},
    }
}

proof fn lemma_convert_kind(x: Expr, e: Term, unit: Term, span: Span)
    requires
        x.to_term(Reading::Exact) == expr(node2(Tag::ExprConvert, e, unit), span),
    ensures
        x.kind is Convert,
        x.kind->Convert_expr.to_term(Reading::Exact) == e,
{
    reveal(ExprKind::to_term);
    match x.kind {
        ExprKind::Sugar(sugar) => {
            assert(x.kind.to_term(Reading::Exact) == sugar.to_term(Reading::Exact));
        },
        _ => {},
    }
}

proof fn lemma_timezone_kind(x: Expr, e: Term, zone: Seq<char>, span: Span)
    requires
        x.to_term(Reading::Exact) == expr(node2(Tag::ExprDisplayTimezone, e, Term::Text(zone)), span),
    ensures
        x.kind is DisplayTimezone,
        x.kind->DisplayTimezone_expr.to_term(Reading::Exact) == e,
        x.kind->timezone@ == zone,
{
    reveal(ExprKind::to_term);
    match x.kind {
        ExprKind::Sugar(sugar) => {
            assert(x.kind.to_term(Reading::Exact) == sugar.to_term(Reading::Exact));
        },
        _ => {},
    }
}

proof fn lemma_field_kind(x: Expr, e: Term, g: Input, p: int, span: Span)
    requires
        x.to_term(Reading::Exact) == expr(node2(Tag::ExprFieldAccess, e, spanned_name(g, p)), span),
    ensures
        x.kind is FieldAccess,
        x.kind->FieldAccess_expr.to_term(Reading::Exact) == e,
        x.kind->field.value.atom.text@ == g.text(p),
{
    reveal(ExprKind::to_term);
    match x.kind {
        ExprKind::Sugar(sugar) => {
            assert(x.kind.to_term(Reading::Exact) == sugar.to_term(Reading::Exact));
        },
        _ => {},
    }
}

proof fn lemma_index_kind(x: Expr, e: Term, items: Term, span: Span)
    requires
        x.to_term(Reading::Exact) == expr(node2(Tag::ExprIndexAccess, e, items), span),
    ensures
        x.kind is IndexAccess,
        x.kind->IndexAccess_expr.to_term(Reading::Exact) == e,
{
    reveal(ExprKind::to_term);
    match x.kind {
        ExprKind::Sugar(sugar) => {
            assert(x.kind.to_term(Reading::Exact) == sugar.to_term(Reading::Exact));
        },
        _ => {},
    }
}

proof fn lemma_bool_kind(x: Expr, value: bool, span: Span)
    requires
        x.to_term(Reading::Exact) == expr(node1(Tag::ExprBool, Term::Flag(value)), span),
    ensures
        x.kind == ExprKind::Bool(value),
{
    reveal(ExprKind::to_term);
    match x.kind {
        ExprKind::Sugar(sugar) => {
            assert(x.kind.to_term(Reading::Exact) == sugar.to_term(Reading::Exact));
        },
        _ => {},
    }
}

proof fn lemma_string_kind(x: Expr, value: Seq<char>, span: Span)
    requires
        x.to_term(Reading::Exact) == expr(node1(Tag::ExprStringLiteral, Term::Text(value)), span),
    ensures
        x.kind is StringLiteral,
        x.kind->StringLiteral_0@ == value,
{
    reveal(ExprKind::to_term);
    match x.kind {
        ExprKind::Sugar(sugar) => {
            assert(x.kind.to_term(Reading::Exact) == sugar.to_term(Reading::Exact));
        },
        _ => {},
    }
}

proof fn lemma_call_kind(x: Expr, callee: Term, generics: Term, items: Seq<Term>, span: Span)
    requires
        x.to_term(Reading::Exact) == expr(node3(Tag::ExprFnCall, callee, generics, Term::List(items)), span),
    ensures
        x.kind is FnCall,
        Expr::terms(x.kind->FnCall_args, Reading::Exact) == items,
{
    reveal(ExprKind::to_term);
    match x.kind {
        ExprKind::Sugar(sugar) => {
            assert(x.kind.to_term(Reading::Exact) == sugar.to_term(Reading::Exact));
        },
        _ => {},
    }
}

proof fn lemma_scan_kind(x: Expr, source: Term, init: Term, g: Input, m: int, n: int, body: Term, span: Span)
    requires
        x.to_term(Reading::Exact) == expr(
            node5(Tag::ExprScan, source, init, spanned_name(g, m), spanned_name(g, n), body), span),
    ensures
        x.kind is Scan,
        x.kind->source.to_term(Reading::Exact) == source,
        x.kind->Scan_init.to_term(Reading::Exact) == init,
        x.kind->acc_name.value.atom.text@ == g.text(m),
        x.kind->val_name.value.atom.text@ == g.text(n),
        x.kind->Scan_body.to_term(Reading::Exact) == body,
{
    reveal(ExprKind::to_term);
    match x.kind {
        ExprKind::Sugar(sugar) => {
            assert(x.kind.to_term(Reading::Exact) == sugar.to_term(Reading::Exact));
        },
        _ => {},
    }
}

proof fn lemma_unfold_kind(x: Expr, axis: Term, init: Term, g: Input, m: int, body: Term, span: Span)
    requires
        x.to_term(Reading::Exact) == expr(
            node6(
                Tag::ExprUnfold,
                axis,
                init,
                spanned_name(g, m),
                spanned_name(g, m + 2),
                spanned_name(g, m + 4),
                body,
            ), span),
    ensures
        x.kind is Unfold,
        x.kind->Unfold_init.to_term(Reading::Exact) == init,
        x.kind->prev_state_name.value.atom.text@ == g.text(m),
        x.kind->prev_index_name.value.atom.text@ == g.text(m + 2),
        x.kind->index_name.value.atom.text@ == g.text(m + 4),
        x.kind->Unfold_body.to_term(Reading::Exact) == body,
{
    reveal(ExprKind::to_term);
    match x.kind {
        ExprKind::Sugar(sugar) => {
            assert(x.kind.to_term(Reading::Exact) == sugar.to_term(Reading::Exact));
        },
        _ => {},
    }
}

proof fn lemma_key_kind(x: Expr, form: Term, axis: Term, arg: Term, span: Span)
    requires
        x.to_term(Reading::Exact) == expr(node3(Tag::ExprKeyForm, form, axis, arg), span),
    ensures
        x.kind is KeyForm,
        x.kind->arg.to_term(Reading::Exact) == arg,
{
    reveal(ExprKind::to_term);
    match x.kind {
        ExprKind::Sugar(sugar) => {
            assert(x.kind.to_term(Reading::Exact) == sugar.to_term(Reading::Exact));
        },
        _ => {},
    }
}

proof fn lemma_for_kind(x: Expr, bindings: Term, body: Term, span: Span)
    requires
        x.to_term(Reading::Exact) == expr(node2(Tag::ExprForComp, bindings, body), span),
    ensures
        x.kind is ForComp,
        x.kind->ForComp_body.to_term(Reading::Exact) == body,
{
    reveal(ExprKind::to_term);
    match x.kind {
        ExprKind::Sugar(sugar) => {
            assert(x.kind.to_term(Reading::Exact) == sugar.to_term(Reading::Exact));
        },
        _ => {},
    }
}

proof fn lemma_match_kind(x: Expr, scrutinee: Term, arms: Term, span: Span)
    requires
        x.to_term(Reading::Exact) == expr(node2(Tag::ExprMatch, scrutinee, arms), span),
    ensures
        x.kind is Match,
        x.kind->scrutinee.to_term(Reading::Exact) == scrutinee,
{
    reveal(ExprKind::to_term);
    match x.kind {
        ExprKind::Sugar(sugar) => {
            assert(x.kind.to_term(Reading::Exact) == sugar.to_term(Reading::Exact));
        },
        _ => {},
    }
}

// Forms.

proof fn lemma_unit_ahead(g: Input, p: int)
    ensures
        unit_expr(g, p) is Read ==> p < unit_expr(g, p)->Read_1,
{
    let op = if g.is(p, Token::LParen) {
        MulDivOp::Mul
    } else if reciprocal_at(g, p) {
        MulDivOp::Div
    } else {
        MulDivOp::Mul
    };
    let first = if g.is(p, Token::LParen) {
        p + 1
    } else if reciprocal_at(g, p) {
        p + 2
    } else {
        p
    };
    match unit_item(g, op, first) {
        Parse::Read(item, q) => lemma_units_ahead(g, q, seq![item]),
        Parse::Refused(_) => {},
    }
}

proof fn lemma_units_ahead(g: Input, p: int, items: Seq<Term>)
    ensures
        unit_items_rest(g, p, items) is Read ==> p <= unit_items_rest(g, p, items)->Read_1,
    decreases g.end() - p,
{
    match joining_op(g, p) {
        Some(op) => match unit_item(g, op, p + 1) {
            Parse::Read(item, q) => if p < q <= g.end() {
                lemma_units_ahead(g, q, items.push(item));
            },
            Parse::Refused(_) => {},
        },
        None => {},
    }
}

proof fn lemma_conversion(g: Input, p: int, d: nat)
    ensures
        reads(g, p, conversion(g, p, d), 0),
    decreases g.end() - p, 29int,
{
    reveal(stands);
    lemma_choice(g, p, d);
    match conditional(g, p, d) {
        Parse::Read(e, q) => if !g.is(q, Token::Arrow) {
            lemma_looser(g, p, q, e, 1, 0);
        } else if g.is(q + 1, Token::StringLiteral) {
            let span = merged(span_of(e), g.span(q + 1));
            let zone = g.quoted_text(q + 1);
            let t = expr(node2(Tag::ExprDisplayTimezone, e, Term::Text(zone)), span);
            assert forall|x: Expr| x.to_term(Reading::Exact) == t implies #[trigger] written(g, p, q + 2, x, 0) by {
                lemma_timezone_kind(x, e, zone, span);
                assert(written(g, p, q, *x.kind->DisplayTimezone_expr, 1));
                assert(in_order(g, p, q + 2, x));
            }
        } else {
            lemma_unit_ahead(g, q + 1);
            match unit_expr(g, q + 1) {
                Parse::Read(unit, r) => {
                    let span = merged(span_of(e), span_of(unit));
                    let t = expr(node2(Tag::ExprConvert, e, unit), span);
                    assert forall|x: Expr| x.to_term(Reading::Exact) == t implies #[trigger] written(
                        g,
                        p,
                        r,
                        x,
                        0,
                    ) by {
                        lemma_convert_kind(x, e, unit, span);
                        assert(written(g, p, q, *x.kind->Convert_expr, 1));
                        assert(in_order(g, p, r, x));
                    }
                },
                Parse::Refused(_) => {},
            }
        },
        Parse::Refused(_) => {},
    }
}

proof fn lemma_choice(g: Input, p: int, d: nat)
    ensures
        reads(g, p, conditional(g, p, d), 1),
    decreases g.end() - p, 28int,
{
    if !g.is(p, Token::If) {
        lemma_disjunction(g, p, d);
        lemma_loosened(g, p, disjunction(g, p, d), 2, 1);
    } else {
        lemma_expression(g, p + 1, d);
        match expression(g, p + 1, d) {
            Parse::Refused(_) => {},
            Parse::Read(c, q) => if ahead(g, p, q) && g.is(q, Token::LBrace) {
                lemma_expression(g, q + 1, d);
                match expression(g, q + 1, d) {
                    Parse::Refused(_) => {},
                    Parse::Read(a, r) => if ahead(g, q, r) && g.is(r, Token::RBrace) && g.is(r + 1, Token::Else)
                        && g.is(r + 2, Token::LBrace) {
                        lemma_expression(g, r + 3, d);
                        match expression(g, r + 3, d) {
                            Parse::Refused(_) => {},
                            Parse::Read(b, s) => if g.is(s, Token::RBrace) {
                                lemma_conditional(g, p, q, r, s + 1, c, a, b, merged(g.span(p), g.span(s)));
                            },
                        }
                    },
                }
            },
        }
    }
}

proof fn lemma_postfix(g: Input, p: int, d: nat)
    ensures
        reads(g, p, postfix(g, p, d), 9),
    decreases g.end() - p, 19int,
{
    match atom(g, p, d) {
        Parse::Read(e, q) => if ahead(g, p, q) {
            lemma_atom(g, p, d);
            lemma_postfix_rest(g, p, e, q, d);
        },
        Parse::Refused(_) => {},
    }
}

proof fn lemma_field(g: Input, p: int, q: int, e: Term, span: Span)
    requires
        stands(g, p, q - 2, e, 9),
    ensures
        stands(g, p, q, expr(node2(Tag::ExprFieldAccess, e, spanned_name(g, q - 1)), span), 9),
{
    reveal(stands);
    let t = expr(node2(Tag::ExprFieldAccess, e, spanned_name(g, q - 1)), span);
    assert forall|x: Expr| x.to_term(Reading::Exact) == t implies #[trigger] written(g, p, q, x, 9) by {
        lemma_field_kind(x, e, g, q - 1, span);
        assert(written(g, p, q - 2, *x.kind->FieldAccess_expr, 9));
        assert(in_order(g, p, q, x));
    }
}

proof fn lemma_index(g: Input, p: int, m: int, q: int, e: Term, items: Term, span: Span)
    requires
        stands(g, p, m, e, 9),
        m < q,
        g.is(m, Token::LBracket),
        g.is(q - 1, Token::RBracket),
    ensures
        stands(g, p, q, expr(node2(Tag::ExprIndexAccess, e, items), span), 9),
{
    reveal(stands);
    let t = expr(node2(Tag::ExprIndexAccess, e, items), span);
    assert forall|x: Expr| x.to_term(Reading::Exact) == t implies #[trigger] written(g, p, q, x, 9) by {
        lemma_index_kind(x, e, items, span);
        assert(written(g, p, m, *x.kind->IndexAccess_expr, 9));
        assert(in_order(g, p, q, x));
    }
}

proof fn lemma_postfix_rest(g: Input, start: int, e: Term, p: int, d: nat)
    requires
        stands(g, start, p, e, 9),
    ensures
        reads(g, start, postfix_rest(g, e, p, d), 9),
    decreases g.end() - p, 0int, 1nat,
{
    if g.is(p, Token::Dot) {
        lemma_postfix_field(g, start, e, p, d);
    } else if g.is(p, Token::LBracket) {
        lemma_postfix_index(g, start, e, p, d);
    }
}

#[verifier::rlimit(40)]
proof fn lemma_postfix_field(g: Input, start: int, e: Term, p: int, d: nat)
    requires
        g.is(p, Token::Dot),
        stands(g, start, p, e, 9),
    ensures
        reads(g, start, postfix_rest(g, e, p, d), 9),
    decreases g.end() - p, 0int, 0nat,
{
    if g.named(p + 1) {
        let span = merged(span_of(e), g.span(p + 1));
        lemma_field(g, start, p + 2, e, span);
        let t = expr(node2(Tag::ExprFieldAccess, e, spanned_name(g, p + 1)), span);
        lemma_postfix_rest(g, start, t, p + 2, d);
        assert(postfix_rest(g, e, p, d) == postfix_rest(g, t, p + 2, d));
    }
}

#[verifier::rlimit(40)]
proof fn lemma_postfix_index(g: Input, start: int, e: Term, p: int, d: nat)
    requires
        g.is(p, Token::LBracket),
        stands(g, start, p, e, 9),
    ensures
        reads(g, start, postfix_rest(g, e, p, d), 9),
    decreases g.end() - p, 0int, 0nat,
{
    match index_args(g, p + 1, d) {
        Parse::Refused(_) => {},
        Parse::Read(items, q) => if ahead(g, p, q) && g.is(q, Token::RBracket) {
            let span = merged(span_of(e), g.span(q));
            lemma_index(g, start, p, q + 1, e, items, span);
            let t = expr(node2(Tag::ExprIndexAccess, e, items), span);
            lemma_postfix_rest(g, start, t, q + 1, d);
            assert(postfix_rest(g, e, p, d) == postfix_rest(g, t, q + 1, d));
        },
    }
}

proof fn lemma_bool(g: Input, p: int, value: bool)
    requires
        g.is(p, if value { Token::True } else { Token::False }),
    ensures
        stands(g, p, p + 1, expr(node1(Tag::ExprBool, Term::Flag(value)), g.span(p)), 9),
{
    reveal(stands);
    let t = expr(node1(Tag::ExprBool, Term::Flag(value)), g.span(p));
    assert forall|x: Expr| x.to_term(Reading::Exact) == t implies #[trigger] written(g, p, p + 1, x, 9) by {
        lemma_bool_kind(x, value, g.span(p));
        assert(in_order(g, p, p + 1, x));
    }
}

proof fn lemma_string(g: Input, p: int)
    requires
        g.is(p, Token::StringLiteral),
    ensures
        stands(g, p, p + 1, expr(node1(Tag::ExprStringLiteral, Term::Text(g.quoted_text(p))), g.span(p)), 9),
{
    reveal(stands);
    let t = expr(node1(Tag::ExprStringLiteral, Term::Text(g.quoted_text(p))), g.span(p));
    assert forall|x: Expr| x.to_term(Reading::Exact) == t implies #[trigger] written(g, p, p + 1, x, 9) by {
        lemma_string_kind(x, g.quoted_text(p), g.span(p));
        assert(in_order(g, p, p + 1, x));
    }
}

proof fn lemma_parenthesised(g: Input, p: int, q: int, t: Term)
    requires
        g.is(p, Token::LParen),
        stands(g, p + 1, q - 1, t, 0),
        g.is(q - 1, Token::RParen),
    ensures
        stands(g, p, q, t, 9),
{
    reveal(stands);
    assert forall|x: Expr| x.to_term(Reading::Exact) == t implies #[trigger] written(g, p, q, x, 9) by {
        assert(written(g, p + 1, q - 1, x, 0));
    }
}

#[verifier::spinoff_prover]
#[verifier::rlimit(40)]
proof fn lemma_atom(g: Input, p: int, d: nat)
    requires
        atom(g, p, d) is Read ==> p < atom(g, p, d)->Read_1,
    ensures
        reads(g, p, atom(g, p, d), 9),
    decreases g.end() - p, 18int, 1nat,
{
    match g.token(p) {
        Some(Token::Number) => lemma_number(g, p, d),
        Some(Token::True) => lemma_bool(g, p, true),
        Some(Token::False) => lemma_bool(g, p, false),
        Some(Token::StringLiteral) => lemma_string(g, p),
        Some(Token::At) => lemma_at(g, p, d),
        Some(Token::ContextualKeyword(word)) => lemma_word(g, word, p, d),
        Some(Token::Ident) => lemma_name(g, p, d),
        Some(Token::For) => lemma_for_atom(g, p, d),
        Some(Token::LBrace) => lemma_brace_atom(g, p, d),
        Some(Token::Table) => lemma_table_atom(g, p, d),
        Some(Token::Match) => lemma_match_atom(g, p, d),
        Some(Token::LParen) => lemma_group(g, p, d),
        _ => {},
    }
}

proof fn lemma_number(g: Input, p: int, d: nat)
    requires
        g.is(p, Token::Number),
        atom(g, p, d) is Read ==> p < atom(g, p, d)->Read_1,
    ensures
        reads(g, p, atom(g, p, d), 9),
    decreases g.end() - p, 18int, 0nat,
{
    match number_expr(g, p) {
        Parse::Read(t, q) => lemma_plain(g, p, q, t),
        Parse::Refused(_) => {},
    }
}

proof fn lemma_name(g: Input, p: int, d: nat)
    requires
        g.is(p, Token::Ident),
        atom(g, p, d) is Read ==> p < atom(g, p, d)->Read_1,
    ensures
        reads(g, p, atom(g, p, d), 9),
    decreases g.end() - p, 18int, 0nat,
{
    lemma_identifier(g, p, d);
}

proof fn lemma_for_atom(g: Input, p: int, d: nat)
    requires
        g.is(p, Token::For),
        atom(g, p, d) is Read ==> p < atom(g, p, d)->Read_1,
    ensures
        reads(g, p, atom(g, p, d), 9),
    decreases g.end() - p, 18int, 0nat,
{
    lemma_for(g, p, d);
}

proof fn lemma_brace_atom(g: Input, p: int, d: nat)
    requires
        g.is(p, Token::LBrace),
        atom(g, p, d) is Read ==> p < atom(g, p, d)->Read_1,
    ensures
        reads(g, p, atom(g, p, d), 9),
    decreases g.end() - p, 18int, 0nat,
{
    lemma_brace(g, p, d);
}

proof fn lemma_table_atom(g: Input, p: int, d: nat)
    requires
        g.is(p, Token::Table),
        atom(g, p, d) is Read ==> p < atom(g, p, d)->Read_1,
    ensures
        reads(g, p, atom(g, p, d), 9),
    decreases g.end() - p, 18int, 0nat,
{
    lemma_table(g, p, d);
    match table_expr(g, p, d) {
        Parse::Read(t, q) => lemma_plain(g, p, q, t),
        Parse::Refused(_) => {},
    }
}

proof fn lemma_match_atom(g: Input, p: int, d: nat)
    requires
        g.is(p, Token::Match),
        atom(g, p, d) is Read ==> p < atom(g, p, d)->Read_1,
    ensures
        reads(g, p, atom(g, p, d), 9),
    decreases g.end() - p, 18int, 0nat,
{
    lemma_match(g, p, d);
}

proof fn lemma_group(g: Input, p: int, d: nat)
    requires
        g.is(p, Token::LParen),
        atom(g, p, d) is Read ==> p < atom(g, p, d)->Read_1,
    ensures
        reads(g, p, atom(g, p, d), 9),
    decreases g.end() - p, 18int, 0nat,
{
    lemma_expression(g, p + 1, d);
    match expression(g, p + 1, d) {
        Parse::Read(e, q) => if g.is(q, Token::RParen) {
            lemma_parenthesised(g, p, q + 1, e);
        },
        Parse::Refused(_) => {},
    }
}

proof fn lemma_word(g: Input, word: ContextualKeyword, p: int, d: nat)
    requires
        g.is(p, Token::ContextualKeyword(word)),
        atom(g, p, d) is Read ==> p < atom(g, p, d)->Read_1,
    ensures
        reads(g, p, atom(g, p, d), 9),
    decreases g.end() - p, 18int, 0nat,
{
    if !g.is(p + 1, Token::LParen) {
        lemma_identifier(g, p, d);
    } else if word == ContextualKeyword::Scan {
        lemma_scan(g, p, d);
    } else if word == ContextualKeyword::Unfold {
        lemma_unfold(g, p, d);
    } else {
        match key_form_kind(word) {
            Some(kind) => lemma_key_form(g, kind, p, d),
            None => lemma_identifier(g, p, d),
        }
    }
}

proof fn lemma_table(g: Input, p: int, d: nat)
    ensures
        table_expr(g, p, d) is Read ==> tag_of(table_expr(g, p, d)->Read_0) == Some(Tag::TableLiteral),
{
    match table_axes(g, p + 2, Seq::empty()) {
        (_, Parse::Read(_, _)) => {},
        (_, refused) => {},
    }
}

proof fn lemma_projected(g: Input, p: int, last: int)
    requires
        p <= last,
    ensures
        stands(g, p, last + 1, projections(g, p, last), 9),
    decreases last - p,
{
    if last <= p + 1 {
        lemma_plain(g, p, last + 1, projections(g, p, last));
    } else {
        lemma_projected(g, p, last - 2);
        let inner = projections(g, p, last - 2);
        lemma_field(g, p, last + 1, inner, merged(span_of(inner), g.span(last)));
    }
}

proof fn lemma_at(g: Input, p: int, d: nat)
    requires
        at_expr(g, p, d) is Read ==> p < at_expr(g, p, d)->Read_1,
    ensures
        reads(g, p, at_expr(g, p, d), 9),
{
    if g.named(p + 1) {
        let last = at_last(g, p + 1);
        if g.is(last + 1, Token::LParen) && last > p {
            match inline_dag_call(g, p, last, d) {
                Parse::Read(t, q) => {
                    match param_bindings(g, last + 2, d, Seq::empty(), Seq::empty()) {
                        Parse::Read(_, _) => {},
                        Parse::Refused(_) => {},
                    }
                    lemma_plain(g, p, q, t);
                },
                Parse::Refused(_) => {},
            }
        } else {
            lemma_projected(g, p, last);
        }
    }
}

proof fn lemma_map(g: Input, brace: int, p: int, d: nat, entries: Seq<Term>)
    ensures
        map_entries(g, brace, p, d, entries) is Read ==> plain(tag_of(map_entries(g, brace, p, d, entries)->Read_0)),
    decreases g.end() - p,
{
    if g.is(p, Token::Comma) && !g.is(p + 1, Token::RBrace) {
        match variant_path(g, p + 1) {
            Parse::Refused(_) => {},
            Parse::Read(_, q) => if ahead(g, p, q) && g.is(q, Token::Colon) {
                match expression(g, q + 1, d) {
                    Parse::Refused(_) => {},
                    Parse::Read(value, r) => if ahead(g, q, r) {
                        lemma_map(
                            g,
                            brace,
                            r,
                            d,
                            entries.push(map_entry(seq![variant_key(g, p + 1, q - 1)], value)),
                        );
                    },
                }
            },
        }
    }
}

proof fn lemma_coordinates(g: Input, brace: int, p: int, d: nat, entries: Seq<Term>)
    ensures
        coordinate_entries(g, brace, p, d, entries) is Read ==> plain(
            tag_of(coordinate_entries(g, brace, p, d, entries)->Read_0),
        ),
    decreases g.end() - p,
{
    if g.is(p, Token::Comma) && !g.is(p + 1, Token::RBrace) {
        match expression(g, p + 1, d) {
            Parse::Refused(_) => {},
            Parse::Read(key, q) => if ahead(g, p, q) && g.is(q, Token::Colon) {
                match expression(g, q + 1, d) {
                    Parse::Refused(_) => {},
                    Parse::Read(value, r) => if ahead(g, q, r) {
                        lemma_coordinates(
                            g,
                            brace,
                            r,
                            d,
                            entries.push(map_entry(seq![contextual_key(key)], value)),
                        );
                    },
                }
            },
        }
    }
}

proof fn lemma_tuples(g: Input, brace: int, p: int, d: nat, entries: Seq<Term>)
    ensures
        tuple_entries(g, brace, p, d, entries) is Read ==> plain(
            tag_of(tuple_entries(g, brace, p, d, entries)->Read_0),
        ),
    decreases g.end() - p,
{
    if g.is(p, Token::LParen) {
        match tuple_keys(g, p + 1, d, Seq::empty()) {
            Parse::Refused(_) => {},
            Parse::Read(keys, q) => if ahead(g, p, q) {
                match expression(g, q + 2, d) {
                    Parse::Refused(_) => {},
                    Parse::Read(value, r) => if ahead(g, q, r) && g.is(r, Token::Comma) {
                        lemma_tuples(g, brace, r + 1, d, entries.push(node2(Tag::MapEntry, keys, value)));
                    },
                }
            },
        }
    }
}

proof fn lemma_brace(g: Input, p: int, d: nat)
    requires
        brace_expr(g, p, d) is Read ==> p < brace_expr(g, p, d)->Read_1,
    ensures
        reads(g, p, brace_expr(g, p, d), 9),
{
    if g.named(p + 1) {
        if g.is(p + 2, Token::Dot) {
            match variant_path(g, p + 1) {
                Parse::Refused(_) => {},
                Parse::Read(_, q) => match expression(g, q + 1, d) {
                    Parse::Refused(_) => {},
                    Parse::Read(value, r) => lemma_map(
                        g,
                        p,
                        r,
                        d,
                        seq![map_entry(seq![variant_key(g, p + 1, q - 1)], value)],
                    ),
                },
            }
        }
    } else if g.is(p + 1, Token::Number) || g.is(p + 1, Token::Minus) {
        match expression(g, p + 1, d) {
            Parse::Refused(_) => {},
            Parse::Read(key, q) => match expression(g, q + 1, d) {
                Parse::Refused(_) => {},
                Parse::Read(value, r) => lemma_coordinates(
                    g,
                    p,
                    r,
                    d,
                    seq![map_entry(seq![contextual_key(key)], value)],
                ),
            },
        }
    } else if g.is(p + 1, Token::LParen) {
        lemma_tuples(g, p, p + 1, d, Seq::empty());
    }
    match brace_expr(g, p, d) {
        Parse::Read(t, q) => {
            assert(plain(tag_of(t)));
            lemma_plain(g, p, q, t);
        },
        Parse::Refused(_) => {},
    }
}

proof fn lemma_identifier(g: Input, p: int, d: nat)
    requires
        identifier_expr(g, p, d) is Read ==> p < identifier_expr(g, p, d)->Read_1,
    ensures
        reads(g, p, identifier_expr(g, p, d), 9),
    decreases g.end() - p, 17int,
{
    if g.named(p) {
        let last = path_last(g, p);
        let q = last + 1;
        if g.is(q, Token::LParen) {
            if last >= p {
                lemma_call(g, p, last, Seq::empty(), q, d);
            }
        } else if g.is(q, Token::Lt) && generic_args_followed_by(g, q, 40) {
            if last >= p {
                match generic_args(g, q, d) {
                    Parse::Read(Term::List(items), r) => if ahead(g, q, r) {
                        lemma_call(g, p, last, items, r, d);
                    },
                    Parse::Read(_, _) => {},
                    Parse::Refused(_) => {},
                }
            }
        } else {
            lemma_plain(
                g,
                p,
                q,
                expr(node1(Tag::ExprUnresolvedRef, path_term(g, p, last)), path_span(g, p, last)),
            );
        }
    }
}

/// Whether every list of expressions that begins with some trees is written
/// from `p` to `q`, a comma behind each.
spec fn leads(g: Input, p: int, q: int, items: Seq<Term>) -> bool {
    p <= q && forall|xs: Vec<Expr>|
        items.len() <= xs@.len() && (forall|i: int|
            0 <= i < items.len() ==> (#[trigger] xs@[i]).to_term(Reading::Exact) == items[i]) ==> #[trigger] led(
            g,
            p,
            q,
            xs,
            items.len(),
        )
}

spec fn lists(g: Input, p: int, q: int, items: Seq<Term>) -> bool {
    p <= q && forall|xs: Vec<Expr>| Expr::terms(xs, Reading::Exact) == items ==> #[trigger] listed(g, p, q, xs)
}

proof fn lemma_led(g: Input, p: int, m: int, q: int, items: Seq<Term>, item: Term)
    requires
        leads(g, p, m, items),
        stands(g, m, q, item, 0),
        g.is(q, Token::Comma),
    ensures
        leads(g, p, q + 1, items.push(item)),
{
    reveal(stands);
    let all = items.push(item);
    assert forall|xs: Vec<Expr>|
        all.len() <= xs@.len() && (forall|i: int|
            0 <= i < all.len() ==> (#[trigger] xs@[i]).to_term(Reading::Exact) == all[i]) implies #[trigger] led(
        g,
        p,
        q + 1,
        xs,
        all.len(),
    ) by {
        assert forall|i: int| 0 <= i < items.len() implies (#[trigger] xs@[i]).to_term(Reading::Exact) == items[i] by {
            assert(all[i] == items[i]);
        }
        assert(led(g, p, m, xs, items.len()));
        assert(xs@[items.len() as int].to_term(Reading::Exact) == item);
        assert(written(g, m, q, xs@[items.len() as int], 0));
        assert(reaches(p, m));
    }
}

proof fn lemma_listed(g: Input, p: int, m: int, q: int, items: Seq<Term>, item: Term)
    requires
        leads(g, p, m, items),
        stands(g, m, q, item, 0),
    ensures
        lists(g, p, q, items.push(item)),
{
    reveal(stands);
    let all = items.push(item);
    assert forall|xs: Vec<Expr>| Expr::terms(xs, Reading::Exact) == all implies #[trigger] listed(g, p, q, xs) by {
        assert(Expr::terms(xs, Reading::Exact).len() == xs@.len());
        assert forall|i: int| 0 <= i < items.len() implies (#[trigger] xs@[i]).to_term(Reading::Exact) == items[i] by {
            assert(all[i] == items[i]);
            assert(Expr::terms(xs, Reading::Exact)[i] == all[i]);
        }
        assert(Expr::terms(xs, Reading::Exact)[items.len() as int] == item);
        assert(led(g, p, m, xs, items.len()));
        assert(written(g, m, q, xs@[items.len() as int], 0));
        assert(reaches(p, m));
    }
}

proof fn lemma_all_led(g: Input, p: int, q: int, items: Seq<Term>)
    requires
        leads(g, p, q, items),
    ensures
        lists(g, p, q, items),
{
    assert forall|xs: Vec<Expr>| Expr::terms(xs, Reading::Exact) == items implies #[trigger] listed(g, p, q, xs) by {
        assert(Expr::terms(xs, Reading::Exact).len() == xs@.len());
        assert forall|i: int| 0 <= i < items.len() implies (#[trigger] xs@[i]).to_term(Reading::Exact) == items[i] by {
            assert(Expr::terms(xs, Reading::Exact)[i] == items[i]);
        }
        assert(led(g, p, q, xs, items.len()));
    }
}

proof fn lemma_args(g: Input, start: int, p: int, d: nat, items: Seq<Term>)
    requires
        leads(g, start, p, items),
    ensures
        args(g, p, d, items) is Read ==> args(g, p, d, items)->Read_0 is List && lists(
            g,
            start,
            args(g, p, d, items)->Read_1,
            args(g, p, d, items)->Read_0->List_0,
        ),
    decreases g.end() - p, 32int,
{
    if g.is(p, Token::RParen) {
        lemma_all_led(g, start, p, items);
    } else {
        lemma_expression(g, p, d);
        match expression(g, p, d) {
            Parse::Refused(_) => {},
            Parse::Read(item, q) => if ahead(g, p, q) {
                if g.is(q, Token::Comma) {
                    lemma_led(g, start, p, q, items, item);
                    lemma_args(g, start, q + 1, d, items.push(item));
                } else {
                    lemma_listed(g, start, p, q, items, item);
                }
            },
        }
    }
}

#[verifier::spinoff_prover]
#[verifier::rlimit(40)]
proof fn lemma_call(g: Input, p: int, last: int, generics: Seq<Term>, q: int, d: nat)
    requires
        p <= last < q,
        call(g, p, last, generics, q, d) is Read ==> p < call(g, p, last, generics, q, d)->Read_1,
    ensures
        reads(g, p, call(g, p, last, generics, q, d), 9),
    decreases g.end() - q, 33int,
{
    let first = if q < g.end() { q + 1 } else { q };
    if named_args_at(g, q) {
        lemma_constructed(g, p, last, generics, q, d);
        match call(g, p, last, generics, q, d) {
            Parse::Read(t, r) => lemma_plain(g, p, r, t),
            Parse::Refused(_) => {},
        }
    } else {
        lemma_none_led(g, first);
        lemma_args(g, first, first, d, Seq::empty());
        match args(g, first, d, Seq::empty()) {
            Parse::Refused(_) => {},
            Parse::Read(items, r) => if g.is(r, Token::RParen) {
                lemma_called(
                    g,
                    p,
                    first,
                    r + 1,
                    path_term(g, p, last),
                    Term::List(generics),
                    items->List_0,
                    merged(path_span(g, p, last), g.span(r)),
                );
            },
        }
    }
}

proof fn lemma_none_led(g: Input, p: int)
    ensures
        leads(g, p, p, Seq::empty()),
{
}

proof fn lemma_constructed(g: Input, p: int, last: int, generics: Seq<Term>, q: int, d: nat)
    requires
        named_args_at(g, q),
    ensures
        call(g, p, last, generics, q, d) is Read ==> plain(tag_of(call(g, p, last, generics, q, d)->Read_0)),
{
    match field_inits(g, if q < g.end() { q + 1 } else { q }, d, Seq::empty()) {
        Parse::Read(_, _) => {},
        Parse::Refused(_) => {},
    }
}

proof fn lemma_called(
    g: Input,
    p: int,
    m: int,
    q: int,
    callee: Term,
    generics: Term,
    items: Seq<Term>,
    span: Span,
)
    requires
        p <= m,
        lists(g, m, q - 1, items),
        g.is(q - 1, Token::RParen),
    ensures
        stands(g, p, q, expr(node3(Tag::ExprFnCall, callee, generics, Term::List(items)), span), 9),
{
    reveal(stands);
    let t = expr(node3(Tag::ExprFnCall, callee, generics, Term::List(items)), span);
    assert forall|x: Expr| x.to_term(Reading::Exact) == t implies #[trigger] written(g, p, q, x, 9) by {
        lemma_call_kind(x, callee, generics, items, span);
        assert(listed(g, m, q - 1, x.kind->FnCall_args));
        assert(reaches(p, m));
        assert(in_order(g, p, q, x));
    }
}

/// Whether a fold's parts stand where they are read.
spec fn folds(g: Input, p: int, n: int, fold: Fold) -> bool {
    match fold {
        Fold::Read(init, body, names, close) => {
            &&& g.is(p, Token::Comma)
            &&& stands(g, p + 1, names - 2, init, 0)
            &&& folds_body(g, n, names, close, body)
        },
        Fold::Refused(_) => true,
    }
}

spec fn folds_body(g: Input, n: int, names: int, close: int, body: Term) -> bool {
    &&& g.is(names - 2, Token::Comma)
    &&& stands(g, names + 2 * n, close, body, 0)
    &&& g.is(close, Token::RParen)
}

proof fn lemma_binders(g: Input, p: int, n: int)
    requires
        0 <= n,
    ensures
        binders(g, p, n) is Read ==> binders(g, p, n)->Read_1 == p + 2 * n,
    decreases n,
{
    if n > 0 {
        lemma_binders(g, p + 2, n - 1);
    }
}

proof fn lemma_fold_body(g: Input, init: Term, p: int, n: int, d: nat)
    requires
        0 <= n,
    ensures
        match fold_body(g, init, p, n, d) {
            Fold::Read(first, body, names, close) => first == init && names == p + 2 && folds_body(
                g,
                n,
                names,
                close,
                body,
            ),
            Fold::Refused(_) => true,
        },
    decreases g.end() - p, 16int,
{
    lemma_binders(g, p + 2, n);
    if g.is(p, Token::Comma) && g.is(p + 1, Token::Pipe) {
        match binders(g, p + 2, n) {
            Parse::Refused(_) => {},
            Parse::Read(_, q) => if ahead(g, p, q) {
                lemma_expression(g, q, d);
            },
        }
    }
}

#[verifier::spinoff_prover]
#[verifier::rlimit(40)]
proof fn lemma_fold(g: Input, p: int, n: int, d: nat)
    requires
        0 <= n,
    ensures
        folds(g, p, n, fold_rest(g, p, n, d)),
    decreases g.end() - p, 16int,
{
    if g.is(p, Token::Comma) {
        lemma_expression(g, p + 1, d);
        match expression(g, p + 1, d) {
            Parse::Refused(_) => {},
            Parse::Read(init, q) => if ahead(g, p, q) {
                lemma_fold_body(g, init, q, n, d);
                lemma_folds(g, p, q, n, init, fold_body(g, init, q, n, d));
                assert(fold_rest(g, p, n, d) == fold_body(g, init, q, n, d));
            },
        }
    }
}

proof fn lemma_folds(g: Input, p: int, q: int, n: int, init: Term, fold: Fold)
    requires
        g.is(p, Token::Comma),
        stands(g, p + 1, q, init, 0),
        match fold {
            Fold::Read(first, body, names, close) => first == init && names == q + 2 && folds_body(
                g,
                n,
                names,
                close,
                body,
            ),
            Fold::Refused(_) => true,
        },
    ensures
        folds(g, p, n, fold),
{
}

proof fn lemma_scan(g: Input, p: int, d: nat)
    ensures
        reads(g, p, scan_expr(g, p, d), 9),
    decreases g.end() - p, 17int,
{
    if g.is(p + 1, Token::LParen) {
        lemma_expression(g, p + 2, d);
        match expression(g, p + 2, d) {
            Parse::Refused(_) => {},
            Parse::Read(source, q) => if ahead(g, p, q) {
                lemma_fold(g, q, 2, d);
                match fold_rest(g, q, 2, d) {
                    Fold::Refused(_) => {},
                    Fold::Read(init, body, names, close) => lemma_scanned(
                        g,
                        p,
                        q,
                        names,
                        close,
                        source,
                        init,
                        body,
                    ),
                }
            },
        }
    }
}

proof fn lemma_scanned(
    g: Input,
    p: int,
    m: int,
    names: int,
    close: int,
    source: Term,
    init: Term,
    body: Term,
)
    requires
        g.is(p + 1, Token::LParen),
        stands(g, p + 2, m, source, 0),
        folds(g, m, 2, Fold::Read(init, body, names, close)),
    ensures
        stands(
            g,
            p,
            close + 1,
            expr(
                node5(Tag::ExprScan, source, init, spanned_name(g, names), spanned_name(g, names + 2), body),
                merged(g.span(p), g.span(close)),
            ),
            9,
        ),
{
    reveal(stands);
    let span = merged(g.span(p), g.span(close));
    let q = close + 1;
    let n = names - 2;
    let t = expr(
        node5(Tag::ExprScan, source, init, spanned_name(g, names), spanned_name(g, names + 2), body),
        span,
    );
    assert forall|x: Expr| x.to_term(Reading::Exact) == t implies #[trigger] written(g, p, q, x, 9) by {
        lemma_scan_kind(x, source, init, g, names, names + 2, body, span);
        assert(written(g, p + 2, m, *x.kind->source, 0));
        assert(written(g, m + 1, n, *x.kind->Scan_init, 0));
        assert(written(g, n + 6, q - 1, *x.kind->Scan_body, 0));
        assert(g.is(m, Token::Comma) && g.is(n, Token::Comma));
        assert(in_order(g, p, q, x));
    }
}

proof fn lemma_unfold(g: Input, p: int, d: nat)
    requires
        p < g.end(),
    ensures
        reads(g, p, unfold_expr(g, p, d), 9),
    decreases g.end() - p, 17int,
{
    match named_path(g, p + 2) {
        Parse::Refused(_) => {},
        Parse::Read(axis, q) => if ahead(g, p, q) {
            lemma_fold(g, q, 3, d);
            match fold_rest(g, q, 3, d) {
                Fold::Refused(_) => {},
                Fold::Read(init, body, names, close) => lemma_unfolded(g, p, q, names, close, axis, init, body),
            }
        },
    }
}

proof fn lemma_unfolded(
    g: Input,
    p: int,
    m: int,
    names: int,
    close: int,
    axis: Term,
    init: Term,
    body: Term,
)
    requires
        p < m,
        folds(g, m, 3, Fold::Read(init, body, names, close)),
    ensures
        stands(
            g,
            p,
            close + 1,
            expr(
                node6(
                    Tag::ExprUnfold,
                    axis,
                    init,
                    spanned_name(g, names),
                    spanned_name(g, names + 2),
                    spanned_name(g, names + 4),
                    body,
                ),
                merged(g.span(p), g.span(close)),
            ),
            9,
        ),
{
    reveal(stands);
    let span = merged(g.span(p), g.span(close));
    let q = close + 1;
    let n = names - 2;
    let t = expr(
        node6(
            Tag::ExprUnfold,
            axis,
            init,
            spanned_name(g, names),
            spanned_name(g, names + 2),
            spanned_name(g, names + 4),
            body,
        ),
        span,
    );
    assert forall|x: Expr| x.to_term(Reading::Exact) == t implies #[trigger] written(g, p, q, x, 9) by {
        lemma_unfold_kind(x, axis, init, g, names, body, span);
        assert(written(g, m + 1, n, *x.kind->Unfold_init, 0));
        assert(written(g, n + 8, q - 1, *x.kind->Unfold_body, 0));
        assert(g.is(m, Token::Comma) && g.is(n, Token::Comma));
        assert(in_order(g, p, q, x));
    }
}

proof fn lemma_key_form(g: Input, kind: KeyFormKind, p: int, d: nat)
    requires
        p < g.end(),
    ensures
        reads(g, p, key_form(g, kind, p, d), 9),
    decreases g.end() - p, 17int,
{
    reveal(stands);
    match index_expr(g, p + 2) {
        Parse::Refused(_) => {},
        Parse::Read(axis, q) => if ahead(g, p, q) && g.is(q, Token::Comma) {
            lemma_expression(g, q + 1, d);
            match expression(g, q + 1, d) {
                Parse::Refused(_) => {},
                Parse::Read(arg, r) => if g.is(r, Token::RParen) {
                    let span = merged(g.span(p), g.span(r));
                    let form = Term::Symbol(Symbol::KeyFormKind(kind));
                    let t = expr(node3(Tag::ExprKeyForm, form, axis, arg), span);
                    assert forall|x: Expr| x.to_term(Reading::Exact) == t implies #[trigger] written(
                        g,
                        p,
                        r + 1,
                        x,
                        9,
                    ) by {
                        lemma_key_kind(x, form, axis, arg, span);
                        assert(written(g, q + 1, r, *x.kind->arg, 0));
                        assert(in_order(g, p, r + 1, x));
                    }
                },
            }
        },
    }
}

proof fn lemma_for(g: Input, p: int, d: nat)
    requires
        p < g.end(),
    ensures
        reads(g, p, for_comp(g, p, d), 9),
    decreases g.end() - p, 17int,
{
    reveal(stands);
    match for_bindings(g, p + 1, Seq::empty()) {
        Parse::Refused(_) => {},
        Parse::Read(bindings, q) => if g.is(q, Token::LBrace) {
            let start = if tuple_key_at(g, q + 1) { behind_fat_arrow(g, q + 1) } else { q + 1 };
            if ahead(g, p, start) {
                lemma_expression(g, start, d);
                match expression(g, start, d) {
                    Parse::Refused(_) => {},
                    Parse::Read(body, r) => if g.is(r, Token::RBrace) {
                        let span = merged(g.span(p), g.span(r));
                        let t = expr(node2(Tag::ExprForComp, bindings, body), span);
                        assert forall|x: Expr| x.to_term(Reading::Exact) == t implies #[trigger] written(
                            g,
                            p,
                            r + 1,
                            x,
                            9,
                        ) by {
                            lemma_for_kind(x, bindings, body, span);
                            assert(written(g, start, r, *x.kind->ForComp_body, 0));
                            assert(reaches(p, start));
                            assert(in_order(g, p, r + 1, x));
                        }
                    },
                }
            }
        },
    }
}

proof fn lemma_match(g: Input, p: int, d: nat)
    requires
        match_expr(g, p, d) is Read ==> p < match_expr(g, p, d)->Read_1,
    ensures
        reads(g, p, match_expr(g, p, d), 9),
    decreases g.end() - p, 17int,
{
    reveal(stands);
    if g.is(p, Token::Match) {
        lemma_expression(g, p + 1, d);
        match expression(g, p + 1, d) {
            Parse::Refused(_) => {},
            Parse::Read(scrutinee, q) => if ahead(g, p, q) && g.is(q, Token::LBrace) {
                match match_arms(g, q + 1, d, Seq::empty()) {
                    Parse::Refused(_) => {},
                    Parse::Read(arms, r) => if g.is(r, Token::RBrace) {
                        let span = merged(g.span(p), g.span(r));
                        let t = expr(node2(Tag::ExprMatch, scrutinee, arms), span);
                        assert forall|x: Expr| x.to_term(Reading::Exact) == t implies #[trigger] written(
                            g,
                            p,
                            r + 1,
                            x,
                            9,
                        ) by {
                            lemma_match_kind(x, scrutinee, arms, span);
                            assert(written(g, p + 1, q, *x.kind->scrutinee, 0));
                            assert(in_order(g, p, r + 1, x));
                        }
                    },
                }
            },
        }
    }
}

} // verus!
