//! The grammar of expressions and types: the phrases that hold one another.

use crate::syntax::ast::{BinOp, DomainBoundKind, KeyFormKind, UnaryOp};
use crate::syntax::desugar::discrete_key;
use crate::syntax::parser::error::unexpected;
use crate::syntax::parser::grammar::{
    additive_op, binary, comparison_op, dim_expr, expr, fin_at, finite, generic_args_followed_by, ident, index_expr,
    index_exprs_rest, kind_of, multiplicative_op, name_path, named_args_at, named_path, number_expr, path_idents,
    path_last, path_span, path_term, power_exponent, quoted, refuse, span_of, spanned_name, stuck, tuple_key_at,
    unit_expr, variant_path, Input, Parse, NESTING_LIMIT,
};
use crate::syntax::parser::table_grammar::table_expr;
use crate::syntax::span::{merged, Span};
use crate::syntax::term::{node0, node1, node2, node3, node5, node6, pair, Symbol, Tag, Term};
use crate::syntax::token::{ContextualKeyword, Token};
use vstd::prelude::*;

verus! {

/// Whether a phrase from `p` on that ends before `q` takes at least one token.
pub open spec fn ahead(g: Input, p: int, q: int) -> bool {
    p < q <= g.end()
}

/// The refusal of a nesting that is too deep.
pub open spec fn too_deep(g: Input, p: int) -> Parse {
    Parse::Refused(node1(Tag::TooDeeplyNested, Term::At(g.span(p))))
}

/// An expression.
pub open spec fn expression(g: Input, p: int, d: nat) -> Parse
    decreases g.end() - p, 30int,
{
    if d >= NESTING_LIMIT {
        too_deep(g, p)
    } else {
        conversion(g, p, d + 1)
    }
}

/// `e -> unit`, `e -> "time zone"`, or what binds tighter.
pub open spec fn conversion(g: Input, p: int, d: nat) -> Parse
    decreases g.end() - p, 29int,
{
    match conditional(g, p, d) {
        Parse::Read(e, q) => if !g.is(q, Token::Arrow) {
            Parse::Read(e, q)
        } else if g.is(q + 1, Token::StringLiteral) {
            Parse::Read(
                expr(
                    node2(Tag::ExprDisplayTimezone, e, Term::Text(g.quoted_text(q + 1))),
                    merged(span_of(e), g.span(q + 1)),
                ),
                q + 2,
            )
        } else {
            match unit_expr(g, q + 1) {
                Parse::Read(unit, r) => Parse::Read(
                    expr(node2(Tag::ExprConvert, e, unit), merged(span_of(e), span_of(unit))),
                    r,
                ),
                Parse::Refused(e) => Parse::Refused(e),
            }
        },
        Parse::Refused(e) => Parse::Refused(e),
    }
}

/// `if c { a } else { b }`, or what binds tighter.
pub open spec fn conditional(g: Input, p: int, d: nat) -> Parse
    decreases g.end() - p, 28int,
{
    if !g.is(p, Token::If) {
        disjunction(g, p, d)
    } else {
        match expression(g, p + 1, d) {
            Parse::Refused(e) => Parse::Refused(e),
            Parse::Read(c, q) => if !ahead(g, p, q) {
                stuck()
            } else if !g.is(q, Token::LBrace) {
                refuse(g, q, quoted(Token::LBrace))
            } else {
                match expression(g, q + 1, d) {
                    Parse::Refused(e) => Parse::Refused(e),
                    Parse::Read(a, r) => if !ahead(g, q, r) {
                        stuck()
                    } else if !g.is(r, Token::RBrace) {
                        refuse(g, r, quoted(Token::RBrace))
                    } else if !g.is(r + 1, Token::Else) {
                        refuse(g, r + 1, quoted(Token::Else))
                    } else if !g.is(r + 2, Token::LBrace) {
                        refuse(g, r + 2, quoted(Token::LBrace))
                    } else {
                        match expression(g, r + 3, d) {
                            Parse::Refused(e) => Parse::Refused(e),
                            Parse::Read(b, s) => if !g.is(s, Token::RBrace) {
                                refuse(g, s, quoted(Token::RBrace))
                            } else {
                                Parse::Read(
                                    expr(node3(Tag::ExprIf, c, a, b), merged(g.span(p), g.span(s))),
                                    s + 1,
                                )
                            },
                        }
                    },
                }
            },
        }
    }
}

pub open spec fn disjunction(g: Input, p: int, d: nat) -> Parse
    decreases g.end() - p, 27int,
{
    match conjunction(g, p, d) {
        Parse::Read(lhs, q) => if ahead(g, p, q) { disjunction_rest(g, lhs, q, d) } else { stuck() },
        Parse::Refused(e) => Parse::Refused(e),
    }
}

pub open spec fn disjunction_rest(g: Input, lhs: Term, p: int, d: nat) -> Parse
    decreases g.end() - p, 0int,
{
    if !g.is(p, Token::PipePipe) {
        Parse::Read(lhs, p)
    } else {
        match conjunction(g, p + 1, d) {
            Parse::Read(rhs, q) => if ahead(g, p, q) {
                disjunction_rest(g, binary(BinOp::Or, lhs, rhs), q, d)
            } else {
                stuck()
            },
            Parse::Refused(e) => Parse::Refused(e),
        }
    }
}

pub open spec fn conjunction(g: Input, p: int, d: nat) -> Parse
    decreases g.end() - p, 26int,
{
    match comparison(g, p, d) {
        Parse::Read(lhs, q) => if ahead(g, p, q) { conjunction_rest(g, lhs, q, d) } else { stuck() },
        Parse::Refused(e) => Parse::Refused(e),
    }
}

pub open spec fn conjunction_rest(g: Input, lhs: Term, p: int, d: nat) -> Parse
    decreases g.end() - p, 0int,
{
    if !g.is(p, Token::AmpAmp) {
        Parse::Read(lhs, p)
    } else {
        match comparison(g, p + 1, d) {
            Parse::Read(rhs, q) => if ahead(g, p, q) {
                conjunction_rest(g, binary(BinOp::And, lhs, rhs), q, d)
            } else {
                stuck()
            },
            Parse::Refused(e) => Parse::Refused(e),
        }
    }
}

pub open spec fn comparison(g: Input, p: int, d: nat) -> Parse
    decreases g.end() - p, 25int,
{
    match sum(g, p, d) {
        Parse::Read(lhs, q) => match comparison_op(g.token(q)) {
            None => Parse::Read(lhs, q),
            Some(op) => if !ahead(g, p, q) {
                stuck()
            } else {
                match sum(g, q + 1, d) {
                    Parse::Read(rhs, r) => Parse::Read(binary(op, lhs, rhs), r),
                    Parse::Refused(e) => Parse::Refused(e),
                }
            },
        },
        Parse::Refused(e) => Parse::Refused(e),
    }
}

pub open spec fn sum(g: Input, p: int, d: nat) -> Parse
    decreases g.end() - p, 24int,
{
    match product(g, p, d) {
        Parse::Read(lhs, q) => if ahead(g, p, q) { sum_rest(g, lhs, q, d) } else { stuck() },
        Parse::Refused(e) => Parse::Refused(e),
    }
}

pub open spec fn sum_rest(g: Input, lhs: Term, p: int, d: nat) -> Parse
    decreases g.end() - p, 0int,
{
    match additive_op(g.token(p)) {
        None => Parse::Read(lhs, p),
        Some(op) => match product(g, p + 1, d) {
            Parse::Read(rhs, q) => if ahead(g, p, q) {
                sum_rest(g, binary(op, lhs, rhs), q, d)
            } else {
                stuck()
            },
            Parse::Refused(e) => Parse::Refused(e),
        },
    }
}

pub open spec fn product(g: Input, p: int, d: nat) -> Parse
    decreases g.end() - p, 23int,
{
    match unary(g, p, d) {
        Parse::Read(lhs, q) => if ahead(g, p, q) { product_rest(g, lhs, q, d) } else { stuck() },
        Parse::Refused(e) => Parse::Refused(e),
    }
}

pub open spec fn product_rest(g: Input, lhs: Term, p: int, d: nat) -> Parse
    decreases g.end() - p, 0int,
{
    match multiplicative_op(g.token(p)) {
        None => Parse::Read(lhs, p),
        Some(op) => match unary(g, p + 1, d) {
            Parse::Read(rhs, q) => if ahead(g, p, q) {
                product_rest(g, binary(op, lhs, rhs), q, d)
            } else {
                stuck()
            },
            Parse::Refused(e) => Parse::Refused(e),
        },
    }
}

pub open spec fn unary(g: Input, p: int, d: nat) -> Parse
    decreases g.end() - p, 22int,
{
    if d >= NESTING_LIMIT {
        too_deep(g, p)
    } else {
        unary_inner(g, p, d + 1)
    }
}

pub open spec fn prefix_op(token: Option<Token>) -> Option<UnaryOp> {
    match token {
        Some(Token::Minus) => Some(UnaryOp::Neg),
        Some(Token::Bang) => Some(UnaryOp::Not),
        _ => None,
    }
}

pub open spec fn unary_inner(g: Input, p: int, d: nat) -> Parse
    decreases g.end() - p, 21int,
{
    match prefix_op(g.token(p)) {
        None => power(g, p, d),
        Some(op) => match unary(g, p + 1, d) {
            Parse::Read(e, q) => Parse::Read(
                expr(
                    node2(Tag::ExprUnaryOp, Term::Symbol(Symbol::UnaryOp(op)), e),
                    merged(g.span(p), span_of(e)),
                ),
                q,
            ),
            Parse::Refused(e) => Parse::Refused(e),
        },
    }
}

/// `base ^ exponent`: the exponent is read as a prefix expression, so powers
/// group to the right.
pub open spec fn power(g: Input, p: int, d: nat) -> Parse
    decreases g.end() - p, 20int,
{
    match postfix(g, p, d) {
        Parse::Read(base, q) => if !g.is(q, Token::Caret) {
            Parse::Read(base, q)
        } else if !ahead(g, p, q) {
            stuck()
        } else {
            match unary(g, q + 1, d) {
                Parse::Read(e, r) => match power_exponent(g, e) {
                    Ok(written) => Parse::Read(binary(BinOp::Pow(written), base, e), r),
                    Err(error) => Parse::Refused(error),
                },
                Parse::Refused(e) => Parse::Refused(e),
            }
        },
        Parse::Refused(e) => Parse::Refused(e),
    }
}

pub open spec fn postfix(g: Input, p: int, d: nat) -> Parse
    decreases g.end() - p, 19int,
{
    match atom(g, p, d) {
        Parse::Read(e, q) => if ahead(g, p, q) { postfix_rest(g, e, q, d) } else { stuck() },
        Parse::Refused(e) => Parse::Refused(e),
    }
}

/// `.field` and `[index, ...]` as often as they follow.
pub open spec fn postfix_rest(g: Input, e: Term, p: int, d: nat) -> Parse
    decreases g.end() - p, 0int,
{
    if g.is(p, Token::Dot) {
        if !g.named(p + 1) {
            refuse(g, p + 1, "identifier"@)
        } else {
            postfix_rest(
                g,
                expr(node2(Tag::ExprFieldAccess, e, spanned_name(g, p + 1)), merged(span_of(e), g.span(p + 1))),
                p + 2,
                d,
            )
        }
    } else if g.is(p, Token::LBracket) {
        match index_args(g, p + 1, d) {
            Parse::Refused(e) => Parse::Refused(e),
            Parse::Read(args, q) => if !ahead(g, p, q) {
                stuck()
            } else if !g.is(q, Token::RBracket) {
                refuse(g, q, quoted(Token::RBracket))
            } else {
                postfix_rest(
                    g,
                    expr(node2(Tag::ExprIndexAccess, e, args), merged(span_of(e), g.span(q))),
                    q + 1,
                    d,
                )
            },
        }
    } else {
        Parse::Read(e, p)
    }
}

/// An index argument: a qualified variant, a loop variable or an expression.
pub open spec fn index_arg(g: Input, p: int, d: nat) -> Parse
    decreases g.end() - p, 31int,
{
    if g.named(p) && g.is(p + 1, Token::Dot) && g.named(p + 2) {
        match variant_path(g, p) {
            Parse::Read(_, q) => Parse::Read(
                node2(Tag::IndexArgVariant, name_path(g, p, q - 3), spanned_name(g, q - 1)),
                q,
            ),
            Parse::Refused(e) => Parse::Refused(e),
        }
    } else {
        match expression(g, p, d) {
            Parse::Read(e, q) => Parse::Read(
                match bare_name(e) {
                    Some(name) => node1(Tag::IndexArgVar, name),
                    None => node1(Tag::IndexArgExpr, e),
                },
                q,
            ),
            Parse::Refused(e) => Parse::Refused(e),
        }
    }
}

/// The identifier that an expression is, if it is nothing more.
pub open spec fn bare_name(e: Term) -> Option<Term> {
    match kind_of(e) {
        Term::Node(Tag::ExprUnresolvedRef, path) => match *path {
            Term::Node(Tag::IdentPath, segments) => match *segments {
                Term::List(idents) => if idents.len() == 1 { Some(idents[0]) } else { None },
                _ => None,
            },
            _ => None,
        },
        _ => None,
    }
}

pub open spec fn index_args(g: Input, p: int, d: nat) -> Parse
    decreases g.end() - p, 32int,
{
    match index_arg(g, p, d) {
        Parse::Read(arg, q) => if ahead(g, p, q) { index_args_rest(g, q, d, seq![arg]) } else { stuck() },
        Parse::Refused(e) => Parse::Refused(e),
    }
}

pub open spec fn index_args_rest(g: Input, p: int, d: nat, args: Seq<Term>) -> Parse
    decreases g.end() - p, 0int,
{
    if !g.is(p, Token::Comma) {
        Parse::Read(Term::List(args), p)
    } else if g.is(p + 1, Token::RBracket) {
        Parse::Read(Term::List(args), p + 1)
    } else {
        match index_arg(g, p + 1, d) {
            Parse::Read(arg, q) => if ahead(g, p, q) {
                index_args_rest(g, q, d, args.push(arg))
            } else {
                stuck()
            },
            Parse::Refused(e) => Parse::Refused(e),
        }
    }
}

/// The key form that a word begins, if it begins one.
pub open spec fn key_form_kind(word: ContextualKeyword) -> Option<KeyFormKind> {
    match word {
        ContextualKeyword::Key => Some(KeyFormKind::Static),
        ContextualKeyword::FinKey => Some(KeyFormKind::Fin),
        ContextualKeyword::FloorKey => Some(KeyFormKind::Floor),
        ContextualKeyword::CeilKey => Some(KeyFormKind::Ceil),
        ContextualKeyword::NearestKey => Some(KeyFormKind::Nearest),
        _ => None,
    }
}

/// What no operator takes apart.
pub open spec fn atom(g: Input, p: int, d: nat) -> Parse
    decreases g.end() - p, 18int,
{
    match g.token(p) {
        Some(Token::Number) => number_expr(g, p),
        Some(Token::True) => Parse::Read(expr(node1(Tag::ExprBool, Term::Flag(true)), g.span(p)), p + 1),
        Some(Token::False) => Parse::Read(expr(node1(Tag::ExprBool, Term::Flag(false)), g.span(p)), p + 1),
        Some(Token::StringLiteral) => Parse::Read(
            expr(node1(Tag::ExprStringLiteral, Term::Text(g.quoted_text(p))), g.span(p)),
            p + 1,
        ),
        Some(Token::At) => at_expr(g, p, d),
        Some(Token::ContextualKeyword(word)) => if !g.is(p + 1, Token::LParen) {
            identifier_expr(g, p, d)
        } else if word == ContextualKeyword::Scan {
            scan_expr(g, p, d)
        } else if word == ContextualKeyword::Unfold {
            unfold_expr(g, p, d)
        } else {
            match key_form_kind(word) {
                Some(kind) => key_form(g, kind, p, d),
                None => identifier_expr(g, p, d),
            }
        },
        Some(Token::Ident) => identifier_expr(g, p, d),
        Some(Token::For) => for_comp(g, p, d),
        Some(Token::LBrace) => brace_expr(g, p, d),
        Some(Token::Table) => table_expr(g, p, d),
        Some(Token::Match) => match_expr(g, p, d),
        Some(Token::LParen) => match expression(g, p + 1, d) {
            Parse::Read(e, q) => if g.is(q, Token::RParen) {
                Parse::Read(e, q + 1)
            } else {
                refuse(g, q, quoted(Token::RParen))
            },
            Parse::Refused(e) => Parse::Refused(e),
        },
        _ => refuse(g, p, "expression"@),
    }
}

/// Where the path after `@` ends: it is read up to a call or as far as dotted
/// names go.
pub open spec fn at_last(g: Input, q: int) -> int
    decreases g.end() - q,
{
    if g.is(q + 1, Token::Dot) && g.named(q + 2) {
        if g.is(q + 3, Token::LParen) {
            q + 2
        } else {
            at_last(g, q + 2)
        }
    } else {
        q
    }
}

/// A graph reference and the fields projected from it.
pub open spec fn projections(g: Input, p: int, last: int) -> Term
    decreases last - p,
{
    if last <= p + 1 {
        expr(
            node1(
                Tag::ExprGraphRef,
                pair(
                    node2(Tag::ScopedName, Term::List(Seq::empty()), Term::Text(g.text(p + 1))),
                    Term::At(g.span(p + 1)),
                ),
            ),
            merged(g.span(p), g.span(p + 1)),
        )
    } else {
        let inner = projections(g, p, last - 2);
        expr(
            node2(Tag::ExprFieldAccess, inner, spanned_name(g, last)),
            merged(span_of(inner), g.span(last)),
        )
    }
}

/// `@name`, `@name.field` or an inline DAG call `@path(args).out`.
pub open spec fn at_expr(g: Input, p: int, d: nat) -> Parse
    decreases g.end() - p, 17int,
{
    if !g.named(p + 1) {
        refuse(g, p + 1, "identifier"@)
    } else {
        let last = at_last(g, p + 1);
        if g.is(last + 1, Token::LParen) && last > p {
            inline_dag_call(g, p, last, d)
        } else {
            Parse::Read(projections(g, p, last), last + 1)
        }
    }
}

pub open spec fn inline_dag_call(g: Input, p: int, last: int, d: nat) -> Parse
    decreases g.end() - last, 0int,
{
    if !g.is(last + 1, Token::LParen) {
        refuse(g, last + 1, quoted(Token::LParen))
    } else {
        match param_bindings(g, last + 2, d, Seq::empty(), Seq::empty()) {
            Parse::Refused(e) => Parse::Refused(e),
            Parse::Read(args, q) => match dag_output(g, q) {
                Parse::Refused(e) => Parse::Refused(e),
                Parse::Read(output, r) => Parse::Read(
                    expr(
                        node3(Tag::ExprInlineDagRef, dag_path(g, p, last), args, output),
                        merged(g.span(p), g.span(r - 1)),
                    ),
                    r,
                ),
            },
        }
    }
}

/// The path of an inline DAG call whose `@` stands at `p`.
pub open spec fn dag_path(g: Input, p: int, last: int) -> Term {
    node2(
        Tag::ModulePath,
        Term::List(path_idents(g, p + 1, last)),
        Term::At(merged(merged(g.span(p), g.span(p + 1)), g.span(last))),
    )
}

/// The `).out` that ends an inline DAG call.
pub open spec fn dag_output(g: Input, q: int) -> Parse {
    if !g.is(q, Token::RParen) {
        refuse(g, q, quoted(Token::RParen))
    } else if g.token(q + 1) is None {
        refuse(g, q + 1, "`.<out>` projection"@)
    } else if !g.is(q + 1, Token::Dot) {
        Parse::Refused(node1(Tag::InlineDagCallMissingProjection, Term::At(g.span(q + 1))))
    } else if !g.named(q + 2) {
        refuse(g, q + 2, "identifier"@)
    } else {
        Parse::Read(spanned_name(g, q + 2), q + 3)
    }
}

/// Bindings of an inline DAG call; no name may be bound twice.
pub open spec fn param_bindings(g: Input, p: int, d: nat, names: Seq<Seq<char>>, bindings: Seq<Term>) -> Parse
    decreases g.end() - p, 0int,
{
    if g.is(p, Token::RParen) {
        Parse::Read(Term::List(bindings), p)
    } else if !g.named(p) {
        refuse(g, p, "identifier"@)
    } else if names.contains(g.text(p)) {
        Parse::Refused(node2(Tag::DuplicateDagBinding, Term::Text(g.text(p)), Term::At(g.span(p))))
    } else if !g.is(p + 1, Token::Colon) {
        refuse(g, p + 1, quoted(Token::Colon))
    } else {
        match expression(g, p + 2, d) {
            Parse::Refused(e) => Parse::Refused(e),
            Parse::Read(value, q) => {
                let all = bindings.push(
                    node3(Tag::ParamBinding, ident(g, p), value, Term::At(merged(g.span(p), span_of(value)))),
                );
                if !ahead(g, p, q) {
                    stuck()
                } else if g.is(q, Token::Comma) {
                    param_bindings(g, q + 1, d, names.push(g.text(p)), all)
                } else {
                    Parse::Read(Term::List(all), q)
                }
            },
        }
    }
}

/// A name, a function call, or a constructor call with named arguments.
pub open spec fn identifier_expr(g: Input, p: int, d: nat) -> Parse
    decreases g.end() - p, 17int,
{
    if !g.named(p) {
        refuse(g, p, "identifier"@)
    } else {
        let last = path_last(g, p);
        let q = last + 1;
        if g.is(q, Token::LParen) {
            if last < p { stuck() } else { call(g, p, last, Seq::empty(), q, d) }
        } else if g.is(q, Token::Lt) && generic_args_followed_by(g, q, 40) {
            if last < p {
                stuck()
            } else {
                match generic_args(g, q, d) {
                    Parse::Read(Term::List(args), r) => if ahead(g, q, r) {
                        call(g, p, last, args, r, d)
                    } else {
                        stuck()
                    },
                    Parse::Read(_, _) => stuck(),
                    Parse::Refused(e) => Parse::Refused(e),
                }
            }
        } else {
            Parse::Read(
                expr(node1(Tag::ExprUnresolvedRef, path_term(g, p, last)), path_span(g, p, last)),
                q,
            )
        }
    }
}

/// The arguments of a call, from its `(` at `q` on.
pub open spec fn call(g: Input, p: int, last: int, generics: Seq<Term>, q: int, d: nat) -> Parse
    decreases g.end() - q, 33int,
{
    let first = if q < g.end() { q + 1 } else { q };
    let callee = path_term(g, p, last);
    if named_args_at(g, q) {
        match field_inits(g, first, d, Seq::empty()) {
            Parse::Refused(e) => Parse::Refused(e),
            Parse::Read(fields, r) => if !g.is(r, Token::RParen) {
                refuse(g, r, quoted(Token::RParen))
            } else {
                Parse::Read(
                    expr(
                        node3(Tag::ExprConstructorCall, callee, Term::List(generics), fields),
                        merged(path_span(g, p, last), g.span(r)),
                    ),
                    r + 1,
                )
            },
        }
    } else {
        match args(g, first, d, Seq::empty()) {
            Parse::Refused(e) => Parse::Refused(e),
            Parse::Read(args, r) => if !g.is(r, Token::RParen) {
                refuse(g, r, quoted(Token::RParen))
            } else {
                Parse::Read(
                    expr(
                        node3(Tag::ExprFnCall, callee, Term::List(generics), args),
                        merged(path_span(g, p, last), g.span(r)),
                    ),
                    r + 1,
                )
            },
        }
    }
}

/// Expressions between commas up to `)`; a comma may trail.
pub open spec fn args(g: Input, p: int, d: nat, items: Seq<Term>) -> Parse
    decreases g.end() - p, 32int,
{
    if g.is(p, Token::RParen) {
        Parse::Read(Term::List(items), p)
    } else {
        match expression(g, p, d) {
            Parse::Refused(e) => Parse::Refused(e),
            Parse::Read(item, q) => if !ahead(g, p, q) {
                stuck()
            } else if g.is(q, Token::Comma) {
                args(g, q + 1, d, items.push(item))
            } else {
                Parse::Read(Term::List(items.push(item)), q)
            },
        }
    }
}

/// `field: expression` between commas up to `)`; a comma may trail.
pub open spec fn field_inits(g: Input, p: int, d: nat, items: Seq<Term>) -> Parse
    decreases g.end() - p, 32int,
{
    if g.is(p, Token::RParen) {
        Parse::Read(Term::List(items), p)
    } else if !g.named(p) {
        refuse(g, p, "identifier"@)
    } else if !g.is(p + 1, Token::Colon) {
        refuse(g, p + 1, quoted(Token::Colon))
    } else {
        match expression(g, p + 2, d) {
            Parse::Refused(e) => Parse::Refused(e),
            Parse::Read(value, q) => {
                let all = items.push(node2(Tag::FieldInit, spanned_name(g, p), value));
                if !ahead(g, p, q) {
                    stuck()
                } else if g.is(q, Token::Comma) {
                    field_inits(g, q + 1, d, all)
                } else {
                    Parse::Read(Term::List(all), q)
                }
            },
        }
    }
}

/// A generic argument.
/// Where the last name of the product of names at a place stands.
pub open spec fn product_last(g: Input, p: int) -> int
    decreases g.end() - p,
{
    if g.is(p + 1, Token::Star) && g.named(p + 2) {
        product_last(g, p + 2)
    } else {
        p
    }
}

/// The names of the product between two places.
pub open spec fn product_names(g: Input, p: int, last: int) -> Seq<Term> {
    Seq::new(((last - p) / 2 + 1) as nat, |i: int| node1(Tag::AmbiguousGenericArgName, ident(g, p + 2 * i)))
}

/// A name or a product of names: it can stand for a dimension, a natural number,
/// and a name on its own for an index or a type too.
pub open spec fn ambiguous_arg(g: Input, p: int, last: int) -> Term {
    if last == p {
        node1(Tag::AmbiguousGenericArgName, ident(g, p))
    } else {
        node2(
            Tag::AmbiguousGenericArgMul,
            Term::List(product_names(g, p, last)),
            Term::At(merged(g.span(p), g.span(last))),
        )
    }
}

/// Whether what follows a product of names makes it a natural number.
pub open spec fn numeric(g: Input, last: int) -> bool {
    g.is(last + 1, Token::Plus) || (g.is(last + 1, Token::Star) && g.is(last + 2, Token::Number))
}

pub open spec fn generic_arg(g: Input, p: int, d: nat) -> Parse
    decreases g.end() - p, 17int,
{
    if g.is(p, Token::Number) || (g.named(p) && !fin_at(g, p) && numeric(g, product_last(g, p))) {
        match crate::syntax::parser::grammar::nat_expr(g, p) {
            Parse::Read(n, q) => Parse::Read(node1(Tag::GenericArgNat, n), q),
            Parse::Refused(e) => Parse::Refused(e),
        }
    } else if fin_at(g, p) {
        match finite(g, Tag::IndexExprFinite, p) {
            Parse::Read(index, q) => Parse::Read(node1(Tag::GenericArgIndex, index), q),
            Parse::Refused(e) => Parse::Refused(e),
        }
    } else if g.named(p) && (g.is(product_last(g, p) + 1, Token::Comma) || g.is(
        product_last(g, p) + 1,
        Token::Gt,
    )) {
        let last = product_last(g, p);
        Parse::Read(node1(Tag::GenericArgAmbiguous, ambiguous_arg(g, p, last)), last + 1)
    } else {
        match type_expr(g, p, d) {
            Parse::Read(t, q) => Parse::Read(node1(Tag::GenericArgType, t), q),
            Parse::Refused(e) => Parse::Refused(e),
        }
    }
}

/// Generic arguments: at least one, between `<` and `>`.
pub open spec fn generic_args(g: Input, p: int, d: nat) -> Parse
    decreases g.end() - p, 18int,
{
    if !g.is(p, Token::Lt) {
        refuse(g, p, quoted(Token::Lt))
    } else {
        match generic_arg(g, p + 1, d) {
            Parse::Refused(e) => Parse::Refused(e),
            Parse::Read(arg, q) => if !ahead(g, p, q) {
                stuck()
            } else {
                generic_args_rest(g, q, d, seq![arg])
            },
        }
    }
}

pub open spec fn generic_args_rest(g: Input, p: int, d: nat, items: Seq<Term>) -> Parse
    decreases g.end() - p, 0int,
{
    let q = if g.is(p, Token::Comma) { p + 1 } else { p };
    if g.is(p, Token::Comma) && !g.is(p + 1, Token::Gt) {
        match generic_arg(g, p + 1, d) {
            Parse::Refused(e) => Parse::Refused(e),
            Parse::Read(arg, r) => if !ahead(g, p, r) {
                stuck()
            } else {
                generic_args_rest(g, r, d, items.push(arg))
            },
        }
    } else if !g.is(q, Token::Gt) {
        refuse(g, q, quoted(Token::Gt))
    } else {
        Parse::Read(Term::List(items), q + 1)
    }
}

/// Types between commas up to `>`.
pub open spec fn type_args(g: Input, p: int, d: nat, items: Seq<Term>) -> Parse
    decreases g.end() - p, 17int,
{
    match type_expr(g, p, d) {
        Parse::Refused(e) => Parse::Refused(e),
        Parse::Read(t, q) => if !ahead(g, p, q) {
            stuck()
        } else if g.is(q, Token::Comma) {
            type_args(g, q + 1, d, items.push(t))
        } else if !g.is(q, Token::Gt) {
            refuse(g, q, quoted(Token::Gt))
        } else {
            Parse::Read(Term::List(items.push(t)), q + 1)
        },
    }
}

/// The type that a place begins with, before bounds and indexes.
pub open spec fn base_type(g: Input, p: int, d: nat) -> Parse
    decreases g.end() - p, 15int,
{
    let word = g.text(p);
    if !g.named(p) {
        refuse(g, p, "type"@)
    } else if word == "Dimensionless"@ {
        Parse::Read(node0(Tag::TypeExprDimensionless), p + 1)
    } else if word == "Bool"@ {
        Parse::Read(node0(Tag::TypeExprBool), p + 1)
    } else if word == "Int"@ {
        Parse::Read(node0(Tag::TypeExprInt), p + 1)
    } else if word == "Datetime"@ {
        if g.is(p + 1, Token::Lt) {
            match type_args(g, p + 2, d, Seq::empty()) {
                Parse::Read(types, q) => Parse::Read(node1(Tag::TypeExprDatetimeApplication, types), q),
                Parse::Refused(e) => Parse::Refused(e),
            }
        } else {
            Parse::Read(node0(Tag::TypeExprDatetime), p + 1)
        }
    } else if word == "Complex"@ && g.is(p + 1, Token::Lt) {
        match generic_args(g, p + 1, d) {
            Parse::Read(types, q) => Parse::Read(node1(Tag::TypeExprComplexApplication, types), q),
            Parse::Refused(e) => Parse::Refused(e),
        }
    } else if word == "Key"@ && g.is(p + 1, Token::Lt) {
        match generic_args(g, p + 1, d) {
            Parse::Read(types, q) => Parse::Read(node1(Tag::TypeExprKeyApplication, types), q),
            Parse::Refused(e) => Parse::Refused(e),
        }
    } else {
        let last = path_last(g, p);
        if g.is(last + 1, Token::Lt) && last >= p {
            match generic_args(g, last + 1, d) {
                Parse::Read(types, q) => Parse::Read(
                    node2(Tag::TypeExprTypeApplication, path_term(g, p, last), types),
                    q,
                ),
                Parse::Refused(e) => Parse::Refused(e),
            }
        } else {
            match dim_expr(g, p) {
                Parse::Read(dim, q) => Parse::Read(node1(Tag::TypeExprDimExpr, dim), q),
                Parse::Refused(e) => Parse::Refused(e),
            }
        }
    }
}

pub open spec fn bound_kind(g: Input, p: int) -> Option<DomainBoundKind> {
    if g.named(p) && g.text(p) == "min"@ {
        Some(DomainBoundKind::Min)
    } else if g.named(p) && g.text(p) == "max"@ {
        Some(DomainBoundKind::Max)
    } else {
        None
    }
}

/// `min: e` and `max: e` between commas up to `)`.
pub open spec fn domain_bounds(g: Input, p: int, d: nat, items: Seq<Term>) -> Parse
    decreases g.end() - p, 32int,
{
    if g.is(p, Token::RParen) {
        Parse::Read(Term::List(items), p)
    } else {
        match bound_kind(g, p) {
            None => refuse(g, p, "`min` or `max`"@),
            Some(kind) => if !g.is(p + 1, Token::Colon) {
                refuse(g, p + 1, quoted(Token::Colon))
            } else {
                match expression(g, p + 2, d) {
                    Parse::Refused(e) => Parse::Refused(e),
                    Parse::Read(value, q) => {
                        let all = items.push(
                            crate::syntax::term::node4(
                                Tag::DomainBound,
                                Term::Symbol(Symbol::DomainBoundKind(kind)),
                                Term::At(g.span(p)),
                                value,
                                Term::At(merged(g.span(p), span_of(value))),
                            ),
                        );
                        if !ahead(g, p, q) {
                            stuck()
                        } else if g.is(q, Token::Comma) {
                            domain_bounds(g, q + 1, d, all)
                        } else {
                            Parse::Read(Term::List(all), q)
                        }
                    },
                }
            },
        }
    }
}

/// Bounds in parentheses, where there are any.
pub open spec fn constraints(g: Input, p: int, d: nat) -> Parse
    decreases g.end() - p, 33int,
{
    if !g.is(p, Token::LParen) {
        Parse::Read(Term::List(Seq::empty()), p)
    } else {
        match domain_bounds(g, p + 1, d, Seq::empty()) {
            Parse::Refused(e) => Parse::Refused(e),
            Parse::Read(bounds, q) => if !g.is(q, Token::RParen) {
                refuse(g, q, quoted(Token::RParen))
            } else {
                Parse::Read(bounds, q + 1)
            },
        }
    }
}

/// A type: a base type with its bounds, then the indexes that it ranges over.
pub open spec fn type_expr(g: Input, p: int, d: nat) -> Parse
    decreases g.end() - p, 16int,
{
    match base_type(g, p, d) {
        Parse::Refused(e) => Parse::Refused(e),
        Parse::Read(kind, q) => if !ahead(g, p, q) {
            stuck()
        } else {
            match constraints(g, q, d) {
                Parse::Refused(e) => Parse::Refused(e),
                Parse::Read(bounds, r) => {
                    let base = node3(Tag::TypeExpr, kind, bounds, Term::At(merged(g.span(p), g.span(r - 1))));
                    if !g.is(r, Token::LBracket) {
                        Parse::Read(base, r)
                    } else {
                        match index_expr(g, r + 1) {
                            Parse::Refused(e) => Parse::Refused(e),
                            Parse::Read(index, s) => match index_exprs_rest(g, s, seq![index]) {
                                Parse::Refused(e) => Parse::Refused(e),
                                Parse::Read(indexes, t) => if !g.is(t, Token::RBracket) {
                                    refuse(g, t, quoted(Token::RBracket))
                                } else {
                                    Parse::Read(
                                        node3(
                                            Tag::TypeExpr,
                                            node2(Tag::TypeExprIndexed, base, indexes),
                                            Term::List(Seq::empty()),
                                            Term::At(merged(g.span(p), g.span(t))),
                                        ),
                                        t + 1,
                                    )
                                },
                            },
                        }
                    }
                },
            }
        },
    }
}

// Map literals.

/// What stands at a place, as messages name it, and where.
pub open spec fn found_at(g: Input, p: int, otherwise: Span, expected: Seq<char>) -> Parse {
    match g.token(p) {
        Some(token) => Parse::Refused(unexpected(expected, token.label(), g.span(p))),
        None => Parse::Refused(unexpected(expected, "EOF"@, otherwise)),
    }
}

/// The index of a discrete key, from the path between two places.
pub open spec fn named_index(g: Input, p: int, last: int) -> Term {
    pair(
        node1(
            Tag::MapEntryIndexNamed,
            Term::List(crate::syntax::parser::grammar::path_names(g, p, last)),
        ),
        Term::At(path_span(g, p, last)),
    )
}

/// A variant as the entry of a discrete key.
pub open spec fn named_entry(g: Input, p: int) -> Term {
    pair(node1(Tag::IndexEntryKeyNamed, Term::Text(g.text(p))), Term::At(g.span(p)))
}

/// The key `Index.Variant` between two places.
pub open spec fn variant_key(g: Input, p: int, last: int) -> Term {
    discrete_key(named_index(g, p, last - 2), Seq::empty(), named_entry(g, last))
}

/// A key that takes its axis from where it stands.
pub open spec fn contextual_key(e: Term) -> Term {
    node2(Tag::MapEntryKeyExpression, node0(Tag::MapKeyAxisSyntaxContextual), e)
}

pub open spec fn map_entry(keys: Seq<Term>, value: Term) -> Term {
    node2(Tag::MapEntry, Term::List(keys), value)
}

pub open spec fn map_expected() -> Seq<char> {
    "map literal (`{ Index.Variant: expr, ... }`)"@
}

/// A map literal in braces.
pub open spec fn brace_expr(g: Input, p: int, d: nat) -> Parse
    decreases g.end() - p, 17int,
{
    if g.named(p + 1) {
        if !g.is(p + 2, Token::Dot) {
            Parse::Refused(unexpected(map_expected(), g.text(p + 1), g.span(p + 1)))
        } else {
            match variant_path(g, p + 1) {
                Parse::Refused(e) => Parse::Refused(e),
                Parse::Read(_, q) => if !ahead(g, p, q) {
                    stuck()
                } else if !g.is(q, Token::Colon) {
                    found_at(g, q, g.span(p), "`:` after variant in map literal"@)
                } else {
                    match expression(g, q + 1, d) {
                        Parse::Refused(e) => Parse::Refused(e),
                        Parse::Read(value, r) => if !ahead(g, q, r) {
                            stuck()
                        } else {
                            map_entries(g, p, r, d, seq![map_entry(seq![variant_key(g, p + 1, q - 1)], value)])
                        },
                    }
                },
            }
        }
    } else if g.is(p + 1, Token::Number) || g.is(p + 1, Token::Minus) {
        match expression(g, p + 1, d) {
            Parse::Refused(e) => Parse::Refused(e),
            Parse::Read(key, q) => if !ahead(g, p, q) {
                stuck()
            } else if !g.is(q, Token::Colon) {
                refuse(g, q, quoted(Token::Colon))
            } else {
                match expression(g, q + 1, d) {
                    Parse::Refused(e) => Parse::Refused(e),
                    Parse::Read(value, r) => if !ahead(g, q, r) {
                        stuck()
                    } else {
                        coordinate_entries(g, p, r, d, seq![map_entry(seq![contextual_key(key)], value)])
                    },
                }
            },
        }
    } else if g.is(p + 1, Token::LParen) {
        tuple_entries(g, p, p + 1, d, Seq::empty())
    } else {
        found_at(g, p + 1, g.span(p), map_expected())
    }
}

/// The end of a map literal.
pub open spec fn map_close(g: Input, brace: int, p: int, entries: Seq<Term>) -> Parse {
    if !g.is(p, Token::RBrace) {
        refuse(g, p, quoted(Token::RBrace))
    } else {
        Parse::Read(
            expr(node1(Tag::ExprMapLiteral, Term::List(entries)), merged(g.span(brace), g.span(p))),
            p + 1,
        )
    }
}

/// The entries of a map literal by variant, after the first.
pub open spec fn map_entries(g: Input, brace: int, p: int, d: nat, entries: Seq<Term>) -> Parse
    decreases g.end() - p, 0int,
{
    if !g.is(p, Token::Comma) {
        map_close(g, brace, p, entries)
    } else if g.is(p + 1, Token::RBrace) {
        map_close(g, brace, p + 1, entries)
    } else {
        match variant_path(g, p + 1) {
            Parse::Refused(e) => Parse::Refused(e),
            Parse::Read(_, q) => if !ahead(g, p, q) {
                stuck()
            } else if !g.is(q, Token::Colon) {
                refuse(g, q, quoted(Token::Colon))
            } else {
                match expression(g, q + 1, d) {
                    Parse::Refused(e) => Parse::Refused(e),
                    Parse::Read(value, r) => if !ahead(g, q, r) {
                        stuck()
                    } else {
                        map_entries(
                            g,
                            brace,
                            r,
                            d,
                            entries.push(map_entry(seq![variant_key(g, p + 1, q - 1)], value)),
                        )
                    },
                }
            },
        }
    }
}

/// The entries of a map literal by coordinate, after the first.
pub open spec fn coordinate_entries(g: Input, brace: int, p: int, d: nat, entries: Seq<Term>) -> Parse
    decreases g.end() - p, 0int,
{
    if !g.is(p, Token::Comma) {
        map_close(g, brace, p, entries)
    } else if g.is(p + 1, Token::RBrace) {
        map_close(g, brace, p + 1, entries)
    } else {
        match expression(g, p + 1, d) {
            Parse::Refused(e) => Parse::Refused(e),
            Parse::Read(key, q) => if !ahead(g, p, q) {
                stuck()
            } else if !g.is(q, Token::Colon) {
                refuse(g, q, quoted(Token::Colon))
            } else {
                match expression(g, q + 1, d) {
                    Parse::Refused(e) => Parse::Refused(e),
                    Parse::Read(value, r) => if !ahead(g, q, r) {
                        stuck()
                    } else {
                        coordinate_entries(g, brace, r, d, entries.push(map_entry(seq![contextual_key(key)], value)))
                    },
                }
            },
        }
    }
}

/// One key of a tuple.
pub open spec fn tuple_key(g: Input, p: int, d: nat) -> Parse
    decreases g.end() - p, 31int,
{
    if g.named(p) && g.is(p + 1, Token::Dot) {
        match variant_path(g, p) {
            Parse::Read(_, q) => Parse::Read(variant_key(g, p, q - 1), q),
            Parse::Refused(e) => Parse::Refused(e),
        }
    } else {
        match expression(g, p, d) {
            Parse::Read(e, q) => Parse::Read(contextual_key(e), q),
            Parse::Refused(e) => Parse::Refused(e),
        }
    }
}

/// The keys of a tuple, up to what is no comma.
pub open spec fn tuple_keys(g: Input, p: int, d: nat, keys: Seq<Term>) -> Parse
    decreases g.end() - p, 32int,
{
    match tuple_key(g, p, d) {
        Parse::Refused(e) => Parse::Refused(e),
        Parse::Read(key, q) => if !ahead(g, p, q) {
            stuck()
        } else if g.is(q, Token::Comma) {
            tuple_keys(g, q + 1, d, keys.push(key))
        } else {
            Parse::Read(Term::List(keys.push(key)), q)
        },
    }
}

/// The entries of a map literal by tuples of keys.
pub open spec fn tuple_entries(g: Input, brace: int, p: int, d: nat, entries: Seq<Term>) -> Parse
    decreases g.end() - p, 0int,
{
    if g.is(p, Token::RBrace) {
        map_close(g, brace, p, entries)
    } else if !g.is(p, Token::LParen) {
        refuse(g, p, quoted(Token::LParen))
    } else {
        match tuple_keys(g, p + 1, d, Seq::empty()) {
            Parse::Refused(e) => Parse::Refused(e),
            Parse::Read(keys, q) => if !ahead(g, p, q) {
                stuck()
            } else if !g.is(q, Token::RParen) {
                refuse(g, q, quoted(Token::RParen))
            } else if !g.is(q + 1, Token::Colon) {
                refuse(g, q + 1, quoted(Token::Colon))
            } else {
                match expression(g, q + 2, d) {
                    Parse::Refused(e) => Parse::Refused(e),
                    Parse::Read(value, r) => {
                        let all = entries.push(node2(Tag::MapEntry, keys, value));
                        if !ahead(g, q, r) {
                            stuck()
                        } else if g.is(r, Token::Comma) {
                            tuple_entries(g, brace, r + 1, d, all)
                        } else {
                            map_close(g, brace, r, all)
                        }
                    },
                }
            },
        }
    }
}

// Comprehensions, matches, folds and key forms.

/// `name: Index` or `name: Fin(n)`.
pub open spec fn for_binding(g: Input, p: int) -> Parse {
    if !g.named(p) {
        refuse(g, p, "identifier"@)
    } else if !g.is(p + 1, Token::Colon) {
        refuse(g, p + 1, quoted(Token::Colon))
    } else if fin_at(g, p + 2) {
        match finite(g, Tag::ForBindingIndexFinite, p + 2) {
            Parse::Read(index, q) => Parse::Read(node2(Tag::ForBinding, spanned_name(g, p), index), q),
            Parse::Refused(e) => Parse::Refused(e),
        }
    } else {
        match named_path(g, p + 2) {
            Parse::Read(path, q) => Parse::Read(
                node2(Tag::ForBinding, spanned_name(g, p), node1(Tag::ForBindingIndexNamed, path)),
                q,
            ),
            Parse::Refused(e) => Parse::Refused(e),
        }
    }
}

pub open spec fn for_bindings(g: Input, p: int, items: Seq<Term>) -> Parse
    decreases g.end() - p,
{
    match for_binding(g, p) {
        Parse::Refused(e) => Parse::Refused(e),
        Parse::Read(item, q) => if g.is(q, Token::Comma) && ahead(g, p, q) {
            for_bindings(g, q + 1, items.push(item))
        } else {
            Parse::Read(Term::List(items.push(item)), q)
        },
    }
}

/// The place behind the first `=>` from a place on.
pub open spec fn behind_fat_arrow(g: Input, p: int) -> int
    decreases g.end() - p,
{
    if p < 0 || p >= g.end() {
        p
    } else if g.is(p, Token::FatArrow) {
        p + 1
    } else {
        behind_fat_arrow(g, p + 1)
    }
}

/// `for name: Index, ... { body }`; a tuple of the names and `=>` may precede
/// the body.
pub open spec fn for_comp(g: Input, p: int, d: nat) -> Parse
    decreases g.end() - p, 17int,
{
    match for_bindings(g, p + 1, Seq::empty()) {
        Parse::Refused(e) => Parse::Refused(e),
        Parse::Read(bindings, q) => if !g.is(q, Token::LBrace) {
            refuse(g, q, quoted(Token::LBrace))
        } else {
            let start = if tuple_key_at(g, q + 1) { behind_fat_arrow(g, q + 1) } else { q + 1 };
            if !ahead(g, p, start) {
                stuck()
            } else {
                match expression(g, start, d) {
                    Parse::Refused(e) => Parse::Refused(e),
                    Parse::Read(body, r) => if !g.is(r, Token::RBrace) {
                        refuse(g, r, quoted(Token::RBrace))
                    } else {
                        Parse::Read(
                            expr(node2(Tag::ExprForComp, bindings, body), merged(g.span(p), g.span(r))),
                            r + 1,
                        )
                    },
                }
            }
        },
    }
}

/// `field: name` and `field: _` between commas up to `)`.
pub open spec fn pattern_bindings(g: Input, p: int, items: Seq<Term>) -> Parse
    decreases g.end() - p,
{
    if g.is(p, Token::RParen) {
        Parse::Read(Term::List(items), p)
    } else if !g.named(p) {
        refuse(g, p, "identifier"@)
    } else if !g.is(p + 1, Token::Colon) {
        refuse(g, p + 1, quoted(Token::Colon))
    } else if !g.named(p + 2) && !g.is(p + 2, Token::Underscore) {
        refuse(g, p + 2, "identifier"@)
    } else {
        let item = if g.named(p + 2) {
            node2(Tag::PatternBindingBind, spanned_name(g, p), ident(g, p + 2))
        } else {
            node2(Tag::PatternBindingWildcard, spanned_name(g, p), Term::At(g.span(p + 2)))
        };
        if g.is(p + 3, Token::Comma) {
            pattern_bindings(g, p + 4, items.push(item))
        } else {
            Parse::Read(Term::List(items.push(item)), p + 3)
        }
    }
}

/// A path, with bindings in parentheses where it takes some.
pub open spec fn pattern(g: Input, p: int) -> Parse {
    if !g.named(p) {
        refuse(g, p, "pattern"@)
    } else {
        let last = path_last(g, p);
        let path = path_term(g, p, last);
        if !g.is(last + 1, Token::LParen) {
            Parse::Read(
                node3(Tag::MatchPatternPath, path, Term::List(Seq::empty()), Term::At(path_span(g, p, last))),
                last + 1,
            )
        } else {
            match pattern_bindings(g, last + 2, Seq::empty()) {
                Parse::Refused(e) => Parse::Refused(e),
                Parse::Read(bindings, q) => if !g.is(q, Token::RParen) {
                    refuse(g, q, quoted(Token::RParen))
                } else {
                    Parse::Read(
                        node3(Tag::MatchPatternPath, path, bindings, Term::At(merged(g.span(p), g.span(q)))),
                        q + 1,
                    )
                },
            }
        }
    }
}

/// `pattern => body` between commas up to `}`.
pub open spec fn match_arms(g: Input, p: int, d: nat, arms: Seq<Term>) -> Parse
    decreases g.end() - p, 0int,
{
    if g.is(p, Token::RBrace) {
        Parse::Read(Term::List(arms), p)
    } else {
        match pattern(g, p) {
            Parse::Refused(e) => Parse::Refused(e),
            Parse::Read(pattern, q) => if !ahead(g, p, q) {
                stuck()
            } else if !g.is(q, Token::FatArrow) {
                refuse(g, q, quoted(Token::FatArrow))
            } else {
                match expression(g, q + 1, d) {
                    Parse::Refused(e) => Parse::Refused(e),
                    Parse::Read(body, r) => {
                        let all = arms.push(
                            node3(Tag::MatchArm, pattern, body, Term::At(merged(g.span(p), span_of(body)))),
                        );
                        if !ahead(g, q, r) {
                            stuck()
                        } else if g.is(r, Token::Comma) {
                            match_arms(g, r + 1, d, all)
                        } else {
                            Parse::Read(Term::List(all), r)
                        }
                    },
                }
            },
        }
    }
}

pub open spec fn match_expr(g: Input, p: int, d: nat) -> Parse
    decreases g.end() - p, 17int,
{
    match if g.is(p, Token::Match) {
        expression(g, p + 1, d)
    } else {
        refuse(g, p, quoted(Token::Match))
    } {
        Parse::Refused(e) => Parse::Refused(e),
        Parse::Read(scrutinee, q) => if !ahead(g, p, q) {
            stuck()
        } else if !g.is(q, Token::LBrace) {
            refuse(g, q, quoted(Token::LBrace))
        } else {
            match match_arms(g, q + 1, d, Seq::empty()) {
                Parse::Refused(e) => Parse::Refused(e),
                Parse::Read(arms, r) => if !g.is(r, Token::RBrace) {
                    refuse(g, r, quoted(Token::RBrace))
                } else {
                    Parse::Read(
                        expr(node2(Tag::ExprMatch, scrutinee, arms), merged(g.span(p), g.span(r))),
                        r + 1,
                    )
                },
            }
        },
    }
}

/// Where the body of `|a, b| body` begins, for `n` names; or the refusal.
pub open spec fn binders(g: Input, p: int, n: int) -> Parse
    decreases n,
{
    if n <= 0 {
        Parse::Read(Term::Absent, p)
    } else if !g.named(p) {
        refuse(g, p, "identifier"@)
    } else {
        let token = if n == 1 { Token::Pipe } else { Token::Comma };
        if !g.is(p + 1, token) {
            refuse(g, p + 1, quoted(token))
        } else {
            binders(g, p + 2, n - 1)
        }
    }
}

/// What folds have in common: the initial value, the body, where the first
/// bound name stands and where the closing parenthesis does; or the refusal.
pub enum Fold {
    Read(Term, Term, int, int),
    Refused(Term),
}

/// A refusal in place of a fold.
pub open spec fn no_fold(refused: Parse) -> Fold {
    match refused {
        Parse::Refused(e) => Fold::Refused(e),
        Parse::Read(_, _) => Fold::Refused(Term::Absent),
    }
}

/// `, init, |names| body)` with `n` names.
pub open spec fn fold_rest(g: Input, p: int, n: int, d: nat) -> Fold
    decreases g.end() - p, 16int,
{
    if !g.is(p, Token::Comma) {
        no_fold(refuse(g, p, quoted(Token::Comma)))
    } else {
        match expression(g, p + 1, d) {
            Parse::Refused(e) => Fold::Refused(e),
            Parse::Read(init, q) => if !ahead(g, p, q) {
                Fold::Refused(Term::Absent)
            } else {
                fold_body(g, init, q, n, d)
            },
        }
    }
}

/// `, |names| body)` with `n` names.
pub open spec fn fold_body(g: Input, init: Term, p: int, n: int, d: nat) -> Fold
    decreases g.end() - p, 16int,
{
    if !g.is(p, Token::Comma) {
        no_fold(refuse(g, p, quoted(Token::Comma)))
    } else if !g.is(p + 1, Token::Pipe) {
        no_fold(refuse(g, p + 1, quoted(Token::Pipe)))
    } else {
        match binders(g, p + 2, n) {
            Parse::Refused(e) => Fold::Refused(e),
            Parse::Read(_, q) => if !ahead(g, p, q) {
                Fold::Refused(Term::Absent)
            } else {
                match expression(g, q, d) {
                    Parse::Refused(e) => Fold::Refused(e),
                    Parse::Read(body, r) => if !g.is(r, Token::RParen) {
                        no_fold(refuse(g, r, quoted(Token::RParen)))
                    } else {
                        Fold::Read(init, body, p + 2, r)
                    },
                }
            },
        }
    }
}

/// `scan(source, init, |acc, val| body)`.
pub open spec fn scan_expr(g: Input, p: int, d: nat) -> Parse
    decreases g.end() - p, 17int,
{
    if !g.is(p + 1, Token::LParen) {
        refuse(g, p + 1, quoted(Token::LParen))
    } else {
        match expression(g, p + 2, d) {
            Parse::Refused(e) => Parse::Refused(e),
            Parse::Read(source, q) => if !ahead(g, p, q) {
                stuck()
            } else {
                match fold_rest(g, q, 2, d) {
                    Fold::Refused(e) => Parse::Refused(e),
                    Fold::Read(init, body, names, close) => Parse::Read(
                        expr(
                            node5(
                                Tag::ExprScan,
                                source,
                                init,
                                spanned_name(g, names),
                                spanned_name(g, names + 2),
                                body,
                            ),
                            merged(g.span(p), g.span(close)),
                        ),
                        close + 1,
                    ),
                }
            },
        }
    }
}

/// `unfold(Axis, init, |state, before, now| body)`.
pub open spec fn unfold_expr(g: Input, p: int, d: nat) -> Parse
    decreases g.end() - p, 17int,
{
    match named_path(g, p + 2) {
        Parse::Refused(e) => Parse::Refused(e),
        Parse::Read(axis, q) => if !ahead(g, p, q) {
            stuck()
        } else {
            match fold_rest(g, q, 3, d) {
                Fold::Refused(e) => Parse::Refused(e),
                Fold::Read(init, body, names, close) => Parse::Read(
                    expr(
                        node6(
                            Tag::ExprUnfold,
                            axis,
                            init,
                            spanned_name(g, names),
                            spanned_name(g, names + 2),
                            spanned_name(g, names + 4),
                            body,
                        ),
                        merged(g.span(p), g.span(close)),
                    ),
                    close + 1,
                ),
            }
        },
    }
}

/// `key(Axis, e)` and its kin.
pub open spec fn key_form(g: Input, kind: KeyFormKind, p: int, d: nat) -> Parse
    decreases g.end() - p, 17int,
{
    match index_expr(g, p + 2) {
        Parse::Refused(e) => Parse::Refused(e),
        Parse::Read(axis, q) => if !ahead(g, p, q) {
            stuck()
        } else if !g.is(q, Token::Comma) {
            refuse(g, q, quoted(Token::Comma))
        } else {
            match expression(g, q + 1, d) {
                Parse::Refused(e) => Parse::Refused(e),
                Parse::Read(arg, r) => if !g.is(r, Token::RParen) {
                    refuse(g, r, quoted(Token::RParen))
                } else {
                    Parse::Read(
                        expr(
                            node3(Tag::ExprKeyForm, Term::Symbol(Symbol::KeyFormKind(kind)), axis, arg),
                            merged(g.span(p), g.span(r)),
                        ),
                        r + 1,
                    )
                },
            }
        },
    }
}

} // verus!
