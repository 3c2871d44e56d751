//! The parser of types and generic arguments.

use crate::syntax::ast::{
    AmbiguousGenericArg, DomainBound, DomainBoundKind, GenericArg, IdentPath, IndexExpr, TypeExpr, TypeExprKind,
};
use crate::syntax::non_empty::NonEmpty;
use crate::syntax::parser::nodes::{self, lemma_expr};
use crate::syntax::parser::error::ParseError;
use crate::syntax::parser::expr_grammar::{
    ambiguous_arg, args, base_type, bound_kind, constraints, domain_bounds, generic_arg, generic_args,
    generic_args_rest, product_last, product_names, type_args, type_expr,
};
use crate::syntax::parser::grammar::{fin_at, path_idents, path_last, refuse};
use crate::syntax::parser::state::{moved, outcome, result, Parser};
use crate::syntax::term::{node2, node3, prepend, Reading, Spans, Syntax, Tag, Term};
use crate::syntax::token::Token;
use vstd::prelude::*;
use vstd::string::StringExecFns;

verus! {

impl Parser {
    /// Where the last name of the product of names at a place stands.
    fn product_last(&self, p: usize) -> (r: usize)
        requires
            p < self@.end(),
        ensures
            r == product_last(self@, p as int),
            p <= r < self@.end(),
            (r - p) % 2 == 0,
    {
        let mut last: usize = p;
        while self.is_after(last, 1, Token::Star) && self.named_after(last, 2)
            invariant
                p <= last < self@.end(),
                (last - p) % 2 == 0,
                product_last(self@, p as int) == product_last(self@, last as int),
            decreases self@.end() - last,
        {
            last = last + 2;
        }
        last
    }

    fn ambiguous_arg(&self, p: usize, last: usize) -> (r: AmbiguousGenericArg)
        requires
            p <= last < self@.end(),
            (last - p) % 2 == 0,
        ensures
            r.term(Spans::Kept) == ambiguous_arg(self@, p as int, last as int),
    {
        if last == p {
            return AmbiguousGenericArg::Name(self.ident(p));
        }
        let mut operands: Vec<AmbiguousGenericArg> = Vec::new();
        let mut q: usize = p;
        let ghost all = product_names(self@, p as int, last as int);
        assert(AmbiguousGenericArg::terms(operands, Spans::Kept) =~= all.take(0));
        while q < last
            invariant
                p <= q <= last < self@.end(),
                (last - p) % 2 == 0,
                (q - p) % 2 == 0,
                all == product_names(self@, p as int, last as int),
                operands@.len() == (q - p) / 2,
                AmbiguousGenericArg::terms(operands, Spans::Kept) == all.take((q - p) / 2),
            decreases last - q,
        {
            let ghost before = operands;
            let name = AmbiguousGenericArg::Name(self.ident(q));
            operands.push(name);
            assert(AmbiguousGenericArg::terms(operands, Spans::Kept) =~= AmbiguousGenericArg::terms(
                before,
                Spans::Kept,
            ).push(name.to_term(Spans::Kept)));
            assert(p + 2 * ((q - p) / 2) == q);
            assert(all.take((q - p) / 2 + 1) =~= all.take((q - p) / 2).push(all[(q - p) / 2]));
            q = q + 2;
        }
        let ghost before = operands;
        let name = AmbiguousGenericArg::Name(self.ident(last));
        operands.push(name);
        assert(p + 2 * ((last - p) / 2) == last);
        assert(AmbiguousGenericArg::terms(operands, Spans::Kept) =~= AmbiguousGenericArg::terms(
            before,
            Spans::Kept,
        ).push(name.to_term(Spans::Kept)));
        assert(all =~= all.take((last - p) / 2).push(all[(last - p) / 2]));
        AmbiguousGenericArg::Mul(operands, self.span(p).merge(self.span(last)))
    }

    fn parse_generic_arg(&self, p: usize, d: usize) -> (r: Result<(GenericArg, usize), ParseError>)
        requires
            p <= self@.end(),
        ensures
            result(r) == generic_arg(self@, p as int, d as nat),
            moved(r, p as int, self@.end()),
        decreases 64 * (self@.end() - p) + 17,
    {
        let last: usize = if self.named(p) {
            self.product_last(p)
        } else {
            p
        };
        let numeric = self.named(p) && !self.fin_at(p) && (self.is_after(last, 1, Token::Plus) || (self.is_after(
            last,
            1,
            Token::Star,
        ) && self.is_after(last, 2, Token::Number)));
        if self.is(p, Token::Number) || numeric {
            match self.parse_nat_expr(p) {
                Ok((n, q)) => Ok((GenericArg::Nat(n), q)),
                Err(e) => Err(e),
            }
        } else if self.fin_at(p) {
            match self.parse_finite(Ghost(Tag::IndexExprFinite), p) {
                Ok((cardinality, span, q)) => Ok((GenericArg::Index(IndexExpr::Finite { cardinality, span }), q)),
                Err(e) => Err(e),
            }
        } else if self.named(p) && (self.is_after(last, 1, Token::Comma) || self.is_after(last, 1, Token::Gt)) {
            Ok((GenericArg::Ambiguous(self.ambiguous_arg(p, last)), last + 1))
        } else {
            match self.parse_type_expr(p, d) {
                Ok((t, q)) => Ok((GenericArg::Type(t), q)),
                Err(e) => Err(e),
            }
        }
    }

    pub(crate) fn parse_generic_arg_list(&self, p: usize, d: usize) -> (r: Result<
        (Vec<GenericArg>, usize),
        ParseError,
    >)
        requires
            p <= self@.end(),
        ensures
            outcome(r, |v: Vec<GenericArg>| Term::List(GenericArg::terms(v, Reading::Exact))) == generic_args(
                self@,
                p as int,
                d as nat,
            ),
            moved(r, p as int, self@.end()),
            r is Ok ==> r->Ok_0.0@.len() > 0,
        decreases 64 * (self@.end() - p) + 18,
    {
        if !self.is(p, Token::Lt) {
            return Err(self.refuse_token(p, Token::Lt));
        }
        let (first, mut q) = match self.parse_generic_arg(p + 1, d) {
            Ok(x) => x,
            Err(e) => return Err(e),
        };
        let mut items: Vec<GenericArg> = Vec::new();
        items.push(first);
        assert(GenericArg::terms(items, Reading::Exact) =~= seq![first.to_term(Reading::Exact)]);
        while self.is(q, Token::Comma) && !self.is_after(q, 1, Token::Gt)
            invariant
                p < q <= self@.end(),
                items@.len() > 0,
                generic_args(self@, p as int, d as nat) == generic_args_rest(
                    self@,
                    q as int,
                    d as nat,
                    GenericArg::terms(items, Reading::Exact),
                ),
            decreases self@.end() - q,
        {
            match self.parse_generic_arg(q + 1, d) {
                Ok((item, r)) => {
                    let ghost before = GenericArg::terms(items, Reading::Exact);
                    items.push(item);
                    assert(GenericArg::terms(items, Reading::Exact) =~= before.push(item.to_term(Reading::Exact)));
                    q = r;
                },
                Err(e) => {
                    return Err(e);
                },
            }
        }
        let close: usize = if self.is(q, Token::Comma) {
            q + 1
        } else {
            q
        };
        if !self.is(close, Token::Gt) {
            return Err(self.refuse_token(close, Token::Gt));
        }
        Ok((items, close + 1))
    }

    fn parse_type_args(&self, p: usize, d: usize) -> (r: Result<(Vec<TypeExpr>, usize), ParseError>)
        requires
            p <= self@.end(),
        ensures
            outcome(r, |v: Vec<TypeExpr>| Term::List(TypeExpr::terms(v, Reading::Exact))) == type_args(
                self@,
                p as int,
                d as nat,
                Seq::empty(),
            ),
            moved(r, p as int, self@.end()),
            r is Ok ==> r->Ok_0.0@.len() > 0,
        decreases 64 * (self@.end() - p) + 17,
    {
        let mut items: Vec<TypeExpr> = Vec::new();
        let mut q: usize = p;
        assert(TypeExpr::terms(items, Reading::Exact) =~= Seq::empty());
        loop
            invariant
                p <= q <= self@.end(),
                type_args(self@, p as int, d as nat, Seq::empty()) == type_args(
                    self@,
                    q as int,
                    d as nat,
                    TypeExpr::terms(items, Reading::Exact),
                ),
            decreases self@.end() - q,
        {
            let (item, r) = match self.parse_type_expr(q, d) {
                Ok(x) => x,
                Err(e) => return Err(e),
            };
            let ghost before = TypeExpr::terms(items, Reading::Exact);
            items.push(item);
            assert(TypeExpr::terms(items, Reading::Exact) =~= before.push(item.to_term(Reading::Exact)));
            if self.is(r, Token::Comma) {
                q = r + 1;
            } else if !self.is(r, Token::Gt) {
                return Err(self.refuse_token(r, Token::Gt));
            } else {
                return Ok((items, r + 1));
            }
        }
    }

    fn parse_base_type(&self, p: usize, d: usize) -> (r: Result<(TypeExprKind, usize), ParseError>)
        requires
            p <= self@.end(),
        ensures
            result(r) == base_type(self@, p as int, d as nat),
            moved(r, p as int, self@.end()),
        decreases 64 * (self@.end() - p) + 15,
    {
        if !self.named(p) {
            return Err(self.refuse(p, "type"));
        }
        let word = self.text(p);
        if word == "Dimensionless".to_owned() {
            return Ok((TypeExprKind::Dimensionless, p + 1));
        }
        if word == "Bool".to_owned() {
            return Ok((TypeExprKind::Bool, p + 1));
        }
        if word == "Int".to_owned() {
            return Ok((TypeExprKind::Int, p + 1));
        }
        let applied = self.is(p + 1, Token::Lt);
        if word == "Datetime".to_owned() {
            if !applied {
                return Ok((TypeExprKind::Datetime, p + 1));
            }
            let (types, q) = match self.parse_type_args(p + 2, d) {
                Ok(x) => x,
                Err(e) => return Err(e),
            };
            let ghost all = types;
            return match NonEmpty::try_from_vec(types) {
                Some(type_args) => {
                    proof {
                        assert(prepend(
                            type_args.first.to_term(Reading::Exact),
                            TypeExpr::terms(type_args.rest, Reading::Exact),
                        ) =~= TypeExpr::terms(all, Reading::Exact)) by {
                            assert forall|i: int| 0 <= i < all@.len() implies type_args@[i] == #[trigger] all@[i] by {
                            }
                        }
                    }
                    Ok((TypeExprKind::DatetimeApplication { type_args }, q))
                },
                None => Err(self.refuse(q, "type")),
            };
        }
        if word == "Complex".to_owned() && applied {
            return match self.parse_generic_arg_list(p + 1, d) {
                Ok((generic_args, q)) => Ok((TypeExprKind::ComplexApplication { generic_args }, q)),
                Err(e) => Err(e),
            };
        }
        if word == "Key".to_owned() && applied {
            return match self.parse_generic_arg_list(p + 1, d) {
                Ok((generic_args, q)) => Ok((TypeExprKind::KeyApplication { generic_args }, q)),
                Err(e) => Err(e),
            };
        }
        let last = self.path_last(p);
        if self.is(last + 1, Token::Lt) {
            let (args, q) = match self.parse_generic_arg_list(last + 1, d) {
                Ok(x) => x,
                Err(e) => return Err(e),
            };
            let ghost all = args;
            return match NonEmpty::try_from_vec(args) {
                Some(generic_args) => {
                    proof {
                        assert(prepend(
                            generic_args.first.to_term(Reading::Exact),
                            GenericArg::terms(generic_args.rest, Reading::Exact),
                        ) =~= GenericArg::terms(all, Reading::Exact)) by {
                            assert forall|i: int| 0 <= i < all@.len() implies generic_args@[i]
                                == #[trigger] all@[i] by {
                            }
                        }
                    }
                    let name = IdentPath { segments: self.path_idents(p, last) };
                    Ok((TypeExprKind::TypeApplication { name, generic_args }, q))
                },
                None => Err(self.refuse(q, "type")),
            };
        }
        match self.parse_dim_expr(p) {
            Ok((dim, q)) => Ok((TypeExprKind::DimExpr(dim), q)),
            Err(e) => Err(e),
        }
    }

    fn bound_kind(&self, p: usize) -> (r: Option<DomainBoundKind>)
        ensures
            r == bound_kind(self@, p as int),
            r is Some ==> p < self@.end(),
    {
        if !self.named(p) {
            return None;
        }
        let word = self.text(p);
        if word == "min".to_owned() {
            Some(DomainBoundKind::Min)
        } else if word == "max".to_owned() {
            Some(DomainBoundKind::Max)
        } else {
            None
        }
    }

    fn parse_domain_bounds(&self, p: usize, d: usize) -> (r: Result<(Vec<DomainBound>, usize), ParseError>)
        requires
            p <= self@.end(),
        ensures
            outcome(r, |v: Vec<DomainBound>| Term::List(DomainBound::terms(v, Reading::Exact))) == domain_bounds(
                self@,
                p as int,
                d as nat,
                Seq::empty(),
            ),
            r is Ok ==> p <= r->Ok_0.1 <= self@.end(),
        decreases 64 * (self@.end() - p) + 32,
    {
        let mut items: Vec<DomainBound> = Vec::new();
        let mut q: usize = p;
        assert(DomainBound::terms(items, Reading::Exact) =~= Seq::empty());
        loop
            invariant
                p <= q <= self@.end(),
                domain_bounds(self@, p as int, d as nat, Seq::empty()) == domain_bounds(
                    self@,
                    q as int,
                    d as nat,
                    DomainBound::terms(items, Reading::Exact),
                ),
            decreases self@.end() - q,
        {
            if self.is(q, Token::RParen) {
                return Ok((items, q));
            }
            let kind = match self.bound_kind(q) {
                Some(kind) => kind,
                None => return Err(self.refuse(q, "`min` or `max`")),
            };
            if !self.is(q + 1, Token::Colon) {
                return Err(self.refuse_token(q + 1, Token::Colon));
            }
            let (value, r) = match self.parse_expr(q + 2, d) {
                Ok(x) => x,
                Err(e) => return Err(e),
            };
            proof {
                lemma_expr(value);
            }
            let kind_span = self.span(q);
            let span = kind_span.merge(value.span);
            let item = DomainBound { kind, kind_span, value, span };
            let ghost before = DomainBound::terms(items, Reading::Exact);
            items.push(item);
            assert(DomainBound::terms(items, Reading::Exact) =~= before.push(item.to_term(Reading::Exact)));
            if self.is(r, Token::Comma) {
                q = r + 1;
            } else {
                return Ok((items, r));
            }
        }
    }

    fn parse_constraints(&self, p: usize, d: usize) -> (r: Result<(Vec<DomainBound>, usize), ParseError>)
        requires
            p <= self@.end(),
        ensures
            outcome(r, |v: Vec<DomainBound>| Term::List(DomainBound::terms(v, Reading::Exact))) == constraints(
                self@,
                p as int,
                d as nat,
            ),
            r is Ok ==> p <= r->Ok_0.1 <= self@.end(),
        decreases 64 * (self@.end() - p) + 33,
    {
        if !self.is(p, Token::LParen) {
            let none: Vec<DomainBound> = Vec::new();
            assert(DomainBound::terms(none, Reading::Exact) =~= Seq::empty());
            return Ok((none, p));
        }
        let (bounds, q) = match self.parse_domain_bounds(p + 1, d) {
            Ok(x) => x,
            Err(e) => return Err(e),
        };
        if !self.is(q, Token::RParen) {
            return Err(self.refuse_token(q, Token::RParen));
        }
        Ok((bounds, q + 1))
    }

    pub(crate) fn parse_type_expr(&self, p: usize, d: usize) -> (r: Result<(TypeExpr, usize), ParseError>)
        requires
            p <= self@.end(),
        ensures
            result(r) == type_expr(self@, p as int, d as nat),
            moved(r, p as int, self@.end()),
        decreases 64 * (self@.end() - p) + 16,
    {
        let (kind, q) = match self.parse_base_type(p, d) {
            Ok(x) => x,
            Err(e) => return Err(e),
        };
        let (bounds, r) = match self.parse_constraints(q, d) {
            Ok(x) => x,
            Err(e) => return Err(e),
        };
        let base = TypeExpr { kind, constraints: bounds, span: self.span(p).merge(self.span(r - 1)) };
        assert(base.to_term(Reading::Exact) == node3(
            Tag::TypeExpr,
            kind.to_term(Reading::Exact),
            Term::List(DomainBound::terms(bounds, Reading::Exact)),
            Term::At(base.span),
        ));
        if !self.is(r, Token::LBracket) {
            return Ok((base, r));
        }
        let (first, s) = match self.parse_index_expr(r + 1) {
            Ok(x) => x,
            Err(e) => return Err(e),
        };
        let (indexes, t) = match self.parse_index_exprs_rest(first, s) {
            Ok(x) => x,
            Err(e) => return Err(e),
        };
        if !self.is(t, Token::RBracket) {
            return Err(self.refuse_token(t, Token::RBracket));
        }
        let span = self.span(p).merge(self.span(t));
        let none: Vec<DomainBound> = Vec::new();
        assert(DomainBound::terms(none, Reading::Exact) =~= Seq::empty());
        let kind = TypeExprKind::Indexed { base: Box::new(base), indexes };
        assert(kind.to_term(Reading::Exact) == node2(
            Tag::TypeExprIndexed,
            base.to_term(Reading::Exact),
            indexes.term(Spans::Kept),
        ));
        Ok((TypeExpr { kind, constraints: none, span }, t + 1))
    }
}

} // verus!
