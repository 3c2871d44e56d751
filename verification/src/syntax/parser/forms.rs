//! The parser of comprehensions, matches, folds and key forms.

use crate::syntax::ast::{Expr, IdentPath, KeyFormKind, MatchArm, MatchPattern};
use crate::syntax::parser::nodes::{self, lemma_expr};
use crate::syntax::parser::error::ParseError;
use crate::syntax::parser::expr_grammar::{
    behind_fat_arrow, binders, for_comp, key_form, match_arms, match_expr, pattern, fold_body, fold_rest, scan_expr,
    unfold_expr, Fold,
};
use crate::syntax::parser::grammar::{path_idents, path_last, path_span, refuse, Parse};
use crate::syntax::parser::state::{moved, outcome, result, Parser};
use crate::syntax::term::{seq_terms, Reading, Spans, Syntax, Term};
use crate::syntax::token::Token;
use vstd::prelude::*;
use vstd::string::StringExecFns;

verus! {

impl Parser {
    pub(crate) fn parse_for_comp(&self, p: usize, d: usize) -> (r: Result<(Expr, usize), ParseError>)
        requires
            p < self@.end(),
        ensures
            result(r) == for_comp(self@, p as int, d as nat),
            moved(r, p as int, self@.end()),
        decreases 64 * (self@.end() - p) + 17,
    {
        let start = self.span(p);
        let (bindings, q) = match self.parse_for_bindings(p + 1) {
            Ok(x) => x,
            Err(e) => return Err(e),
        };
        if !self.is(q, Token::LBrace) {
            return Err(self.refuse_token(q, Token::LBrace));
        }
        let mut body_start: usize = q + 1;
        if self.is_tuple_key_sugar(q + 1) {
            let mut found: bool = false;
            while !found && body_start < self.lexemes.len()
                invariant
                    q < body_start <= self@.end(),
                    behind_fat_arrow(self@, q + 1) == if found {
                        body_start as int
                    } else {
                        behind_fat_arrow(self@, body_start as int)
                    },
                decreases self@.end() - body_start,
            {
                found = self.is(body_start, Token::FatArrow);
                body_start = body_start + 1;
            }
            assert(behind_fat_arrow(self@, q + 1) == body_start);
        }
        let (body, r) = match self.parse_expr(body_start, d) {
            Ok(x) => x,
            Err(e) => return Err(e),
        };
        if !self.is(r, Token::RBrace) {
            return Err(self.refuse_token(r, Token::RBrace));
        }
        let span = start.merge(self.span(r));
        Ok((nodes::for_comp(bindings, body, span), r + 1))
    }

    fn parse_pattern(&self, p: usize) -> (r: Result<(MatchPattern, usize), ParseError>)
        requires
            p <= self@.end(),
        ensures
            result(r) == pattern(self@, p as int),
            moved(r, p as int, self@.end()),
    {
        if !self.named(p) {
            return Err(self.refuse(p, "pattern"));
        }
        let last = self.path_last(p);
        let path = IdentPath { segments: self.path_idents(p, last) };
        if !self.is(last + 1, Token::LParen) {
            let bindings = Vec::new();
            let pattern = MatchPattern::Path { path, bindings, span: self.path_span(p, last) };
            assert(seq_terms(bindings@, Spans::Kept) =~= Seq::empty());
            return Ok((pattern, last + 1));
        }
        let (bindings, q) = match self.parse_pattern_bindings(last + 2) {
            Ok(x) => x,
            Err(e) => return Err(e),
        };
        if !self.is(q, Token::RParen) {
            return Err(self.refuse_token(q, Token::RParen));
        }
        let span = self.span(p).merge(self.span(q));
        Ok((MatchPattern::Path { path, bindings, span }, q + 1))
    }

    fn parse_match_arms(&self, p: usize, d: usize) -> (r: Result<(Vec<MatchArm>, usize), ParseError>)
        requires
            p <= self@.end(),
        ensures
            outcome(r, |v: Vec<MatchArm>| Term::List(MatchArm::terms(v, Reading::Exact))) == match_arms(
                self@,
                p as int,
                d as nat,
                Seq::empty(),
            ),
            r is Ok ==> p <= r->Ok_0.1 <= self@.end(),
        decreases 64 * (self@.end() - p) + 0,
    {
        let mut arms: Vec<MatchArm> = Vec::new();
        let mut q: usize = p;
        assert(MatchArm::terms(arms, Reading::Exact) =~= Seq::empty());
        loop
            invariant
                p <= q <= self@.end(),
                match_arms(self@, p as int, d as nat, Seq::empty()) == match_arms(
                    self@,
                    q as int,
                    d as nat,
                    MatchArm::terms(arms, Reading::Exact),
                ),
            decreases self@.end() - q,
        {
            if self.is(q, Token::RBrace) {
                return Ok((arms, q));
            }
            let (pattern, r) = match self.parse_pattern(q) {
                Ok(x) => x,
                Err(e) => return Err(e),
            };
            if !self.is(r, Token::FatArrow) {
                return Err(self.refuse_token(r, Token::FatArrow));
            }
            let (body, s) = match self.parse_expr(r + 1, d) {
                Ok(x) => x,
                Err(e) => return Err(e),
            };
            proof {
                lemma_expr(body);
            }
            let span = self.span(q).merge(body.span);
            let arm = MatchArm { pattern, body, span };
            let ghost before = MatchArm::terms(arms, Reading::Exact);
            arms.push(arm);
            assert(MatchArm::terms(arms, Reading::Exact) =~= before.push(arm.to_term(Reading::Exact)));
            if self.is(s, Token::Comma) {
                q = s + 1;
            } else {
                return Ok((arms, s));
            }
        }
    }

    pub(crate) fn parse_match_expr(&self, p: usize, d: usize) -> (r: Result<(Expr, usize), ParseError>)
        requires
            self@.is(p as int, Token::Match),
        ensures
            result(r) == match_expr(self@, p as int, d as nat),
            moved(r, p as int, self@.end()),
        decreases 64 * (self@.end() - p) + 17,
    {
        let start = self.span(p);
        let (scrutinee, q) = match self.parse_expr(p + 1, d) {
            Ok(x) => x,
            Err(e) => return Err(e),
        };
        if !self.is(q, Token::LBrace) {
            return Err(self.refuse_token(q, Token::LBrace));
        }
        let (arms, r) = match self.parse_match_arms(q + 1, d) {
            Ok(x) => x,
            Err(e) => return Err(e),
        };
        if !self.is(r, Token::RBrace) {
            return Err(self.refuse_token(r, Token::RBrace));
        }
        let span = start.merge(self.span(r));
        Ok((nodes::match_on(scrutinee, arms, span), r + 1))
    }

    /// The place behind the names that `|` closes.
    fn parse_binders(&self, p: usize, n: usize) -> (r: Result<usize, ParseError>)
        requires
            p <= self@.end(),
            n <= 3,
        ensures
            match r {
                Ok(q) => binders(self@, p as int, n as int) == Parse::Read(Term::Absent, q as int)
                    && q == p + 2 * n && q <= self@.end(),
                Err(e) => binders(self@, p as int, n as int) == Parse::Refused(e.to_term()),
            },
    {
        let mut q: usize = p;
        let mut left: usize = n;
        while left > 0
            invariant
                left <= n <= 3,
                p <= q <= self@.end(),
                q == p + 2 * (n - left),
                binders(self@, p as int, n as int) == binders(self@, q as int, left as int),
            decreases left,
        {
            if !self.named(q) {
                return Err(self.refuse(q, "identifier"));
            }
            let token = if left == 1 {
                Token::Pipe
            } else {
                Token::Comma
            };
            if !self.is(q + 1, token) {
                return Err(self.refuse_token(q + 1, token));
            }
            q = q + 2;
            left = left - 1;
        }
        Ok(q)
    }

    /// The initial value and the body of a fold, where its first bound name
    /// stands and where the closing parenthesis does.
    fn parse_fold_rest(&self, p: usize, n: usize, d: usize) -> (r: Result<(Expr, Expr, usize, usize), ParseError>)
        requires
            p <= self@.end(),
            n <= 3,
        ensures
            match r {
                Ok((init, body, names, close)) => {
                    &&& fold_rest(self@, p as int, n as int, d as nat) == Fold::Read(
                        init.to_term(Reading::Exact),
                        body.to_term(Reading::Exact),
                        names as int,
                        close as int,
                    )
                    &&& p < names
                    &&& names + 2 * n <= close < self@.end()
                },
                Err(e) => fold_rest(self@, p as int, n as int, d as nat) == Fold::Refused(e.to_term()),
            },
        decreases 64 * (self@.end() - p) + 16,
    {
        if !self.is(p, Token::Comma) {
            return Err(self.refuse_token(p, Token::Comma));
        }
        let (init, q) = match self.parse_expr(p + 1, d) {
            Ok(x) => x,
            Err(e) => return Err(e),
        };
        self.parse_fold_body(init, q, n, d)
    }

    fn parse_fold_body(&self, init: Expr, p: usize, n: usize, d: usize) -> (r: Result<
        (Expr, Expr, usize, usize),
        ParseError,
    >)
        requires
            p <= self@.end(),
            n <= 3,
        ensures
            match r {
                Ok((first, body, names, close)) => {
                    &&& first == init
                    &&& fold_body(self@, init.to_term(Reading::Exact), p as int, n as int, d as nat) == Fold::Read(
                        init.to_term(Reading::Exact),
                        body.to_term(Reading::Exact),
                        names as int,
                        close as int,
                    )
                    &&& p < names
                    &&& names + 2 * n <= close < self@.end()
                },
                Err(e) => fold_body(self@, init.to_term(Reading::Exact), p as int, n as int, d as nat)
                    == Fold::Refused(e.to_term()),
            },
        decreases 64 * (self@.end() - p) + 16,
    {
        if !self.is(p, Token::Comma) {
            return Err(self.refuse_token(p, Token::Comma));
        }
        if !self.is(p + 1, Token::Pipe) {
            return Err(self.refuse_token(p + 1, Token::Pipe));
        }
        let q = match self.parse_binders(p + 2, n) {
            Ok(q) => q,
            Err(e) => return Err(e),
        };
        let (body, r) = match self.parse_expr(q, d) {
            Ok(x) => x,
            Err(e) => return Err(e),
        };
        if !self.is(r, Token::RParen) {
            return Err(self.refuse_token(r, Token::RParen));
        }
        Ok((init, body, p + 2, r))
    }

    pub(crate) fn parse_scan(&self, p: usize, d: usize) -> (r: Result<(Expr, usize), ParseError>)
        requires
            self@.is(p + 1, Token::LParen),
        ensures
            result(r) == scan_expr(self@, p as int, d as nat),
            moved(r, p as int, self@.end()),
        decreases 64 * (self@.end() - p) + 17,
    {
        let start = self.span(p);
        let (source, q) = match self.parse_expr(p + 2, d) {
            Ok(x) => x,
            Err(e) => return Err(e),
        };
        match self.parse_fold_rest(q, 2, d) {
            Ok((init, body, names, close)) => {
                let span = start.merge(self.span(close));
                let acc_name = self.local_name(names);
                let val_name = self.local_name(names + 2);
                Ok((nodes::scan(source, init, acc_name, val_name, body, span), close + 1))
            },
            Err(e) => Err(e),
        }
    }

    pub(crate) fn parse_unfold(&self, p: usize, d: usize) -> (r: Result<(Expr, usize), ParseError>)
        requires
            self@.is(p + 1, Token::LParen),
        ensures
            result(r) == unfold_expr(self@, p as int, d as nat),
            moved(r, p as int, self@.end()),
        decreases 64 * (self@.end() - p) + 17,
    {
        let start = self.span(p);
        let (axis, q) = match self.parse_named_path(p + 2) {
            Ok(x) => x,
            Err(e) => return Err(e),
        };
        match self.parse_fold_rest(q, 3, d) {
            Ok((init, body, names, close)) => {
                let span = start.merge(self.span(close));
                let state = self.local_name(names);
                let before = self.local_name(names + 2);
                let now = self.local_name(names + 4);
                Ok((nodes::unfold(axis, init, state, before, now, body, span), close + 1))
            },
            Err(e) => Err(e),
        }
    }

    pub(crate) fn parse_key_form(
        &self,
        kind: KeyFormKind,
        p: usize,
        d: usize,
    ) -> (r: Result<(Expr, usize), ParseError>)
        requires
            self@.is(p + 1, Token::LParen),
        ensures
            result(r) == key_form(self@, kind, p as int, d as nat),
            moved(r, p as int, self@.end()),
        decreases 64 * (self@.end() - p) + 17,
    {
        let start = self.span(p);
        let (axis, q) = match self.parse_index_expr(p + 2) {
            Ok(x) => x,
            Err(e) => return Err(e),
        };
        if !self.is(q, Token::Comma) {
            return Err(self.refuse_token(q, Token::Comma));
        }
        let (arg, r) = match self.parse_expr(q + 1, d) {
            Ok(x) => x,
            Err(e) => return Err(e),
        };
        if !self.is(r, Token::RParen) {
            return Err(self.refuse_token(r, Token::RParen));
        }
        let span = start.merge(self.span(r));
        Ok((nodes::key_form(kind, axis, arg, span), r + 1))
    }
}

} // verus!
