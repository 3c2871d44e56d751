//! Visiting the expressions in an expression, after desugaring.
//!
//! A visitor sees an expression before its parts, and the parts from left to
//! right. It may leave out the parts.

use crate::desugar::desugared_ast::{
    DomainBound, Expr, ExprKind, FieldInit, GenericArg, IndexArg, MapEntry, MapEntryKey, MatchArm, ParamBinding,
    TypeExpr, TypeExprKind,
};
use vstd::prelude::*;

verus! {

/// Something that looks at expressions. What it sees, skips and refuses is for
/// proofs alone.
pub trait ExprVisitor: Sized {
    type Error;

    /// Whether `visit` and `leave` do what is stated of them. An impl whose own
    /// behaviour is not proved leaves this and what follows out; nothing is then
    /// stated of visiting with it.
    open spec fn obeys() -> bool {
        false
    }

    /// The expressions seen, in order.
    open spec fn visited(&self) -> Seq<Expr> {
        Seq::empty()
    }

    /// The expressions whose parts are left out.
    open spec fn skips(&self) -> spec_fn(Expr) -> bool {
        |e: Expr| false
    }

    /// The expressions that are not refused.
    open spec fn accepts(&self) -> spec_fn(Expr) -> bool {
        |e: Expr| true
    }

    /// What an expression is refused with.
    open spec fn refuses(&self) -> spec_fn(Expr, Self::Error) -> bool {
        |e: Expr, error: Self::Error| true
    }

    /// Looks at an expression: whether its parts are visited too.
    fn visit(&mut self, expr: &Expr) -> (r: Result<bool, Self::Error>)
        ensures
            Self::obeys() ==> final(self).skips() == old(self).skips(),
            Self::obeys() ==> final(self).accepts() == old(self).accepts(),
            Self::obeys() ==> final(self).refuses() == old(self).refuses(),
            Self::obeys() ==> r is Ok == old(self).accepts()(*expr),
            Self::obeys() ==> r is Ok ==> final(self).visited() == old(self).visited().push(*expr),
            Self::obeys() ==> r is Ok ==> r->Ok_0 == !old(self).skips()(*expr),
            Self::obeys() ==> r is Err ==> final(self).visited() == old(self).visited() && old(self).refuses()(
                *expr,
                r->Err_0,
            ),
    ;

    /// Called after the parts of an expression.
    fn leave(&mut self, expr: &Expr)
        ensures
            Self::obeys() ==> final(self).skips() == old(self).skips(),
            Self::obeys() ==> final(self).accepts() == old(self).accepts(),
            Self::obeys() ==> final(self).refuses() == old(self).refuses(),
            Self::obeys() ==> final(self).visited() == old(self).visited(),
    ;
}

/// Whether all expressions of a list are accepted.
pub open spec fn all_accepted(accepts: spec_fn(Expr) -> bool, list: Seq<Expr>) -> bool {
    forall|i: int| 0 <= i < list.len() ==> accepts(#[trigger] list[i])
}

/// Whether a visit of a list came to an end at a place: everything before it was
/// seen, and what stands there was refused with an error.
pub open spec fn stopped_at<E>(
    accepts: spec_fn(Expr) -> bool,
    refuses: spec_fn(Expr, E) -> bool,
    start: Seq<Expr>,
    list: Seq<Expr>,
    n: int,
    after: Seq<Expr>,
    error: E,
) -> bool {
    &&& 0 <= n < list.len()
    &&& all_accepted(accepts, list.take(n))
    &&& !accepts(list[n])
    &&& after == start + list.take(n)
    &&& refuses(list[n], error)
}

/// Whether a visit of a list came to an end at its first refused expression.
pub open spec fn stopped<E>(
    accepts: spec_fn(Expr) -> bool,
    refuses: spec_fn(Expr, E) -> bool,
    start: Seq<Expr>,
    list: Seq<Expr>,
    after: Seq<Expr>,
    error: E,
) -> bool {
    exists|n: int| #[trigger] stopped_at(accepts, refuses, start, list, n, after, error)
}

/// Of two lists one behind the other, all expressions are accepted where those
/// of both are; else the visit ends in the first list, or in the second.
proof fn lemma_parts<E>(
    accepts: spec_fn(Expr) -> bool,
    refuses: spec_fn(Expr, E) -> bool,
    start: Seq<Expr>,
    a: Seq<Expr>,
    b: Seq<Expr>,
)
    ensures
        all_accepted(accepts, a + b) == (all_accepted(accepts, a) && all_accepted(accepts, b)),
        forall|after: Seq<Expr>, error: E| #[trigger]
            stopped(accepts, refuses, start, a, after, error) ==> stopped(
                accepts,
                refuses,
                start,
                a + b,
                after,
                error,
            ),
        forall|after: Seq<Expr>, error: E| #[trigger]
            stopped(accepts, refuses, start + a, b, after, error) && all_accepted(accepts, a) ==> stopped(
                accepts,
                refuses,
                start,
                a + b,
                after,
                error,
            ),
{
    lemma_accepted(accepts, a, b);
    assert forall|after: Seq<Expr>, error: E| #[trigger]
        stopped(accepts, refuses, start, a, after, error) implies stopped(
        accepts,
        refuses,
        start,
        a + b,
        after,
        error,
    ) by {
        let n = choose|n: int| #[trigger] stopped_at(accepts, refuses, start, a, n, after, error);
        assert((a + b).take(n) =~= a.take(n));
        assert(stopped_at(accepts, refuses, start, a + b, n, after, error));
    }
    assert forall|after: Seq<Expr>, error: E| #[trigger]
        stopped(accepts, refuses, start + a, b, after, error) && all_accepted(accepts, a) implies stopped(
        accepts,
        refuses,
        start,
        a + b,
        after,
        error,
    ) by {
        let n = choose|n: int| #[trigger] stopped_at(accepts, refuses, start + a, b, n, after, error);
        assert((a + b).take(a.len() + n) =~= a + b.take(n));
        assert(start + a + b.take(n) =~= start + (a + b.take(n)));
        lemma_accepted(accepts, a, b.take(n));
        assert(stopped_at(accepts, refuses, start, a + b, a.len() + n, after, error));
    }
}

proof fn lemma_accepted(accepts: spec_fn(Expr) -> bool, a: Seq<Expr>, b: Seq<Expr>)
    ensures
        all_accepted(accepts, a + b) == (all_accepted(accepts, a) && all_accepted(accepts, b)),
{
    if all_accepted(accepts, a + b) {
        assert forall|i: int| 0 <= i < a.len() implies accepts(#[trigger] a[i]) by {
            assert((a + b)[i] == a[i]);
        }
        assert forall|i: int| 0 <= i < b.len() implies accepts(#[trigger] b[i]) by {
            assert((a + b)[a.len() + i] == b[i]);
        }
    }
    if all_accepted(accepts, a) && all_accepted(accepts, b) {
        assert forall|i: int| 0 <= i < (a + b).len() implies accepts(#[trigger] (a + b)[i]) by {
            if i < a.len() {
                assert((a + b)[i] == a[i]);
            } else {
                assert((a + b)[i] == b[i - a.len()]);
            }
        }
    }
}

/// The expressions in an expression, in the order in which they are visited.
pub open spec fn walk(skips: spec_fn(Expr) -> bool, e: Expr) -> Seq<Expr>
    decreases e, 1nat,
{
    if skips(e) {
        seq![e]
    } else {
        seq![e] + walk_parts(skips, e)
    }
}

/// The expressions in the parts of an expression.
pub open spec fn walk_parts(skips: spec_fn(Expr) -> bool, e: Expr) -> Seq<Expr>
    decreases e, 0nat,
{
    match e.kind {
        ExprKind::InlineDagRef { path, args, output } => walk_bindings(skips, args, args.len() as nat),
        ExprKind::FnCall { callee, generic_args, args } => walk_generic_args(
            skips,
            generic_args,
            generic_args.len() as nat,
        ) + walk_exprs(skips, args, args.len() as nat),
        ExprKind::BinOp { op, lhs, rhs } => walk(skips, *lhs) + walk(skips, *rhs),
        ExprKind::UnaryOp { op, operand } => walk(skips, *operand),
        ExprKind::If { condition, then_branch, else_branch } => walk(skips, *condition) + walk(
            skips,
            *then_branch,
        ) + walk(skips, *else_branch),
        ExprKind::Convert { expr, target } => walk(skips, *expr),
        ExprKind::DisplayTimezone { expr, timezone } => walk(skips, *expr),
        ExprKind::FieldAccess { expr, field } => walk(skips, *expr),
        ExprKind::IndexAccess { expr, args } => walk(skips, *expr) + walk_arg(skips, *args.first) + walk_args(
            skips,
            args.rest,
            args.rest.len() as nat,
        ),
        ExprKind::ConstructorCall { callee, generic_args, fields } => walk_generic_args(
            skips,
            generic_args,
            generic_args.len() as nat,
        ) + walk_fields(skips, fields, fields.len() as nat),
        ExprKind::MapLiteral { entries } => walk_entries(skips, entries, entries.len() as nat),
        ExprKind::ForComp { bindings, body } => walk(skips, *body),
        ExprKind::Scan { source, init, acc_name, val_name, body } => walk(skips, *source)
            + walk(skips, *init) + walk(skips, *body),
        ExprKind::Unfold { axis, init, prev_state_name, prev_index_name, index_name, body } => walk(skips, *init)
            + walk(skips, *body),
        ExprKind::KeyForm { kind, axis, arg } => walk(skips, *arg),
        ExprKind::Match { scrutinee, arms } => walk(skips, *scrutinee) + walk_arms(skips, arms, arms.len() as nat),
        _ => Seq::empty(),
    }
}

/// The expressions in an index argument.
pub open spec fn walk_arg(skips: spec_fn(Expr) -> bool, arg: IndexArg) -> Seq<Expr>
    decreases arg,
{
    match arg {
        IndexArg::Expr(e) => walk(skips, *e),
        _ => Seq::empty(),
    }
}

/// The expressions in a map key.
pub open spec fn walk_key(skips: spec_fn(Expr) -> bool, key: MapEntryKey) -> Seq<Expr>
    decreases key,
{
    match key {
        MapEntryKey::Expression { axis, expr } => walk(skips, expr),
        _ => Seq::empty(),
    }
}

/// The expressions in a map entry: those of its keys first.
pub open spec fn walk_entry(skips: spec_fn(Expr) -> bool, entry: MapEntry) -> Seq<Expr>
    decreases entry,
{
    walk_key(skips, *entry.keys.first) + walk_keys(skips, entry.keys.rest, entry.keys.rest.len() as nat) + walk(
        skips,
        entry.value,
    )
}

/// The expressions in a generic argument.
pub open spec fn walk_generic_arg(skips: spec_fn(Expr) -> bool, arg: GenericArg) -> Seq<Expr>
    decreases arg,
{
    match arg {
        GenericArg::Type(t) => walk_type(skips, t),
        _ => Seq::empty(),
    }
}

/// The expressions in a type: those of its bounds first.
pub open spec fn walk_type(skips: spec_fn(Expr) -> bool, t: TypeExpr) -> Seq<Expr>
    decreases t, 1nat,
{
    walk_bounds(skips, t.constraints, t.constraints.len() as nat) + walk_type_parts(skips, t)
}

/// The expressions in the parts of a type.
pub open spec fn walk_type_parts(skips: spec_fn(Expr) -> bool, t: TypeExpr) -> Seq<Expr>
    decreases t, 0nat,
{
    match t.kind {
        TypeExprKind::DatetimeApplication { type_args } => walk_type(skips, *type_args.first) + walk_types(
            skips,
            type_args.rest,
            type_args.rest.len() as nat,
        ),
        TypeExprKind::TypeApplication { name, generic_args } => walk_generic_arg(skips, *generic_args.first)
            + walk_generic_args(skips, generic_args.rest, generic_args.rest.len() as nat),
        TypeExprKind::ComplexApplication { generic_args } => walk_generic_args(
            skips,
            generic_args,
            generic_args.len() as nat,
        ),
        TypeExprKind::KeyApplication { generic_args } => walk_generic_args(
            skips,
            generic_args,
            generic_args.len() as nat,
        ),
        TypeExprKind::Indexed { base, indexes } => walk_type(skips, *base),
        _ => Seq::empty(),
    }
}

pub open spec fn walk_exprs(skips: spec_fn(Expr) -> bool, v: Vec<Expr>, n: nat) -> Seq<Expr>
    decreases v, n,
{
    if n == 0 || n > v.len() {
        Seq::empty()
    } else {
        walk_exprs(skips, v, (n - 1) as nat) + walk(skips, v[n - 1])
    }
}

pub open spec fn walk_bindings(skips: spec_fn(Expr) -> bool, v: Vec<ParamBinding>, n: nat) -> Seq<Expr>
    decreases v, n,
{
    if n == 0 || n > v.len() {
        Seq::empty()
    } else {
        walk_bindings(skips, v, (n - 1) as nat) + walk(skips, v[n - 1].value)
    }
}

pub open spec fn walk_fields(skips: spec_fn(Expr) -> bool, v: Vec<FieldInit>, n: nat) -> Seq<Expr>
    decreases v, n,
{
    if n == 0 || n > v.len() {
        Seq::empty()
    } else {
        walk_fields(skips, v, (n - 1) as nat) + walk(skips, v[n - 1].value)
    }
}

pub open spec fn walk_arms(skips: spec_fn(Expr) -> bool, v: Vec<MatchArm>, n: nat) -> Seq<Expr>
    decreases v, n,
{
    if n == 0 || n > v.len() {
        Seq::empty()
    } else {
        walk_arms(skips, v, (n - 1) as nat) + walk(skips, v[n - 1].body)
    }
}

pub open spec fn walk_bounds(skips: spec_fn(Expr) -> bool, v: Vec<DomainBound>, n: nat) -> Seq<Expr>
    decreases v, n,
{
    if n == 0 || n > v.len() {
        Seq::empty()
    } else {
        walk_bounds(skips, v, (n - 1) as nat) + walk(skips, v[n - 1].value)
    }
}

pub open spec fn walk_args(skips: spec_fn(Expr) -> bool, v: Vec<IndexArg>, n: nat) -> Seq<Expr>
    decreases v, n,
{
    if n == 0 || n > v.len() {
        Seq::empty()
    } else {
        walk_args(skips, v, (n - 1) as nat) + walk_arg(skips, v[n - 1])
    }
}

pub open spec fn walk_keys(skips: spec_fn(Expr) -> bool, v: Vec<MapEntryKey>, n: nat) -> Seq<Expr>
    decreases v, n,
{
    if n == 0 || n > v.len() {
        Seq::empty()
    } else {
        walk_keys(skips, v, (n - 1) as nat) + walk_key(skips, v[n - 1])
    }
}

pub open spec fn walk_entries(skips: spec_fn(Expr) -> bool, v: Vec<MapEntry>, n: nat) -> Seq<Expr>
    decreases v, n,
{
    if n == 0 || n > v.len() {
        Seq::empty()
    } else {
        walk_entries(skips, v, (n - 1) as nat) + walk_entry(skips, v[n - 1])
    }
}

pub open spec fn walk_generic_args(skips: spec_fn(Expr) -> bool, v: Vec<GenericArg>, n: nat) -> Seq<Expr>
    decreases v, n,
{
    if n == 0 || n > v.len() {
        Seq::empty()
    } else {
        walk_generic_args(skips, v, (n - 1) as nat) + walk_generic_arg(skips, v[n - 1])
    }
}

pub open spec fn walk_types(skips: spec_fn(Expr) -> bool, v: Vec<TypeExpr>, n: nat) -> Seq<Expr>
    decreases v, n,
{
    if n == 0 || n > v.len() {
        Seq::empty()
    } else {
        walk_types(skips, v, (n - 1) as nat) + walk_type(skips, v[n - 1])
    }
}

/// Visits an expression and its parts.
pub fn visit_expr<V: ExprVisitor>(v: &mut V, e: &Expr) -> (r: Result<(), V::Error>)
    ensures
        V::obeys() ==> final(v).skips() == old(v).skips(),
        V::obeys() ==> final(v).accepts() == old(v).accepts(),
        V::obeys() ==> final(v).refuses() == old(v).refuses(),
        V::obeys() ==> r is Ok == all_accepted(old(v).accepts(), walk(old(v).skips(), *e)),
        V::obeys() ==> r is Ok ==> final(v).visited() == old(v).visited() + walk(old(v).skips(), *e),
        V::obeys() ==> r is Err ==> stopped(
            old(v).accepts(),
            old(v).refuses(),
            old(v).visited(),
            walk(old(v).skips(), *e),
            final(v).visited(),
            r->Err_0,
        ),
    decreases e, 1nat,
{
    let ghost start = v.visited();
    let ghost skips = v.skips();
    let ghost accepts = v.accepts();
    let ghost refuses = v.refuses();
    proof {
        lemma_parts(accepts, refuses, start, seq![*e], walk_parts(skips, *e));
        assert(seq![*e][0] == *e);
        assert(start.push(*e) =~= start + seq![*e]);
        assert(start + seq![*e] + walk_parts(skips, *e) =~= start + (seq![*e] + walk_parts(skips, *e)));
    }
    match v.visit(e) {
        Err(error) => {
            proof {
                let list = walk(skips, *e);
                assert(list[0] == *e);
                assert(start + list.take(0) =~= start);
                assert(V::obeys() ==> stopped_at(accepts, refuses, start, list, 0, v.visited(), error));
            }
            Err(error)
        },
        Ok(inside) => {
            if inside {
                match visit_parts(v, e) {
                    Ok(_) => {},
                    Err(error) => return Err(error),
                }
            }
            v.leave(e);
            Ok(())
        },
    }
}

/// Visits the parts of an expression.
fn visit_parts<V: ExprVisitor>(v: &mut V, e: &Expr) -> (r: Result<(), V::Error>)
    ensures
        V::obeys() ==> final(v).skips() == old(v).skips(),
        V::obeys() ==> final(v).accepts() == old(v).accepts(),
        V::obeys() ==> final(v).refuses() == old(v).refuses(),
        V::obeys() ==> r is Ok == all_accepted(old(v).accepts(), walk_parts(old(v).skips(), *e)),
        V::obeys() ==> r is Ok ==> final(v).visited() == old(v).visited() + walk_parts(old(v).skips(), *e),
        V::obeys() ==> r is Err ==> stopped(
            old(v).accepts(),
            old(v).refuses(),
            old(v).visited(),
            walk_parts(old(v).skips(), *e),
            final(v).visited(),
            r->Err_0,
        ),
    decreases e, 0nat,
{
    let ghost start = v.visited();
    let ghost skips = v.skips();
    let ghost accepts = v.accepts();
    let ghost refuses = v.refuses();
    match &e.kind {
        ExprKind::InlineDagRef { path, args, output } => {
            let ghost p0 = walk_bindings(skips, *args, args.len() as nat);
            visit_bindings(v, args)
        },
        ExprKind::FnCall { callee, generic_args, args } => {
            let ghost p0 = walk_generic_args(skips, *generic_args, generic_args.len() as nat);
            let ghost p1 = walk_exprs(skips, *args, args.len() as nat);
            proof {
                lemma_parts(accepts, refuses, start, p0, p1);
                assert(start + p0 + p1 =~= start + (p0 + p1));
            }
            match visit_generic_args(v, generic_args) {
                Ok(_) => {},
                Err(error) => return Err(error),
            }
            visit_exprs(v, args)
        },
        ExprKind::BinOp { op, lhs, rhs } => {
            let ghost p0 = walk(skips, **lhs);
            let ghost p1 = walk(skips, **rhs);
            proof {
                lemma_parts(accepts, refuses, start, p0, p1);
                assert(start + p0 + p1 =~= start + (p0 + p1));
            }
            match visit_expr(v, lhs) {
                Ok(_) => {},
                Err(error) => return Err(error),
            }
            visit_expr(v, rhs)
        },
        ExprKind::UnaryOp { op, operand } => {
            let ghost p0 = walk(skips, **operand);
            visit_expr(v, operand)
        },
        ExprKind::If { condition, then_branch, else_branch } => {
            let ghost p0 = walk(skips, **condition);
            let ghost p1 = walk(skips, **then_branch);
            let ghost p2 = walk(skips, **else_branch);
            proof {
                lemma_parts(accepts, refuses, start, p0, p1);
                lemma_parts(accepts, refuses, start, p0 + p1, p2);
                assert(start + p0 + p1 =~= start + (p0 + p1));
                assert(start + (p0 + p1) + p2 =~= start + (p0 + p1 + p2));
            }
            match visit_expr(v, condition) {
                Ok(_) => {},
                Err(error) => return Err(error),
            }
            match visit_expr(v, then_branch) {
                Ok(_) => {},
                Err(error) => return Err(error),
            }
            visit_expr(v, else_branch)
        },
        ExprKind::Convert { expr, target } => {
            let ghost p0 = walk(skips, **expr);
            visit_expr(v, expr)
        },
        ExprKind::DisplayTimezone { expr, timezone } => {
            let ghost p0 = walk(skips, **expr);
            visit_expr(v, expr)
        },
        ExprKind::FieldAccess { expr, field } => {
            let ghost p0 = walk(skips, **expr);
            visit_expr(v, expr)
        },
        ExprKind::IndexAccess { expr, args } => {
            let ghost p0 = walk(skips, **expr);
            let ghost p1 = walk_arg(skips, *args.first);
            let ghost p2 = walk_args(skips, args.rest, args.rest.len() as nat);
            proof {
                lemma_parts(accepts, refuses, start, p0, p1);
                lemma_parts(accepts, refuses, start, p0 + p1, p2);
                assert(start + p0 + p1 =~= start + (p0 + p1));
                assert(start + (p0 + p1) + p2 =~= start + (p0 + p1 + p2));
            }
            match visit_expr(v, expr) {
                Ok(_) => {},
                Err(error) => return Err(error),
            }
            match visit_arg(v, &args.first) {
                Ok(_) => {},
                Err(error) => return Err(error),
            }
            visit_args(v, &args.rest)
        },
        ExprKind::ConstructorCall { callee, generic_args, fields } => {
            let ghost p0 = walk_generic_args(skips, *generic_args, generic_args.len() as nat);
            let ghost p1 = walk_fields(skips, *fields, fields.len() as nat);
            proof {
                lemma_parts(accepts, refuses, start, p0, p1);
                assert(start + p0 + p1 =~= start + (p0 + p1));
            }
            match visit_generic_args(v, generic_args) {
                Ok(_) => {},
                Err(error) => return Err(error),
            }
            visit_fields(v, fields)
        },
        ExprKind::MapLiteral { entries } => {
            let ghost p0 = walk_entries(skips, *entries, entries.len() as nat);
            visit_entries(v, entries)
        },
        ExprKind::ForComp { bindings, body } => {
            let ghost p0 = walk(skips, **body);
            visit_expr(v, body)
        },
        ExprKind::Scan { source, init, acc_name, val_name, body } => {
            let ghost p0 = walk(skips, **source);
            let ghost p1 = walk(skips, **init);
            let ghost p2 = walk(skips, **body);
            proof {
                lemma_parts(accepts, refuses, start, p0, p1);
                lemma_parts(accepts, refuses, start, p0 + p1, p2);
                assert(start + p0 + p1 =~= start + (p0 + p1));
                assert(start + (p0 + p1) + p2 =~= start + (p0 + p1 + p2));
            }
            match visit_expr(v, source) {
                Ok(_) => {},
                Err(error) => return Err(error),
            }
            match visit_expr(v, init) {
                Ok(_) => {},
                Err(error) => return Err(error),
            }
            visit_expr(v, body)
        },
        ExprKind::Unfold { axis, init, prev_state_name, prev_index_name, index_name, body } => {
            let ghost p0 = walk(skips, **init);
            let ghost p1 = walk(skips, **body);
            proof {
                lemma_parts(accepts, refuses, start, p0, p1);
                assert(start + p0 + p1 =~= start + (p0 + p1));
            }
            match visit_expr(v, init) {
                Ok(_) => {},
                Err(error) => return Err(error),
            }
            visit_expr(v, body)
        },
        ExprKind::KeyForm { kind, axis, arg } => {
            let ghost p0 = walk(skips, **arg);
            visit_expr(v, arg)
        },
        ExprKind::Match { scrutinee, arms } => {
            let ghost p0 = walk(skips, **scrutinee);
            let ghost p1 = walk_arms(skips, *arms, arms.len() as nat);
            proof {
                lemma_parts(accepts, refuses, start, p0, p1);
                assert(start + p0 + p1 =~= start + (p0 + p1));
            }
            match visit_expr(v, scrutinee) {
                Ok(_) => {},
                Err(error) => return Err(error),
            }
            visit_arms(v, arms)
        },
        _ => {
            assert(start =~= start + Seq::empty());
            Ok(())
        },
    }
}

fn visit_arg<V: ExprVisitor>(v: &mut V, arg: &IndexArg) -> (r: Result<(), V::Error>)
    ensures
        V::obeys() ==> final(v).skips() == old(v).skips(),
        V::obeys() ==> final(v).accepts() == old(v).accepts(),
        V::obeys() ==> final(v).refuses() == old(v).refuses(),
        V::obeys() ==> r is Ok == all_accepted(old(v).accepts(), walk_arg(old(v).skips(), *arg)),
        V::obeys() ==> r is Ok ==> final(v).visited() == old(v).visited() + walk_arg(old(v).skips(), *arg),
        V::obeys() ==> r is Err ==> stopped(
            old(v).accepts(),
            old(v).refuses(),
            old(v).visited(),
            walk_arg(old(v).skips(), *arg),
            final(v).visited(),
            r->Err_0,
        ),
    decreases arg,
{
    let ghost start = v.visited();
    match arg {
        IndexArg::Expr(e) => visit_expr(v, e),
        _ => {
            assert(start =~= start + Seq::empty());
            Ok(())
        },
    }
}

fn visit_key<V: ExprVisitor>(v: &mut V, key: &MapEntryKey) -> (r: Result<(), V::Error>)
    ensures
        V::obeys() ==> final(v).skips() == old(v).skips(),
        V::obeys() ==> final(v).accepts() == old(v).accepts(),
        V::obeys() ==> final(v).refuses() == old(v).refuses(),
        V::obeys() ==> r is Ok == all_accepted(old(v).accepts(), walk_key(old(v).skips(), *key)),
        V::obeys() ==> r is Ok ==> final(v).visited() == old(v).visited() + walk_key(old(v).skips(), *key),
        V::obeys() ==> r is Err ==> stopped(
            old(v).accepts(),
            old(v).refuses(),
            old(v).visited(),
            walk_key(old(v).skips(), *key),
            final(v).visited(),
            r->Err_0,
        ),
    decreases key,
{
    let ghost start = v.visited();
    match key {
        MapEntryKey::Expression { axis, expr } => visit_expr(v, expr),
        _ => {
            assert(start =~= start + Seq::empty());
            Ok(())
        },
    }
}

fn visit_entry<V: ExprVisitor>(v: &mut V, entry: &MapEntry) -> (r: Result<(), V::Error>)
    ensures
        V::obeys() ==> final(v).skips() == old(v).skips(),
        V::obeys() ==> final(v).accepts() == old(v).accepts(),
        V::obeys() ==> final(v).refuses() == old(v).refuses(),
        V::obeys() ==> r is Ok == all_accepted(old(v).accepts(), walk_entry(old(v).skips(), *entry)),
        V::obeys() ==> r is Ok ==> final(v).visited() == old(v).visited() + walk_entry(old(v).skips(), *entry),
        V::obeys() ==> r is Err ==> stopped(
            old(v).accepts(),
            old(v).refuses(),
            old(v).visited(),
            walk_entry(old(v).skips(), *entry),
            final(v).visited(),
            r->Err_0,
        ),
    decreases entry,
{
    let ghost start = v.visited();
    let ghost skips = v.skips();
    let ghost accepts = v.accepts();
    let ghost refuses = v.refuses();
    let ghost p0 = walk_key(skips, *entry.keys.first);
    let ghost p1 = walk_keys(skips, entry.keys.rest, entry.keys.rest.len() as nat);
    let ghost p2 = walk(skips, entry.value);
    proof {
        lemma_parts(accepts, refuses, start, p0, p1);
        lemma_parts(accepts, refuses, start, p0 + p1, p2);
        assert(start + p0 + p1 =~= start + (p0 + p1));
        assert(start + (p0 + p1) + p2 =~= start + (p0 + p1 + p2));
    }
    match visit_key(v, &entry.keys.first) {
        Ok(_) => {},
        Err(error) => return Err(error),
    }
    match visit_keys(v, &entry.keys.rest) {
        Ok(_) => {},
        Err(error) => return Err(error),
    }
    visit_expr(v, &entry.value)
}

fn visit_generic_arg<V: ExprVisitor>(v: &mut V, arg: &GenericArg) -> (r: Result<(), V::Error>)
    ensures
        V::obeys() ==> final(v).skips() == old(v).skips(),
        V::obeys() ==> final(v).accepts() == old(v).accepts(),
        V::obeys() ==> final(v).refuses() == old(v).refuses(),
        V::obeys() ==> r is Ok == all_accepted(old(v).accepts(), walk_generic_arg(old(v).skips(), *arg)),
        V::obeys() ==> r is Ok ==> final(v).visited() == old(v).visited() + walk_generic_arg(old(v).skips(), *arg),
        V::obeys() ==> r is Err ==> stopped(
            old(v).accepts(),
            old(v).refuses(),
            old(v).visited(),
            walk_generic_arg(old(v).skips(), *arg),
            final(v).visited(),
            r->Err_0,
        ),
    decreases arg,
{
    let ghost start = v.visited();
    match arg {
        GenericArg::Type(t) => visit_type_expr(v, t),
        _ => {
            assert(start =~= start + Seq::empty());
            Ok(())
        },
    }
}

/// Visits the expressions in a type.
pub fn visit_type_expr<V: ExprVisitor>(v: &mut V, t: &TypeExpr) -> (r: Result<(), V::Error>)
    ensures
        V::obeys() ==> final(v).skips() == old(v).skips(),
        V::obeys() ==> final(v).accepts() == old(v).accepts(),
        V::obeys() ==> final(v).refuses() == old(v).refuses(),
        V::obeys() ==> r is Ok == all_accepted(old(v).accepts(), walk_type(old(v).skips(), *t)),
        V::obeys() ==> r is Ok ==> final(v).visited() == old(v).visited() + walk_type(old(v).skips(), *t),
        V::obeys() ==> r is Err ==> stopped(
            old(v).accepts(),
            old(v).refuses(),
            old(v).visited(),
            walk_type(old(v).skips(), *t),
            final(v).visited(),
            r->Err_0,
        ),
    decreases t, 1nat,
{
    let ghost start = v.visited();
    let ghost skips = v.skips();
    let ghost accepts = v.accepts();
    let ghost refuses = v.refuses();
    let ghost p0 = walk_bounds(skips, t.constraints, t.constraints.len() as nat);
    let ghost p1 = walk_type_parts(skips, *t);
    proof {
        lemma_parts(accepts, refuses, start, p0, p1);
        assert(start + p0 + p1 =~= start + (p0 + p1));
    }
    match visit_bounds(v, &t.constraints) {
        Ok(_) => {},
        Err(error) => return Err(error),
    }
    visit_type_parts(v, t)
}

fn visit_type_parts<V: ExprVisitor>(v: &mut V, t: &TypeExpr) -> (r: Result<(), V::Error>)
    ensures
        V::obeys() ==> final(v).skips() == old(v).skips(),
        V::obeys() ==> final(v).accepts() == old(v).accepts(),
        V::obeys() ==> final(v).refuses() == old(v).refuses(),
        V::obeys() ==> r is Ok == all_accepted(old(v).accepts(), walk_type_parts(old(v).skips(), *t)),
        V::obeys() ==> r is Ok ==> final(v).visited() == old(v).visited() + walk_type_parts(old(v).skips(), *t),
        V::obeys() ==> r is Err ==> stopped(
            old(v).accepts(),
            old(v).refuses(),
            old(v).visited(),
            walk_type_parts(old(v).skips(), *t),
            final(v).visited(),
            r->Err_0,
        ),
    decreases t, 0nat,
{
    let ghost start = v.visited();
    let ghost skips = v.skips();
    let ghost accepts = v.accepts();
    let ghost refuses = v.refuses();
    match &t.kind {
        TypeExprKind::DatetimeApplication { type_args } => {
            let ghost p0 = walk_type(skips, *type_args.first);
            let ghost p1 = walk_types(skips, type_args.rest, type_args.rest.len() as nat);
            proof {
                lemma_parts(accepts, refuses, start, p0, p1);
                assert(start + p0 + p1 =~= start + (p0 + p1));
            }
            match visit_type_expr(v, &type_args.first) {
                Ok(_) => {},
                Err(error) => return Err(error),
            }
            visit_types(v, &type_args.rest)
        },
        TypeExprKind::TypeApplication { name, generic_args } => {
            let ghost p0 = walk_generic_arg(skips, *generic_args.first);
            let ghost p1 = walk_generic_args(skips, generic_args.rest, generic_args.rest.len() as nat);
            proof {
                lemma_parts(accepts, refuses, start, p0, p1);
                assert(start + p0 + p1 =~= start + (p0 + p1));
            }
            match visit_generic_arg(v, &generic_args.first) {
                Ok(_) => {},
                Err(error) => return Err(error),
            }
            visit_generic_args(v, &generic_args.rest)
        },
        TypeExprKind::ComplexApplication { generic_args } => visit_generic_args(v, generic_args),
        TypeExprKind::KeyApplication { generic_args } => visit_generic_args(v, generic_args),
        TypeExprKind::Indexed { base, indexes } => visit_type_expr(v, base),
        _ => {
            assert(start =~= start + Seq::empty());
            Ok(())
        },
    }
}

fn visit_exprs<V: ExprVisitor>(v: &mut V, list: &Vec<Expr>) -> (r: Result<(), V::Error>)
    ensures
        V::obeys() ==> final(v).skips() == old(v).skips(),
        V::obeys() ==> final(v).accepts() == old(v).accepts(),
        V::obeys() ==> final(v).refuses() == old(v).refuses(),
        V::obeys() ==> r is Ok == all_accepted(
            old(v).accepts(),
            walk_exprs(old(v).skips(), *list, list.len() as nat),
        ),
        V::obeys() ==> r is Ok ==> final(v).visited() == old(v).visited()
            + walk_exprs(old(v).skips(), *list, list.len() as nat),
        V::obeys() ==> r is Err ==> stopped(
            old(v).accepts(),
            old(v).refuses(),
            old(v).visited(),
            walk_exprs(old(v).skips(), *list, list.len() as nat),
            final(v).visited(),
            r->Err_0,
        ),
    decreases list,
{
    let ghost start = v.visited();
    let ghost skips = v.skips();
    let ghost accepts = v.accepts();
    let ghost refuses = v.refuses();
    assert(start =~= start + Seq::empty());
    for i in 0..list.len()
        invariant
            V::obeys() ==> skips == v.skips(),
            skips == old(v).skips(),
            V::obeys() ==> accepts == v.accepts(),
            accepts == old(v).accepts(),
            V::obeys() ==> refuses == v.refuses(),
            refuses == old(v).refuses(),
            start == old(v).visited(),
            V::obeys() ==> v.visited() == start + walk_exprs(skips, *list, i as nat),
            V::obeys() ==> all_accepted(accepts, walk_exprs(skips, *list, i as nat)),
    {
        let ghost sofar = walk_exprs(skips, *list, i as nat);
        let ghost item = walk(skips, list[i as int]);
        proof {
            lemma_parts(accepts, refuses, start, sofar, item);
            assert(start + sofar + item =~= start + (sofar + item));
        }
        match visit_expr(v, &list[i]) {
            Ok(_) => {},
            Err(error) => {
                proof {
                    if V::obeys() {
                        lemma_exprs_refused(skips, accepts, refuses, start, *list, (i + 1) as nat, v.visited(), error);
                    }
                }
                return Err(error);
            },
        }
    }
    Ok(())
}

proof fn lemma_exprs_refused<E>(
    skips: spec_fn(Expr) -> bool,
    accepts: spec_fn(Expr) -> bool,
    refuses: spec_fn(Expr, E) -> bool,
    start: Seq<Expr>,
    v: Vec<Expr>,
    n: nat,
    after: Seq<Expr>,
    error: E,
)
    requires
        stopped(accepts, refuses, start, walk_exprs(skips, v, n), after, error),
        n <= v.len(),
    ensures
        stopped(accepts, refuses, start, walk_exprs(skips, v, v.len() as nat), after, error),
    decreases v.len() - n,
{
    if n < v.len() {
        lemma_parts(accepts, refuses, start, walk_exprs(skips, v, n), walk(skips, v[n as int]));
        lemma_exprs_refused(skips, accepts, refuses, start, v, n + 1, after, error);
    }
}

fn visit_bindings<V: ExprVisitor>(v: &mut V, list: &Vec<ParamBinding>) -> (r: Result<(), V::Error>)
    ensures
        V::obeys() ==> final(v).skips() == old(v).skips(),
        V::obeys() ==> final(v).accepts() == old(v).accepts(),
        V::obeys() ==> final(v).refuses() == old(v).refuses(),
        V::obeys() ==> r is Ok == all_accepted(
            old(v).accepts(),
            walk_bindings(old(v).skips(), *list, list.len() as nat),
        ),
        V::obeys() ==> r is Ok ==> final(v).visited() == old(v).visited()
            + walk_bindings(old(v).skips(), *list, list.len() as nat),
        V::obeys() ==> r is Err ==> stopped(
            old(v).accepts(),
            old(v).refuses(),
            old(v).visited(),
            walk_bindings(old(v).skips(), *list, list.len() as nat),
            final(v).visited(),
            r->Err_0,
        ),
    decreases list,
{
    let ghost start = v.visited();
    let ghost skips = v.skips();
    let ghost accepts = v.accepts();
    let ghost refuses = v.refuses();
    assert(start =~= start + Seq::empty());
    for i in 0..list.len()
        invariant
            V::obeys() ==> skips == v.skips(),
            skips == old(v).skips(),
            V::obeys() ==> accepts == v.accepts(),
            accepts == old(v).accepts(),
            V::obeys() ==> refuses == v.refuses(),
            refuses == old(v).refuses(),
            start == old(v).visited(),
            V::obeys() ==> v.visited() == start + walk_bindings(skips, *list, i as nat),
            V::obeys() ==> all_accepted(accepts, walk_bindings(skips, *list, i as nat)),
    {
        let ghost sofar = walk_bindings(skips, *list, i as nat);
        let ghost item = walk(skips, list[i as int].value);
        proof {
            lemma_parts(accepts, refuses, start, sofar, item);
            assert(start + sofar + item =~= start + (sofar + item));
        }
        match visit_expr(v, &list[i].value) {
            Ok(_) => {},
            Err(error) => {
                proof {
                    if V::obeys() {
                        lemma_bindings_refused(skips, accepts, refuses, start, *list, (i + 1) as nat, v.visited(), error);
                    }
                }
                return Err(error);
            },
        }
    }
    Ok(())
}

proof fn lemma_bindings_refused<E>(
    skips: spec_fn(Expr) -> bool,
    accepts: spec_fn(Expr) -> bool,
    refuses: spec_fn(Expr, E) -> bool,
    start: Seq<Expr>,
    v: Vec<ParamBinding>,
    n: nat,
    after: Seq<Expr>,
    error: E,
)
    requires
        stopped(accepts, refuses, start, walk_bindings(skips, v, n), after, error),
        n <= v.len(),
    ensures
        stopped(accepts, refuses, start, walk_bindings(skips, v, v.len() as nat), after, error),
    decreases v.len() - n,
{
    if n < v.len() {
        lemma_parts(accepts, refuses, start, walk_bindings(skips, v, n), walk(skips, v[n as int].value));
        lemma_bindings_refused(skips, accepts, refuses, start, v, n + 1, after, error);
    }
}

fn visit_fields<V: ExprVisitor>(v: &mut V, list: &Vec<FieldInit>) -> (r: Result<(), V::Error>)
    ensures
        V::obeys() ==> final(v).skips() == old(v).skips(),
        V::obeys() ==> final(v).accepts() == old(v).accepts(),
        V::obeys() ==> final(v).refuses() == old(v).refuses(),
        V::obeys() ==> r is Ok == all_accepted(
            old(v).accepts(),
            walk_fields(old(v).skips(), *list, list.len() as nat),
        ),
        V::obeys() ==> r is Ok ==> final(v).visited() == old(v).visited()
            + walk_fields(old(v).skips(), *list, list.len() as nat),
        V::obeys() ==> r is Err ==> stopped(
            old(v).accepts(),
            old(v).refuses(),
            old(v).visited(),
            walk_fields(old(v).skips(), *list, list.len() as nat),
            final(v).visited(),
            r->Err_0,
        ),
    decreases list,
{
    let ghost start = v.visited();
    let ghost skips = v.skips();
    let ghost accepts = v.accepts();
    let ghost refuses = v.refuses();
    assert(start =~= start + Seq::empty());
    for i in 0..list.len()
        invariant
            V::obeys() ==> skips == v.skips(),
            skips == old(v).skips(),
            V::obeys() ==> accepts == v.accepts(),
            accepts == old(v).accepts(),
            V::obeys() ==> refuses == v.refuses(),
            refuses == old(v).refuses(),
            start == old(v).visited(),
            V::obeys() ==> v.visited() == start + walk_fields(skips, *list, i as nat),
            V::obeys() ==> all_accepted(accepts, walk_fields(skips, *list, i as nat)),
    {
        let ghost sofar = walk_fields(skips, *list, i as nat);
        let ghost item = walk(skips, list[i as int].value);
        proof {
            lemma_parts(accepts, refuses, start, sofar, item);
            assert(start + sofar + item =~= start + (sofar + item));
        }
        match visit_expr(v, &list[i].value) {
            Ok(_) => {},
            Err(error) => {
                proof {
                    if V::obeys() {
                        lemma_fields_refused(skips, accepts, refuses, start, *list, (i + 1) as nat, v.visited(), error);
                    }
                }
                return Err(error);
            },
        }
    }
    Ok(())
}

proof fn lemma_fields_refused<E>(
    skips: spec_fn(Expr) -> bool,
    accepts: spec_fn(Expr) -> bool,
    refuses: spec_fn(Expr, E) -> bool,
    start: Seq<Expr>,
    v: Vec<FieldInit>,
    n: nat,
    after: Seq<Expr>,
    error: E,
)
    requires
        stopped(accepts, refuses, start, walk_fields(skips, v, n), after, error),
        n <= v.len(),
    ensures
        stopped(accepts, refuses, start, walk_fields(skips, v, v.len() as nat), after, error),
    decreases v.len() - n,
{
    if n < v.len() {
        lemma_parts(accepts, refuses, start, walk_fields(skips, v, n), walk(skips, v[n as int].value));
        lemma_fields_refused(skips, accepts, refuses, start, v, n + 1, after, error);
    }
}

fn visit_arms<V: ExprVisitor>(v: &mut V, list: &Vec<MatchArm>) -> (r: Result<(), V::Error>)
    ensures
        V::obeys() ==> final(v).skips() == old(v).skips(),
        V::obeys() ==> final(v).accepts() == old(v).accepts(),
        V::obeys() ==> final(v).refuses() == old(v).refuses(),
        V::obeys() ==> r is Ok == all_accepted(old(v).accepts(), walk_arms(old(v).skips(), *list, list.len() as nat)),
        V::obeys() ==> r is Ok ==> final(v).visited() == old(v).visited()
            + walk_arms(old(v).skips(), *list, list.len() as nat),
        V::obeys() ==> r is Err ==> stopped(
            old(v).accepts(),
            old(v).refuses(),
            old(v).visited(),
            walk_arms(old(v).skips(), *list, list.len() as nat),
            final(v).visited(),
            r->Err_0,
        ),
    decreases list,
{
    let ghost start = v.visited();
    let ghost skips = v.skips();
    let ghost accepts = v.accepts();
    let ghost refuses = v.refuses();
    assert(start =~= start + Seq::empty());
    for i in 0..list.len()
        invariant
            V::obeys() ==> skips == v.skips(),
            skips == old(v).skips(),
            V::obeys() ==> accepts == v.accepts(),
            accepts == old(v).accepts(),
            V::obeys() ==> refuses == v.refuses(),
            refuses == old(v).refuses(),
            start == old(v).visited(),
            V::obeys() ==> v.visited() == start + walk_arms(skips, *list, i as nat),
            V::obeys() ==> all_accepted(accepts, walk_arms(skips, *list, i as nat)),
    {
        let ghost sofar = walk_arms(skips, *list, i as nat);
        let ghost item = walk(skips, list[i as int].body);
        proof {
            lemma_parts(accepts, refuses, start, sofar, item);
            assert(start + sofar + item =~= start + (sofar + item));
        }
        match visit_expr(v, &list[i].body) {
            Ok(_) => {},
            Err(error) => {
                proof {
                    if V::obeys() {
                        lemma_arms_refused(skips, accepts, refuses, start, *list, (i + 1) as nat, v.visited(), error);
                    }
                }
                return Err(error);
            },
        }
    }
    Ok(())
}

proof fn lemma_arms_refused<E>(
    skips: spec_fn(Expr) -> bool,
    accepts: spec_fn(Expr) -> bool,
    refuses: spec_fn(Expr, E) -> bool,
    start: Seq<Expr>,
    v: Vec<MatchArm>,
    n: nat,
    after: Seq<Expr>,
    error: E,
)
    requires
        stopped(accepts, refuses, start, walk_arms(skips, v, n), after, error),
        n <= v.len(),
    ensures
        stopped(accepts, refuses, start, walk_arms(skips, v, v.len() as nat), after, error),
    decreases v.len() - n,
{
    if n < v.len() {
        lemma_parts(accepts, refuses, start, walk_arms(skips, v, n), walk(skips, v[n as int].body));
        lemma_arms_refused(skips, accepts, refuses, start, v, n + 1, after, error);
    }
}

fn visit_bounds<V: ExprVisitor>(v: &mut V, list: &Vec<DomainBound>) -> (r: Result<(), V::Error>)
    ensures
        V::obeys() ==> final(v).skips() == old(v).skips(),
        V::obeys() ==> final(v).accepts() == old(v).accepts(),
        V::obeys() ==> final(v).refuses() == old(v).refuses(),
        V::obeys() ==> r is Ok == all_accepted(
            old(v).accepts(),
            walk_bounds(old(v).skips(), *list, list.len() as nat),
        ),
        V::obeys() ==> r is Ok ==> final(v).visited() == old(v).visited()
            + walk_bounds(old(v).skips(), *list, list.len() as nat),
        V::obeys() ==> r is Err ==> stopped(
            old(v).accepts(),
            old(v).refuses(),
            old(v).visited(),
            walk_bounds(old(v).skips(), *list, list.len() as nat),
            final(v).visited(),
            r->Err_0,
        ),
    decreases list,
{
    let ghost start = v.visited();
    let ghost skips = v.skips();
    let ghost accepts = v.accepts();
    let ghost refuses = v.refuses();
    assert(start =~= start + Seq::empty());
    for i in 0..list.len()
        invariant
            V::obeys() ==> skips == v.skips(),
            skips == old(v).skips(),
            V::obeys() ==> accepts == v.accepts(),
            accepts == old(v).accepts(),
            V::obeys() ==> refuses == v.refuses(),
            refuses == old(v).refuses(),
            start == old(v).visited(),
            V::obeys() ==> v.visited() == start + walk_bounds(skips, *list, i as nat),
            V::obeys() ==> all_accepted(accepts, walk_bounds(skips, *list, i as nat)),
    {
        let ghost sofar = walk_bounds(skips, *list, i as nat);
        let ghost item = walk(skips, list[i as int].value);
        proof {
            lemma_parts(accepts, refuses, start, sofar, item);
            assert(start + sofar + item =~= start + (sofar + item));
        }
        match visit_expr(v, &list[i].value) {
            Ok(_) => {},
            Err(error) => {
                proof {
                    if V::obeys() {
                        lemma_bounds_refused(skips, accepts, refuses, start, *list, (i + 1) as nat, v.visited(), error);
                    }
                }
                return Err(error);
            },
        }
    }
    Ok(())
}

proof fn lemma_bounds_refused<E>(
    skips: spec_fn(Expr) -> bool,
    accepts: spec_fn(Expr) -> bool,
    refuses: spec_fn(Expr, E) -> bool,
    start: Seq<Expr>,
    v: Vec<DomainBound>,
    n: nat,
    after: Seq<Expr>,
    error: E,
)
    requires
        stopped(accepts, refuses, start, walk_bounds(skips, v, n), after, error),
        n <= v.len(),
    ensures
        stopped(accepts, refuses, start, walk_bounds(skips, v, v.len() as nat), after, error),
    decreases v.len() - n,
{
    if n < v.len() {
        lemma_parts(accepts, refuses, start, walk_bounds(skips, v, n), walk(skips, v[n as int].value));
        lemma_bounds_refused(skips, accepts, refuses, start, v, n + 1, after, error);
    }
}

fn visit_args<V: ExprVisitor>(v: &mut V, list: &Vec<IndexArg>) -> (r: Result<(), V::Error>)
    ensures
        V::obeys() ==> final(v).skips() == old(v).skips(),
        V::obeys() ==> final(v).accepts() == old(v).accepts(),
        V::obeys() ==> final(v).refuses() == old(v).refuses(),
        V::obeys() ==> r is Ok == all_accepted(old(v).accepts(), walk_args(old(v).skips(), *list, list.len() as nat)),
        V::obeys() ==> r is Ok ==> final(v).visited() == old(v).visited()
            + walk_args(old(v).skips(), *list, list.len() as nat),
        V::obeys() ==> r is Err ==> stopped(
            old(v).accepts(),
            old(v).refuses(),
            old(v).visited(),
            walk_args(old(v).skips(), *list, list.len() as nat),
            final(v).visited(),
            r->Err_0,
        ),
    decreases list,
{
    let ghost start = v.visited();
    let ghost skips = v.skips();
    let ghost accepts = v.accepts();
    let ghost refuses = v.refuses();
    assert(start =~= start + Seq::empty());
    for i in 0..list.len()
        invariant
            V::obeys() ==> skips == v.skips(),
            skips == old(v).skips(),
            V::obeys() ==> accepts == v.accepts(),
            accepts == old(v).accepts(),
            V::obeys() ==> refuses == v.refuses(),
            refuses == old(v).refuses(),
            start == old(v).visited(),
            V::obeys() ==> v.visited() == start + walk_args(skips, *list, i as nat),
            V::obeys() ==> all_accepted(accepts, walk_args(skips, *list, i as nat)),
    {
        let ghost sofar = walk_args(skips, *list, i as nat);
        let ghost item = walk_arg(skips, list[i as int]);
        proof {
            lemma_parts(accepts, refuses, start, sofar, item);
            assert(start + sofar + item =~= start + (sofar + item));
        }
        match visit_arg(v, &list[i]) {
            Ok(_) => {},
            Err(error) => {
                proof {
                    if V::obeys() {
                        lemma_args_refused(skips, accepts, refuses, start, *list, (i + 1) as nat, v.visited(), error);
                    }
                }
                return Err(error);
            },
        }
    }
    Ok(())
}

proof fn lemma_args_refused<E>(
    skips: spec_fn(Expr) -> bool,
    accepts: spec_fn(Expr) -> bool,
    refuses: spec_fn(Expr, E) -> bool,
    start: Seq<Expr>,
    v: Vec<IndexArg>,
    n: nat,
    after: Seq<Expr>,
    error: E,
)
    requires
        stopped(accepts, refuses, start, walk_args(skips, v, n), after, error),
        n <= v.len(),
    ensures
        stopped(accepts, refuses, start, walk_args(skips, v, v.len() as nat), after, error),
    decreases v.len() - n,
{
    if n < v.len() {
        lemma_parts(accepts, refuses, start, walk_args(skips, v, n), walk_arg(skips, v[n as int]));
        lemma_args_refused(skips, accepts, refuses, start, v, n + 1, after, error);
    }
}

fn visit_keys<V: ExprVisitor>(v: &mut V, list: &Vec<MapEntryKey>) -> (r: Result<(), V::Error>)
    ensures
        V::obeys() ==> final(v).skips() == old(v).skips(),
        V::obeys() ==> final(v).accepts() == old(v).accepts(),
        V::obeys() ==> final(v).refuses() == old(v).refuses(),
        V::obeys() ==> r is Ok == all_accepted(old(v).accepts(), walk_keys(old(v).skips(), *list, list.len() as nat)),
        V::obeys() ==> r is Ok ==> final(v).visited() == old(v).visited()
            + walk_keys(old(v).skips(), *list, list.len() as nat),
        V::obeys() ==> r is Err ==> stopped(
            old(v).accepts(),
            old(v).refuses(),
            old(v).visited(),
            walk_keys(old(v).skips(), *list, list.len() as nat),
            final(v).visited(),
            r->Err_0,
        ),
    decreases list,
{
    let ghost start = v.visited();
    let ghost skips = v.skips();
    let ghost accepts = v.accepts();
    let ghost refuses = v.refuses();
    assert(start =~= start + Seq::empty());
    for i in 0..list.len()
        invariant
            V::obeys() ==> skips == v.skips(),
            skips == old(v).skips(),
            V::obeys() ==> accepts == v.accepts(),
            accepts == old(v).accepts(),
            V::obeys() ==> refuses == v.refuses(),
            refuses == old(v).refuses(),
            start == old(v).visited(),
            V::obeys() ==> v.visited() == start + walk_keys(skips, *list, i as nat),
            V::obeys() ==> all_accepted(accepts, walk_keys(skips, *list, i as nat)),
    {
        let ghost sofar = walk_keys(skips, *list, i as nat);
        let ghost item = walk_key(skips, list[i as int]);
        proof {
            lemma_parts(accepts, refuses, start, sofar, item);
            assert(start + sofar + item =~= start + (sofar + item));
        }
        match visit_key(v, &list[i]) {
            Ok(_) => {},
            Err(error) => {
                proof {
                    if V::obeys() {
                        lemma_keys_refused(skips, accepts, refuses, start, *list, (i + 1) as nat, v.visited(), error);
                    }
                }
                return Err(error);
            },
        }
    }
    Ok(())
}

proof fn lemma_keys_refused<E>(
    skips: spec_fn(Expr) -> bool,
    accepts: spec_fn(Expr) -> bool,
    refuses: spec_fn(Expr, E) -> bool,
    start: Seq<Expr>,
    v: Vec<MapEntryKey>,
    n: nat,
    after: Seq<Expr>,
    error: E,
)
    requires
        stopped(accepts, refuses, start, walk_keys(skips, v, n), after, error),
        n <= v.len(),
    ensures
        stopped(accepts, refuses, start, walk_keys(skips, v, v.len() as nat), after, error),
    decreases v.len() - n,
{
    if n < v.len() {
        lemma_parts(accepts, refuses, start, walk_keys(skips, v, n), walk_key(skips, v[n as int]));
        lemma_keys_refused(skips, accepts, refuses, start, v, n + 1, after, error);
    }
}

fn visit_entries<V: ExprVisitor>(v: &mut V, list: &Vec<MapEntry>) -> (r: Result<(), V::Error>)
    ensures
        V::obeys() ==> final(v).skips() == old(v).skips(),
        V::obeys() ==> final(v).accepts() == old(v).accepts(),
        V::obeys() ==> final(v).refuses() == old(v).refuses(),
        V::obeys() ==> r is Ok == all_accepted(
            old(v).accepts(),
            walk_entries(old(v).skips(), *list, list.len() as nat),
        ),
        V::obeys() ==> r is Ok ==> final(v).visited() == old(v).visited()
            + walk_entries(old(v).skips(), *list, list.len() as nat),
        V::obeys() ==> r is Err ==> stopped(
            old(v).accepts(),
            old(v).refuses(),
            old(v).visited(),
            walk_entries(old(v).skips(), *list, list.len() as nat),
            final(v).visited(),
            r->Err_0,
        ),
    decreases list,
{
    let ghost start = v.visited();
    let ghost skips = v.skips();
    let ghost accepts = v.accepts();
    let ghost refuses = v.refuses();
    assert(start =~= start + Seq::empty());
    for i in 0..list.len()
        invariant
            V::obeys() ==> skips == v.skips(),
            skips == old(v).skips(),
            V::obeys() ==> accepts == v.accepts(),
            accepts == old(v).accepts(),
            V::obeys() ==> refuses == v.refuses(),
            refuses == old(v).refuses(),
            start == old(v).visited(),
            V::obeys() ==> v.visited() == start + walk_entries(skips, *list, i as nat),
            V::obeys() ==> all_accepted(accepts, walk_entries(skips, *list, i as nat)),
    {
        let ghost sofar = walk_entries(skips, *list, i as nat);
        let ghost item = walk_entry(skips, list[i as int]);
        proof {
            lemma_parts(accepts, refuses, start, sofar, item);
            assert(start + sofar + item =~= start + (sofar + item));
        }
        match visit_entry(v, &list[i]) {
            Ok(_) => {},
            Err(error) => {
                proof {
                    if V::obeys() {
                        lemma_entries_refused(skips, accepts, refuses, start, *list, (i + 1) as nat, v.visited(), error);
                    }
                }
                return Err(error);
            },
        }
    }
    Ok(())
}

proof fn lemma_entries_refused<E>(
    skips: spec_fn(Expr) -> bool,
    accepts: spec_fn(Expr) -> bool,
    refuses: spec_fn(Expr, E) -> bool,
    start: Seq<Expr>,
    v: Vec<MapEntry>,
    n: nat,
    after: Seq<Expr>,
    error: E,
)
    requires
        stopped(accepts, refuses, start, walk_entries(skips, v, n), after, error),
        n <= v.len(),
    ensures
        stopped(accepts, refuses, start, walk_entries(skips, v, v.len() as nat), after, error),
    decreases v.len() - n,
{
    if n < v.len() {
        lemma_parts(accepts, refuses, start, walk_entries(skips, v, n), walk_entry(skips, v[n as int]));
        lemma_entries_refused(skips, accepts, refuses, start, v, n + 1, after, error);
    }
}

fn visit_generic_args<V: ExprVisitor>(v: &mut V, list: &Vec<GenericArg>) -> (r: Result<(), V::Error>)
    ensures
        V::obeys() ==> final(v).skips() == old(v).skips(),
        V::obeys() ==> final(v).accepts() == old(v).accepts(),
        V::obeys() ==> final(v).refuses() == old(v).refuses(),
        V::obeys() ==> r is Ok == all_accepted(
            old(v).accepts(),
            walk_generic_args(old(v).skips(), *list, list.len() as nat),
        ),
        V::obeys() ==> r is Ok ==> final(v).visited() == old(v).visited()
            + walk_generic_args(old(v).skips(), *list, list.len() as nat),
        V::obeys() ==> r is Err ==> stopped(
            old(v).accepts(),
            old(v).refuses(),
            old(v).visited(),
            walk_generic_args(old(v).skips(), *list, list.len() as nat),
            final(v).visited(),
            r->Err_0,
        ),
    decreases list,
{
    let ghost start = v.visited();
    let ghost skips = v.skips();
    let ghost accepts = v.accepts();
    let ghost refuses = v.refuses();
    assert(start =~= start + Seq::empty());
    for i in 0..list.len()
        invariant
            V::obeys() ==> skips == v.skips(),
            skips == old(v).skips(),
            V::obeys() ==> accepts == v.accepts(),
            accepts == old(v).accepts(),
            V::obeys() ==> refuses == v.refuses(),
            refuses == old(v).refuses(),
            start == old(v).visited(),
            V::obeys() ==> v.visited() == start + walk_generic_args(skips, *list, i as nat),
            V::obeys() ==> all_accepted(accepts, walk_generic_args(skips, *list, i as nat)),
    {
        let ghost sofar = walk_generic_args(skips, *list, i as nat);
        let ghost item = walk_generic_arg(skips, list[i as int]);
        proof {
            lemma_parts(accepts, refuses, start, sofar, item);
            assert(start + sofar + item =~= start + (sofar + item));
        }
        match visit_generic_arg(v, &list[i]) {
            Ok(_) => {},
            Err(error) => {
                proof {
                    if V::obeys() {
                        let n = (i + 1) as nat;
                        lemma_generic_args_refused(skips, accepts, refuses, start, *list, n, v.visited(), error);
                    }
                }
                return Err(error);
            },
        }
    }
    Ok(())
}

proof fn lemma_generic_args_refused<E>(
    skips: spec_fn(Expr) -> bool,
    accepts: spec_fn(Expr) -> bool,
    refuses: spec_fn(Expr, E) -> bool,
    start: Seq<Expr>,
    v: Vec<GenericArg>,
    n: nat,
    after: Seq<Expr>,
    error: E,
)
    requires
        stopped(accepts, refuses, start, walk_generic_args(skips, v, n), after, error),
        n <= v.len(),
    ensures
        stopped(accepts, refuses, start, walk_generic_args(skips, v, v.len() as nat), after, error),
    decreases v.len() - n,
{
    if n < v.len() {
        lemma_parts(accepts, refuses, start, walk_generic_args(skips, v, n), walk_generic_arg(skips, v[n as int]));
        lemma_generic_args_refused(skips, accepts, refuses, start, v, n + 1, after, error);
    }
}

fn visit_types<V: ExprVisitor>(v: &mut V, list: &Vec<TypeExpr>) -> (r: Result<(), V::Error>)
    ensures
        V::obeys() ==> final(v).skips() == old(v).skips(),
        V::obeys() ==> final(v).accepts() == old(v).accepts(),
        V::obeys() ==> final(v).refuses() == old(v).refuses(),
        V::obeys() ==> r is Ok == all_accepted(
            old(v).accepts(),
            walk_types(old(v).skips(), *list, list.len() as nat),
        ),
        V::obeys() ==> r is Ok ==> final(v).visited() == old(v).visited()
            + walk_types(old(v).skips(), *list, list.len() as nat),
        V::obeys() ==> r is Err ==> stopped(
            old(v).accepts(),
            old(v).refuses(),
            old(v).visited(),
            walk_types(old(v).skips(), *list, list.len() as nat),
            final(v).visited(),
            r->Err_0,
        ),
    decreases list,
{
    let ghost start = v.visited();
    let ghost skips = v.skips();
    let ghost accepts = v.accepts();
    let ghost refuses = v.refuses();
    assert(start =~= start + Seq::empty());
    for i in 0..list.len()
        invariant
            V::obeys() ==> skips == v.skips(),
            skips == old(v).skips(),
            V::obeys() ==> accepts == v.accepts(),
            accepts == old(v).accepts(),
            V::obeys() ==> refuses == v.refuses(),
            refuses == old(v).refuses(),
            start == old(v).visited(),
            V::obeys() ==> v.visited() == start + walk_types(skips, *list, i as nat),
            V::obeys() ==> all_accepted(accepts, walk_types(skips, *list, i as nat)),
    {
        let ghost sofar = walk_types(skips, *list, i as nat);
        let ghost item = walk_type(skips, list[i as int]);
        proof {
            lemma_parts(accepts, refuses, start, sofar, item);
            assert(start + sofar + item =~= start + (sofar + item));
        }
        match visit_type_expr(v, &list[i]) {
            Ok(_) => {},
            Err(error) => {
                proof {
                    if V::obeys() {
                        lemma_types_refused(skips, accepts, refuses, start, *list, (i + 1) as nat, v.visited(), error);
                    }
                }
                return Err(error);
            },
        }
    }
    Ok(())
}

proof fn lemma_types_refused<E>(
    skips: spec_fn(Expr) -> bool,
    accepts: spec_fn(Expr) -> bool,
    refuses: spec_fn(Expr, E) -> bool,
    start: Seq<Expr>,
    v: Vec<TypeExpr>,
    n: nat,
    after: Seq<Expr>,
    error: E,
)
    requires
        stopped(accepts, refuses, start, walk_types(skips, v, n), after, error),
        n <= v.len(),
    ensures
        stopped(accepts, refuses, start, walk_types(skips, v, v.len() as nat), after, error),
    decreases v.len() - n,
{
    if n < v.len() {
        lemma_parts(accepts, refuses, start, walk_types(skips, v, n), walk_type(skips, v[n as int]));
        lemma_types_refused(skips, accepts, refuses, start, v, n + 1, after, error);
    }
}

} // verus!
